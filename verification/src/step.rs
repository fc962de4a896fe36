//! The shape of a step as a client submits it.
use crate::params::{ParamMap, ParamValueView};
use vstd::prelude::*;

verus! {

/// Who owns a step, and whether it carries an action of its own.
#[derive(Debug, Clone, Copy, PartialEq, Eq, Structural)]
pub enum StepType {
    /// Owned by a test case, with its own action.
    Regular,
    /// Owned by a shared step, as part of its definition.
    SharedDefinition,
    /// Owned by a test case, and pointing to a shared step.
    SharedReference,
}

impl Default for StepType {
    fn default() -> (kind: StepType)
        ensures
            kind == StepType::Regular,
    {
        StepType::Regular
    }
}

/// The view of an optional text.
pub open spec fn text_view(text: Option<String>) -> Option<Seq<char>> {
    match text {
        Some(s) => Some(s@),
        None => None,
    }
}

/// A copy of an optional text.
pub fn clone_text(text: &Option<String>) -> (copy: Option<String>)
    ensures
        text_view(copy) == text_view(*text),
{
    match text {
        Some(s) => Some(s.clone()),
        None => None,
    }
}

/// One assertion of a step, as submitted.
#[derive(Debug, PartialEq, Eq)]
pub struct IncomingAssertion {
    pub assertion_type: String,
    pub selector: Option<String>,
    pub expected_value: Option<String>,
    pub attribute_name: Option<String>,
    pub attribute_value: Option<String>,
}

/// Mathematical model of an [`IncomingAssertion`].
pub struct AssertionView {
    pub assertion_type: Seq<char>,
    pub selector: Option<Seq<char>>,
    pub expected_value: Option<Seq<char>>,
    pub attribute_name: Option<Seq<char>>,
    pub attribute_value: Option<Seq<char>>,
}

impl View for IncomingAssertion {
    type V = AssertionView;

    open spec fn view(&self) -> AssertionView {
        AssertionView {
            assertion_type: self.assertion_type@,
            selector: text_view(self.selector),
            expected_value: text_view(self.expected_value),
            attribute_name: text_view(self.attribute_name),
            attribute_value: text_view(self.attribute_value),
        }
    }
}

impl Clone for IncomingAssertion {
    fn clone(&self) -> (copy: Self)
        ensures
            copy@ == self@,
    {
        IncomingAssertion {
            assertion_type: self.assertion_type.clone(),
            selector: clone_text(&self.selector),
            expected_value: clone_text(&self.expected_value),
            attribute_name: clone_text(&self.attribute_name),
            attribute_value: clone_text(&self.attribute_value),
        }
    }
}

/// The views of a list of assertions.
pub open spec fn assertion_views(list: Seq<IncomingAssertion>) -> Seq<AssertionView> {
    Seq::new(list.len(), |i: int| list[i]@)
}

/// A copy of a list of assertions.
pub fn clone_assertions(list: &Vec<IncomingAssertion>) -> (copy: Vec<IncomingAssertion>)
    ensures
        assertion_views(copy@) == assertion_views(list@),
{
    let mut copy: Vec<IncomingAssertion> = Vec::new();
    let mut i: usize = 0;
    while i < list.len()
        invariant
            i <= list.len(),
            copy@.len() == i,
            forall|k: int| 0 <= k < i ==> (#[trigger] copy@[k])@ == list@[k]@,
        decreases list.len() - i,
    {
        copy.push(list[i].clone());
        i += 1;
    }
    assert(assertion_views(copy@) =~= assertion_views(list@));
    copy
}

/// One member of a submitted list of assertions: an assertion, or something
/// that does not have the shape of one.
#[derive(Debug)]
pub enum AssertionItem {
    Parsed(IncomingAssertion),
    Malformed,
}

/// Mathematical model of an [`AssertionItem`].
pub enum AssertionItemView {
    Parsed(AssertionView),
    Malformed,
}

impl View for AssertionItem {
    type V = AssertionItemView;

    open spec fn view(&self) -> AssertionItemView {
        match self {
            AssertionItem::Parsed(a) => AssertionItemView::Parsed(a@),
            AssertionItem::Malformed => AssertionItemView::Malformed,
        }
    }
}

/// The views of a list of submitted items.
pub open spec fn item_views(list: Seq<AssertionItem>) -> Seq<AssertionItemView> {
    Seq::new(list.len(), |i: int| list[i]@)
}

/// What was submitted as the assertions of a step: a list, or a value that
/// is no list.
#[derive(Debug)]
pub enum AssertionsInput {
    Items(Vec<AssertionItem>),
    NotArray,
}

/// Mathematical model of an [`AssertionsInput`].
pub enum AssertionsInputView {
    Items(Seq<AssertionItemView>),
    NotArray,
}

impl View for AssertionsInput {
    type V = AssertionsInputView;

    open spec fn view(&self) -> AssertionsInputView {
        match self {
            AssertionsInput::Items(list) => AssertionsInputView::Items(item_views(list@)),
            AssertionsInput::NotArray => AssertionsInputView::NotArray,
        }
    }
}

/// What was submitted as the parameters of a step: an object of named
/// members, or a value that is no object.
#[derive(Debug)]
pub enum ParamsInput {
    Object(ParamMap),
    NotObject,
}

/// Mathematical model of a [`ParamsInput`].
pub enum ParamsInputView {
    Object(Map<Seq<char>, ParamValueView>),
    NotObject,
}

impl View for ParamsInput {
    type V = ParamsInputView;

    open spec fn view(&self) -> ParamsInputView {
        match self {
            ParamsInput::Object(map) => ParamsInputView::Object(map@),
            ParamsInput::NotObject => ParamsInputView::NotObject,
        }
    }
}

/// A step as a client submits it.
#[derive(Debug)]
pub struct CreateTestStepRequest {
    /// The client's own identifier of the step, if it sent one.
    pub id: Option<String>,
    /// The position that the client claims; the position in the submitted
    /// list is what counts.
    pub step_order: i32,
    pub step_type: StepType,
    pub action_type: String,
    pub action_params: Option<ParamsInput>,
    pub assertions: Option<AssertionsInput>,
    pub custom_expected_result: Option<String>,
}

/// Mathematical model of a [`CreateTestStepRequest`].
pub struct StepRequestView {
    pub id: Option<Seq<char>>,
    pub step_order: int,
    pub step_type: StepType,
    pub action_type: Seq<char>,
    pub action_params: Option<ParamsInputView>,
    pub assertions: Option<AssertionsInputView>,
    pub custom_expected_result: Option<Seq<char>>,
}

impl View for CreateTestStepRequest {
    type V = StepRequestView;

    open spec fn view(&self) -> StepRequestView {
        StepRequestView {
            id: text_view(self.id),
            step_order: self.step_order as int,
            step_type: self.step_type,
            action_type: self.action_type@,
            action_params: match self.action_params {
                Some(p) => Some(p@),
                None => None,
            },
            assertions: match self.assertions {
                Some(a) => Some(a@),
                None => None,
            },
            custom_expected_result: text_view(self.custom_expected_result),
        }
    }
}

/// The views of a list of submitted steps.
pub open spec fn request_views(list: Seq<CreateTestStepRequest>) -> Seq<StepRequestView> {
    Seq::new(list.len(), |i: int| list[i]@)
}

/// The steps that are to replace those of a test case.
#[derive(Debug)]
pub struct UpdateTestStepsRequest {
    pub steps: Vec<CreateTestStepRequest>,
}

} // verus!
