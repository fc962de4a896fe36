//! Steps as they are stored: what a step does, the rows of the three kinds
//! of step, and the steps that a test case owns.
use crate::params::{ParamMap, ParamValueView};
use crate::step::{
    assertion_views, clone_assertions, clone_text, text_view, AssertionView, IncomingAssertion,
};
use crate::text::str_eq;
use vstd::prelude::*;

verus! {

/// What a step does: its action, the parameters that the action keeps, its
/// assertions and the result that its author expects.
#[derive(Debug)]
pub struct StepContent {
    pub action_type: String,
    pub action_params: ParamMap,
    pub assertions: Vec<IncomingAssertion>,
    pub custom_expected_result: Option<String>,
}

/// Mathematical model of a [`StepContent`].
pub struct StepContentView {
    pub action_type: Seq<char>,
    pub action_params: Map<Seq<char>, ParamValueView>,
    pub assertions: Seq<AssertionView>,
    pub custom_expected_result: Option<Seq<char>>,
}

impl View for StepContent {
    type V = StepContentView;

    open spec fn view(&self) -> StepContentView {
        StepContentView {
            action_type: self.action_type@,
            action_params: self.action_params@,
            assertions: assertion_views(self.assertions@),
            custom_expected_result: text_view(self.custom_expected_result),
        }
    }
}

impl Clone for StepContent {
    fn clone(&self) -> (copy: Self)
        ensures
            copy@ == self@,
    {
        StepContent {
            action_type: self.action_type.clone(),
            action_params: self.action_params.clone(),
            assertions: clone_assertions(&self.assertions),
            custom_expected_result: clone_text(&self.custom_expected_result),
        }
    }
}

/// A step with an action of its own, at its place in the list that owns it.
#[derive(Debug)]
pub struct StepRecord {
    pub id: u128,
    /// The place of the step in its list, counted from 1.
    pub step_order: i32,
    pub content: StepContent,
}

/// Mathematical model of a [`StepRecord`].
pub struct StepRecordView {
    pub id: u128,
    pub step_order: int,
    pub content: StepContentView,
}

impl View for StepRecord {
    type V = StepRecordView;

    open spec fn view(&self) -> StepRecordView {
        StepRecordView { id: self.id, step_order: self.step_order as int, content: self.content@ }
    }
}

impl Clone for StepRecord {
    fn clone(&self) -> (copy: Self)
        ensures
            copy@ == self@,
    {
        StepRecord { id: self.id, step_order: self.step_order, content: self.content.clone() }
    }
}

/// The views of a list of steps.
pub open spec fn record_views(list: Seq<StepRecord>) -> Seq<StepRecordView> {
    Seq::new(list.len(), |i: int| list[i]@)
}

/// A copy of a list of steps.
pub fn clone_records(list: &Vec<StepRecord>) -> (copy: Vec<StepRecord>)
    ensures
        record_views(copy@) == record_views(list@),
{
    let mut copy: Vec<StepRecord> = Vec::new();
    let mut i: usize = 0;
    while i < list.len()
        invariant
            i <= list.len(),
            copy@.len() == i,
            forall|k: int| 0 <= k < i ==> (#[trigger] copy@[k])@ == list@[k]@,
        decreases list.len() - i,
    {
        copy.push(list[i].clone());
        i += 1;
    }
    assert(record_views(copy@) =~= record_views(list@));
    copy
}

/// A step that stands for a shared step, at its place in the list of the
/// test case that owns it.
#[derive(Debug, Clone, Copy, PartialEq, Eq, Structural)]
pub struct ReferenceRecord {
    pub id: u128,
    /// The place of the step in its list, counted from 1.
    pub step_order: i32,
    /// The shared step that is meant.
    pub shared_step_id: u128,
}

/// A stored row of a step, of whichever kind.
#[derive(Debug)]
pub enum StepRow {
    /// A step of a test case with an action of its own.
    Regular(StepRecord),
    /// A step of a test case that stands for a shared step.
    SharedReference(ReferenceRecord),
    /// A step of the definition of a shared step.
    SharedDefinition(StepRecord),
}

/// Mathematical model of a [`StepRow`].
pub enum StepRowView {
    Regular(StepRecordView),
    SharedReference(ReferenceRecord),
    SharedDefinition(StepRecordView),
}

impl View for StepRow {
    type V = StepRowView;

    open spec fn view(&self) -> StepRowView {
        match self {
            StepRow::Regular(record) => StepRowView::Regular(record@),
            StepRow::SharedReference(reference) => StepRowView::SharedReference(*reference),
            StepRow::SharedDefinition(record) => StepRowView::SharedDefinition(record@),
        }
    }
}

impl StepRowView {
    /// The place of the row in its list.
    pub open spec fn step_order(self) -> int {
        match self {
            StepRowView::Regular(record) => record.step_order,
            StepRowView::SharedReference(reference) => reference.step_order as int,
            StepRowView::SharedDefinition(record) => record.step_order,
        }
    }
}

/// The views of a list of rows.
pub open spec fn row_views(list: Seq<StepRow>) -> Seq<StepRowView> {
    Seq::new(list.len(), |i: int| list[i]@)
}

/// A step that a test case owns: one with an action of its own, or one that
/// stands for a shared step.
#[derive(Debug)]
pub enum CaseStep {
    Regular(StepRecord),
    SharedReference(ReferenceRecord),
}

/// Mathematical model of a [`CaseStep`].
pub enum CaseStepView {
    Regular(StepRecordView),
    SharedReference(ReferenceRecord),
}

impl View for CaseStep {
    type V = CaseStepView;

    open spec fn view(&self) -> CaseStepView {
        match self {
            CaseStep::Regular(record) => CaseStepView::Regular(record@),
            CaseStep::SharedReference(reference) => CaseStepView::SharedReference(*reference),
        }
    }
}

impl Clone for CaseStep {
    fn clone(&self) -> (copy: Self)
        ensures
            copy@ == self@,
    {
        match self {
            CaseStep::Regular(record) => CaseStep::Regular(record.clone()),
            CaseStep::SharedReference(reference) => CaseStep::SharedReference(*reference),
        }
    }
}

impl CaseStepView {
    /// The place of the step in its list.
    pub open spec fn step_order(self) -> int {
        match self {
            CaseStepView::Regular(record) => record.step_order,
            CaseStepView::SharedReference(reference) => reference.step_order as int,
        }
    }

    /// The step as a stored row.
    pub open spec fn row(self) -> StepRowView {
        match self {
            CaseStepView::Regular(record) => StepRowView::Regular(record),
            CaseStepView::SharedReference(reference) => StepRowView::SharedReference(reference),
        }
    }
}

impl CaseStep {
    /// The step as a stored row.
    pub fn to_row(&self) -> (row: StepRow)
        ensures
            row@ == self@.row(),
    {
        match self {
            CaseStep::Regular(record) => StepRow::Regular(record.clone()),
            CaseStep::SharedReference(reference) => StepRow::SharedReference(*reference),
        }
    }
}

/// The views of a list of steps of a test case.
pub open spec fn case_step_views(list: Seq<CaseStep>) -> Seq<CaseStepView> {
    Seq::new(list.len(), |i: int| list[i]@)
}

/// The kind of row that a stored step is, by the name of its kind and the
/// shared step that it names: a reference where the kind is
/// `shared_reference` and a shared step is named, a step of a definition
/// where the kind is `shared_definition`, and else a step with an action of
/// its own.
pub open spec fn row_of_kind(
    kind: Seq<char>,
    shared_step_id: Option<u128>,
    record: StepRecordView,
) -> StepRowView {
    if kind == "shared_reference"@ && shared_step_id.is_some() {
        StepRowView::SharedReference(
            ReferenceRecord {
                id: record.id,
                step_order: record.step_order as i32,
                shared_step_id: shared_step_id.unwrap(),
            },
        )
    } else if kind == "shared_definition"@ {
        StepRowView::SharedDefinition(record)
    } else {
        StepRowView::Regular(record)
    }
}

/// The row that a stored step is, from the name of its kind, the shared
/// step that it names and what is stored of it.
pub fn stored_row(step_type: &str, shared_step_id: Option<u128>, record: StepRecord) -> (row:
    StepRow)
    ensures
        row@ == row_of_kind(step_type@, shared_step_id, record@),
{
    let is_reference = str_eq(step_type, "shared_reference");
    let is_definition = str_eq(step_type, "shared_definition");
    match shared_step_id {
        Some(shared) if is_reference => StepRow::SharedReference(
            ReferenceRecord { id: record.id, step_order: record.step_order, shared_step_id: shared },
        ),
        _ => if is_definition {
            StepRow::SharedDefinition(record)
        } else {
            StepRow::Regular(record)
        },
    }
}

} // verus!
