//! The step validator: which submitted steps are accepted, and what is kept
//! of an accepted one.
use crate::catalog::{
    allowed_assertions, allowed_assertions_for_action, allowed_params, allowed_params_for_action,
    assertion_rule, get_assertion_definition, is_action, is_key_option, is_valid_action_type,
    is_valid_key_option, lemma_listed_actions, AssertionRule,
};
use crate::params::{ParamMap, ParamValueView};
use crate::step::{
    assertion_views, item_views, AssertionItem, AssertionItemView, AssertionView, AssertionsInput,
    AssertionsInputView, CreateTestStepRequest, IncomingAssertion, ParamsInput, ParamsInputView,
    StepRequestView,
};
use crate::text::{concat_texts, contains_text, is_blank, str_eq, str_is_blank, texts};
use vstd::prelude::*;

verus! {

/// A field that an assertion or an action has to carry.
#[derive(Debug, Clone, Copy, PartialEq, Eq, Structural)]
pub enum RequiredField {
    Selector,
    ExpectedValue,
    AttributeName,
    Key,
}

/// Why a submitted step is refused.
#[derive(Debug, PartialEq, Eq)]
pub enum ValidationError {
    /// The action kind is not in the catalog.
    InvalidAction { action_type: String },
    /// What was submitted as the assertions is no list.
    AssertionsNotArray,
    /// A member of the list of assertions has not the shape of one.
    MalformedAssertion,
    /// The assertion kind is not in the catalog.
    InvalidAssertion { assertion_type: String },
    /// The assertion kind may not follow the action.
    AssertionNotAllowedForAction { assertion_type: String, action_type: String },
    /// A field that the assertion kind demands is absent or blank; for the
    /// action `pressKey`, which has no assertion to name, the key.
    MissingRequiredField { assertion: Option<String>, field: RequiredField },
    /// The key of a `pressKey` action is not in the catalog.
    InvalidKeyOption { key: String },
}

/// Mathematical model of a [`ValidationError`].
pub enum ValidationErrorView {
    InvalidAction { action_type: Seq<char> },
    AssertionsNotArray,
    MalformedAssertion,
    InvalidAssertion { assertion_type: Seq<char> },
    AssertionNotAllowedForAction { assertion_type: Seq<char>, action_type: Seq<char> },
    MissingRequiredField { assertion: Option<Seq<char>>, field: RequiredField },
    InvalidKeyOption { key: Seq<char> },
}

impl View for ValidationError {
    type V = ValidationErrorView;

    open spec fn view(&self) -> ValidationErrorView {
        match self {
            ValidationError::InvalidAction { action_type } => ValidationErrorView::InvalidAction {
                action_type: action_type@,
            },
            ValidationError::AssertionsNotArray => ValidationErrorView::AssertionsNotArray,
            ValidationError::MalformedAssertion => ValidationErrorView::MalformedAssertion,
            ValidationError::InvalidAssertion {
                assertion_type,
            } => ValidationErrorView::InvalidAssertion { assertion_type: assertion_type@ },
            ValidationError::AssertionNotAllowedForAction {
                assertion_type,
                action_type,
            } => ValidationErrorView::AssertionNotAllowedForAction {
                assertion_type: assertion_type@,
                action_type: action_type@,
            },
            ValidationError::MissingRequiredField {
                assertion,
                field,
            } => ValidationErrorView::MissingRequiredField {
                assertion: match assertion {
                    Some(t) => Some(t@),
                    None => None,
                },
                field: *field,
            },
            ValidationError::InvalidKeyOption { key } => ValidationErrorView::InvalidKeyOption {
                key: key@,
            },
        }
    }
}

/// The set of the names in `names`.
pub open spec fn name_set(names: Seq<Seq<char>>) -> Set<Seq<char>> {
    Set::new(|name: Seq<char>| names.contains(name))
}

/// What is kept of the submitted parameters of an action: nothing of a
/// value that is no object; of an object, the members that the action keeps,
/// and all of them where the text is no action of the catalog, which the
/// validator refuses before anything is kept.
pub open spec fn cleaned_params(action: Seq<char>, params: ParamsInputView) -> Map<
    Seq<char>,
    ParamValueView,
> {
    match params {
        ParamsInputView::NotObject => Map::empty(),
        ParamsInputView::Object(members) => match allowed_params(action) {
            Some(names) => members.restrict(name_set(names)),
            None => members,
        },
    }
}

/// The parameters that a step was submitted with; none count as an object
/// without members.
pub open spec fn submitted_params(step: StepRequestView) -> ParamsInputView {
    match step.action_params {
        Some(params) => params,
        None => ParamsInputView::Object(Map::empty()),
    }
}

/// The assertions that a step was submitted with; none count as the empty
/// list.
pub open spec fn submitted_assertions(step: StepRequestView) -> AssertionsInputView {
    match step.assertions {
        Some(assertions) => assertions,
        None => AssertionsInputView::Items(Seq::empty()),
    }
}

/// A demanded field is missing when it is absent or blank.
pub open spec fn is_missing(field: Option<Seq<char>>) -> bool {
    match field {
        Some(text) => is_blank(text),
        None => true,
    }
}

/// What is wrong with an assertion of a known kind that follows the action
/// `action`, if anything: the kind may not follow the action, or a demanded
/// field is missing; the selector is looked at first, then the expected
/// value, then the name of the attribute.
pub open spec fn rule_error(
    action: Seq<char>,
    assertion: AssertionView,
    rule: AssertionRule,
) -> Option<ValidationErrorView> {
    if !allowed_assertions(action).contains(assertion.assertion_type) {
        Some(
            ValidationErrorView::AssertionNotAllowedForAction {
                assertion_type: assertion.assertion_type,
                action_type: action,
            },
        )
    } else if rule.needs_selector && is_missing(assertion.selector) {
        Some(
            ValidationErrorView::MissingRequiredField {
                assertion: Some(assertion.assertion_type),
                field: RequiredField::Selector,
            },
        )
    } else if rule.needs_value && is_missing(assertion.expected_value) {
        Some(
            ValidationErrorView::MissingRequiredField {
                assertion: Some(assertion.assertion_type),
                field: RequiredField::ExpectedValue,
            },
        )
    } else if rule.needs_attribute && is_missing(assertion.attribute_name) {
        Some(
            ValidationErrorView::MissingRequiredField {
                assertion: Some(assertion.assertion_type),
                field: RequiredField::AttributeName,
            },
        )
    } else {
        None
    }
}

/// What is wrong with one submitted item after the action `action`, if
/// anything.
pub open spec fn item_error(action: Seq<char>, item: AssertionItemView) -> Option<
    ValidationErrorView,
> {
    match item {
        AssertionItemView::Malformed => Some(ValidationErrorView::MalformedAssertion),
        AssertionItemView::Parsed(assertion) => match assertion_rule(assertion.assertion_type) {
            None => Some(
                ValidationErrorView::InvalidAssertion { assertion_type: assertion.assertion_type },
            ),
            Some(rule) => rule_error(action, assertion, rule),
        },
    }
}

/// The error of the first item from position `from` on that has one.
pub open spec fn first_item_error(
    action: Seq<char>,
    items: Seq<AssertionItemView>,
    from: int,
) -> Option<ValidationErrorView>
    decreases items.len() - from,
{
    if from < 0 || from >= items.len() {
        None
    } else {
        match item_error(action, items[from]) {
            Some(error) => Some(error),
            None => first_item_error(action, items, from + 1),
        }
    }
}

/// The assertions of a list of items; it is used of lists without a
/// malformed member.
pub open spec fn parsed_assertions(items: Seq<AssertionItemView>) -> Seq<AssertionView> {
    Seq::new(items.len(), |i: int| items[i]->Parsed_0)
}

/// What is wrong with the key of an action, if anything: the action
/// `pressKey` demands a parameter `key` that is a text and names a key of
/// the catalog; no other action demands one.
pub open spec fn key_error(action: Seq<char>, params: Map<Seq<char>, ParamValueView>) -> Option<
    ValidationErrorView,
> {
    if action != "pressKey"@ {
        None
    } else if params.contains_key("key"@) && params["key"@] is Text {
        if is_key_option(params["key"@]->Text_0) {
            None
        } else {
            Some(ValidationErrorView::InvalidKeyOption { key: params["key"@]->Text_0 })
        }
    } else {
        Some(
            ValidationErrorView::MissingRequiredField {
                assertion: None,
                field: RequiredField::Key,
            },
        )
    }
}

/// The verdict on a submitted step: the parameters and assertions that are
/// kept of it, or the first thing that is wrong with it. The action kind is
/// looked at first, then the assertions in their order, then the key.
pub open spec fn validated(step: StepRequestView) -> Result<
    (Map<Seq<char>, ParamValueView>, Seq<AssertionView>),
    ValidationErrorView,
> {
    let action = step.action_type;
    let params = cleaned_params(action, submitted_params(step));
    if !is_action(action) {
        Err(ValidationErrorView::InvalidAction { action_type: action })
    } else {
        match submitted_assertions(step) {
            AssertionsInputView::NotArray => Err(ValidationErrorView::AssertionsNotArray),
            AssertionsInputView::Items(items) => match first_item_error(action, items, 0) {
                Some(error) => Err(error),
                None => match key_error(action, params) {
                    Some(error) => Err(error),
                    None => Ok((params, parsed_assertions(items))),
                },
            },
        }
    }
}

/// The model of what the validator returns.
pub open spec fn verdict_view(
    verdict: Result<(ParamMap, Vec<IncomingAssertion>), ValidationError>,
) -> Result<(Map<Seq<char>, ParamValueView>, Seq<AssertionView>), ValidationErrorView> {
    match verdict {
        Ok((params, assertions)) => Ok((params@, assertion_views(assertions@))),
        Err(error) => Err(error@),
    }
}

/// Adding a name to a list of names adds it to their set.
proof fn lemma_name_set_push(names: Seq<Seq<char>>, i: int)
    requires
        0 <= i < names.len(),
    ensures
        name_set(names.take(i + 1)) == name_set(names.take(i)).insert(names[i]),
{
    let shorter = names.take(i);
    let longer = names.take(i + 1);
    assert forall|name: Seq<char>| longer.contains(name) <==> (shorter.contains(name) || name
        == names[i]) by {
        if longer.contains(name) {
            let k = choose|k: int| 0 <= k < longer.len() && longer[k] == name;
            if k < i {
                assert(shorter[k] == name);
            }
        }
        if shorter.contains(name) {
            let k = choose|k: int| 0 <= k < shorter.len() && shorter[k] == name;
            assert(longer[k] == name);
        }
        if name == names[i] {
            assert(longer[i] == name);
        }
    }
    assert(name_set(longer) =~= name_set(shorter).insert(names[i]));
}

/// Keeps of the submitted parameters what the action `action_type` keeps.
pub fn cleanup_action_params(action_type: &str, params: &ParamsInput) -> (cleaned: ParamMap)
    ensures
        cleaned@ == cleaned_params(action_type@, params@),
{
    match params {
        ParamsInput::NotObject => ParamMap::new(),
        ParamsInput::Object(members) => match allowed_params_for_action(action_type) {
            None => members.clone(),
            Some(names) => {
                let mut cleaned = ParamMap::new();
                let mut i: usize = 0;
                let ghost all = texts(names@);
                assert(members@.restrict(name_set(all.take(0))) =~= cleaned@);
                while i < names.len()
                    invariant
                        i <= names.len(),
                        all == texts(names@),
                        cleaned@ == members@.restrict(name_set(all.take(i as int))),
                    decreases names.len() - i,
                {
                    proof {
                        lemma_name_set_push(all, i as int);
                    }
                    let ghost before = cleaned@;
                    match members.get(names[i]) {
                        Some(value) => {
                            cleaned.insert(names[i].to_owned(), value.clone());
                        },
                        None => {},
                    }
                    assert(cleaned@ =~= members@.restrict(name_set(all.take(i + 1))));
                    i += 1;
                }
                assert(all.take(names.len() as int) =~= all);
                cleaned
            },
        },
    }
}

/// Executable form of [`is_missing`].
fn field_is_missing(field: &Option<String>) -> (missing: bool)
    ensures
        missing == is_missing(crate::step::text_view(*field)),
{
    match field {
        Some(text) => str_is_blank(text.as_str()),
        None => true,
    }
}

/// Executable form of [`item_error`].
fn check_item(action_type: &str, allowed: &Vec<&'static str>, item: &AssertionItem) -> (error:
    Option<ValidationError>)
    requires
        texts(allowed@) == allowed_assertions(action_type@),
    ensures
        error.is_some() == item_error(action_type@, item@).is_some(),
        error.is_some() ==> error.unwrap()@ == item_error(action_type@, item@).unwrap(),
{
    match item {
        AssertionItem::Malformed => Some(ValidationError::MalformedAssertion),
        AssertionItem::Parsed(assertion) => {
            let kind = assertion.assertion_type.as_str();
            match get_assertion_definition(kind) {
                None => Some(
                    ValidationError::InvalidAssertion {
                        assertion_type: assertion.assertion_type.clone(),
                    },
                ),
                Some(definition) => {
                    if !contains_text(allowed, kind) {
                        Some(
                            ValidationError::AssertionNotAllowedForAction {
                                assertion_type: assertion.assertion_type.clone(),
                                action_type: action_type.to_owned(),
                            },
                        )
                    } else if definition.needs_selector && field_is_missing(&assertion.selector) {
                        Some(
                            ValidationError::MissingRequiredField {
                                assertion: Some(assertion.assertion_type.clone()),
                                field: RequiredField::Selector,
                            },
                        )
                    } else if definition.needs_value && field_is_missing(
                        &assertion.expected_value,
                    ) {
                        Some(
                            ValidationError::MissingRequiredField {
                                assertion: Some(assertion.assertion_type.clone()),
                                field: RequiredField::ExpectedValue,
                            },
                        )
                    } else if definition.needs_attribute && field_is_missing(
                        &assertion.attribute_name,
                    ) {
                        Some(
                            ValidationError::MissingRequiredField {
                                assertion: Some(assertion.assertion_type.clone()),
                                field: RequiredField::AttributeName,
                            },
                        )
                    } else {
                        None
                    }
                },
            }
        },
    }
}

/// Executable form of [`key_error`].
fn check_key(action_type: &str, params: &ParamMap) -> (error: Option<ValidationError>)
    ensures
        error.is_some() == key_error(action_type@, params@).is_some(),
        error.is_some() ==> error.unwrap()@ == key_error(action_type@, params@).unwrap(),
{
    if !str_eq(action_type, "pressKey") {
        return None;
    }
    let missing = ValidationError::MissingRequiredField {
        assertion: None,
        field: RequiredField::Key,
    };
    match params.get("key") {
        None => Some(missing),
        Some(value) => match value.as_text() {
            None => Some(missing),
            Some(key) => {
                if is_valid_key_option(key.as_str()) {
                    None
                } else {
                    Some(ValidationError::InvalidKeyOption { key: key.clone() })
                }
            },
        },
    }
}

/// Judges a submitted step against the catalog: on success, the parameters
/// that its action keeps and its assertions; else the first thing that is
/// wrong with it.
pub fn validate_and_prepare_step(step: &CreateTestStepRequest) -> (verdict: Result<
    (ParamMap, Vec<IncomingAssertion>),
    ValidationError,
>)
    ensures
        verdict_view(verdict) == validated(step@),
{
    let action_type = step.action_type.as_str();
    if !is_valid_action_type(action_type) {
        return Err(ValidationError::InvalidAction { action_type: step.action_type.clone() });
    }
    let params = match &step.action_params {
        Some(submitted) => cleanup_action_params(action_type, submitted),
        None => {
            let empty = ParamsInput::Object(ParamMap::new());
            cleanup_action_params(action_type, &empty)
        },
    };
    let mut assertions: Vec<IncomingAssertion> = Vec::new();
    match &step.assertions {
        Some(AssertionsInput::NotArray) => {
            return Err(ValidationError::AssertionsNotArray);
        },
        Some(AssertionsInput::Items(items)) => {
            let allowed = allowed_assertions_for_action(action_type);
            let ghost views = item_views(items@);
            let mut i: usize = 0;
            while i < items.len()
                invariant
                    i <= items.len(),
                    views == item_views(items@),
                    action_type@ == step.action_type@,
                    is_action(action_type@),
                    submitted_assertions(step@) == AssertionsInputView::Items(views),
                    texts(allowed@) == allowed_assertions(action_type@),
                    first_item_error(action_type@, views, 0) == first_item_error(
                        action_type@,
                        views,
                        i as int,
                    ),
                    assertions@.len() == i,
                    forall|k: int| 0 <= k < i ==> (#[trigger] assertions@[k])@ == views[k]->Parsed_0,
                decreases items.len() - i,
            {
                assert(views[i as int] == items@[i as int]@);
                match check_item(action_type, &allowed, &items[i]) {
                    Some(error) => {
                        return Err(error);
                    },
                    None => {},
                }
                match &items[i] {
                    AssertionItem::Parsed(assertion) => {
                        assertions.push(assertion.clone());
                    },
                    AssertionItem::Malformed => {},
                }
                i += 1;
            }
            assert(assertion_views(assertions@) =~= parsed_assertions(views));
        },
        None => {
            assert(assertion_views(assertions@) =~= parsed_assertions(Seq::empty()));
        },
    }
    match check_key(action_type, &params) {
        Some(error) => Err(error),
        None => Ok((params, assertions)),
    }
}

/// Of the parameters of an action that the catalog lists, only those that
/// the action keeps are kept: every name in the cleaned parameters is one of
/// the action's names, and was submitted with the same value.
pub proof fn lemma_cleaned_params_within_allowed(action: Seq<char>, params: ParamsInputView)
    requires
        allowed_params(action).is_some(),
    ensures
        forall|name: Seq<char>| #[trigger]
            cleaned_params(action, params).contains_key(name) ==> allowed_params(
                action,
            ).unwrap().contains(name),
        forall|name: Seq<char>| #[trigger]
            cleaned_params(action, params).contains_key(name) ==> params
                == ParamsInputView::Object(params->Object_0) && params->Object_0.contains_key(name)
                && params->Object_0[name] == cleaned_params(action, params)[name],
{
}

/// No step is accepted with a parameter that its action does not keep: the
/// action of an accepted step has a list of the parameters that it keeps,
/// and every parameter that is kept is named in that list.
pub proof fn lemma_accepted_params_within_allowed(step: StepRequestView)
    requires
        validated(step).is_ok(),
    ensures
        is_action(step.action_type),
        allowed_params(step.action_type).is_some(),
        forall|name: Seq<char>| #[trigger]
            validated(step)->Ok_0.0.contains_key(name) ==> allowed_params(
                step.action_type,
            ).unwrap().contains(name),
{
    lemma_listed_actions(step.action_type);
    lemma_cleaned_params_within_allowed(step.action_type, submitted_params(step));
}

/// A step with the action `pressKey` is accepted only with a parameter
/// `key` that is a text and names a key of the catalog.
pub proof fn lemma_accepted_key_is_known(step: StepRequestView)
    requires
        validated(step).is_ok(),
        step.action_type == "pressKey"@,
    ensures
        validated(step)->Ok_0.0.contains_key("key"@),
        validated(step)->Ok_0.0["key"@] is Text,
        is_key_option(validated(step)->Ok_0.0["key"@]->Text_0),
{
}

/// An item with an error at or after position `from` gives the list an
/// error.
pub proof fn lemma_item_error_is_found(
    action: Seq<char>,
    items: Seq<AssertionItemView>,
    from: int,
    at: int,
)
    requires
        0 <= from <= at < items.len(),
        item_error(action, items[at]).is_some(),
    ensures
        first_item_error(action, items, from).is_some(),
    decreases at - from,
{
    if from < at && item_error(action, items[from]).is_none() {
        lemma_item_error_is_found(action, items, from + 1, at);
    }
}

/// A list without an error from position `from` on has no item with an
/// error there.
pub proof fn lemma_no_item_error(action: Seq<char>, items: Seq<AssertionItemView>, from: int)
    requires
        0 <= from,
        first_item_error(action, items, from).is_none(),
    ensures
        forall|at: int| from <= at < items.len() ==> item_error(action, #[trigger] items[at]).is_none(),
    decreases items.len() - from,
{
    if from < items.len() {
        lemma_no_item_error(action, items, from + 1);
    }
}

/// A step is refused when one of its assertions is of a kind that demands a
/// selector and carries none, or a blank one.
pub proof fn lemma_missing_selector_is_refused(step: StepRequestView, at: int)
    requires
        submitted_assertions(step) is Items,
        0 <= at < submitted_assertions(step)->Items_0.len(),
        submitted_assertions(step)->Items_0[at] is Parsed,
        assertion_rule(
            submitted_assertions(step)->Items_0[at]->Parsed_0.assertion_type,
        ).is_some(),
        assertion_rule(
            submitted_assertions(step)->Items_0[at]->Parsed_0.assertion_type,
        ).unwrap().needs_selector,
        is_missing(submitted_assertions(step)->Items_0[at]->Parsed_0.selector),
    ensures
        validated(step).is_err(),
{
    lemma_item_error_is_found(step.action_type, submitted_assertions(step)->Items_0, 0, at);
}

/// An assertion is accepted when its kind is in the catalog and may follow
/// the action, and each field that the kind demands is present and not
/// blank.
pub proof fn lemma_complete_assertion_is_accepted(action: Seq<char>, assertion: AssertionView)
    requires
        assertion_rule(assertion.assertion_type).is_some(),
        allowed_assertions(action).contains(assertion.assertion_type),
        assertion_rule(assertion.assertion_type).unwrap().needs_selector ==> !is_missing(
            assertion.selector,
        ),
        assertion_rule(assertion.assertion_type).unwrap().needs_value ==> !is_missing(
            assertion.expected_value,
        ),
        assertion_rule(assertion.assertion_type).unwrap().needs_attribute ==> !is_missing(
            assertion.attribute_name,
        ),
    ensures
        item_error(action, AssertionItemView::Parsed(assertion)).is_none(),
{
}

/// What makes a step acceptable: its action is in the catalog, its
/// assertions are a list none of whose items has an error, and its key has
/// none.
pub open spec fn acceptable(step: StepRequestView) -> bool {
    &&& is_action(step.action_type)
    &&& submitted_assertions(step) is Items
    &&& forall|at: int|
        0 <= at < submitted_assertions(step)->Items_0.len() ==> item_error(
            step.action_type,
            #[trigger] submitted_assertions(step)->Items_0[at],
        ).is_none()
    &&& key_error(
        step.action_type,
        cleaned_params(step.action_type, submitted_params(step)),
    ).is_none()
}

/// A step is accepted exactly when it is acceptable.
pub proof fn lemma_accepted_iff_acceptable(step: StepRequestView)
    ensures
        validated(step).is_ok() <==> acceptable(step),
{
    if submitted_assertions(step) is Items {
        let items = submitted_assertions(step)->Items_0;
        if first_item_error(step.action_type, items, 0).is_none() {
            lemma_no_item_error(step.action_type, items, 0);
        } else {
            if forall|at: int|
                0 <= at < items.len() ==> item_error(step.action_type, #[trigger] items[at]).is_none() {
                lemma_first_error_has_source(step.action_type, items, 0);
            }
        }
    }
}

/// The error of a list is the error of one of its items.
pub proof fn lemma_first_error_has_source(
    action: Seq<char>,
    items: Seq<AssertionItemView>,
    from: int,
)
    requires
        0 <= from,
        first_item_error(action, items, from).is_some(),
    ensures
        exists|at: int|
            from <= at < items.len() && item_error(action, #[trigger] items[at])
                == first_item_error(action, items, from),
    decreases items.len() - from,
{
    if item_error(action, items[from]).is_none() {
        lemma_first_error_has_source(action, items, from + 1);
        let at = choose|at: int|
            from + 1 <= at < items.len() && item_error(action, #[trigger] items[at])
                == first_item_error(action, items, from + 1);
        assert(item_error(action, items[at]) == first_item_error(action, items, from));
    } else {
        assert(item_error(action, items[from]) == first_item_error(action, items, from));
    }
}

/// The name of a demanded field as clients know it.
pub open spec fn field_name(field: RequiredField) -> Seq<char> {
    match field {
        RequiredField::Selector => "a selector"@,
        RequiredField::ExpectedValue => "an expectedValue"@,
        RequiredField::AttributeName => "an attributeName"@,
        RequiredField::Key => "a 'key' parameter"@,
    }
}

/// What a client is told of an error.
pub open spec fn error_message(error: ValidationErrorView) -> Seq<char> {
    match error {
        ValidationErrorView::InvalidAction { action_type } => "Invalid action type: "@
            + action_type,
        ValidationErrorView::AssertionsNotArray => "Assertions must be an array"@,
        ValidationErrorView::MalformedAssertion => "Invalid assertion format"@,
        ValidationErrorView::InvalidAssertion { assertion_type } => "Invalid assertion type: "@
            + assertion_type,
        ValidationErrorView::AssertionNotAllowedForAction {
            assertion_type,
            action_type,
        } => "Assertion '"@ + assertion_type + "' is not allowed for action '"@ + action_type
            + "'"@,
        ValidationErrorView::MissingRequiredField { assertion, field } => match assertion {
            Some(assertion_type) => "Assertion '"@ + assertion_type + "' requires "@ + field_name(
                field,
            ),
            None => "pressKey action requires "@ + field_name(field),
        },
        ValidationErrorView::InvalidKeyOption { key } => "Invalid key '"@ + key
            + "' for pressKey action"@,
    }
}

/// Executable form of [`field_name`].
fn field_text(field: RequiredField) -> (name: &'static str)
    ensures
        name@ == field_name(field),
{
    match field {
        RequiredField::Selector => "a selector",
        RequiredField::ExpectedValue => "an expectedValue",
        RequiredField::AttributeName => "an attributeName",
        RequiredField::Key => "a 'key' parameter",
    }
}

impl ValidationError {
    /// What a client is told of the error.
    pub fn message(&self) -> (text: String)
        ensures
            text@ == error_message(self@),
    {
        match self {
            ValidationError::InvalidAction { action_type } => concat_texts(
                "Invalid action type: ",
                action_type.as_str(),
            ),
            ValidationError::AssertionsNotArray => "Assertions must be an array".to_owned(),
            ValidationError::MalformedAssertion => "Invalid assertion format".to_owned(),
            ValidationError::InvalidAssertion { assertion_type } => concat_texts(
                "Invalid assertion type: ",
                assertion_type.as_str(),
            ),
            ValidationError::AssertionNotAllowedForAction { assertion_type, action_type } => {
                let mut text = concat_texts("Assertion '", assertion_type.as_str());
                text.append("' is not allowed for action '");
                text.append(action_type.as_str());
                text.append("'");
                text
            },
            ValidationError::MissingRequiredField { assertion, field } => match assertion {
                Some(assertion_type) => {
                    let mut text = concat_texts("Assertion '", assertion_type.as_str());
                    text.append("' requires ");
                    text.append(field_text(*field));
                    text
                },
                None => concat_texts("pressKey action requires ", field_text(*field)),
            },
            ValidationError::InvalidKeyOption { key } => {
                let mut text = concat_texts("Invalid key '", key.as_str());
                text.append("' for pressKey action");
                text
            },
        }
    }
}

} // verus!
