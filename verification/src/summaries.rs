//! Shared steps and steps as they are listed and shown to clients.
use crate::ids::{hyphenated, id_to_string};
use crate::params::ParamMap;
use crate::record::StepRecord;
use crate::step::{assertion_views, text_view, IncomingAssertion};
use crate::time::{rfc3339, Timestamp};
use vstd::prelude::*;

verus! {

/// A shared step as stored, with the number of steps of its definition and
/// the name of its author.
#[derive(Debug)]
pub struct SharedStepWithCountRow {
    pub id: u128,
    pub name: String,
    pub description: Option<String>,
    pub created_by_name: Option<String>,
    pub created_at: Timestamp,
    pub updated_at: Timestamp,
    pub step_count: i64,
}

/// A shared step in a list.
#[derive(Debug)]
pub struct SharedStepSummary {
    pub id: String,
    pub name: String,
    pub description: Option<String>,
    pub step_count: i64,
    pub created_by: Option<String>,
    pub created_at: String,
    pub updated_at: String,
}

/// What a client asks of the list of shared steps.
#[derive(Debug)]
pub struct ListSharedStepsQuery {
    pub search: Option<String>,
    pub page: Option<i32>,
    pub limit: Option<i32>,
}

impl Default for ListSharedStepsQuery {
    fn default() -> (query: ListSharedStepsQuery)
        ensures
            query.search.is_none(),
            query.page == Some(1i32),
            query.limit == Some(20i32),
    {
        ListSharedStepsQuery { search: None, page: Some(1), limit: Some(20) }
    }
}

/// A step as shown to clients.
#[derive(Debug)]
pub struct TestStepResponse {
    pub id: String,
    pub step_type: String,
    pub step_order: i32,
    pub action_type: String,
    pub action_params: ParamMap,
    pub assertions: Vec<IncomingAssertion>,
    pub custom_expected_result: Option<String>,
}

/// A shared step with its definition, as shown to clients.
#[derive(Debug)]
pub struct SharedStepDetailResponse {
    pub id: String,
    pub name: String,
    pub description: Option<String>,
    pub step_count: i64,
    pub created_by: Option<String>,
    pub created_at: String,
    pub updated_at: String,
    pub steps: Vec<TestStepResponse>,
}

impl SharedStepSummary {
    /// What is listed of a shared step, given the texts of its identifier
    /// and of its two times.
    pub fn from_parts(
        row: SharedStepWithCountRow,
        id: String,
        created_at: String,
        updated_at: String,
    ) -> (listed: SharedStepSummary)
        ensures
            listed.id@ == id@,
            listed.name@ == row.name@,
            text_view(listed.description) == text_view(row.description),
            listed.step_count == row.step_count,
            text_view(listed.created_by) == text_view(row.created_by_name),
            listed.created_at@ == created_at@,
            listed.updated_at@ == updated_at@,
    {
        SharedStepSummary {
            id,
            name: row.name,
            description: row.description,
            step_count: row.step_count,
            created_by: row.created_by_name,
            created_at,
            updated_at,
        }
    }

    /// What is listed of a shared step: the identifier in hyphenated form
    /// and the times in the form of RFC 3339; nothing where one of the
    /// times lies outside the range of dates.
    pub fn from_row(row: SharedStepWithCountRow) -> (listed: Option<SharedStepSummary>)
        ensures
            listed.is_some() == (rfc3339(row.created_at.secs, row.created_at.nanos).is_some()
                && rfc3339(row.updated_at.secs, row.updated_at.nanos).is_some()),
            listed.is_some() ==> listed.unwrap().id@ == hyphenated(row.id),
            listed.is_some() ==> listed.unwrap().name@ == row.name@,
            listed.is_some() ==> text_view(listed.unwrap().description) == text_view(
                row.description,
            ),
            listed.is_some() ==> listed.unwrap().step_count == row.step_count,
            listed.is_some() ==> text_view(listed.unwrap().created_by) == text_view(
                row.created_by_name,
            ),
            listed.is_some() ==> Some(listed.unwrap().created_at@) == rfc3339(
                row.created_at.secs,
                row.created_at.nanos,
            ),
            listed.is_some() ==> Some(listed.unwrap().updated_at@) == rfc3339(
                row.updated_at.secs,
                row.updated_at.nanos,
            ),
    {
        let created_at = match row.created_at.to_rfc3339() {
            Some(text) => text,
            None => {
                return None;
            },
        };
        let updated_at = match row.updated_at.to_rfc3339() {
            Some(text) => text,
            None => {
                return None;
            },
        };
        let id = id_to_string(row.id);
        Some(SharedStepSummary::from_parts(row, id, created_at, updated_at))
    }
}

/// Whether `shown` is what is shown of the step `record`: the step as one
/// with an action of its own, under its identifier in hyphenated form.
pub open spec fn shows_step(shown: TestStepResponse, record: StepRecord) -> bool {
    &&& shown.id@ == hyphenated(record.id)
    &&& shown.step_type@ == "regular"@
    &&& shown.step_order == record.step_order
    &&& shown.action_type@ == record.content.action_type@
    &&& shown.action_params@ == record.content.action_params@
    &&& assertion_views(shown.assertions@) == assertion_views(record.content.assertions@)
    &&& text_view(shown.custom_expected_result) == text_view(record.content.custom_expected_result)
}

impl TestStepResponse {
    /// What is shown of a step.
    pub fn from_record(record: &StepRecord) -> (shown: TestStepResponse)
        ensures
            shows_step(shown, *record),
    {
        let copy = record.clone();
        TestStepResponse {
            id: id_to_string(record.id),
            step_type: "regular".to_owned(),
            step_order: copy.step_order,
            action_type: copy.content.action_type,
            action_params: copy.content.action_params,
            assertions: copy.content.assertions,
            custom_expected_result: copy.content.custom_expected_result,
        }
    }

    /// What is shown of a list of steps, step by step.
    pub fn from_records(records: &Vec<StepRecord>) -> (shown: Vec<TestStepResponse>)
        ensures
            shown@.len() == records@.len(),
            forall|i: int| 0 <= i < records@.len() ==> shows_step(#[trigger] shown@[i], records@[i]),
    {
        let mut shown: Vec<TestStepResponse> = Vec::new();
        let mut i: usize = 0;
        while i < records.len()
            invariant
                i <= records.len(),
                shown@.len() == i,
                forall|k: int| 0 <= k < i ==> shows_step(#[trigger] shown@[k], records@[k]),
            decreases records.len() - i,
        {
            shown.push(TestStepResponse::from_record(&records[i]));
            i += 1;
        }
        shown
    }
}

impl SharedStepDetailResponse {
    /// What is shown of a shared step with the steps `steps` of its
    /// definition, given what is listed of it.
    pub fn from_summary(listed: SharedStepSummary, steps: &Vec<StepRecord>) -> (shown:
        SharedStepDetailResponse)
        ensures
            shown.id@ == listed.id@,
            shown.name@ == listed.name@,
            text_view(shown.description) == text_view(listed.description),
            shown.step_count == listed.step_count,
            text_view(shown.created_by) == text_view(listed.created_by),
            shown.created_at@ == listed.created_at@,
            shown.updated_at@ == listed.updated_at@,
            shown.steps@.len() == steps@.len(),
            forall|i: int|
                0 <= i < steps@.len() ==> shows_step(#[trigger] shown.steps@[i], steps@[i]),
    {
        SharedStepDetailResponse {
            id: listed.id,
            name: listed.name,
            description: listed.description,
            step_count: listed.step_count,
            created_by: listed.created_by,
            created_at: listed.created_at,
            updated_at: listed.updated_at,
            steps: TestStepResponse::from_records(steps),
        }
    }
}

} // verus!
