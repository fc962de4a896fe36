//! Test cases: what clients ask and are told about them, the codes that
//! name them, and the writes that are made on their steps.
use crate::ids::{hyphenated, id_to_string};
use crate::order::OrderKey;
use crate::record::StepRecord;
use crate::step::{text_view, CreateTestStepRequest};
use crate::summaries::{shows_step, TestStepResponse};
use crate::text::{concat_texts, decimal, decimal_text, padded_integer, padded_integer_text};
use crate::time::{rfc3339, Timestamp};
use vstd::prelude::*;

verus! {

/// A test case in a list.
#[derive(Debug)]
pub struct TestCaseSummary {
    pub id: String,
    pub title: String,
    pub suite: String,
    pub priority: String,
    pub case_type: String,
    pub automation: String,
    pub last_status: String,
    pub page_load_avg: Option<String>,
    pub last_run: Option<String>,
    pub execution_order: OrderKey,
    pub updated_at: Timestamp,
    pub created_by_name: Option<String>,
    pub review_status: String,
}

#[derive(Debug)]
pub struct ListTestCasesQuery {
    pub search_query: Option<String>,
    pub suite_filter: Option<String>,
    pub priority_filter: Option<String>,
    pub automation_filter: Option<String>,
    pub status_filter: Option<String>,
    pub review_status_filter: Option<String>,
    pub page: Option<i32>,
    pub page_size: Option<i32>,
}

#[derive(Debug)]
pub struct ListTestCasesResponse {
    pub test_cases: Vec<TestCaseSummary>,
    pub total: i64,
    pub page: i32,
    pub page_size: i32,
    pub available_suites: Vec<String>,
}

#[derive(Debug)]
pub struct BulkDeleteRequest {
    pub test_case_ids: Vec<String>,
}

/// A block of test cases that is moved to the place after `prev_id` and
/// before `next_id`.
#[derive(Debug)]
pub struct ReorderRequest {
    pub moved_ids: Vec<String>,
    pub prev_id: Option<String>,
    pub next_id: Option<String>,
}

#[derive(Debug, PartialEq, Eq)]
pub struct BulkDeleteResponse {
    pub success: bool,
    pub deleted_count: i32,
    pub message: String,
}

/// The code of the test case with the number `sequence`: `TC-` and the
/// number in at least four characters.
pub open spec fn case_code_of(sequence: int) -> Seq<char> {
    "TC-"@ + padded_integer(sequence, 4)
}

/// The code of the test case with the number `sequence`.
pub fn case_code(sequence: i64) -> (code: String)
    ensures
        code@ == case_code_of(sequence as int),
{
    let number = padded_integer_text(sequence, 4);
    concat_texts("TC-", number.as_str())
}

/// The title of a copy of the test case with the title `title`.
pub fn copy_title(title: &str) -> (copy: String)
    ensures
        copy@ == title@ + " (Copy)"@,
{
    concat_texts(title, " (Copy)")
}

/// What is told after `deleted_count` test cases were deleted.
pub fn bulk_delete_response(deleted_count: u32) -> (response: BulkDeleteResponse)
    requires
        deleted_count <= i32::MAX,
    ensures
        response.success,
        response.deleted_count == deleted_count,
        response.message@ == decimal(deleted_count as nat)
            + " test case(s) deleted successfully"@,
{
    let count = decimal_text(deleted_count as u128);
    BulkDeleteResponse {
        success: true,
        deleted_count: deleted_count as i32,
        message: concat_texts(count.as_str(), " test case(s) deleted successfully"),
    }
}

/// Whether a request to move a block moves nothing.
pub fn moves_nothing(request: &ReorderRequest) -> (nothing: bool)
    ensures
        nothing == (request.moved_ids@.len() == 0),
{
    request.moved_ids.len() == 0
}

/// A test case as stored.
#[derive(Debug)]
pub struct TestCase {
    pub id: u128,
    /// The code of the test case, such as `TC-0001`.
    pub case_id: String,
    pub title: String,
    pub description: Option<String>,
    pub suite: String,
    pub priority: String,
    pub case_type: String,
    pub automation: String,
    pub last_status: String,
    pub page_load_avg: Option<String>,
    pub last_run: Option<String>,
    pub expected_outcome: Option<String>,
    pub pre_condition: Option<String>,
    pub post_condition: Option<String>,
    pub tags: Vec<String>,
    pub execution_order: OrderKey,
    pub created_by: u128,
    pub created_at: Timestamp,
    pub updated_at: Timestamp,
    pub review_status: String,
    pub submitted_for_review_at: Option<Timestamp>,
}

/// A test case with its steps and the name of its author.
#[derive(Debug)]
pub struct TestCaseWithSteps {
    pub test_case: TestCase,
    pub steps: Vec<StepRecord>,
    pub created_by_name: Option<String>,
}

/// A test case as shown to clients.
#[derive(Debug)]
pub struct TestCaseResponse {
    pub id: String,
    pub title: String,
    pub description: Option<String>,
    pub suite: String,
    pub priority: String,
    pub case_type: String,
    pub automation: String,
    pub last_status: String,
    pub page_load_avg: Option<String>,
    pub last_run: Option<String>,
    pub expected_outcome: Option<String>,
    pub pre_condition: Option<String>,
    pub post_condition: Option<String>,
    pub tags: Vec<String>,
    pub execution_order: OrderKey,
    pub steps: Vec<TestStepResponse>,
    pub created_by_id: String,
    pub created_by_name: Option<String>,
    pub created_at: String,
    pub updated_at: String,
    pub review_status: String,
}

#[derive(Debug)]
pub struct CreateTestCaseRequest {
    pub title: String,
    pub description: Option<String>,
    pub suite: String,
    pub priority: String,
    pub case_type: String,
    pub automation: String,
    pub expected_outcome: Option<String>,
    pub pre_condition: Option<String>,
    pub post_condition: Option<String>,
    pub tags: Option<Vec<String>>,
    pub steps: Option<Vec<CreateTestStepRequest>>,
}

#[derive(Debug)]
pub struct UpdateTestCaseRequest {
    pub title: Option<String>,
    pub description: Option<String>,
    pub suite: Option<String>,
    pub priority: Option<String>,
    pub case_type: Option<String>,
    pub automation: Option<String>,
    pub expected_outcome: Option<String>,
    pub pre_condition: Option<String>,
    pub post_condition: Option<String>,
    pub tags: Option<Vec<String>>,
    pub steps: Option<Vec<CreateTestStepRequest>>,
}

/// Whether `shown` is what is shown of the test case `stored`, given the
/// texts of the identifier of its author and of its two times: it is shown
/// under its code.
pub open spec fn shows_case(
    shown: TestCaseResponse,
    stored: TestCaseWithSteps,
    author: Seq<char>,
    created_at: Seq<char>,
    updated_at: Seq<char>,
) -> bool {
    &&& shown.id@ == stored.test_case.case_id@
    &&& shown.title@ == stored.test_case.title@
    &&& text_view(shown.description) == text_view(stored.test_case.description)
    &&& shown.suite@ == stored.test_case.suite@
    &&& shown.priority@ == stored.test_case.priority@
    &&& shown.case_type@ == stored.test_case.case_type@
    &&& shown.automation@ == stored.test_case.automation@
    &&& shown.last_status@ == stored.test_case.last_status@
    &&& text_view(shown.page_load_avg) == text_view(stored.test_case.page_load_avg)
    &&& text_view(shown.last_run) == text_view(stored.test_case.last_run)
    &&& text_view(shown.expected_outcome) == text_view(stored.test_case.expected_outcome)
    &&& text_view(shown.pre_condition) == text_view(stored.test_case.pre_condition)
    &&& text_view(shown.post_condition) == text_view(stored.test_case.post_condition)
    &&& shown.tags == stored.test_case.tags
    &&& shown.execution_order == stored.test_case.execution_order
    &&& shown.steps@.len() == stored.steps@.len()
    &&& forall|i: int|
        0 <= i < stored.steps@.len() ==> shows_step(#[trigger] shown.steps@[i], stored.steps@[i])
    &&& shown.created_by_id@ == author
    &&& text_view(shown.created_by_name) == text_view(stored.created_by_name)
    &&& shown.created_at@ == created_at
    &&& shown.updated_at@ == updated_at
    &&& shown.review_status@ == stored.test_case.review_status@
}

impl TestCaseResponse {
    /// What is shown of a test case, given the texts of the identifier of
    /// its author and of its two times.
    pub fn from_parts(
        tc: TestCaseWithSteps,
        created_by_id: String,
        created_at: String,
        updated_at: String,
    ) -> (shown: TestCaseResponse)
        ensures
            shows_case(shown, tc, created_by_id@, created_at@, updated_at@),
    {
        let steps = TestStepResponse::from_records(&tc.steps);
        TestCaseResponse {
            id: tc.test_case.case_id,
            title: tc.test_case.title,
            description: tc.test_case.description,
            suite: tc.test_case.suite,
            priority: tc.test_case.priority,
            case_type: tc.test_case.case_type,
            automation: tc.test_case.automation,
            last_status: tc.test_case.last_status,
            page_load_avg: tc.test_case.page_load_avg,
            last_run: tc.test_case.last_run,
            expected_outcome: tc.test_case.expected_outcome,
            pre_condition: tc.test_case.pre_condition,
            post_condition: tc.test_case.post_condition,
            tags: tc.test_case.tags,
            execution_order: tc.test_case.execution_order,
            steps,
            created_by_id,
            created_by_name: tc.created_by_name,
            created_at,
            updated_at,
            review_status: tc.test_case.review_status,
        }
    }

    /// What is shown of a test case: the identifier of its author in
    /// hyphenated form and its times in the form of RFC 3339; nothing where
    /// one of the times lies outside the range of dates.
    pub fn from_with_steps(tc: TestCaseWithSteps) -> (shown: Option<TestCaseResponse>)
        ensures
            shown.is_some() == (rfc3339(
                tc.test_case.created_at.secs,
                tc.test_case.created_at.nanos,
            ).is_some() && rfc3339(
                tc.test_case.updated_at.secs,
                tc.test_case.updated_at.nanos,
            ).is_some()),
            shown.is_some() ==> shows_case(
                shown.unwrap(),
                tc,
                hyphenated(tc.test_case.created_by),
                rfc3339(tc.test_case.created_at.secs, tc.test_case.created_at.nanos).unwrap(),
                rfc3339(tc.test_case.updated_at.secs, tc.test_case.updated_at.nanos).unwrap(),
            ),
    {
        let created_at = match tc.test_case.created_at.to_rfc3339() {
            Some(text) => text,
            None => {
                return None;
            },
        };
        let updated_at = match tc.test_case.updated_at.to_rfc3339() {
            Some(text) => text,
            None => {
                return None;
            },
        };
        let created_by_id = id_to_string(tc.test_case.created_by);
        Some(TestCaseResponse::from_parts(tc, created_by_id, created_at, updated_at))
    }
}

} // verus!
