//! Reviews of test cases: what is stored and shown of them, and the rules
//! by which a review is taken.
use crate::ids::{hyphenated, id_to_string};
use crate::order::OrderKey;
use crate::step::text_view;
use crate::text::{contains_string, is_blank, str_eq, str_is_blank, string_views, texts, to_strings};
use crate::time::{rfc3339, Timestamp};
use vstd::prelude::*;

verus! {

/// A review as stored.
#[derive(Debug)]
pub struct TestCaseReview {
    pub id: u128,
    pub test_case_id: u128,
    pub reviewer_id: u128,
    pub action: String,
    pub comment: Option<String>,
    pub created_at: Timestamp,
}

/// A review as shown to clients.
#[derive(Debug)]
pub struct ReviewResponse {
    pub id: String,
    pub test_case_id: String,
    pub reviewer_id: String,
    pub reviewer_name: String,
    pub action: String,
    pub comment: Option<String>,
    pub created_at: String,
}

#[derive(Debug)]
pub struct CreateReviewRequest {
    pub action: String,
    pub comment: Option<String>,
}

/// A review as stored, with the name of the user who gave it.
#[derive(Debug)]
pub struct ReviewWithReviewer {
    pub id: u128,
    pub test_case_id: u128,
    pub reviewer_id: u128,
    pub action: String,
    pub comment: Option<String>,
    pub created_at: Timestamp,
    pub reviewer_name: String,
}

/// How many test cases are in each state of review.
#[derive(Debug, Clone, Copy, PartialEq, Eq, Structural)]
pub struct ReviewStats {
    pub pending: i64,
    pub pending_revision: i64,
    pub approved: i64,
    pub needs_revision: i64,
}

#[derive(Debug)]
pub struct ReviewQueueQuery {
    pub status: Option<String>,
    pub search: Option<String>,
    pub priority: Option<String>,
    pub suite: Option<String>,
    pub page: Option<i32>,
}

/// A test case that waits in the queue of reviews.
#[derive(Debug)]
pub struct ReviewQueueItem {
    pub case_id: String,
    pub title: String,
    pub suite: String,
    pub priority: String,
    pub case_type: String,
    pub automation: String,
    pub last_status: String,
    pub page_load_avg: Option<String>,
    pub last_run: Option<String>,
    pub execution_order: OrderKey,
    pub updated_at: Timestamp,
    pub review_status: String,
    pub created_by_name: Option<String>,
    pub submitted_for_review_at: Option<Timestamp>,
}

#[derive(Debug)]
pub struct ReviewQueueResponse {
    pub items: Vec<ReviewQueueItem>,
    pub total: i64,
    pub page: i32,
    pub page_size: i32,
    pub available_suites: Vec<String>,
}

impl ReviewResponse {
    /// What is shown of a review of the test case with the code `case_id`,
    /// given the texts of the two identifiers and of the time.
    pub fn from_parts(
        rwr: ReviewWithReviewer,
        case_id: String,
        id: String,
        reviewer_id: String,
        created_at: String,
    ) -> (shown: ReviewResponse)
        ensures
            shown.id@ == id@,
            shown.test_case_id@ == case_id@,
            shown.reviewer_id@ == reviewer_id@,
            shown.reviewer_name@ == rwr.reviewer_name@,
            shown.action@ == rwr.action@,
            text_view(shown.comment) == text_view(rwr.comment),
            shown.created_at@ == created_at@,
    {
        ReviewResponse {
            id,
            test_case_id: case_id,
            reviewer_id,
            reviewer_name: rwr.reviewer_name,
            action: rwr.action,
            comment: rwr.comment,
            created_at,
        }
    }

    /// What is shown of a review of the test case with the code `case_id`:
    /// the identifiers in hyphenated form and the time in the form of RFC
    /// 3339; nothing where the time lies outside the range of dates.
    pub fn from_review_with_reviewer(rwr: ReviewWithReviewer, case_id: String) -> (shown: Option<
        ReviewResponse,
    >)
        ensures
            shown.is_some() == rfc3339(rwr.created_at.secs, rwr.created_at.nanos).is_some(),
            shown.is_some() ==> shown.unwrap().id@ == hyphenated(rwr.id),
            shown.is_some() ==> shown.unwrap().test_case_id@ == case_id@,
            shown.is_some() ==> shown.unwrap().reviewer_id@ == hyphenated(rwr.reviewer_id),
            shown.is_some() ==> shown.unwrap().reviewer_name@ == rwr.reviewer_name@,
            shown.is_some() ==> shown.unwrap().action@ == rwr.action@,
            shown.is_some() ==> text_view(shown.unwrap().comment) == text_view(rwr.comment),
            shown.is_some() ==> Some(shown.unwrap().created_at@) == rfc3339(
                rwr.created_at.secs,
                rwr.created_at.nanos,
            ),
    {
        let created_at = match rwr.created_at.to_rfc3339() {
            Some(text) => text,
            None => {
                return None;
            },
        };
        let id = id_to_string(rwr.id);
        let reviewer_id = id_to_string(rwr.reviewer_id);
        Some(ReviewResponse::from_parts(rwr, case_id, id, reviewer_id, created_at))
    }
}

/// Why a review is not taken.
#[derive(Debug, Clone, Copy, PartialEq, Eq, Structural)]
pub enum ReviewError {
    /// The verdict is neither `approved` nor `needs_revision`.
    InvalidAction,
    /// A revision is asked for without a comment that says why.
    CommentRequired,
    /// The user may not give verdicts on test cases.
    NotPermitted,
    /// The user wrote the test case.
    SelfReview,
}

/// What is wrong with a submitted review, if anything: the verdict has to
/// be `approved` or `needs_revision`, and the latter needs a comment that
/// is not blank.
pub open spec fn review_request_error(action: Seq<char>, comment: Option<Seq<char>>) -> Option<
    ReviewError,
> {
    if action != "approved"@ && action != "needs_revision"@ {
        Some(ReviewError::InvalidAction)
    } else if action == "needs_revision"@ && (comment.is_none() || is_blank(comment.unwrap())) {
        Some(ReviewError::CommentRequired)
    } else {
        None
    }
}

/// Checks a submitted review before anything is looked up.
pub fn check_review_request(request: &CreateReviewRequest) -> (outcome: Result<(), ReviewError>)
    ensures
        outcome.is_ok() == review_request_error(request.action@, text_view(request.comment)).is_none(),
        outcome.is_err() ==> Some(outcome->Err_0) == review_request_error(
            request.action@,
            text_view(request.comment),
        ),
{
    let action = request.action.as_str();
    if !str_eq(action, "approved") && !str_eq(action, "needs_revision") {
        return Err(ReviewError::InvalidAction);
    }
    if str_eq(action, "needs_revision") {
        match &request.comment {
            Some(comment) => {
                if str_is_blank(comment.as_str()) {
                    return Err(ReviewError::CommentRequired);
                }
            },
            None => {
                return Err(ReviewError::CommentRequired);
            },
        }
    }
    Ok(())
}

/// Whether a user with the permissions `base` of the role and `special`
/// beyond them has the permission `wanted`.
pub fn has_permission(base: &Vec<String>, special: &Vec<String>, wanted: &str) -> (has: bool)
    ensures
        has == (string_views(base@).contains(wanted@) || string_views(special@).contains(wanted@)),
{
    contains_string(base, wanted) || contains_string(special, wanted)
}

/// Judges whether a verdict is taken once the user who gives it and the
/// test case are known: the user needs the permission to give verdicts,
/// and may not give one on a test case of their own.
pub fn check_reviewer(may_review: bool, reviewer_id: u128, author_id: u128) -> (outcome: Result<
    (),
    ReviewError,
>)
    ensures
        !may_review ==> outcome == Err::<(), ReviewError>(ReviewError::NotPermitted),
        may_review && reviewer_id == author_id ==> outcome == Err::<(), ReviewError>(
            ReviewError::SelfReview,
        ),
        may_review && reviewer_id != author_id ==> outcome.is_ok(),
{
    if !may_review {
        Err(ReviewError::NotPermitted)
    } else if reviewer_id == author_id {
        Err(ReviewError::SelfReview)
    } else {
        Ok(())
    }
}

/// The state of review of a test case after a review with the verdict
/// `action`.
pub open spec fn status_after(action: Seq<char>) -> Seq<char> {
    if action == "approved"@ {
        "approved"@
    } else if action == "needs_revision"@ {
        "needs_revision"@
    } else {
        "pending"@
    }
}

/// Executable form of [`status_after`].
pub fn review_status_after(action: &str) -> (status: &'static str)
    ensures
        status@ == status_after(action@),
{
    if str_eq(action, "approved") {
        "approved"
    } else if str_eq(action, "needs_revision") {
        "needs_revision"
    } else {
        "pending"
    }
}

/// Why a test case is not marked as revised.
#[derive(Debug, Clone, Copy, PartialEq, Eq, Structural)]
pub enum ReviseError {
    /// Only the author of a test case can mark it as revised.
    NotAuthor,
    /// The test case does not wait for a revision.
    NotAwaitingRevision,
}

/// Judges whether the user `user_id` may mark as revised a test case that
/// `author_id` wrote and that is in the state of review `review_status`.
pub fn check_mark_revised(user_id: u128, author_id: u128, review_status: &str) -> (outcome: Result<
    (),
    ReviseError,
>)
    ensures
        user_id != author_id ==> outcome == Err::<(), ReviseError>(ReviseError::NotAuthor),
        user_id == author_id && review_status@ != "needs_revision"@ ==> outcome == Err::<
            (),
            ReviseError,
        >(ReviseError::NotAwaitingRevision),
        user_id == author_id && review_status@ == "needs_revision"@ ==> outcome.is_ok(),
{
    if user_id != author_id {
        Err(ReviseError::NotAuthor)
    } else if !str_eq(review_status, "needs_revision") {
        Err(ReviseError::NotAwaitingRevision)
    } else {
        Ok(())
    }
}

/// The permissions that a role has from the start where reviews are
/// concerned, by either of its two spellings; every role may view all
/// data.
pub open spec fn reviewer_permissions(role: Seq<char>) -> Seq<Seq<char>> {
    if role == "admin"@ || role == "ROLE_ADMIN"@ {
        seq![
            "view_all_data"@,
            "manage_users"@,
            "full_test_case_access"@,
            "execute_all_tests"@,
            "manage_configurations"@,
            "export_reports"@,
            "manage_integrations"@,
            "review_approve_test_cases"@,
        ]
    } else if role == "qa_lead"@ || role == "ROLE_QA_LEAD"@ {
        seq![
            "view_all_data"@,
            "manage_qa_team"@,
            "full_test_case_access"@,
            "execute_all_tests"@,
            "manage_test_configurations"@,
            "review_approve_test_cases"@,
            "export_reports"@,
        ]
    } else if role == "qa_engineer"@ || role == "ROLE_QA_ENGINEER"@ {
        seq![
            "view_all_data"@,
            "create_edit_test_cases"@,
            "execute_all_tests"@,
            "record_test_results"@,
        ]
    } else if role == "developer"@ || role == "ROLE_DEVELOPER"@ {
        seq!["view_all_data"@, "execute_automated_tests"@]
    } else {
        seq!["view_all_data"@]
    }
}

/// The permissions that the role `role` has from the start where reviews
/// are concerned.
pub fn get_base_permissions_for_role(role: &str) -> (permissions: Vec<String>)
    ensures
        string_views(permissions@) == reviewer_permissions(role@),
{
    let names: Vec<&'static str> = if str_eq(role, "admin") || str_eq(role, "ROLE_ADMIN") {
        vec![
            "view_all_data",
            "manage_users",
            "full_test_case_access",
            "execute_all_tests",
            "manage_configurations",
            "export_reports",
            "manage_integrations",
            "review_approve_test_cases",
        ]
    } else if str_eq(role, "qa_lead") || str_eq(role, "ROLE_QA_LEAD") {
        vec![
            "view_all_data",
            "manage_qa_team",
            "full_test_case_access",
            "execute_all_tests",
            "manage_test_configurations",
            "review_approve_test_cases",
            "export_reports",
        ]
    } else if str_eq(role, "qa_engineer") || str_eq(role, "ROLE_QA_ENGINEER") {
        vec!["view_all_data", "create_edit_test_cases", "execute_all_tests", "record_test_results"]
    } else if str_eq(role, "developer") || str_eq(role, "ROLE_DEVELOPER") {
        vec!["view_all_data", "execute_automated_tests"]
    } else {
        vec!["view_all_data"]
    };
    assert(texts(names@) =~= reviewer_permissions(role@));
    to_strings(&names)
}

/// The state of review that a queue shows by default.
pub const DEFAULT_QUEUE_STATUS: &'static str = "pending";

/// The state of review that a query for the queue asks for.
pub fn queue_status(query: &ReviewQueueQuery) -> (status: String)
    ensures
        status@ == crate::users::or_else(text_view(query.status), "pending"@),
{
    match &query.status {
        Some(status) => status.clone(),
        None => DEFAULT_QUEUE_STATUS.to_owned(),
    }
}

} // verus!
