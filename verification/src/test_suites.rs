//! Suites of test cases, as clients create them and see them.
use crate::ids::{hyphenated, id_to_string};
use crate::step::text_view;
use crate::text::{eq_ignore_ascii_case, str_eq_ignore_ascii_case, string_views};
use crate::time::{rfc3339, Timestamp};
use vstd::prelude::*;

verus! {

/// A suite as stored.
#[derive(Debug)]
pub struct TestSuiteRow {
    pub id: u128,
    pub name: String,
    pub description: Option<String>,
    pub created_at: Timestamp,
}

/// A suite as shown to clients.
#[derive(Debug)]
pub struct TestSuiteResponse {
    pub id: String,
    pub name: String,
    pub description: Option<String>,
    pub created_at: String,
}

#[derive(Debug)]
pub struct ListTestSuitesResponse {
    pub suites: Vec<TestSuiteResponse>,
}

#[derive(Debug)]
pub struct CreateTestSuiteRequest {
    pub name: String,
    pub description: Option<String>,
}

impl TestSuiteResponse {
    /// What is shown of a suite, given the texts of its identifier and of
    /// its time.
    pub fn from_parts(row: TestSuiteRow, id: String, created_at: String) -> (shown:
        TestSuiteResponse)
        ensures
            shown.id@ == id@,
            shown.name@ == row.name@,
            text_view(shown.description) == text_view(row.description),
            shown.created_at@ == created_at@,
    {
        TestSuiteResponse { id, name: row.name, description: row.description, created_at }
    }

    /// What is shown of a suite: the identifier in hyphenated form and the
    /// time in the form of RFC 3339; nothing where the time lies outside
    /// the range of dates.
    pub fn from_row(row: TestSuiteRow) -> (shown: Option<TestSuiteResponse>)
        ensures
            shown.is_some() == rfc3339(row.created_at.secs, row.created_at.nanos).is_some(),
            shown.is_some() ==> shown.unwrap().id@ == hyphenated(row.id),
            shown.is_some() ==> shown.unwrap().name@ == row.name@,
            shown.is_some() ==> text_view(shown.unwrap().description) == text_view(
                row.description,
            ),
            shown.is_some() ==> Some(shown.unwrap().created_at@) == rfc3339(
                row.created_at.secs,
                row.created_at.nanos,
            ),
    {
        let created_at = match row.created_at.to_rfc3339() {
            Some(text) => text,
            None => {
                return None;
            },
        };
        let id = id_to_string(row.id);
        Some(TestSuiteResponse::from_parts(row, id, created_at))
    }
}

/// Whether one of the names `existing` is `name`, up to the case of ASCII
/// letters.
pub open spec fn suite_name_in_use(existing: Seq<Seq<char>>, name: Seq<char>) -> bool {
    exists|i: int| 0 <= i < existing.len() && eq_ignore_ascii_case(#[trigger] existing[i], name)
}

/// Whether a suite with the name `name` exists already among the suites
/// with the names `existing`.
pub fn suite_exists(existing: &Vec<String>, name: &str) -> (exists: bool)
    ensures
        exists == suite_name_in_use(string_views(existing@), name@),
{
    let mut i: usize = 0;
    while i < existing.len()
        invariant
            i <= existing.len(),
            forall|k: int|
                0 <= k < i ==> !eq_ignore_ascii_case(#[trigger] string_views(existing@)[k], name@),
        decreases existing.len() - i,
    {
        assert(string_views(existing@)[i as int] == existing@[i as int]@);
        if str_eq_ignore_ascii_case(existing[i].as_str(), name) {
            return true;
        }
        i += 1;
    }
    false
}

} // verus!
