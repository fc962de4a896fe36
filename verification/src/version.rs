//! Versions: the oldest version of a client that a server still serves.
use crate::text::{chars_of, concat_texts, find_char, position_of_char};
use vstd::prelude::*;
use vstd::string::*;

verus! {

#[derive(Debug, PartialEq, Eq)]
pub struct VersionResponse {
    pub version: String,
    pub min_client_version: String,
}

/// The oldest version of a client that a server of the version `version`
/// serves: the first two parts of the version, followed by `.0`; clients
/// that differ in the third part alone are served. A version of one part is
/// its own oldest version.
pub open spec fn min_client_version_of(version: Seq<char>) -> Seq<char> {
    let first = position_of_char(version, '.', 0);
    if first >= version.len() {
        version
    } else {
        let second = position_of_char(version, '.', first + 1);
        version.subrange(0, second) + ".0"@
    }
}

/// The oldest version of a client that a server of the version `version`
/// serves.
pub fn min_client_version(version: &str) -> (oldest: String)
    ensures
        oldest@ == min_client_version_of(version@),
{
    let chars = chars_of(version);
    let first = find_char(&chars, '.', 0);
    if first >= chars.len() {
        return version.to_owned();
    }
    let second = find_char(&chars, '.', first + 1);
    let kept = version.substring_char(0, second);
    concat_texts(kept, ".0")
}

/// The version of a server with the oldest version of a client that it
/// serves.
pub fn version_response(version: &str) -> (response: VersionResponse)
    ensures
        response.version@ == version@,
        response.min_client_version@ == min_client_version_of(version@),
{
    VersionResponse { version: version.to_owned(), min_client_version: min_client_version(version) }
}

} // verus!
