//! The user service: the claims of its tokens, and how it turns the names
//! of its store into the numbers of the wire.
use crate::ids::{hyphenated, id_to_string};
use crate::permissions::{
    name_of, number_of, permission_names, permission_to_proto, proto_to_permission, role_names,
    role_to_proto,
};
use crate::step::{clone_text, text_view};
use crate::text::{contains_string, str_eq, string_views};
use crate::time::rfc3339;
use vstd::prelude::*;

verus! {

/// Seconds for which an access token is valid.
pub const ACCESS_TOKEN_SECONDS: usize = 3600;

/// Seconds for which a refresh token is valid.
pub const REFRESH_TOKEN_SECONDS: usize = 604800;

/// The claims that a token of the user service carries.
#[derive(Debug)]
pub struct Claims {
    /// The identifier of the user.
    pub sub: String,
    pub email: String,
    pub role: String,
    /// The time at which the token expires, in seconds.
    pub exp: usize,
    /// The time at which the token was issued, in seconds.
    pub iat: usize,
}

/// A user with the permissions of the role and the permissions granted
/// beyond them.
#[derive(Debug)]
pub struct UserWithPermissions {
    pub id: u128,
    pub name: String,
    pub email: String,
    pub role: String,
    pub status: String,
    pub git_username: Option<String>,
    pub git_email: Option<String>,
    pub joined_date: crate::time::Timestamp,
    pub last_active: crate::time::Timestamp,
    pub base_permissions: Vec<String>,
    pub special_permissions: Vec<String>,
}

/// The claims of a token that is issued at the time `now` and is valid for
/// `lifetime` seconds.
pub fn issue_claims(user_id: &str, email: &str, role: &str, now: usize, lifetime: usize) -> (claims:
    Claims)
    requires
        now + lifetime <= usize::MAX,
    ensures
        claims.sub@ == user_id@,
        claims.email@ == email@,
        claims.role@ == role@,
        claims.iat == now,
        claims.exp == now + lifetime,
{
    Claims {
        sub: user_id.to_owned(),
        email: email.to_owned(),
        role: role.to_owned(),
        exp: now + lifetime,
        iat: now,
    }
}

/// The number that stands for a status: 1 for `active`, 2 for every other.
pub fn status_to_proto(status: &str) -> (number: i32)
    ensures
        status@ == "active"@ ==> number == 1,
        status@ != "active"@ ==> number == 2,
{
    if str_eq(status, "active") {
        1
    } else {
        2
    }
}

/// Whether the user has the permission `required`, from the role or beyond
/// it.
pub fn user_has_permission(user: &UserWithPermissions, required: &str) -> (has: bool)
    ensures
        has == (string_views(user.base_permissions@).contains(required@) || string_views(
            user.special_permissions@,
        ).contains(required@)),
{
    contains_string(&user.base_permissions, required) || contains_string(
        &user.special_permissions,
        required,
    )
}

/// The names among the first `upto` numbers of `protos` that stand for a
/// permission, in their order.
pub open spec fn granted_names(protos: Seq<i32>, upto: int) -> Seq<Seq<char>>
    decreases upto,
{
    if upto <= 0 {
        Seq::empty()
    } else {
        match name_of(permission_names(), protos[upto - 1] as int) {
            Some(name) => granted_names(protos, upto - 1).push(name),
            None => granted_names(protos, upto - 1),
        }
    }
}

/// The permissions that are to be granted for the numbers `protos`: those
/// that the numbers stand for; a number that stands for none is passed
/// over.
pub fn permissions_to_grant(protos: &Vec<i32>) -> (names: Vec<String>)
    ensures
        string_views(names@) == granted_names(protos@, protos@.len() as int),
{
    let mut names: Vec<String> = Vec::new();
    let mut i: usize = 0;
    assert(string_views(names@) =~= granted_names(protos@, 0));
    while i < protos.len()
        invariant
            i <= protos.len(),
            string_views(names@) == granted_names(protos@, i as int),
        decreases protos.len() - i,
    {
        let ghost before = string_views(names@);
        match proto_to_permission(protos[i]) {
            Some(name) => {
                names.push(name);
                assert(string_views(names@) =~= before.push(name@));
            },
            None => {},
        }
        i += 1;
    }
    names
}

/// A user in the form of the wire: the role, the status and the
/// permissions as numbers, the times as texts.
#[derive(Debug, PartialEq, Eq)]
pub struct UserMessage {
    pub id: String,
    pub name: String,
    pub email: String,
    pub role: i32,
    pub status: i32,
    pub base_permissions: Vec<i32>,
    pub special_permissions: Vec<i32>,
    pub joined_date: String,
    pub last_active: String,
    pub git_username: Option<String>,
    pub git_email: Option<String>,
}

/// The numbers that stand for the permissions `names`, name by name.
pub fn permission_numbers(names: &Vec<String>) -> (numbers: Vec<i32>)
    ensures
        numbers@.len() == names@.len(),
        forall|i: int|
            0 <= i < names@.len() ==> #[trigger] numbers@[i] == number_of(
                permission_names(),
                names@[i]@,
            ),
{
    let mut numbers: Vec<i32> = Vec::new();
    let mut i: usize = 0;
    while i < names.len()
        invariant
            i <= names.len(),
            numbers@.len() == i,
            forall|k: int|
                0 <= k < i ==> #[trigger] numbers@[k] == number_of(permission_names(), names@[k]@),
        decreases names.len() - i,
    {
        numbers.push(permission_to_proto(names[i].as_str()));
        i += 1;
    }
    numbers
}

/// Whether `message` is the user `user` in the form of the wire, given the
/// texts of the two times.
pub open spec fn is_message_of(
    message: UserMessage,
    user: UserWithPermissions,
    joined_date: Seq<char>,
    last_active: Seq<char>,
) -> bool {
    &&& message.id@ == hyphenated(user.id)
    &&& message.name@ == user.name@
    &&& message.email@ == user.email@
    &&& message.role == number_of(role_names(), user.role@)
    &&& message.status == if user.status@ == "active"@ {
        1int
    } else {
        2int
    }
    &&& message.base_permissions@.len() == user.base_permissions@.len()
    &&& forall|i: int|
        0 <= i < user.base_permissions@.len() ==> #[trigger] message.base_permissions@[i]
            == number_of(permission_names(), user.base_permissions@[i]@)
    &&& message.special_permissions@.len() == user.special_permissions@.len()
    &&& forall|i: int|
        0 <= i < user.special_permissions@.len() ==> #[trigger] message.special_permissions@[i]
            == number_of(permission_names(), user.special_permissions@[i]@)
    &&& message.joined_date@ == joined_date
    &&& message.last_active@ == last_active
    &&& text_view(message.git_username) == text_view(user.git_username)
    &&& text_view(message.git_email) == text_view(user.git_email)
}

/// The user in the form of the wire: the identifier in hyphenated form and
/// the times in the form of RFC 3339; nothing where one of the times lies
/// outside the range of dates.
pub fn user_to_proto(user: &UserWithPermissions) -> (message: Option<UserMessage>)
    ensures
        message.is_some() == (rfc3339(user.joined_date.secs, user.joined_date.nanos).is_some()
            && rfc3339(user.last_active.secs, user.last_active.nanos).is_some()),
        message.is_some() ==> is_message_of(
            message.unwrap(),
            *user,
            rfc3339(user.joined_date.secs, user.joined_date.nanos).unwrap(),
            rfc3339(user.last_active.secs, user.last_active.nanos).unwrap(),
        ),
{
    let joined_date = match user.joined_date.to_rfc3339() {
        Some(text) => text,
        None => {
            return None;
        },
    };
    let last_active = match user.last_active.to_rfc3339() {
        Some(text) => text,
        None => {
            return None;
        },
    };
    Some(
        UserMessage {
            id: id_to_string(user.id),
            name: user.name.clone(),
            email: user.email.clone(),
            role: role_to_proto(user.role.as_str()),
            status: status_to_proto(user.status.as_str()),
            base_permissions: permission_numbers(&user.base_permissions),
            special_permissions: permission_numbers(&user.special_permissions),
            joined_date,
            last_active,
            git_username: clone_text(&user.git_username),
            git_email: clone_text(&user.git_email),
        },
    )
}

} // verus!
