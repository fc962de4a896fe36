//! The gateway in front of the user service: what clients send to it, and
//! how it turns the numbers of the wire into the names that clients read.
use crate::auth::{bearer_token, extract_bearer_token, header_view};
use crate::paging::asked;
use crate::permissions::{
    name_of, number_of, permission_names, permission_to_proto as permission_number,
    proto_to_permission as permission_name, proto_to_role as role_name, role_names,
    role_to_proto as role_number,
};
use crate::step::{clone_text, text_view};
use crate::user_service::UserMessage;
use crate::users::or_else;
use vstd::prelude::*;

verus! {

#[derive(Debug)]
pub struct LoginPayload {
    pub email: String,
    pub password: String,
}

#[derive(Debug)]
pub struct RefreshTokenPayload {
    pub refresh_token: String,
}

#[derive(Debug)]
pub struct CreateUserPayload {
    pub name: String,
    pub email: String,
    pub password: String,
    pub role: String,
    pub special_permissions: Option<Vec<String>>,
}

#[derive(Debug)]
pub struct UpdateUserPayload {
    pub name: Option<String>,
    pub email: Option<String>,
    pub password: Option<String>,
    pub role: Option<String>,
    pub special_permissions: Option<Vec<String>>,
}

#[derive(Debug)]
pub struct UpdateStatusPayload {
    pub status: String,
}

#[derive(Debug)]
pub struct PermissionsPayload {
    pub permissions: Vec<String>,
}

#[derive(Debug)]
pub struct ListUsersQuery {
    pub role_filter: Option<String>,
    pub status_filter: Option<String>,
    pub page: Option<i32>,
    pub page_size: Option<i32>,
}

#[derive(Debug)]
pub struct ErrorResponse {
    pub error: String,
}

#[derive(Debug)]
pub struct UpdateMyProfilePayload {
    pub name: Option<String>,
}

/// The token of a request, from the value of its authorization header.
pub fn extract_token(auth_header: Option<&str>) -> (token: Option<String>)
    ensures
        text_view(token) == bearer_token(header_view(auth_header)),
{
    extract_bearer_token(auth_header)
}

/// The number that stands for the role `role`; 0 for a name that is no
/// role.
pub fn role_to_proto(role: &str) -> (number: i32)
    ensures
        number == number_of(role_names(), role@),
{
    role_number(role)
}

/// The role that the number `proto` stands for; a number that stands for
/// no role is read as `viewer`.
pub fn proto_to_role(proto: i32) -> (role: String)
    ensures
        role@ == or_else(name_of(role_names(), proto as int), "viewer"@),
{
    match role_name(proto) {
        Some(role) => role,
        None => "viewer".to_owned(),
    }
}

/// The number that stands for the permission `permission`; 0 for a name
/// that is no permission.
pub fn permission_to_proto(permission: &str) -> (number: i32)
    ensures
        number == number_of(permission_names(), permission@),
{
    permission_number(permission)
}

/// The permission that the number `proto` stands for; a number that stands
/// for no permission is read as `unknown`.
pub fn proto_to_permission(proto: i32) -> (permission: String)
    ensures
        permission@ == or_else(name_of(permission_names(), proto as int), "unknown"@),
{
    match permission_name(proto) {
        Some(permission) => permission,
        None => "unknown".to_owned(),
    }
}

/// The names of the permissions that the numbers `protos` stand for, number
/// by number.
pub fn permissions_to_names(protos: &Vec<i32>) -> (names: Vec<String>)
    ensures
        names@.len() == protos@.len(),
        forall|i: int|
            0 <= i < protos@.len() ==> (#[trigger] names@[i])@ == or_else(
                name_of(permission_names(), protos@[i] as int),
                "unknown"@,
            ),
{
    let mut names: Vec<String> = Vec::new();
    let mut i: usize = 0;
    while i < protos.len()
        invariant
            i <= protos.len(),
            names@.len() == i,
            forall|k: int|
                0 <= k < i ==> (#[trigger] names@[k])@ == or_else(
                    name_of(permission_names(), protos@[k] as int),
                    "unknown"@,
                ),
        decreases protos.len() - i,
    {
        names.push(proto_to_permission(protos[i]));
        i += 1;
    }
    names
}

/// The numbers that stand for the permissions `names`, name by name.
pub fn permissions_to_protos(names: &Vec<String>) -> (protos: Vec<i32>)
    ensures
        protos@.len() == names@.len(),
        forall|i: int|
            0 <= i < names@.len() ==> #[trigger] protos@[i] == number_of(
                permission_names(),
                names@[i]@,
            ),
{
    let mut protos: Vec<i32> = Vec::new();
    let mut i: usize = 0;
    while i < names.len()
        invariant
            i <= names.len(),
            protos@.len() == i,
            forall|k: int|
                0 <= k < i ==> #[trigger] protos@[k] == number_of(permission_names(), names@[k]@),
        decreases names.len() - i,
    {
        protos.push(permission_to_proto(names[i].as_str()));
        i += 1;
    }
    protos
}

/// The name of the status that the number `status` stands for: 1 stands
/// for `active`, every other number for `inactive`.
pub fn status_name(status: i32) -> (name: &'static str)
    ensures
        status == 1 ==> name@ == "active"@,
        status != 1 ==> name@ == "inactive"@,
{
    if status == 1 {
        "active"
    } else {
        "inactive"
    }
}

/// The page and the number of users on a page that a query asks for: the
/// first page and 10 users where it names none.
pub fn users_page(query: &ListUsersQuery) -> (page: (i32, i32))
    ensures
        page.0 == asked(query.page, 1),
        page.1 == asked(query.page_size, 10),
{
    (
        match query.page {
            Some(page) => page,
            None => 1,
        },
        match query.page_size {
            Some(size) => size,
            None => 10,
        },
    )
}

/// A user as the gateway shows it to clients: the role, the status and the
/// permissions by their names.
#[derive(Debug, PartialEq, Eq)]
pub struct UserJson {
    pub id: String,
    pub name: String,
    pub email: String,
    pub role: String,
    pub status: String,
    pub base_permissions: Vec<String>,
    pub special_permissions: Vec<String>,
    pub joined_date: String,
    pub last_active: String,
    pub git_username: Option<String>,
    pub git_email: Option<String>,
}

/// Whether `names` are the names that the numbers `protos` stand for,
/// number by number.
pub open spec fn names_of(names: Seq<String>, protos: Seq<i32>) -> bool {
    &&& names.len() == protos.len()
    &&& forall|i: int|
        0 <= i < protos.len() ==> (#[trigger] names[i])@ == or_else(
            name_of(permission_names(), protos[i] as int),
            "unknown"@,
        )
}

/// What the gateway shows of a user that came over the wire: the numbers
/// read as names, all else as it came.
pub fn user_to_json(user: &UserMessage) -> (shown: UserJson)
    ensures
        shown.id@ == user.id@,
        shown.name@ == user.name@,
        shown.email@ == user.email@,
        shown.role@ == or_else(name_of(role_names(), user.role as int), "viewer"@),
        user.status == 1 ==> shown.status@ == "active"@,
        user.status != 1 ==> shown.status@ == "inactive"@,
        names_of(shown.base_permissions@, user.base_permissions@),
        names_of(shown.special_permissions@, user.special_permissions@),
        shown.joined_date@ == user.joined_date@,
        shown.last_active@ == user.last_active@,
        text_view(shown.git_username) == text_view(user.git_username),
        text_view(shown.git_email) == text_view(user.git_email),
{
    UserJson {
        id: user.id.clone(),
        name: user.name.clone(),
        email: user.email.clone(),
        role: proto_to_role(user.role),
        status: status_name(user.status).to_owned(),
        base_permissions: permissions_to_names(&user.base_permissions),
        special_permissions: permissions_to_names(&user.special_permissions),
        joined_date: user.joined_date.clone(),
        last_active: user.last_active.clone(),
        git_username: clone_text(&user.git_username),
        git_email: clone_text(&user.git_email),
    }
}

} // verus!
