//! Users: what is stored of them, what clients send about them, and what
//! is shown of them.
use crate::ids::{hyphenated, id_to_string};
use crate::step::text_view;
use crate::text::{str_eq, string_views, texts, to_strings};
use crate::time::{rfc3339, Timestamp};
use vstd::prelude::*;

verus! {

/// A user as stored.
#[derive(Debug)]
pub struct User {
    pub id: u128,
    pub email: String,
    pub password_hash: String,
    pub name: String,
    pub role: String,
    pub status: String,
    pub created_at: Timestamp,
    pub updated_at: Timestamp,
    pub last_active: Timestamp,
    pub joined_date: Timestamp,
    pub git_email: Option<String>,
    pub git_username: Option<String>,
}

/// A permission that was granted to one user beyond those of the role.
#[derive(Debug)]
pub struct UserSpecialPermission {
    pub id: u128,
    pub user_id: u128,
    pub permission: String,
    pub granted_at: Timestamp,
    pub granted_by: Option<u128>,
}

/// A user with the permissions of the role and the permissions granted
/// beyond them.
#[derive(Debug)]
pub struct UserWithPermissions {
    pub user: User,
    pub special_permissions: Vec<String>,
    pub base_permissions: Vec<String>,
}

#[derive(Debug)]
pub struct LoginRequest {
    pub email: String,
    pub password: String,
}

#[derive(Debug)]
pub struct LoginResponse {
    pub access_token: String,
    pub refresh_token: String,
    pub user: UserResponse,
}

/// A user as shown to clients.
#[derive(Debug)]
pub struct UserResponse {
    pub id: String,
    pub email: String,
    pub name: String,
    pub role: String,
    pub status: String,
    pub base_permissions: Vec<String>,
    pub special_permissions: Vec<String>,
    pub created_at: String,
    pub updated_at: String,
    pub last_active: String,
    pub joined_date: String,
    pub git_email: String,
    pub git_username: String,
}

#[derive(Debug)]
pub struct CreateUserRequest {
    pub email: String,
    pub password: String,
    pub name: String,
    pub role: String,
}

#[derive(Debug)]
pub struct UpdateUserRequest {
    pub email: Option<String>,
    pub name: Option<String>,
    pub role: Option<String>,
}

#[derive(Debug)]
pub struct UpdateUserStatusRequest {
    pub status: String,
}

#[derive(Debug)]
pub struct UpdateMyProfileRequest {
    pub name: Option<String>,
    pub current_password: Option<String>,
    pub new_password: Option<String>,
}

#[derive(Debug)]
pub struct GrantPermissionsRequest {
    pub permissions: Vec<String>,
}

#[derive(Debug)]
pub struct RefreshTokenRequest {
    pub refresh_token: String,
}

#[derive(Debug)]
pub struct RefreshTokenResponse {
    pub access_token: String,
    pub refresh_token: String,
}

#[derive(Debug)]
pub struct ListUsersQuery {
    pub search: Option<String>,
    pub role: Option<String>,
    pub status: Option<String>,
    pub page: Option<i32>,
    pub page_size: Option<i32>,
}

/// The text `wanted` where it is present, else `fallback`.
pub open spec fn or_else(wanted: Option<Seq<char>>, fallback: Seq<char>) -> Seq<char> {
    match wanted {
        Some(text) => text,
        None => fallback,
    }
}

/// The four times of a user as texts, in the order of creation, update,
/// last activity and joining.
pub struct UserTimes {
    pub created_at: String,
    pub updated_at: String,
    pub last_active: String,
    pub joined_date: String,
}

impl UserResponse {
    /// What is shown of a user, given the text of the identifier and the
    /// texts of the four times: the address and the name stand in for an
    /// address and a name for version control that are not set.
    pub fn from_parts(uwp: UserWithPermissions, id: String, times: UserTimes) -> (shown:
        UserResponse)
        ensures
            shown.id@ == id@,
            shown.email@ == uwp.user.email@,
            shown.name@ == uwp.user.name@,
            shown.role@ == uwp.user.role@,
            shown.status@ == uwp.user.status@,
            shown.git_email@ == or_else(text_view(uwp.user.git_email), uwp.user.email@),
            shown.git_username@ == or_else(text_view(uwp.user.git_username), uwp.user.name@),
            shown.base_permissions == uwp.base_permissions,
            shown.special_permissions == uwp.special_permissions,
            shown.created_at@ == times.created_at@,
            shown.updated_at@ == times.updated_at@,
            shown.last_active@ == times.last_active@,
            shown.joined_date@ == times.joined_date@,
    {
        let git_email = match &uwp.user.git_email {
            Some(address) => address.clone(),
            None => uwp.user.email.clone(),
        };
        let git_username = match &uwp.user.git_username {
            Some(name) => name.clone(),
            None => uwp.user.name.clone(),
        };
        UserResponse {
            id,
            email: uwp.user.email,
            name: uwp.user.name,
            role: uwp.user.role,
            status: uwp.user.status,
            base_permissions: uwp.base_permissions,
            special_permissions: uwp.special_permissions,
            created_at: times.created_at,
            updated_at: times.updated_at,
            last_active: times.last_active,
            joined_date: times.joined_date,
            git_email,
            git_username,
        }
    }

    /// What is shown of a user: the identifier in hyphenated form and the
    /// times in the form of RFC 3339; nothing where one of the times lies
    /// outside the range of dates.
    pub fn from_user_with_permissions(uwp: UserWithPermissions) -> (shown: Option<UserResponse>)
        ensures
            shown.is_some() == (rfc3339(
                uwp.user.created_at.secs,
                uwp.user.created_at.nanos,
            ).is_some() && rfc3339(uwp.user.updated_at.secs, uwp.user.updated_at.nanos).is_some()
                && rfc3339(uwp.user.last_active.secs, uwp.user.last_active.nanos).is_some()
                && rfc3339(uwp.user.joined_date.secs, uwp.user.joined_date.nanos).is_some()),
            shown.is_some() ==> shown.unwrap().id@ == hyphenated(uwp.user.id),
            shown.is_some() ==> shown.unwrap().email@ == uwp.user.email@,
            shown.is_some() ==> shown.unwrap().name@ == uwp.user.name@,
            shown.is_some() ==> shown.unwrap().role@ == uwp.user.role@,
            shown.is_some() ==> shown.unwrap().status@ == uwp.user.status@,
            shown.is_some() ==> shown.unwrap().git_email@ == or_else(
                text_view(uwp.user.git_email),
                uwp.user.email@,
            ),
            shown.is_some() ==> shown.unwrap().git_username@ == or_else(
                text_view(uwp.user.git_username),
                uwp.user.name@,
            ),
            shown.is_some() ==> shown.unwrap().base_permissions == uwp.base_permissions,
            shown.is_some() ==> shown.unwrap().special_permissions == uwp.special_permissions,
            shown.is_some() ==> Some(shown.unwrap().created_at@) == rfc3339(
                uwp.user.created_at.secs,
                uwp.user.created_at.nanos,
            ),
            shown.is_some() ==> Some(shown.unwrap().updated_at@) == rfc3339(
                uwp.user.updated_at.secs,
                uwp.user.updated_at.nanos,
            ),
            shown.is_some() ==> Some(shown.unwrap().last_active@) == rfc3339(
                uwp.user.last_active.secs,
                uwp.user.last_active.nanos,
            ),
            shown.is_some() ==> Some(shown.unwrap().joined_date@) == rfc3339(
                uwp.user.joined_date.secs,
                uwp.user.joined_date.nanos,
            ),
    {
        let created_at = match uwp.user.created_at.to_rfc3339() {
            Some(text) => text,
            None => {
                return None;
            },
        };
        let updated_at = match uwp.user.updated_at.to_rfc3339() {
            Some(text) => text,
            None => {
                return None;
            },
        };
        let last_active = match uwp.user.last_active.to_rfc3339() {
            Some(text) => text,
            None => {
                return None;
            },
        };
        let joined_date = match uwp.user.joined_date.to_rfc3339() {
            Some(text) => text,
            None => {
                return None;
            },
        };
        let id = id_to_string(uwp.user.id);
        Some(
            UserResponse::from_parts(
                uwp,
                id,
                UserTimes { created_at, updated_at, last_active, joined_date },
            ),
        )
    }
}

/// The permissions that a role has from the start, by either of its two
/// spellings; a role that is not known has none.
pub open spec fn role_permissions(role: Seq<char>) -> Seq<Seq<char>> {
    if role == "admin"@ || role == "ROLE_ADMIN"@ {
        seq![
            "manage_users"@,
            "manage_qa_team"@,
            "full_test_case_access"@,
            "execute_all_tests"@,
            "manage_configurations"@,
            "export_reports"@,
            "manage_integrations"@,
        ]
    } else if role == "qa_lead"@ || role == "ROLE_QA_LEAD"@ {
        seq![
            "manage_qa_team"@,
            "full_test_case_access"@,
            "execute_all_tests"@,
            "manage_test_configurations"@,
            "review_approve_test_cases"@,
            "export_reports"@,
        ]
    } else if role == "qa_engineer"@ || role == "ROLE_QA_ENGINEER"@ {
        seq!["create_edit_test_cases"@, "execute_all_tests"@, "record_test_results"@]
    } else if role == "developer"@ || role == "ROLE_DEVELOPER"@ {
        seq!["execute_automated_tests"@]
    } else if role == "product_manager"@ || role == "ROLE_PRODUCT_MANAGER"@ {
        seq!["export_reports"@]
    } else if role == "ui_ux_designer"@ || role == "ROLE_UI_UX_DESIGNER"@ {
        seq!["full_test_case_access"@, "export_reports"@]
    } else {
        seq![]
    }
}

/// The permissions that the role `role` has from the start.
pub fn get_base_permissions_for_role(role: &str) -> (permissions: Vec<String>)
    ensures
        string_views(permissions@) == role_permissions(role@),
{
    let names: Vec<&'static str> = if str_eq(role, "admin") || str_eq(role, "ROLE_ADMIN") {
        vec![
            "manage_users",
            "manage_qa_team",
            "full_test_case_access",
            "execute_all_tests",
            "manage_configurations",
            "export_reports",
            "manage_integrations",
        ]
    } else if str_eq(role, "qa_lead") || str_eq(role, "ROLE_QA_LEAD") {
        vec![
            "manage_qa_team",
            "full_test_case_access",
            "execute_all_tests",
            "manage_test_configurations",
            "review_approve_test_cases",
            "export_reports",
        ]
    } else if str_eq(role, "qa_engineer") || str_eq(role, "ROLE_QA_ENGINEER") {
        vec!["create_edit_test_cases", "execute_all_tests", "record_test_results"]
    } else if str_eq(role, "developer") || str_eq(role, "ROLE_DEVELOPER") {
        vec!["execute_automated_tests"]
    } else if str_eq(role, "product_manager") || str_eq(role, "ROLE_PRODUCT_MANAGER") {
        vec!["export_reports"]
    } else if str_eq(role, "ui_ux_designer") || str_eq(role, "ROLE_UI_UX_DESIGNER") {
        vec!["full_test_case_access", "export_reports"]
    } else {
        vec![]
    };
    assert(texts(names@) =~= role_permissions(role@));
    to_strings(&names)
}

} // verus!
