//! Roles and permissions: their names, the numbers that stand for them on
//! the wire, and the permissions that each role has from the start.
use crate::text::{first_position, position_of_text, str_eq, string_views, texts, to_strings};
use vstd::prelude::*;

verus! {

pub const PERMISSION_MANAGE_USERS: &'static str = "manage_users";

pub const PERMISSION_MANAGE_QA_TEAM: &'static str = "manage_qa_team";

pub const PERMISSION_FULL_TEST_CASE_ACCESS: &'static str = "full_test_case_access";

pub const PERMISSION_CREATE_EDIT_TEST_CASES: &'static str = "create_edit_test_cases";

pub const PERMISSION_EXECUTE_ALL_TESTS: &'static str = "execute_all_tests";

pub const PERMISSION_EXECUTE_AUTOMATED_TESTS: &'static str = "execute_automated_tests";

pub const PERMISSION_RECORD_TEST_RESULTS: &'static str = "record_test_results";

pub const PERMISSION_MANAGE_CONFIGURATIONS: &'static str = "manage_configurations";

pub const PERMISSION_MANAGE_TEST_CONFIGURATIONS: &'static str = "manage_test_configurations";

pub const PERMISSION_REVIEW_APPROVE_TEST_CASES: &'static str = "review_approve_test_cases";

pub const PERMISSION_EXPORT_REPORTS: &'static str = "export_reports";

pub const PERMISSION_MANAGE_INTEGRATIONS: &'static str = "manage_integrations";

pub const ROLE_ADMIN: &'static str = "admin";

pub const ROLE_QA_LEAD: &'static str = "qa_lead";

pub const ROLE_QA_ENGINEER: &'static str = "qa_engineer";

pub const ROLE_DEVELOPER: &'static str = "developer";

pub const ROLE_PRODUCT_MANAGER: &'static str = "product_manager";

pub const ROLE_UI_UX_DESIGNER: &'static str = "ui_ux_designer";

pub const ROLE_VIEWER: &'static str = "viewer";

/// The names of the permissions; the permission at position `i` has the
/// number `i + 1`.
pub open spec fn permission_names() -> Seq<Seq<char>> {
    seq![
        "manage_users"@,
        "manage_qa_team"@,
        "full_test_case_access"@,
        "create_edit_test_cases"@,
        "execute_all_tests"@,
        "execute_automated_tests"@,
        "record_test_results"@,
        "manage_configurations"@,
        "manage_test_configurations"@,
        "review_approve_test_cases"@,
        "export_reports"@,
        "manage_integrations"@,
    ]
}

/// The names of the roles; the role at position `i` has the number `i + 1`.
pub open spec fn role_names() -> Seq<Seq<char>> {
    seq![
        "admin"@,
        "qa_lead"@,
        "qa_engineer"@,
        "developer"@,
        "product_manager"@,
        "ui_ux_designer"@,
        "viewer"@,
    ]
}

/// The number of the name `name` in the table `names`: its first position
/// plus 1, and 0 for a name that is not in the table.
pub open spec fn number_of(names: Seq<Seq<char>>, name: Seq<char>) -> int {
    match first_position(names, name, 0) {
        Some(at) => at + 1,
        None => 0,
    }
}

/// The name with the number `number` in the table `names`, if there is one.
pub open spec fn name_of(names: Seq<Seq<char>>, number: int) -> Option<Seq<char>> {
    if 1 <= number <= names.len() {
        Some(names[number - 1])
    } else {
        None
    }
}

/// The permissions that a role has from the start; a role that is not
/// known has none.
pub open spec fn base_permissions(role: Seq<char>) -> Seq<Seq<char>> {
    if role == "admin"@ {
        seq![
            "manage_users"@,
            "manage_qa_team"@,
            "full_test_case_access"@,
            "execute_all_tests"@,
            "manage_configurations"@,
            "export_reports"@,
            "manage_integrations"@,
        ]
    } else if role == "qa_lead"@ {
        seq![
            "manage_qa_team"@,
            "full_test_case_access"@,
            "execute_all_tests"@,
            "manage_test_configurations"@,
            "review_approve_test_cases"@,
            "export_reports"@,
        ]
    } else if role == "qa_engineer"@ {
        seq!["create_edit_test_cases"@, "execute_all_tests"@, "record_test_results"@]
    } else if role == "developer"@ {
        seq!["execute_automated_tests"@]
    } else if role == "product_manager"@ {
        seq!["export_reports"@]
    } else if role == "ui_ux_designer"@ {
        seq!["full_test_case_access"@, "export_reports"@]
    } else {
        seq![]
    }
}

/// The table of the names of the permissions.
pub fn permission_table() -> (names: Vec<&'static str>)
    ensures
        texts(names@) == permission_names(),
{
    let names = vec![
        PERMISSION_MANAGE_USERS,
        PERMISSION_MANAGE_QA_TEAM,
        PERMISSION_FULL_TEST_CASE_ACCESS,
        PERMISSION_CREATE_EDIT_TEST_CASES,
        PERMISSION_EXECUTE_ALL_TESTS,
        PERMISSION_EXECUTE_AUTOMATED_TESTS,
        PERMISSION_RECORD_TEST_RESULTS,
        PERMISSION_MANAGE_CONFIGURATIONS,
        PERMISSION_MANAGE_TEST_CONFIGURATIONS,
        PERMISSION_REVIEW_APPROVE_TEST_CASES,
        PERMISSION_EXPORT_REPORTS,
        PERMISSION_MANAGE_INTEGRATIONS,
    ];
    assert(texts(names@) =~= permission_names());
    names
}

/// The table of the names of the roles.
pub fn role_table() -> (names: Vec<&'static str>)
    ensures
        texts(names@) == role_names(),
{
    let names = vec![
        ROLE_ADMIN,
        ROLE_QA_LEAD,
        ROLE_QA_ENGINEER,
        ROLE_DEVELOPER,
        ROLE_PRODUCT_MANAGER,
        ROLE_UI_UX_DESIGNER,
        ROLE_VIEWER,
    ];
    assert(texts(names@) =~= role_names());
    names
}

/// The number of `name` in `names`.
fn number_in(names: &Vec<&'static str>, name: &str) -> (number: i32)
    requires
        names@.len() < 100,
    ensures
        number == number_of(texts(names@), name@),
{
    match position_of_text(names, name) {
        Some(at) => (at + 1) as i32,
        None => 0,
    }
}

/// The name with the number `number` in `names`.
fn name_in(names: &Vec<&'static str>, number: i32) -> (name: Option<String>)
    ensures
        name.is_some() == name_of(texts(names@), number as int).is_some(),
        name.is_some() ==> name.unwrap()@ == name_of(texts(names@), number as int).unwrap(),
{
    if 1 <= number && (number as usize) <= names.len() {
        let at = (number - 1) as usize;
        assert(texts(names@)[at as int] == names@[at as int]@);
        Some(names[at].to_owned())
    } else {
        None
    }
}

/// The permissions that the role `role` has from the start.
pub fn get_base_permissions(role: &str) -> (permissions: Vec<String>)
    ensures
        string_views(permissions@) == base_permissions(role@),
{
    let names: Vec<&'static str> = if str_eq(role, ROLE_ADMIN) {
        vec![
            PERMISSION_MANAGE_USERS,
            PERMISSION_MANAGE_QA_TEAM,
            PERMISSION_FULL_TEST_CASE_ACCESS,
            PERMISSION_EXECUTE_ALL_TESTS,
            PERMISSION_MANAGE_CONFIGURATIONS,
            PERMISSION_EXPORT_REPORTS,
            PERMISSION_MANAGE_INTEGRATIONS,
        ]
    } else if str_eq(role, ROLE_QA_LEAD) {
        vec![
            PERMISSION_MANAGE_QA_TEAM,
            PERMISSION_FULL_TEST_CASE_ACCESS,
            PERMISSION_EXECUTE_ALL_TESTS,
            PERMISSION_MANAGE_TEST_CONFIGURATIONS,
            PERMISSION_REVIEW_APPROVE_TEST_CASES,
            PERMISSION_EXPORT_REPORTS,
        ]
    } else if str_eq(role, ROLE_QA_ENGINEER) {
        vec![
            PERMISSION_CREATE_EDIT_TEST_CASES,
            PERMISSION_EXECUTE_ALL_TESTS,
            PERMISSION_RECORD_TEST_RESULTS,
        ]
    } else if str_eq(role, ROLE_DEVELOPER) {
        vec![PERMISSION_EXECUTE_AUTOMATED_TESTS]
    } else if str_eq(role, ROLE_PRODUCT_MANAGER) {
        vec![PERMISSION_EXPORT_REPORTS]
    } else if str_eq(role, ROLE_UI_UX_DESIGNER) {
        vec![PERMISSION_FULL_TEST_CASE_ACCESS, PERMISSION_EXPORT_REPORTS]
    } else {
        vec![]
    };
    assert(texts(names@) =~= base_permissions(role@));
    to_strings(&names)
}

/// The number that stands for the permission `permission`; 0 for a name
/// that is no permission.
pub fn permission_to_proto(permission: &str) -> (number: i32)
    ensures
        number == number_of(permission_names(), permission@),
{
    number_in(&permission_table(), permission)
}

/// The permission that the number `proto` stands for.
pub fn proto_to_permission(proto: i32) -> (permission: Option<String>)
    ensures
        permission.is_some() == name_of(permission_names(), proto as int).is_some(),
        permission.is_some() ==> permission.unwrap()@ == name_of(
            permission_names(),
            proto as int,
        ).unwrap(),
{
    name_in(&permission_table(), proto)
}

/// The number that stands for the role `role`; 0 for a name that is no
/// role.
pub fn role_to_proto(role: &str) -> (number: i32)
    ensures
        number == number_of(role_names(), role@),
{
    number_in(&role_table(), role)
}

/// The role that the number `proto` stands for.
pub fn proto_to_role(proto: i32) -> (role: Option<String>)
    ensures
        role.is_some() == name_of(role_names(), proto as int).is_some(),
        role.is_some() ==> role.unwrap()@ == name_of(role_names(), proto as int).unwrap(),
{
    name_in(&role_table(), proto)
}

/// A name that has a number is the name that its number stands for.
pub proof fn lemma_number_names_its_name(names: Seq<Seq<char>>, name: Seq<char>)
    requires
        number_of(names, name) != 0,
    ensures
        name_of(names, number_of(names, name)) == Some(name),
{
    lemma_first_position(names, name, 0);
}

/// The first position of a name is a position of the table at which the
/// name stands, and the name stands at no position before it.
pub proof fn lemma_first_position(names: Seq<Seq<char>>, name: Seq<char>, from: int)
    requires
        0 <= from,
    ensures
        first_position(names, name, from).is_some() ==> from <= first_position(
            names,
            name,
            from,
        ).unwrap() < names.len() && names[first_position(names, name, from).unwrap()] == name,
        first_position(names, name, from).is_some() ==> forall|k: int|
            from <= k < first_position(names, name, from).unwrap() ==> #[trigger] names[k] != name,
        first_position(names, name, from).is_none() ==> forall|k: int|
            from <= k < names.len() ==> #[trigger] names[k] != name,
    decreases names.len() - from,
{
    if from < names.len() && names[from] != name {
        lemma_first_position(names, name, from + 1);
    }
}

/// In a table without a name that stands twice, the number of the name at
/// position `at` is `at + 1`: numbers and names stand for one another.
pub proof fn lemma_name_has_its_number(names: Seq<Seq<char>>, at: int)
    requires
        names.no_duplicates(),
        0 <= at < names.len(),
    ensures
        number_of(names, names[at]) == at + 1,
{
    lemma_first_position(names, names[at], 0);
}

/// No name stands twice in the table of the permissions or in the table
/// of the roles, so that every name has the number of its position.
pub proof fn lemma_tables_distinct()
    ensures
        permission_names().no_duplicates(),
        role_names().no_duplicates(),
        forall|at: int|
            0 <= at < permission_names().len() ==> number_of(
                permission_names(),
                #[trigger] permission_names()[at],
            ) == at + 1,
        forall|at: int|
            0 <= at < role_names().len() ==> number_of(role_names(), #[trigger] role_names()[at])
                == at + 1,
{
    reveal_strlit("manage_users");
    reveal_strlit("manage_qa_team");
    reveal_strlit("full_test_case_access");
    reveal_strlit("create_edit_test_cases");
    reveal_strlit("execute_all_tests");
    reveal_strlit("execute_automated_tests");
    reveal_strlit("record_test_results");
    reveal_strlit("manage_configurations");
    reveal_strlit("manage_test_configurations");
    reveal_strlit("review_approve_test_cases");
    reveal_strlit("export_reports");
    reveal_strlit("manage_integrations");
    reveal_strlit("admin");
    reveal_strlit("qa_lead");
    reveal_strlit("qa_engineer");
    reveal_strlit("developer");
    reveal_strlit("product_manager");
    reveal_strlit("ui_ux_designer");
    reveal_strlit("viewer");
    let permissions = permission_names();
    let roles = role_names();
    assert(permissions.len() == 12);
    assert(roles.len() == 7);
    assert(permissions[0].len() != permissions[1].len());
    assert(permissions[0].len() != permissions[2].len());
    assert(permissions[0].len() != permissions[3].len());
    assert(permissions[0].len() != permissions[4].len());
    assert(permissions[0].len() != permissions[5].len());
    assert(permissions[0].len() != permissions[6].len());
    assert(permissions[0].len() != permissions[7].len());
    assert(permissions[0].len() != permissions[8].len());
    assert(permissions[0].len() != permissions[9].len());
    assert(permissions[0].len() != permissions[10].len());
    assert(permissions[0].len() != permissions[11].len());
    assert(permissions[1].len() != permissions[2].len());
    assert(permissions[1].len() != permissions[3].len());
    assert(permissions[1].len() != permissions[4].len());
    assert(permissions[1].len() != permissions[5].len());
    assert(permissions[1].len() != permissions[6].len());
    assert(permissions[1].len() != permissions[7].len());
    assert(permissions[1].len() != permissions[8].len());
    assert(permissions[1].len() != permissions[9].len());
    assert(permissions[1][0] != permissions[10][0]);
    assert(permissions[1].len() != permissions[11].len());
    assert(permissions[2].len() != permissions[3].len());
    assert(permissions[2].len() != permissions[4].len());
    assert(permissions[2].len() != permissions[5].len());
    assert(permissions[2].len() != permissions[6].len());
    assert(permissions[2][0] != permissions[7][0]);
    assert(permissions[2].len() != permissions[8].len());
    assert(permissions[2].len() != permissions[9].len());
    assert(permissions[2].len() != permissions[10].len());
    assert(permissions[2].len() != permissions[11].len());
    assert(permissions[3].len() != permissions[4].len());
    assert(permissions[3].len() != permissions[5].len());
    assert(permissions[3].len() != permissions[6].len());
    assert(permissions[3].len() != permissions[7].len());
    assert(permissions[3].len() != permissions[8].len());
    assert(permissions[3].len() != permissions[9].len());
    assert(permissions[3].len() != permissions[10].len());
    assert(permissions[3].len() != permissions[11].len());
    assert(permissions[4].len() != permissions[5].len());
    assert(permissions[4].len() != permissions[6].len());
    assert(permissions[4].len() != permissions[7].len());
    assert(permissions[4].len() != permissions[8].len());
    assert(permissions[4].len() != permissions[9].len());
    assert(permissions[4].len() != permissions[10].len());
    assert(permissions[4].len() != permissions[11].len());
    assert(permissions[5].len() != permissions[6].len());
    assert(permissions[5].len() != permissions[7].len());
    assert(permissions[5].len() != permissions[8].len());
    assert(permissions[5].len() != permissions[9].len());
    assert(permissions[5].len() != permissions[10].len());
    assert(permissions[5].len() != permissions[11].len());
    assert(permissions[6].len() != permissions[7].len());
    assert(permissions[6].len() != permissions[8].len());
    assert(permissions[6].len() != permissions[9].len());
    assert(permissions[6].len() != permissions[10].len());
    assert(permissions[6][0] != permissions[11][0]);
    assert(permissions[7].len() != permissions[8].len());
    assert(permissions[7].len() != permissions[9].len());
    assert(permissions[7].len() != permissions[10].len());
    assert(permissions[7].len() != permissions[11].len());
    assert(permissions[8].len() != permissions[9].len());
    assert(permissions[8].len() != permissions[10].len());
    assert(permissions[8].len() != permissions[11].len());
    assert(permissions[9].len() != permissions[10].len());
    assert(permissions[9].len() != permissions[11].len());
    assert(permissions[10].len() != permissions[11].len());
    assert(roles[0].len() != roles[1].len());
    assert(roles[0].len() != roles[2].len());
    assert(roles[0].len() != roles[3].len());
    assert(roles[0].len() != roles[4].len());
    assert(roles[0].len() != roles[5].len());
    assert(roles[0].len() != roles[6].len());
    assert(roles[1].len() != roles[2].len());
    assert(roles[1].len() != roles[3].len());
    assert(roles[1].len() != roles[4].len());
    assert(roles[1].len() != roles[5].len());
    assert(roles[1].len() != roles[6].len());
    assert(roles[2].len() != roles[3].len());
    assert(roles[2].len() != roles[4].len());
    assert(roles[2].len() != roles[5].len());
    assert(roles[2].len() != roles[6].len());
    assert(roles[3].len() != roles[4].len());
    assert(roles[3].len() != roles[5].len());
    assert(roles[3].len() != roles[6].len());
    assert(roles[4].len() != roles[5].len());
    assert(roles[4].len() != roles[6].len());
    assert(roles[5].len() != roles[6].len());
    assert forall|i: int, j: int| 0 <= i < permissions.len() && 0 <= j < permissions.len() && i
        != j implies permissions[i] != permissions[j] by {
        lemma_texts_differ(permissions[i], permissions[j]);
    }
    assert forall|i: int, j: int| 0 <= i < roles.len() && 0 <= j < roles.len() && i
        != j implies roles[i] != roles[j] by {
        lemma_texts_differ(roles[i], roles[j]);
    }
    assert forall|at: int| 0 <= at < permissions.len() implies number_of(
        permissions,
        #[trigger] permissions[at],
    ) == at + 1 by {
        lemma_name_has_its_number(permissions, at);
    }
    assert forall|at: int| 0 <= at < roles.len() implies number_of(roles, #[trigger] roles[at])
        == at + 1 by {
        lemma_name_has_its_number(roles, at);
    }
}

/// Texts of different lengths, or with different characters at some
/// position, differ.
proof fn lemma_texts_differ(a: Seq<char>, b: Seq<char>)
    ensures
        a.len() != b.len() ==> a != b,
        forall|k: int| 0 <= k < a.len() && k < b.len() && a[k] != b[k] ==> a != b,
{
}

} // verus!
