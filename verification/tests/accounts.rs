use testspectra::auth::{
    check_login, extract_bearer_token, hash_password, is_refresh_token, issue_claims,
    judge_login, verify_password, LoginError, ACCESS_TOKEN_SECONDS, REFRESH_TOKEN_SECONDS,
};
use testspectra::config::{Config, ConfigValues};
use testspectra::permissions::{
    get_base_permissions, permission_table, permission_to_proto, proto_to_permission,
    proto_to_role, role_table, role_to_proto,
};
use testspectra::time::Timestamp;
use testspectra::user_service::{
    permissions_to_grant, status_to_proto, user_has_permission, UserWithPermissions as ServiceUser,
};
use testspectra::users::{
    get_base_permissions_for_role, User, UserResponse, UserWithPermissions,
};

fn moment(secs: i64) -> Timestamp {
    Timestamp { secs, nanos: 0 }
}

fn user() -> User {
    User {
        id: 0x0102030405060708090a0b0c0d0e0f10,
        email: "ada@example.test".to_string(),
        password_hash: "hash".to_string(),
        name: "Ada".to_string(),
        role: "qa_lead".to_string(),
        status: "active".to_string(),
        created_at: moment(0),
        updated_at: moment(1_431_648_000),
        last_active: Timestamp { secs: 1_431_648_000, nanos: 500_000_000 },
        joined_date: moment(86_400),
        git_email: None,
        git_username: Some("ada-l".to_string()),
    }
}

#[test]
fn the_token_follows_the_word_bearer() {
    assert_eq!(extract_bearer_token(Some("Bearer abc.def")), Some("abc.def".to_string()));
    assert_eq!(extract_bearer_token(Some("Bearer ")), Some(String::new()));
    assert_eq!(extract_bearer_token(Some("bearer abc")), None);
    assert_eq!(extract_bearer_token(Some("Basic abc")), None);
    assert_eq!(extract_bearer_token(Some("")), None);
    assert_eq!(extract_bearer_token(None), None);
    assert_eq!(testspectra::proxy::extract_token(Some("Bearer x")), Some("x".to_string()));
}

#[test]
fn claims_expire_after_their_lifetime() {
    let access = issue_claims("u", "e", "r", "access", 1000, ACCESS_TOKEN_SECONDS);
    assert_eq!((access.iat, access.exp), (1000, 4600));
    assert_eq!(access.sub, "u");
    assert!(!is_refresh_token(&access));
    let refresh = issue_claims("u", "e", "r", "refresh", 1000, REFRESH_TOKEN_SECONDS);
    assert_eq!(refresh.exp, 1000 + 7 * 24 * 3600);
    assert!(is_refresh_token(&refresh));
    let service = testspectra::user_service::issue_claims("u", "e", "r", 10, 3600);
    assert_eq!((service.iat, service.exp), (10, 3610));
    assert_eq!(testspectra::user_service::REFRESH_TOKEN_SECONDS, 604800);
}

#[test]
fn a_login_is_judged_by_status_then_by_password() {
    assert_eq!(judge_login("active", Some(true)), Ok(()));
    assert_eq!(judge_login("active", Some(false)), Err(LoginError::InvalidCredentials));
    assert_eq!(judge_login("active", None), Err(LoginError::UnreadableHash));
    assert_eq!(judge_login("inactive", Some(true)), Err(LoginError::AccountNotActive));
    assert_eq!(judge_login("Active", Some(true)), Err(LoginError::AccountNotActive));
    assert_eq!(judge_login("", None), Err(LoginError::AccountNotActive));
}

#[test]
fn a_password_verifies_against_its_hash() {
    let known = "$2b$04$EGdrhbKUv8Oc9vGiXX0HQOxSg445d458Muh7DAHskb6QbtCvdxcie";
    assert_eq!(verify_password("correctbatteryhorsestapler", known), Some(true));
    assert_eq!(verify_password("wrong", known), Some(false));
    assert_eq!(verify_password("secret", "not a hash"), None);
    assert_eq!(check_login("active", "correctbatteryhorsestapler", known), Ok(()));
    assert_eq!(check_login("active", "wrong", known), Err(LoginError::InvalidCredentials));
    assert_eq!(check_login("active", "x", "not a hash"), Err(LoginError::UnreadableHash));
    assert_eq!(check_login("locked", "correctbatteryhorsestapler", known), Err(LoginError::AccountNotActive));
}

#[test]
fn a_fresh_hash_verifies() {
    let hash = hash_password("s3cret").unwrap();
    assert_ne!(hash, "s3cret");
    assert_eq!(verify_password("s3cret", &hash), Some(true));
    assert_eq!(verify_password("S3cret", &hash), Some(false));
}

#[test]
fn settings_that_are_left_out_have_their_usual_values() {
    let config = Config::from_values(ConfigValues {
        database_url: "postgres://db".to_string(),
        server_addr: None,
        jwt_secret: "s".to_string(),
        admin_email: None,
        admin_password: None,
        admin_name: Some("Root".to_string()),
    });
    assert_eq!(
        config,
        Config {
            database_url: "postgres://db".to_string(),
            server_addr: "0.0.0.0:3000".to_string(),
            jwt_secret: "s".to_string(),
            admin_email: "admin@testspectra.com".to_string(),
            admin_password: "Admin123!".to_string(),
            admin_name: "Root".to_string(),
        }
    );
}

#[test]
fn permissions_and_roles_have_their_numbers() {
    let permissions = permission_table();
    assert_eq!(permissions.len(), 12);
    for (at, name) in permissions.iter().enumerate() {
        assert_eq!(permission_to_proto(name), at as i32 + 1);
        assert_eq!(proto_to_permission(at as i32 + 1), Some(name.to_string()));
        assert_eq!(testspectra::proxy::permission_to_proto(name), at as i32 + 1);
        assert_eq!(testspectra::proxy::proto_to_permission(at as i32 + 1), *name);
    }
    let roles = role_table();
    assert_eq!(roles.len(), 7);
    for (at, name) in roles.iter().enumerate() {
        assert_eq!(role_to_proto(name), at as i32 + 1);
        assert_eq!(proto_to_role(at as i32 + 1), Some(name.to_string()));
        assert_eq!(testspectra::proxy::role_to_proto(name), at as i32 + 1);
        assert_eq!(testspectra::proxy::proto_to_role(at as i32 + 1), *name);
    }
    assert_eq!(permission_to_proto("manage_users"), 1);
    assert_eq!(permission_to_proto("manage_integrations"), 12);
    assert_eq!(permission_to_proto("Manage_Users"), 0);
    assert_eq!(role_to_proto("viewer"), 7);
    assert_eq!(role_to_proto("root"), 0);
    for number in [0, -1, 8, 13, i32::MAX, i32::MIN] {
        assert_eq!(proto_to_role(number).filter(|_| number == 8), None);
        assert_eq!(proto_to_permission(number), if number == 8 { Some("manage_configurations".to_string()) } else { None });
    }
    assert_eq!(proto_to_role(0), None);
    assert_eq!(testspectra::proxy::proto_to_role(0), "viewer");
    assert_eq!(testspectra::proxy::proto_to_role(99), "viewer");
    assert_eq!(testspectra::proxy::proto_to_permission(0), "unknown");
    assert_eq!(testspectra::proxy::proto_to_permission(13), "unknown");
    assert_eq!(
        testspectra::proxy::permissions_to_names(&vec![1, 0, 12]),
        vec!["manage_users", "unknown", "manage_integrations"]
    );
    assert_eq!(
        testspectra::proxy::permissions_to_protos(&vec!["export_reports".to_string(), "x".to_string()]),
        vec![11, 0]
    );
    assert_eq!(testspectra::proxy::status_name(1), "active");
    assert_eq!(testspectra::proxy::status_name(2), "inactive");
    assert_eq!(testspectra::proxy::status_name(0), "inactive");
}

#[test]
fn roles_have_their_permissions_from_the_start() {
    assert_eq!(get_base_permissions("admin").len(), 7);
    assert_eq!(
        get_base_permissions("qa_engineer"),
        vec!["create_edit_test_cases", "execute_all_tests", "record_test_results"]
    );
    assert_eq!(get_base_permissions("developer"), vec!["execute_automated_tests"]);
    assert_eq!(get_base_permissions("ui_ux_designer"), vec!["full_test_case_access", "export_reports"]);
    assert!(get_base_permissions("viewer").is_empty());
    assert!(get_base_permissions("ROLE_ADMIN").is_empty());
    assert!(get_base_permissions("").is_empty());
    assert_eq!(get_base_permissions_for_role("ROLE_ADMIN"), get_base_permissions("admin"));
    assert_eq!(get_base_permissions_for_role("qa_lead"), get_base_permissions("qa_lead"));
    assert_eq!(get_base_permissions_for_role("ROLE_PRODUCT_MANAGER"), vec!["export_reports"]);
    assert!(get_base_permissions_for_role("ROLE_VIEWER").is_empty());
    assert!(get_base_permissions_for_role("nobody").is_empty());
    assert!(get_base_permissions_for_role("qa_lead").contains(&"review_approve_test_cases".to_string()));
    assert!(!get_base_permissions_for_role("admin").contains(&"review_approve_test_cases".to_string()));
}

#[test]
fn names_for_version_control_fall_back_to_address_and_name() {
    let shown = UserResponse::from_user_with_permissions(UserWithPermissions {
        user: user(),
        special_permissions: vec!["export_reports".to_string()],
        base_permissions: get_base_permissions_for_role("qa_lead"),
    })
    .unwrap();
    assert_eq!(shown.id, "01020304-0506-0708-090a-0b0c0d0e0f10");
    assert_eq!(shown.git_email, "ada@example.test");
    assert_eq!(shown.git_username, "ada-l");
    assert_eq!(shown.created_at, "1970-01-01T00:00:00+00:00");
    assert_eq!(shown.updated_at, "2015-05-15T00:00:00+00:00");
    assert_eq!(shown.last_active, "2015-05-15T00:00:00.500+00:00");
    assert_eq!(shown.joined_date, "1970-01-02T00:00:00+00:00");
    assert_eq!(shown.special_permissions, vec!["export_reports"]);
    assert_eq!(shown.base_permissions.len(), 6);
    assert_eq!((shown.role.as_str(), shown.status.as_str()), ("qa_lead", "active"));
}

#[test]
fn a_time_outside_the_range_of_dates_has_no_text() {
    assert_eq!(moment(0).to_rfc3339(), Some("1970-01-01T00:00:00+00:00".to_string()));
    assert_eq!(moment(-1).to_rfc3339(), Some("1969-12-31T23:59:59+00:00".to_string()));
    assert_eq!(moment(i64::MAX).to_rfc3339(), None);
    assert_eq!(Timestamp { secs: 0, nanos: 2_000_000_000 }.to_rfc3339(), None);
    assert!(moment(1).is_before(&moment(2)));
    assert!(moment(1).is_before(&Timestamp { secs: 1, nanos: 1 }));
    assert!(!moment(1).is_before(&moment(1)));
    let mut late = user();
    late.joined_date = moment(i64::MAX);
    let shown = UserResponse::from_user_with_permissions(UserWithPermissions {
        user: late,
        special_permissions: vec![],
        base_permissions: vec![],
    });
    assert!(shown.is_none());
}

#[test]
fn the_user_service_reads_statuses_and_grants() {
    assert_eq!(status_to_proto("active"), 1);
    assert_eq!(status_to_proto("inactive"), 2);
    assert_eq!(status_to_proto(""), 2);
    assert_eq!(
        permissions_to_grant(&vec![3, 0, 11, 99, 3]),
        vec!["full_test_case_access", "export_reports", "full_test_case_access"]
    );
    assert!(permissions_to_grant(&vec![]).is_empty());
    let someone = ServiceUser {
        id: 1,
        name: "A".to_string(),
        email: "a@b".to_string(),
        role: "viewer".to_string(),
        status: "active".to_string(),
        git_username: None,
        git_email: None,
        joined_date: moment(0),
        last_active: moment(0),
        base_permissions: vec!["export_reports".to_string()],
        special_permissions: vec!["manage_users".to_string()],
    };
    assert!(user_has_permission(&someone, "manage_users"));
    assert!(user_has_permission(&someone, "export_reports"));
    assert!(!user_has_permission(&someone, "manage_qa_team"));
}

#[test]
fn a_user_goes_over_the_wire_by_numbers_and_comes_back_by_names() {
    let someone = ServiceUser {
        id: 0x0102030405060708090a0b0c0d0e0f10,
        name: "Ada".to_string(),
        email: "ada@example.test".to_string(),
        role: "qa_lead".to_string(),
        status: "active".to_string(),
        git_username: Some("ada-l".to_string()),
        git_email: None,
        joined_date: moment(0),
        last_active: moment(86_400),
        base_permissions: vec!["manage_qa_team".to_string(), "export_reports".to_string()],
        special_permissions: vec!["manage_users".to_string(), "made_up".to_string()],
    };
    let message = testspectra::user_service::user_to_proto(&someone).unwrap();
    assert_eq!(message.id, "01020304-0506-0708-090a-0b0c0d0e0f10");
    assert_eq!((message.role, message.status), (2, 1));
    assert_eq!(message.base_permissions, vec![2, 11]);
    assert_eq!(message.special_permissions, vec![1, 0]);
    assert_eq!(message.joined_date, "1970-01-01T00:00:00+00:00");
    assert_eq!(message.last_active, "1970-01-02T00:00:00+00:00");
    let shown = testspectra::proxy::user_to_json(&message);
    assert_eq!(shown.id, message.id);
    assert_eq!(shown.role, "qa_lead");
    assert_eq!(shown.status, "active");
    assert_eq!(shown.base_permissions, vec!["manage_qa_team", "export_reports"]);
    assert_eq!(shown.special_permissions, vec!["manage_users", "unknown"]);
    assert_eq!(shown.git_username, Some("ada-l".to_string()));
    assert_eq!(shown.git_email, None);
    let mut gone = someone;
    gone.status = "inactive".to_string();
    gone.role = "nobody".to_string();
    let message = testspectra::user_service::user_to_proto(&gone).unwrap();
    assert_eq!((message.role, message.status), (0, 2));
    let shown = testspectra::proxy::user_to_json(&message);
    assert_eq!((shown.role.as_str(), shown.status.as_str()), ("viewer", "inactive"));
    gone.last_active = moment(i64::MAX);
    assert!(testspectra::user_service::user_to_proto(&gone).is_none());
}

#[test]
fn a_change_of_a_user_numbers_its_values() {
    let change = testspectra::filters::user_change(None, None, None, None);
    assert_eq!(change.joined_by(", "), "updated_at = NOW()");
    assert!(change.params.is_empty());
    let change = testspectra::filters::user_change(Some("Ada"), None, Some("h"), Some("admin"));
    assert_eq!(
        change.joined_by(", "),
        "updated_at = NOW(), name = $1, password_hash = $2, role = $3"
    );
    assert_eq!(change.params, vec!["Ada", "h", "admin"]);
    let change = testspectra::filters::user_change(None, Some("a@b"), None, None);
    assert_eq!(change.joined_by(", "), "updated_at = NOW(), email = $1");
    assert_eq!(testspectra::order::REBALANCE_INTERVAL_SECONDS, 9 * 60 * 60);
}
