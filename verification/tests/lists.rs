use testspectra::definitions::{
    ActionDefinition, ActionDefinitionResponse, AssertionDefinition, AssertionDefinitionResponse,
};
use testspectra::filters::{review_queue_filter, test_case_filter, user_filter, SqlFilter};
use testspectra::notifications::{
    default_page, default_page_size, owns_notification, review_approval_notification,
    review_request_edit_notification, CreateNotificationRequest, Notification,
    NotificationQuery, NotificationResponse,
};
use testspectra::order::OrderKey;
use testspectra::paging::{
    bounded_page_window, fixed_page_window, page_offset, page_window, total_pages, PageWindow,
};
use testspectra::params::{ParamMap, ParamValue};
use testspectra::record::{StepContent, StepRecord};
use testspectra::reviews::{
    check_mark_revised, check_review_request, check_reviewer, get_base_permissions_for_role,
    has_permission, queue_status, review_status_after, CreateReviewRequest, ReviewError,
    ReviewQueueQuery, ReviewResponse, ReviewWithReviewer, ReviseError,
};
use testspectra::summaries::{
    ListSharedStepsQuery, SharedStepDetailResponse, SharedStepSummary, SharedStepWithCountRow,
    TestStepResponse,
};
use testspectra::test_cases::{
    bulk_delete_response, case_code, copy_title, moves_nothing, ListTestCasesQuery,
    ReorderRequest, TestCase, TestCaseResponse, TestCaseWithSteps,
};
use testspectra::test_suites::{suite_exists, TestSuiteResponse, TestSuiteRow};
use testspectra::time::Timestamp;
use testspectra::users::ListUsersQuery;
use testspectra::websocket::{broadcast_message, raw_message, reply_to, WsMessage};

fn moment(secs: i64) -> Timestamp {
    Timestamp { secs, nanos: 0 }
}

fn review(action: &str, comment: Option<&str>) -> CreateReviewRequest {
    CreateReviewRequest { action: action.to_string(), comment: comment.map(|c| c.to_string()) }
}

fn case_query() -> ListTestCasesQuery {
    ListTestCasesQuery {
        search_query: None,
        suite_filter: None,
        priority_filter: None,
        automation_filter: None,
        status_filter: None,
        review_status_filter: None,
        page: None,
        page_size: None,
    }
}

#[test]
fn pages_count_from_one() {
    assert_eq!(page_window(None, None), PageWindow { page: 1, page_size: 10, offset: 0 });
    assert_eq!(page_window(Some(3), Some(25)), PageWindow { page: 3, page_size: 25, offset: 50 });
    assert_eq!(page_window(Some(0), Some(500)), PageWindow { page: 1, page_size: 100, offset: 0 });
    assert_eq!(page_window(Some(-7), Some(-5)), PageWindow { page: 1, page_size: -5, offset: 0 });
    assert_eq!(
        page_window(Some(i32::MAX), Some(100)),
        PageWindow { page: i32::MAX, page_size: 100, offset: (i32::MAX as i64 - 1) * 100 }
    );
    assert_eq!(bounded_page_window(None, None), PageWindow { page: 1, page_size: 20, offset: 0 });
    assert_eq!(
        bounded_page_window(Some(2), Some(0)),
        PageWindow { page: 2, page_size: 1, offset: 1 }
    );
    assert_eq!(
        bounded_page_window(Some(4), Some(1000)),
        PageWindow { page: 4, page_size: 100, offset: 300 }
    );
    assert_eq!(fixed_page_window(Some(5)), PageWindow { page: 5, page_size: 10, offset: 40 });
    assert_eq!(fixed_page_window(Some(-5)), PageWindow { page: 1, page_size: 10, offset: 0 });
    assert_eq!(page_offset(1, 20), Some(0));
    assert_eq!(page_offset(3, 20), Some(40));
    assert_eq!(page_offset(0, 20), Some(-20));
    assert_eq!(page_offset(i64::MAX, i64::MAX), None);
    assert_eq!(page_offset(i64::MIN, 1), None);
    assert_eq!(page_offset(i64::MIN + 1, 1), Some(i64::MIN));
    assert_eq!(total_pages(0, 20), 0);
    assert_eq!(total_pages(1, 20), 1);
    assert_eq!(total_pages(20, 20), 1);
    assert_eq!(total_pages(21, 20), 2);
    assert_eq!(total_pages(5, 0), 0);
    assert_eq!(total_pages(5, -3), 0);
    assert_eq!(total_pages(u64::MAX, 1), u64::MAX);
    assert_eq!(total_pages(u64::MAX, i32::MAX), u64::MAX / i32::MAX as u64 + 1);
    assert_eq!(testspectra::proxy::users_page(&testspectra::proxy::ListUsersQuery {
        role_filter: None,
        status_filter: None,
        page: None,
        page_size: Some(-3),
    }), (1, -3));
}

#[test]
fn a_review_needs_a_verdict_and_a_revision_needs_a_comment() {
    assert_eq!(check_review_request(&review("approved", None)), Ok(()));
    assert_eq!(check_review_request(&review("approved", Some(""))), Ok(()));
    assert_eq!(check_review_request(&review("needs_revision", Some("fix step 2"))), Ok(()));
    for comment in [None, Some(""), Some("  \n")] {
        assert_eq!(
            check_review_request(&review("needs_revision", comment)),
            Err(ReviewError::CommentRequired)
        );
    }
    for action in ["", "Approved", "rejected", "pending"] {
        assert_eq!(check_review_request(&review(action, Some("c"))), Err(ReviewError::InvalidAction));
    }
    assert_eq!(check_reviewer(false, 1, 1), Err(ReviewError::NotPermitted));
    assert_eq!(check_reviewer(false, 1, 2), Err(ReviewError::NotPermitted));
    assert_eq!(check_reviewer(true, 1, 1), Err(ReviewError::SelfReview));
    assert_eq!(check_reviewer(true, 1, 2), Ok(()));
    assert_eq!(review_status_after("approved"), "approved");
    assert_eq!(review_status_after("needs_revision"), "needs_revision");
    assert_eq!(review_status_after("other"), "pending");
    assert_eq!(check_mark_revised(1, 2, "needs_revision"), Err(ReviseError::NotAuthor));
    assert_eq!(check_mark_revised(1, 1, "pending"), Err(ReviseError::NotAwaitingRevision));
    assert_eq!(check_mark_revised(1, 1, "needs_revision"), Ok(()));
}

#[test]
fn the_permission_to_review_comes_from_the_role_or_beyond_it() {
    let wanted = "review_approve_test_cases";
    assert!(has_permission(&get_base_permissions_for_role("admin"), &vec![], wanted));
    assert!(has_permission(&get_base_permissions_for_role("ROLE_QA_LEAD"), &vec![], wanted));
    assert!(!has_permission(&get_base_permissions_for_role("qa_engineer"), &vec![], wanted));
    assert!(has_permission(&get_base_permissions_for_role("viewer"), &vec![wanted.to_string()], wanted));
    assert_eq!(get_base_permissions_for_role("anyone"), vec!["view_all_data"]);
    assert_eq!(get_base_permissions_for_role("developer"), vec!["view_all_data", "execute_automated_tests"]);
    assert_eq!(get_base_permissions_for_role("admin").len(), 8);
    assert_eq!(get_base_permissions_for_role("qa_lead").len(), 7);
    assert_eq!(get_base_permissions_for_role("ROLE_QA_ENGINEER").len(), 4);
}

#[test]
fn a_review_is_shown_under_the_code_of_its_test_case() {
    let shown = ReviewResponse::from_review_with_reviewer(
        ReviewWithReviewer {
            id: 1,
            test_case_id: 2,
            reviewer_id: 3,
            action: "approved".to_string(),
            comment: Some("ok".to_string()),
            created_at: moment(1_431_648_000),
            reviewer_name: "Ada".to_string(),
        },
        "TC-0007".to_string(),
    )
    .unwrap();
    assert_eq!(shown.id, "00000000-0000-0000-0000-000000000001");
    assert_eq!(shown.test_case_id, "TC-0007");
    assert_eq!(shown.reviewer_id, "00000000-0000-0000-0000-000000000003");
    assert_eq!(shown.reviewer_name, "Ada");
    assert_eq!(shown.action, "approved");
    assert_eq!(shown.comment, Some("ok".to_string()));
    assert_eq!(shown.created_at, "2015-05-15T00:00:00+00:00");
}

#[test]
fn notifications_tell_of_reviews() {
    assert_eq!(
        review_approval_notification(9, "Ada", "TC-0007"),
        CreateNotificationRequest {
            user_id: 9,
            notification_type: "review_approved".to_string(),
            title: "Test Case Approved".to_string(),
            message: "Your test case TC-0007 has been approved by Ada".to_string(),
            related_entity_type: Some("test_case".to_string()),
            related_entity_id: Some("TC-0007".to_string()),
        }
    );
    assert_eq!(
        review_request_edit_notification(9, "Ada", "TC-0007"),
        CreateNotificationRequest {
            user_id: 9,
            notification_type: "review_needs_revision".to_string(),
            title: "Test Case Needs Revision".to_string(),
            message: "Your test case TC-0007 needs revision. Reviewed by Ada".to_string(),
            related_entity_type: Some("test_case".to_string()),
            related_entity_id: Some("TC-0007".to_string()),
        }
    );
    assert_eq!((default_page(), default_page_size()), (1, 20));
    assert_eq!(
        NotificationQuery::default(),
        NotificationQuery { page: 1, page_size: 20, unread_only: false }
    );
    let stored = Notification {
        id: 0xff,
        user_id: 9,
        notification_type: "review_approved".to_string(),
        title: "T".to_string(),
        message: "M".to_string(),
        related_entity_type: None,
        related_entity_id: Some("TC-1".to_string()),
        is_read: true,
        created_at: moment(0),
    };
    assert!(owns_notification(&stored, 9));
    assert!(!owns_notification(&stored, 8));
    let shown = NotificationResponse::from_notification(stored).unwrap();
    assert_eq!(shown.id, "00000000-0000-0000-0000-0000000000ff");
    assert_eq!(shown.type_, "review_approved");
    assert_eq!((shown.title.as_str(), shown.message.as_str()), ("T", "M"));
    assert_eq!(shown.related_entity_id, Some("TC-1".to_string()));
    assert!(shown.is_read && shown.related_entity_type.is_none());
    assert_eq!(shown.created_at, "1970-01-01T00:00:00+00:00");
}

#[test]
fn test_cases_have_codes_and_copies_have_titles() {
    assert_eq!(case_code(1), "TC-0001");
    assert_eq!(case_code(42), "TC-0042");
    assert_eq!(case_code(9999), "TC-9999");
    assert_eq!(case_code(10000), "TC-10000");
    assert_eq!(case_code(0), "TC-0000");
    assert_eq!(case_code(-3), "TC--003");
    assert_eq!(case_code(-3), format!("TC-{:04}", -3));
    assert_eq!(copy_title("Login works"), "Login works (Copy)");
    let response = bulk_delete_response(3);
    assert!(response.success);
    assert_eq!(response.deleted_count, 3);
    assert_eq!(response.message, "3 test case(s) deleted successfully");
    assert_eq!(bulk_delete_response(0).message, "0 test case(s) deleted successfully");
    let nothing = ReorderRequest { moved_ids: vec![], prev_id: None, next_id: Some("TC-1".to_string()) };
    assert!(moves_nothing(&nothing));
    let something = ReorderRequest { moved_ids: vec!["TC-2".to_string()], prev_id: None, next_id: None };
    assert!(!moves_nothing(&something));
}

fn stored_step(id: u128, step_order: i32) -> StepRecord {
    let mut params = ParamMap::new();
    params.insert("url".to_string(), ParamValue::Text("https://example.test".to_string()));
    StepRecord {
        id,
        step_order,
        content: StepContent {
            action_type: "navigate".to_string(),
            action_params: params,
            assertions: vec![],
            custom_expected_result: Some("r".to_string()),
        },
    }
}

#[test]
fn a_test_case_is_shown_with_its_steps() {
    let stored = TestCaseWithSteps {
        test_case: TestCase {
            id: 77,
            case_id: "TC-0001".to_string(),
            title: "Login".to_string(),
            description: None,
            suite: "Smoke".to_string(),
            priority: "high".to_string(),
            case_type: "functional".to_string(),
            automation: "manual".to_string(),
            last_status: "pending".to_string(),
            page_load_avg: None,
            last_run: Some("yesterday".to_string()),
            expected_outcome: None,
            pre_condition: None,
            post_condition: Some("<p>x</p>".to_string()),
            tags: vec!["a".to_string(), "b".to_string()],
            execution_order: OrderKey::from_units(3),
            created_by: 0xab,
            created_at: moment(0),
            updated_at: moment(60),
            review_status: "pending".to_string(),
            submitted_for_review_at: None,
        },
        steps: vec![stored_step(5, 1), stored_step(6, 2)],
        created_by_name: Some("Ada".to_string()),
    };
    let shown = TestCaseResponse::from_with_steps(stored).unwrap();
    assert_eq!(shown.id, "TC-0001");
    assert_eq!(shown.title, "Login");
    assert_eq!(shown.suite, "Smoke");
    assert_eq!(shown.last_run, Some("yesterday".to_string()));
    assert_eq!(shown.post_condition, Some("<p>x</p>".to_string()));
    assert_eq!(shown.tags, vec!["a", "b"]);
    assert_eq!(shown.execution_order, OrderKey::from_units(3));
    assert_eq!(shown.created_by_id, "00000000-0000-0000-0000-0000000000ab");
    assert_eq!(shown.created_by_name, Some("Ada".to_string()));
    assert_eq!(shown.created_at, "1970-01-01T00:00:00+00:00");
    assert_eq!(shown.updated_at, "1970-01-01T00:01:00+00:00");
    assert_eq!(shown.steps.len(), 2);
    assert_eq!(shown.steps[1].id, "00000000-0000-0000-0000-000000000006");
    assert_eq!(shown.steps[1].step_order, 2);
    assert_eq!(shown.steps[0].step_type, "regular");
    assert_eq!(shown.steps[0].action_type, "navigate");
    assert_eq!(shown.steps[0].action_params.len(), 1);
    assert_eq!(shown.steps[0].custom_expected_result, Some("r".to_string()));
}

#[test]
fn shared_steps_are_listed_and_shown() {
    let row = SharedStepWithCountRow {
        id: 0x10,
        name: "Login".to_string(),
        description: Some("d".to_string()),
        created_by_name: None,
        created_at: moment(0),
        updated_at: moment(1),
        step_count: 2,
    };
    let listed = SharedStepSummary::from_row(row).unwrap();
    assert_eq!(listed.id, "00000000-0000-0000-0000-000000000010");
    assert_eq!((listed.name.as_str(), listed.step_count), ("Login", 2));
    assert_eq!(listed.updated_at, "1970-01-01T00:00:01+00:00");
    let shown = SharedStepDetailResponse::from_summary(listed, &vec![stored_step(1, 1)]);
    assert_eq!(shown.name, "Login");
    assert_eq!(shown.description, Some("d".to_string()));
    assert_eq!(shown.steps.len(), 1);
    assert_eq!(shown.steps[0].id, "00000000-0000-0000-0000-000000000001");
    let one = TestStepResponse::from_record(&stored_step(0xabc, 4));
    assert_eq!((one.id.as_str(), one.step_order), ("00000000-0000-0000-0000-000000000abc", 4));
    let query = ListSharedStepsQuery::default();
    assert_eq!((query.search, query.page, query.limit), (None, Some(1), Some(20)));
}

#[test]
fn suites_are_shown_and_their_names_compared() {
    let shown = TestSuiteResponse::from_row(TestSuiteRow {
        id: 1,
        name: "Smoke".to_string(),
        description: None,
        created_at: moment(0),
    })
    .unwrap();
    assert_eq!(shown.id, "00000000-0000-0000-0000-000000000001");
    assert_eq!(shown.name, "Smoke");
    assert_eq!(shown.created_at, "1970-01-01T00:00:00+00:00");
    let existing = vec!["Smoke".to_string(), "Regression".to_string()];
    assert!(suite_exists(&existing, "smoke"));
    assert!(suite_exists(&existing, "REGRESSION"));
    assert!(!suite_exists(&existing, "Smoke "));
    assert!(!suite_exists(&vec![], "Smoke"));
}

#[test]
fn definitions_are_shown_without_their_times() {
    let shown = ActionDefinitionResponse::from_definition(ActionDefinition {
        id: 2,
        action_key: "click".to_string(),
        label: "Click".to_string(),
        category: "basic".to_string(),
        platform: "both".to_string(),
        description: None,
        param_schema: "{}".to_string(),
        is_system: true,
        created_by: None,
        display_order: 3,
        is_active: true,
        created_at: moment(0),
        updated_at: moment(0),
    });
    assert_eq!(shown.id, "00000000-0000-0000-0000-000000000002");
    assert_eq!((shown.action_key.as_str(), shown.display_order, shown.is_system), ("click", 3, true));
    assert_eq!(shown.param_schema, "{}");
    let shown = AssertionDefinitionResponse::from_definition(AssertionDefinition {
        id: 3,
        assertion_key: "textEquals".to_string(),
        label: "Text".to_string(),
        category: "text".to_string(),
        description: Some("d".to_string()),
        param_schema: "{}".to_string(),
        valid_for_actions: vec!["click".to_string()],
        is_system: false,
        created_by: Some(1),
        display_order: 1,
        is_active: true,
        created_at: moment(0),
        updated_at: moment(0),
    });
    assert_eq!(shown.id, "00000000-0000-0000-0000-000000000003");
    assert_eq!(shown.valid_for_actions, vec!["click"]);
    assert_eq!(shown.description, Some("d".to_string()));
}

#[test]
fn a_ping_is_answered_by_a_pong() {
    let ping = WsMessage { msg_type: "ping".to_string(), payload: Some("1".to_string()) };
    assert_eq!(reply_to(&ping), Some(WsMessage { msg_type: "pong".to_string(), payload: None }));
    let other = WsMessage { msg_type: "Ping".to_string(), payload: None };
    assert_eq!(reply_to(&other), None);
    assert_eq!(
        broadcast_message(None, Some("{}".to_string())),
        WsMessage { msg_type: "unknown".to_string(), payload: Some("{}".to_string()) }
    );
    assert_eq!(
        broadcast_message(Some("review_stats_update".to_string()), None),
        WsMessage { msg_type: "review_stats_update".to_string(), payload: None }
    );
    assert_eq!(
        raw_message("{\"message\":\"x\"}".to_string()),
        WsMessage { msg_type: "raw".to_string(), payload: Some("{\"message\":\"x\"}".to_string()) }
    );
}

#[test]
fn the_filter_of_test_cases_numbers_its_values() {
    let filter = test_case_filter(&case_query());
    assert_eq!(filter.where_clause(), "1=1");
    assert!(filter.params.is_empty());
    let mut query = case_query();
    query.search_query = Some("log".to_string());
    query.suite_filter = Some(String::new());
    query.priority_filter = Some("HIGH".to_string());
    query.status_filter = Some("Passed".to_string());
    let filter = test_case_filter(&query);
    assert_eq!(
        filter.where_clause(),
        "1=1 AND (title ILIKE $1 OR case_id ILIKE $1) AND LOWER(priority) = $2 AND LOWER(last_status) = $3"
    );
    assert_eq!(filter.params, vec!["%log%", "high", "passed"]);
    let mut query = case_query();
    query.suite_filter = Some("Smoke".to_string());
    query.automation_filter = Some("Manual".to_string());
    let filter = test_case_filter(&query);
    assert_eq!(filter.where_clause(), "1=1 AND suite = $1 AND LOWER(automation) = $2");
    assert_eq!(filter.params, vec!["Smoke", "manual"]);
}

#[test]
fn the_filter_of_the_queue_defaults_to_what_is_pending() {
    let query = ReviewQueueQuery { status: None, search: None, priority: None, suite: None, page: None };
    assert_eq!(queue_status(&query), "pending");
    let filter = review_queue_filter(&query);
    assert_eq!(
        filter.where_clause(),
        "(review_status = 'pending' OR review_status = 'pending_revision')"
    );
    assert!(filter.params.is_empty());
    let query = ReviewQueueQuery {
        status: Some("approved".to_string()),
        search: Some("x".to_string()),
        priority: Some("all".to_string()),
        suite: Some("Smoke".to_string()),
        page: Some(2),
    };
    let filter = review_queue_filter(&query);
    assert_eq!(
        filter.where_clause(),
        "review_status = $1 AND (title ILIKE $2 OR case_id ILIKE $2 OR u.name ILIKE $2) AND tc.suite = $3"
    );
    assert_eq!(filter.params, vec!["approved", "%x%", "Smoke"]);
    let query = ReviewQueueQuery {
        status: Some("pending".to_string()),
        search: Some(String::new()),
        priority: Some("High".to_string()),
        suite: Some("all".to_string()),
        page: None,
    };
    let filter = review_queue_filter(&query);
    assert_eq!(
        filter.where_clause(),
        "(review_status = 'pending' OR review_status = 'pending_revision') AND LOWER(tc.priority) = $1"
    );
    assert_eq!(filter.params, vec!["high"]);
}

#[test]
fn the_filter_of_users_takes_whatever_is_named() {
    let query = ListUsersQuery { search: None, role: None, status: Some("active".to_string()), page: None, page_size: None };
    let filter = user_filter(&query);
    assert_eq!(filter.where_clause(), "1=1 AND status = $1");
    assert_eq!(filter.params, vec!["active"]);
    let query = ListUsersQuery {
        search: Some(String::new()),
        role: Some("admin".to_string()),
        status: Some("active".to_string()),
        page: None,
        page_size: None,
    };
    let filter = user_filter(&query);
    assert_eq!(
        filter.where_clause(),
        "1=1 AND (name ILIKE $1 OR email ILIKE $1) AND role = $2 AND status = $3"
    );
    assert_eq!(filter.params, vec!["%%", "admin", "active"]);
    let mut eleven = SqlFilter::empty();
    for n in 0..11 {
        eleven.add(format!("v{}", n), &vec!["c = ", ""]);
    }
    eleven.add_fixed("d IS NULL");
    assert_eq!(eleven.conditions[9], "c = $10");
    assert_eq!(eleven.conditions[10], "c = $11");
    assert!(eleven.where_clause().ends_with("c = $11 AND d IS NULL"));
    assert_eq!(SqlFilter::empty().where_clause(), "");
}
