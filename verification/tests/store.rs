use testspectra::composer::{
    compose_step_tree, referenced_shared_steps, SharedStep, StepNode,
};
use testspectra::ids::{fresh_ids, id_to_string};
use testspectra::params::{ParamMap, ParamValue};
use testspectra::record::{stored_row, ReferenceRecord, StepContent, StepRecord, StepRow};
use testspectra::step::{
    AssertionItem, AssertionsInput, CreateTestStepRequest, IncomingAssertion, ParamsInput,
    StepType,
};
use testspectra::prepare::{prepare_steps, CaseStepRequest};
use testspectra::store::{
    is_name_in_use, CreateSharedStepRequest, StepStore, StoreError, UpdateSharedStepRequest,
};
use testspectra::validator::ValidationError;

fn request(action: &str, params: &[(&str, &str)]) -> CreateTestStepRequest {
    let mut map = ParamMap::new();
    for (key, value) in params {
        map.insert(key.to_string(), ParamValue::Text(value.to_string()));
    }
    CreateTestStepRequest {
        id: Some("client-side".to_string()),
        step_order: 40,
        step_type: StepType::SharedReference,
        action_type: action.to_string(),
        action_params: Some(ParamsInput::Object(map)),
        assertions: Some(AssertionsInput::Items(vec![AssertionItem::Parsed(IncomingAssertion {
            assertion_type: "elementDisplayed".to_string(),
            selector: Some("#main".to_string()),
            expected_value: None,
            attribute_name: None,
            attribute_value: None,
        })])),
        custom_expected_result: Some("<p>done</p>".to_string()),
    }
}

fn content(action: &str) -> StepContent {
    StepContent {
        action_type: action.to_string(),
        action_params: ParamMap::new(),
        assertions: vec![],
        custom_expected_result: None,
    }
}

fn record(id: u128, step_order: i32, action: &str) -> StepRecord {
    StepRecord { id, step_order, content: content(action) }
}

fn login(name: &str) -> CreateSharedStepRequest {
    CreateSharedStepRequest {
        name: name.to_string(),
        description: Some("Signs a user in".to_string()),
        steps: vec![
            request("navigate", &[("url", "https://example.test/login"), ("junk", "x")]),
            request("click", &[("selector", "#submit")]),
        ],
    }
}

#[test]
fn compose_nests_the_definition_of_a_shared_step() {
    let shared = vec![SharedStep {
        id: 500,
        name: "Login".to_string(),
        description: None,
        definitions: vec![record(11, 1, "navigate"), record(12, 2, "click")],
    }];
    let rows = vec![
        StepRow::Regular(record(1, 1, "navigate")),
        StepRow::SharedReference(ReferenceRecord { id: 2, step_order: 2, shared_step_id: 500 }),
    ];
    let tree = compose_step_tree(&rows, &shared);
    assert_eq!(tree.len(), 2);
    match &tree[0] {
        StepNode::Step(step) => {
            assert_eq!(step.id, 1);
            assert_eq!(step.content.action_type, "navigate");
        }
        StepNode::Shared { .. } => panic!("the first node is a step of its own"),
    }
    match &tree[1] {
        StepNode::Shared { reference, group } => {
            assert_eq!(reference.shared_step_id, 500);
            assert_eq!(reference.step_order, 2);
            let group = group.as_ref().unwrap();
            assert_eq!(group.name, "Login");
            assert_eq!(group.steps.len(), 2);
            assert_eq!(group.steps[0].step_order, 1);
            assert_eq!(group.steps[0].content.action_type, "navigate");
            assert_eq!(group.steps[1].step_order, 2);
            assert_eq!(group.steps[1].content.action_type, "click");
        }
        StepNode::Step(_) => panic!("the second node is a reference"),
    }
}

#[test]
fn compose_skips_steps_of_definitions_and_tolerates_gaps() {
    let rows = vec![
        StepRow::Regular(record(1, 2, "navigate")),
        StepRow::SharedDefinition(record(2, 3, "click")),
        StepRow::Regular(record(3, 9, "back")),
        StepRow::SharedReference(ReferenceRecord { id: 4, step_order: 12, shared_step_id: 77 }),
    ];
    let tree = compose_step_tree(&rows, &vec![]);
    assert_eq!(tree.len(), 3);
    let orders: Vec<i32> = tree
        .iter()
        .map(|node| match node {
            StepNode::Step(step) => step.step_order,
            StepNode::Shared { reference, .. } => reference.step_order,
        })
        .collect();
    assert_eq!(orders, vec![2, 9, 12]);
    assert!(matches!(&tree[2], StepNode::Shared { group: None, .. }));
    assert!(compose_step_tree(&vec![], &vec![]).is_empty());
}

#[test]
fn every_shared_step_is_looked_up_once() {
    let reference = |id, shared_step_id| {
        StepRow::SharedReference(ReferenceRecord { id, step_order: 1, shared_step_id })
    };
    let rows = vec![
        reference(1, 9),
        StepRow::Regular(record(2, 2, "click")),
        reference(3, 4),
        reference(4, 9),
        StepRow::SharedDefinition(record(5, 5, "click")),
        reference(6, 4),
    ];
    assert_eq!(referenced_shared_steps(&rows), vec![9, 4]);
    assert!(referenced_shared_steps(&vec![]).is_empty());
}

#[test]
fn prepared_steps_are_numbered_from_one() {
    let steps = vec![request("back", &[("x", "y")]), request("click", &[("selector", "#a")])];
    let records = prepare_steps(&steps, &vec![71, 72]).unwrap();
    assert_eq!(records.len(), 2);
    assert_eq!((records[0].id, records[0].step_order), (71, 1));
    assert_eq!((records[1].id, records[1].step_order), (72, 2));
    assert_eq!(records[0].content.action_params.len(), 0);
    assert_eq!(records[1].content.action_params.len(), 1);
    assert_eq!(records[1].content.assertions.len(), 1);
    assert_eq!(records[1].content.custom_expected_result, Some("<p>done</p>".to_string()));
}

#[test]
fn the_first_step_that_is_refused_stops_the_preparation() {
    let steps = vec![request("click", &[]), request("fly", &[]), request("swim", &[])];
    assert_eq!(
        prepare_steps(&steps, &vec![1, 2, 3]).err(),
        Some(StoreError::InvalidStep {
            index: 1,
            error: ValidationError::InvalidAction { action_type: "fly".to_string() },
        })
    );
}

#[test]
fn creating_a_shared_step_stores_its_definition() {
    let mut store = StepStore::new();
    assert_eq!(store.create_shared_step_with_ids(&login("Login"), 500, &vec![11, 12]), Ok(()));
    let shared = store.shared_steps();
    assert_eq!(shared.len(), 1);
    assert_eq!(shared[0].id, 500);
    assert_eq!(shared[0].name, "Login");
    assert_eq!(shared[0].description, Some("Signs a user in".to_string()));
    assert_eq!(shared[0].definitions.len(), 2);
    assert_eq!(shared[0].definitions[0].step_order, 1);
    assert_eq!(shared[0].definitions[1].step_order, 2);
    assert_eq!(shared[0].definitions[0].content.action_params.len(), 1);
    assert!(shared[0].definitions[0].content.action_params.get("junk").is_none());
}

#[test]
fn a_name_that_is_in_use_in_any_case_is_refused() {
    let mut store = StepStore::new();
    store.create_shared_step_with_ids(&login("Login"), 500, &vec![11, 12]).unwrap();
    for name in ["Login", "login", "LOGIN", "lOgIn"] {
        assert_eq!(
            store.create_shared_step_with_ids(&login(name), 501, &vec![21, 22]),
            Err(StoreError::DuplicateName { name: name.to_string() })
        );
    }
    assert_eq!(store.shared_steps().len(), 1);
    assert_eq!(store.create_shared_step_with_ids(&login("Login 2"), 501, &vec![21, 22]), Ok(()));
    assert!(is_name_in_use(store.shared_steps(), "LOGIN 2", None));
    assert!(!is_name_in_use(store.shared_steps(), "LOGIN 2", Some(501)));
    assert!(!is_name_in_use(store.shared_steps(), "Logout", None));
}

#[test]
fn an_identifier_that_is_in_use_is_refused() {
    let mut store = StepStore::new();
    store.create_shared_step_with_ids(&login("Login"), 500, &vec![11, 12]).unwrap();
    assert_eq!(
        store.create_shared_step_with_ids(&login("Other"), 500, &vec![21, 22]),
        Err(StoreError::IdConflict)
    );
}

#[test]
fn a_shared_step_with_a_step_that_is_refused_is_not_created() {
    let mut store = StepStore::new();
    let mut wanted = login("Login");
    wanted.steps.push(request("pressKey", &[("key", "NotAKey")]));
    assert_eq!(
        store.create_shared_step_with_ids(&wanted, 500, &vec![11, 12, 13]),
        Err(StoreError::InvalidStep {
            index: 2,
            error: ValidationError::InvalidKeyOption { key: "NotAKey".to_string() },
        })
    );
    assert!(store.shared_steps().is_empty());
}

#[test]
fn creating_under_random_identifiers_returns_the_identifier() {
    let mut store = StepStore::new();
    let id = store.create_shared_step(&login("Login")).unwrap();
    assert_eq!(store.shared_steps()[0].id, id);
    assert_eq!(id & 0x0000_0000_0000_f000_c000_0000_0000_0000, 0x0000_0000_0000_4000_8000_0000_0000_0000);
    let steps = &store.shared_steps()[0].definitions;
    assert_ne!(steps[0].id, steps[1].id);
    assert!(store.create_shared_step(&login("login")).is_err());
}

#[test]
fn updating_keeps_what_the_request_leaves_out() {
    let mut store = StepStore::new();
    store.create_shared_step_with_ids(&login("Login"), 500, &vec![11, 12]).unwrap();
    let rename = UpdateSharedStepRequest {
        name: Some("Sign in".to_string()),
        description: None,
        steps: None,
    };
    assert_eq!(store.update_shared_step_with_ids(500, &rename, &vec![]), Ok(()));
    let shared = &store.shared_steps()[0];
    assert_eq!(shared.name, "Sign in");
    assert_eq!(shared.description, Some("Signs a user in".to_string()));
    assert_eq!(shared.definitions.len(), 2);
    assert_eq!(shared.definitions[0].id, 11);
}

#[test]
fn updating_replaces_the_whole_definition() {
    let mut store = StepStore::new();
    store.create_shared_step_with_ids(&login("Login"), 500, &vec![11, 12]).unwrap();
    let replace = UpdateSharedStepRequest {
        name: None,
        description: Some("New".to_string()),
        steps: Some(vec![request("refresh", &[])]),
    };
    assert_eq!(store.update_shared_step_with_ids(500, &replace, &vec![31]), Ok(()));
    let shared = &store.shared_steps()[0];
    assert_eq!(shared.name, "Login");
    assert_eq!(shared.description, Some("New".to_string()));
    assert_eq!(shared.definitions.len(), 1);
    assert_eq!((shared.definitions[0].id, shared.definitions[0].step_order), (31, 1));
    assert_eq!(shared.definitions[0].content.action_type, "refresh");
    assert_eq!(store.update_shared_step(500, &replace), Ok(()));
    assert_eq!(store.shared_steps()[0].definitions.len(), 1);
}

#[test]
fn updating_is_refused_as_a_whole() {
    let mut store = StepStore::new();
    store.create_shared_step_with_ids(&login("Login"), 500, &vec![11, 12]).unwrap();
    store.create_shared_step_with_ids(&login("Logout"), 501, &vec![21, 22]).unwrap();
    let nothing = UpdateSharedStepRequest { name: None, description: None, steps: None };
    assert_eq!(store.update_shared_step_with_ids(9, &nothing, &vec![]), Err(StoreError::NotFound));
    let taken = UpdateSharedStepRequest {
        name: Some("LOGOUT".to_string()),
        description: Some("x".to_string()),
        steps: None,
    };
    assert_eq!(
        store.update_shared_step_with_ids(500, &taken, &vec![]),
        Err(StoreError::DuplicateName { name: "LOGOUT".to_string() })
    );
    let own = UpdateSharedStepRequest {
        name: Some("LOGIN".to_string()),
        description: None,
        steps: None,
    };
    assert_eq!(store.update_shared_step_with_ids(500, &own, &vec![]), Ok(()));
    let broken = UpdateSharedStepRequest {
        name: Some("Renamed".to_string()),
        description: None,
        steps: Some(vec![request("click", &[]), request("fly", &[])]),
    };
    assert!(matches!(
        store.update_shared_step_with_ids(500, &broken, &vec![41, 42]),
        Err(StoreError::InvalidStep { index: 1, .. })
    ));
    assert_eq!(store.shared_steps()[0].name, "LOGIN");
    assert_eq!(store.shared_steps()[0].definitions.len(), 2);
}

#[test]
fn a_shared_step_that_is_referred_to_cannot_be_deleted() {
    let mut store = StepStore::new();
    store.create_shared_step_with_ids(&login("Login"), 500, &vec![11, 12]).unwrap();
    let steps = vec![
        CaseStepRequest::Regular(request("navigate", &[("url", "https://example.test")])),
        CaseStepRequest::SharedReference { shared_step_id: 500 },
    ];
    assert_eq!(store.replace_case_steps_with_ids(1, &steps, &vec![101, 102]), Ok(()));
    assert_eq!(store.reference_count(500), 1);
    assert_eq!(store.delete_shared_step(500), Err(StoreError::ReferencedByInUse { count: 1 }));
    assert_eq!(store.shared_steps().len(), 1);

    assert_eq!(store.replace_case_steps_with_ids(1, &vec![], &vec![]), Ok(()));
    assert_eq!(store.reference_count(500), 0);
    assert_eq!(store.delete_shared_step(500), Ok(()));
    assert!(store.shared_steps().is_empty());
    assert_eq!(store.delete_shared_step(500), Err(StoreError::NotFound));
}

#[test]
fn references_of_all_test_cases_are_counted() {
    let mut store = StepStore::new();
    store.create_shared_step_with_ids(&login("Login"), 500, &vec![11, 12]).unwrap();
    let twice = vec![
        CaseStepRequest::SharedReference { shared_step_id: 500 },
        CaseStepRequest::SharedReference { shared_step_id: 500 },
    ];
    store.replace_case_steps_with_ids(1, &twice, &vec![101, 102]).unwrap();
    store.replace_case_steps_with_ids(2, &twice, &vec![201, 202]).unwrap();
    assert_eq!(store.reference_count(500), 4);
    assert_eq!(store.delete_shared_step(500), Err(StoreError::ReferencedByInUse { count: 4 }));
    assert_eq!(store.reference_count(501), 0);
}

#[test]
fn steps_of_a_test_case_are_replaced_as_a_whole() {
    let mut store = StepStore::new();
    store.create_shared_step_with_ids(&login("Login"), 500, &vec![11, 12]).unwrap();
    let first = vec![CaseStepRequest::Regular(request("click", &[("selector", "#a")]))];
    store.replace_case_steps_with_ids(1, &first, &vec![101]).unwrap();
    let other = vec![CaseStepRequest::Regular(request("back", &[]))];
    store.replace_case_steps_with_ids(2, &other, &vec![201]).unwrap();
    let second = vec![
        CaseStepRequest::SharedReference { shared_step_id: 500 },
        CaseStepRequest::Regular(request("refresh", &[])),
        CaseStepRequest::Regular(request("back", &[])),
    ];
    store.replace_case_steps(1, &second).unwrap();
    let rows = store.rows_of_case(1);
    assert_eq!(rows.len(), 3);
    assert!(matches!(&rows[0], StepRow::SharedReference(r) if r.step_order == 1));
    assert!(matches!(&rows[1], StepRow::Regular(r) if r.step_order == 2));
    assert!(matches!(&rows[2], StepRow::Regular(r) if r.step_order == 3));
    let rows = store.rows_of_case(2);
    assert_eq!(rows.len(), 1);
    assert!(matches!(&rows[0], StepRow::Regular(r) if r.id == 201 && r.step_order == 1));
    assert_eq!(store.case_rows().len(), 4);
}

#[test]
fn steps_of_a_test_case_are_refused_as_a_whole() {
    let mut store = StepStore::new();
    let first = vec![CaseStepRequest::Regular(request("click", &[("selector", "#a")]))];
    store.replace_case_steps_with_ids(1, &first, &vec![101]).unwrap();
    let dangling = vec![
        CaseStepRequest::Regular(request("back", &[])),
        CaseStepRequest::SharedReference { shared_step_id: 500 },
    ];
    assert_eq!(
        store.replace_case_steps_with_ids(1, &dangling, &vec![1, 2]),
        Err(StoreError::NotFound)
    );
    let wrong = vec![CaseStepRequest::Regular(request("fly", &[]))];
    assert!(matches!(
        store.replace_case_steps_with_ids(1, &wrong, &vec![1]),
        Err(StoreError::InvalidStep { index: 0, .. })
    ));
    let rows = store.rows_of_case(1);
    assert_eq!(rows.len(), 1);
    assert!(matches!(&rows[0], StepRow::Regular(r) if r.id == 101));
}

#[test]
fn the_tree_of_a_stored_test_case_resolves_its_references() {
    let mut store = StepStore::new();
    store.create_shared_step_with_ids(&login("Login"), 500, &vec![11, 12]).unwrap();
    let steps = vec![
        CaseStepRequest::Regular(request("navigate", &[("url", "https://example.test")])),
        CaseStepRequest::SharedReference { shared_step_id: 500 },
    ];
    store.replace_case_steps_with_ids(1, &steps, &vec![101, 102]).unwrap();
    let tree = store.compose_step_tree(1);
    assert_eq!(tree.len(), 2);
    assert!(matches!(&tree[0], StepNode::Step(step) if step.step_order == 1));
    match &tree[1] {
        StepNode::Shared { reference, group: Some(group) } => {
            assert_eq!(reference.step_order, 2);
            assert_eq!(group.name, "Login");
            assert_eq!(group.description, Some("Signs a user in".to_string()));
            let orders: Vec<i32> = group.steps.iter().map(|s| s.step_order).collect();
            assert_eq!(orders, vec![1, 2]);
        }
        _ => panic!("the second node is a resolved reference"),
    }
    assert!(store.compose_step_tree(2).is_empty());
}

#[test]
fn identifiers_are_written_in_hyphenated_form() {
    assert_eq!(
        id_to_string(0xa1a2a3a4_b1b2_c1c2_d1d2_d3d4d5d6d7d8),
        "a1a2a3a4-b1b2-c1c2-d1d2-d3d4d5d6d7d8"
    );
    assert_eq!(id_to_string(0), "00000000-0000-0000-0000-000000000000");
    assert_eq!(id_to_string(0x0f), "00000000-0000-0000-0000-00000000000f");
    assert_eq!(id_to_string(u128::MAX), "ffffffff-ffff-ffff-ffff-ffffffffffff");
    let ids = fresh_ids(3);
    assert_eq!(ids.len(), 3);
    assert!(ids[0] != ids[1] && ids[1] != ids[2]);
}

#[test]
fn errors_of_the_store_tell_clients_what_is_wrong() {
    assert_eq!(StoreError::NotFound.message(), "Shared step not found");
    assert_eq!(
        StoreError::DuplicateName { name: "Login".to_string() }.message(),
        "Shared step with name 'Login' already exists"
    );
    assert_eq!(
        StoreError::ReferencedByInUse { count: 12 }.message(),
        "Cannot delete shared step while it is referenced by 12 test case step(s)"
    );
    assert_eq!(
        StoreError::InvalidStep {
            index: 0,
            error: ValidationError::InvalidAction { action_type: "fly".to_string() },
        }
        .message(),
        "Step 1: Invalid action type: fly"
    );
    assert_eq!(StoreError::TooManySteps.message(), "Too many steps");
    assert_eq!(StoreError::IdConflict.message(), "Identifier already in use");
    assert_eq!(testspectra::store::check_deletable(0), Ok(()));
    assert_eq!(
        testspectra::store::check_deletable(3),
        Err(StoreError::ReferencedByInUse { count: 3 })
    );
}

#[test]
fn steps_of_a_test_case_are_prepared_against_the_shared_steps() {
    let shared = vec![SharedStep {
        id: 500,
        name: "Login".to_string(),
        description: None,
        definitions: vec![],
    }];
    let wanted = vec![
        CaseStepRequest::SharedReference { shared_step_id: 500 },
        CaseStepRequest::Regular(request("click", &[("selector", "#a"), ("x", "y")])),
    ];
    let steps = testspectra::prepare::prepare_case_steps(&wanted, &vec![7, 8], &shared).unwrap();
    assert_eq!(steps.len(), 2);
    match &steps[0] {
        testspectra::record::CaseStep::SharedReference(reference) => {
            assert_eq!((reference.id, reference.step_order, reference.shared_step_id), (7, 1, 500));
        }
        _ => panic!("the first step is a reference"),
    }
    match &steps[1] {
        testspectra::record::CaseStep::Regular(record) => {
            assert_eq!((record.id, record.step_order), (8, 2));
            assert_eq!(record.content.action_params.len(), 1);
        }
        _ => panic!("the second step has an action of its own"),
    }
    assert_eq!(
        testspectra::prepare::prepare_case_steps(&wanted, &vec![7, 8], &vec![]).err(),
        Some(StoreError::NotFound)
    );
    assert_eq!(testspectra::store::position_of(&shared, 500), Some(0));
    assert_eq!(testspectra::store::position_of(&shared, 501), None);
}

#[test]
fn a_stored_step_is_a_row_of_its_kind() {
    assert!(matches!(
        stored_row("shared_reference", Some(500), record(1, 3, "click")),
        StepRow::SharedReference(ReferenceRecord { id: 1, step_order: 3, shared_step_id: 500 })
    ));
    assert!(matches!(
        stored_row("shared_reference", None, record(1, 3, "click")),
        StepRow::Regular(r) if r.id == 1 && r.step_order == 3
    ));
    assert!(matches!(
        stored_row("shared_definition", Some(500), record(2, 1, "click")),
        StepRow::SharedDefinition(r) if r.id == 2
    ));
    assert!(matches!(
        stored_row("shared_definition", None, record(2, 1, "click")),
        StepRow::SharedDefinition(_)
    ));
    assert!(matches!(stored_row("regular", Some(500), record(3, 1, "back")), StepRow::Regular(_)));
    assert!(matches!(stored_row("", None, record(3, 1, "back")), StepRow::Regular(_)));
    assert!(matches!(
        stored_row("Shared_Reference", Some(1), record(3, 1, "back")),
        StepRow::Regular(_)
    ));
}
