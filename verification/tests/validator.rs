use testspectra::catalog::{
    action_definitions, allowed_assertions_for_action, allowed_params_for_action,
    assertion_definitions, get_assertion_definition, is_valid_action_type,
    is_valid_assertion_type, is_valid_key_option, key_options,
};
use testspectra::params::{ParamMap, ParamValue};
use testspectra::step::{
    AssertionItem, AssertionsInput, CreateTestStepRequest, IncomingAssertion, ParamsInput,
    StepType,
};
use testspectra::validator::{
    cleanup_action_params, validate_and_prepare_step, RequiredField, ValidationError,
};

fn assertion(kind: &str, selector: Option<&str>, value: Option<&str>) -> IncomingAssertion {
    IncomingAssertion {
        assertion_type: kind.to_string(),
        selector: selector.map(|s| s.to_string()),
        expected_value: value.map(|s| s.to_string()),
        attribute_name: None,
        attribute_value: None,
    }
}

fn params(entries: &[(&str, ParamValue)]) -> ParamMap {
    let mut map = ParamMap::new();
    for (key, value) in entries {
        map.insert(key.to_string(), value.clone());
    }
    map
}

fn text(value: &str) -> ParamValue {
    ParamValue::Text(value.to_string())
}

fn step(action: &str, submitted: Option<ParamMap>, items: Vec<AssertionItem>) -> CreateTestStepRequest {
    CreateTestStepRequest {
        id: None,
        step_order: 7,
        step_type: StepType::Regular,
        action_type: action.to_string(),
        action_params: submitted.map(ParamsInput::Object),
        assertions: Some(AssertionsInput::Items(items)),
        custom_expected_result: None,
    }
}

#[test]
fn action_types_match_exactly() {
    assert!(is_valid_action_type("navigate"));
    assert!(is_valid_action_type("waitForElement"));
    assert!(!is_valid_action_type("NAVIGATE"));
    assert!(!is_valid_action_type("waitforelement"));
    assert!(!is_valid_action_type("fly"));
    assert!(!is_valid_action_type(""));
    assert!(!is_valid_action_type("navigate "));
    for action in action_definitions() {
        assert!(is_valid_action_type(action.value));
        assert!(!is_valid_action_type(&action.value.to_uppercase()));
    }
}

#[test]
fn assertion_types_match_exactly() {
    assert!(is_valid_assertion_type("textEquals"));
    assert!(!is_valid_assertion_type("textequals"));
    assert!(!is_valid_assertion_type("nothing"));
}

#[test]
fn catalog_tables_have_their_sizes() {
    assert_eq!(action_definitions().len(), 16);
    assert_eq!(assertion_definitions().len(), 18);
    assert_eq!(key_options().len(), 10);
    assert_eq!(action_definitions()[0].value, "navigate");
    assert_eq!(action_definitions()[6].platform, "mobile");
    assert_eq!(action_definitions()[15].value, "refresh");
    assert_eq!(key_options()[9].value, "Space");
    assert_eq!(key_options()[5].label, "Arrow Up");
}

#[test]
fn assertion_definitions_carry_their_demands() {
    let shown = get_assertion_definition("elementDisplayed").unwrap();
    assert!(shown.needs_selector && !shown.needs_value && !shown.needs_attribute);
    let url = get_assertion_definition("urlEquals").unwrap();
    assert!(!url.needs_selector && url.needs_value && !url.needs_attribute);
    let attribute = get_assertion_definition("hasAttribute").unwrap();
    assert!(attribute.needs_selector && !attribute.needs_value && attribute.needs_attribute);
    assert!(get_assertion_definition("hasattribute").is_none());
}

#[test]
fn every_action_has_its_allowed_assertions_in_the_catalog() {
    for action in action_definitions() {
        let allowed = allowed_assertions_for_action(action.value);
        assert!(!allowed.is_empty());
        for kind in allowed {
            assert!(is_valid_assertion_type(kind), "{} after {}", kind, action.value);
        }
        assert!(allowed_params_for_action(action.value).is_some());
    }
    assert!(allowed_assertions_for_action("NAVIGATE").is_empty());
    assert!(allowed_params_for_action("NAVIGATE").is_none());
    assert_eq!(allowed_assertions_for_action("clear"), vec!["valueEquals", "elementDisplayed"]);
    assert_eq!(allowed_params_for_action("dragDrop"), Some(vec!["selector", "targetSelector"]));
    assert_eq!(allowed_params_for_action("back"), Some(vec![]));
}

#[test]
fn key_options_match_exactly() {
    assert!(is_valid_key_option("Enter"));
    assert!(is_valid_key_option("ArrowLeft"));
    assert!(!is_valid_key_option("enter"));
    assert!(!is_valid_key_option("NotAKey"));
}

#[test]
fn cleanup_keeps_the_parameters_of_the_action_only() {
    let submitted = ParamsInput::Object(params(&[
        ("url", text("https://example.test")),
        ("selector", text("#main")),
        ("timeout", ParamValue::Json("5000".to_string())),
    ]));
    let kept = cleanup_action_params("navigate", &submitted);
    assert_eq!(kept.len(), 1);
    assert_eq!(kept.get("url"), Some(&text("https://example.test")));
    assert!(kept.get("selector").is_none());

    let kept = cleanup_action_params("waitForElement", &submitted);
    assert_eq!(kept.len(), 2);
    assert_eq!(kept.get("timeout"), Some(&ParamValue::Json("5000".to_string())));
    assert_eq!(kept.get("selector"), Some(&text("#main")));

    let kept = cleanup_action_params("back", &submitted);
    assert_eq!(kept.len(), 0);
    let kept = cleanup_action_params("refresh", &submitted);
    assert_eq!(kept.len(), 0);
}

#[test]
fn cleanup_keeps_all_parameters_of_an_action_that_is_not_listed() {
    let submitted = ParamsInput::Object(params(&[("url", text("a")), ("extra", text("b"))]));
    let kept = cleanup_action_params("NAVIGATE", &submitted);
    assert_eq!(kept.len(), 2);
    assert_eq!(kept.get("extra"), Some(&text("b")));
}

#[test]
fn cleanup_of_a_value_that_is_no_object_keeps_nothing() {
    assert_eq!(cleanup_action_params("navigate", &ParamsInput::NotObject).len(), 0);
    assert_eq!(cleanup_action_params("somethingElse", &ParamsInput::NotObject).len(), 0);
}

#[test]
fn every_kept_parameter_is_in_the_list_of_the_action() {
    let submitted = ParamsInput::Object(params(&[
        ("url", text("u")),
        ("selector", text("s")),
        ("text", text("t")),
        ("value", text("v")),
        ("direction", text("d")),
        ("timeout", text("1")),
        ("key", text("Enter")),
        ("targetSelector", text("x")),
        ("other", text("o")),
    ]));
    for action in action_definitions() {
        let allowed = allowed_params_for_action(action.value).unwrap();
        let kept = cleanup_action_params(action.value, &submitted);
        assert_eq!(kept.len(), allowed.len());
        for name in allowed {
            assert!(kept.contains_key(name));
        }
        assert!(!kept.contains_key("other"));
    }
}

#[test]
fn unknown_action_is_refused() {
    let verdict = validate_and_prepare_step(&step("fly", None, vec![]));
    assert_eq!(
        verdict.err(),
        Some(ValidationError::InvalidAction { action_type: "fly".to_string() })
    );
}

#[test]
fn assertions_that_are_no_list_are_refused() {
    let mut submitted = step("click", None, vec![]);
    submitted.assertions = Some(AssertionsInput::NotArray);
    assert_eq!(
        validate_and_prepare_step(&submitted).err(),
        Some(ValidationError::AssertionsNotArray)
    );
}

#[test]
fn a_step_without_parameters_and_assertions_is_accepted() {
    let mut submitted = step("click", None, vec![]);
    submitted.assertions = None;
    let (kept, assertions) = validate_and_prepare_step(&submitted).unwrap();
    assert_eq!(kept.len(), 0);
    assert!(assertions.is_empty());
}

#[test]
fn malformed_assertion_is_refused() {
    let verdict = validate_and_prepare_step(&step("click", None, vec![AssertionItem::Malformed]));
    assert_eq!(verdict.err(), Some(ValidationError::MalformedAssertion));
}

#[test]
fn unknown_assertion_is_refused() {
    let items = vec![AssertionItem::Parsed(assertion("isPurple", Some("#a"), None))];
    let verdict = validate_and_prepare_step(&step("click", None, items));
    assert_eq!(
        verdict.err(),
        Some(ValidationError::InvalidAssertion { assertion_type: "isPurple".to_string() })
    );
}

#[test]
fn assertion_that_may_not_follow_the_action_is_refused() {
    let items = vec![AssertionItem::Parsed(assertion("urlEquals", None, Some("x")))];
    let verdict = validate_and_prepare_step(&step("click", None, items));
    assert_eq!(
        verdict.err(),
        Some(ValidationError::AssertionNotAllowedForAction {
            assertion_type: "urlEquals".to_string(),
            action_type: "click".to_string(),
        })
    );
}

#[test]
fn an_action_spelled_otherwise_than_listed_is_refused() {
    let items = vec![AssertionItem::Parsed(assertion("elementDisplayed", Some("#a"), None))];
    let verdict = validate_and_prepare_step(&step("Click", None, items));
    assert_eq!(
        verdict.err(),
        Some(ValidationError::InvalidAction { action_type: "Click".to_string() })
    );
    let submitted = step("CLICK", Some(params(&[("foo", text("1"))])), vec![]);
    assert_eq!(
        validate_and_prepare_step(&submitted).err(),
        Some(ValidationError::InvalidAction { action_type: "CLICK".to_string() })
    );
    let submitted = step("PRESSKEY", None, vec![]);
    assert_eq!(
        validate_and_prepare_step(&submitted).err(),
        Some(ValidationError::InvalidAction { action_type: "PRESSKEY".to_string() })
    );
}

#[test]
fn an_accepted_step_keeps_only_what_its_action_keeps() {
    let submitted = Some(params(&[
        ("url", text("u")),
        ("selector", text("s")),
        ("text", text("t")),
        ("value", text("v")),
        ("direction", text("d")),
        ("timeout", text("1")),
        ("key", text("Enter")),
        ("targetSelector", text("x")),
        ("foo", text("1")),
    ]));
    for action in action_definitions() {
        let (kept, _) = validate_and_prepare_step(&step(action.value, submitted.clone(), vec![]))
            .unwrap();
        let allowed = allowed_params_for_action(action.value).unwrap();
        assert_eq!(kept.len(), allowed.len());
        for position in 0..kept.len() {
            assert!(allowed.contains(&kept.entry(position).key.as_str()));
        }
    }
}

#[test]
fn missing_or_blank_selector_is_refused() {
    for selector in [None, Some(""), Some("   "), Some("\t\n"), Some("\u{a0}\u{2003}")] {
        let items = vec![AssertionItem::Parsed(assertion("elementDisplayed", selector, None))];
        let verdict = validate_and_prepare_step(&step("click", None, items));
        assert_eq!(
            verdict.err(),
            Some(ValidationError::MissingRequiredField {
                assertion: Some("elementDisplayed".to_string()),
                field: RequiredField::Selector,
            })
        );
    }
}

#[test]
fn present_selector_is_accepted() {
    let items = vec![AssertionItem::Parsed(assertion("elementDisplayed", Some(" #a "), None))];
    let (_, assertions) = validate_and_prepare_step(&step("click", None, items)).unwrap();
    assert_eq!(assertions, vec![assertion("elementDisplayed", Some(" #a "), None)]);
}

#[test]
fn missing_expected_value_is_refused() {
    let items = vec![AssertionItem::Parsed(assertion("textEquals", Some("#a"), Some(" ")))];
    let verdict = validate_and_prepare_step(&step("click", None, items));
    assert_eq!(
        verdict.err(),
        Some(ValidationError::MissingRequiredField {
            assertion: Some("textEquals".to_string()),
            field: RequiredField::ExpectedValue,
        })
    );
}

#[test]
fn selector_is_looked_at_before_the_expected_value() {
    let items = vec![AssertionItem::Parsed(assertion("textEquals", None, None))];
    let verdict = validate_and_prepare_step(&step("click", None, items));
    assert_eq!(
        verdict.err(),
        Some(ValidationError::MissingRequiredField {
            assertion: Some("textEquals".to_string()),
            field: RequiredField::Selector,
        })
    );
}

#[test]
fn missing_attribute_name_is_refused() {
    let mut wanted = assertion("hasAttribute", Some("#a"), None);
    let verdict = validate_and_prepare_step(&step(
        "hover",
        None,
        vec![AssertionItem::Parsed(wanted.clone())],
    ));
    assert_eq!(
        verdict.err(),
        Some(ValidationError::MissingRequiredField {
            assertion: Some("hasAttribute".to_string()),
            field: RequiredField::AttributeName,
        })
    );
    wanted.attribute_name = Some("href".to_string());
    let verdict = validate_and_prepare_step(&step("hover", None, vec![AssertionItem::Parsed(wanted)]));
    assert!(verdict.is_ok());
}

#[test]
fn the_first_assertion_that_is_wrong_decides() {
    let items = vec![
        AssertionItem::Parsed(assertion("elementDisplayed", Some("#a"), None)),
        AssertionItem::Parsed(assertion("isPurple", None, None)),
        AssertionItem::Malformed,
    ];
    let verdict = validate_and_prepare_step(&step("click", None, items));
    assert_eq!(
        verdict.err(),
        Some(ValidationError::InvalidAssertion { assertion_type: "isPurple".to_string() })
    );
}

#[test]
fn press_key_with_enter_is_accepted() {
    let submitted = step("pressKey", Some(params(&[("key", text("Enter")), ("x", text("y"))])), vec![]);
    let (kept, assertions) = validate_and_prepare_step(&submitted).unwrap();
    assert_eq!(kept.len(), 1);
    assert_eq!(kept.get("key"), Some(&text("Enter")));
    assert!(assertions.is_empty());
}

#[test]
fn press_key_with_an_unknown_key_is_refused() {
    let submitted = step("pressKey", Some(params(&[("key", text("NotAKey"))])), vec![]);
    assert_eq!(
        validate_and_prepare_step(&submitted).err(),
        Some(ValidationError::InvalidKeyOption { key: "NotAKey".to_string() })
    );
}

#[test]
fn press_key_without_a_key_is_refused() {
    let missing = Some(ValidationError::MissingRequiredField {
        assertion: None,
        field: RequiredField::Key,
    });
    let submitted = step("pressKey", Some(params(&[("selector", text("#a"))])), vec![]);
    assert_eq!(validate_and_prepare_step(&submitted).err(), missing);
    let submitted = step("pressKey", None, vec![]);
    assert_eq!(validate_and_prepare_step(&submitted).err(), missing);
    let submitted = step(
        "pressKey",
        Some(params(&[("key", ParamValue::Json("13".to_string()))])),
        vec![],
    );
    assert_eq!(validate_and_prepare_step(&submitted).err(), missing);
    let mut submitted = step("pressKey", None, vec![]);
    submitted.action_params = Some(ParamsInput::NotObject);
    assert_eq!(validate_and_prepare_step(&submitted).err(), missing);
}

#[test]
fn assertions_are_looked_at_before_the_key() {
    let items = vec![AssertionItem::Parsed(assertion("isPurple", None, None))];
    let verdict = validate_and_prepare_step(&step("pressKey", None, items));
    assert_eq!(
        verdict.err(),
        Some(ValidationError::InvalidAssertion { assertion_type: "isPurple".to_string() })
    );
}

#[test]
fn param_map_replaces_the_value_of_a_name() {
    let mut map = ParamMap::new();
    map.insert("a".to_string(), text("1"));
    map.insert("b".to_string(), text("2"));
    map.insert("a".to_string(), text("3"));
    assert_eq!(map.len(), 2);
    assert_eq!(map.get("a"), Some(&text("3")));
    assert_eq!(map.entry(0).key, "a");
    assert_eq!(map.entry(1).value, text("2"));
    let copy = map.clone();
    assert_eq!(copy.len(), 2);
    assert_eq!(copy.get("b"), Some(&text("2")));
    assert_eq!(text("x").as_text(), Some(&"x".to_string()));
    assert_eq!(ParamValue::Json("1".to_string()).as_text(), None);
}

#[test]
fn errors_tell_clients_what_is_wrong() {
    let told = |error: ValidationError| error.message();
    assert_eq!(
        told(ValidationError::InvalidAction { action_type: "fly".to_string() }),
        "Invalid action type: fly"
    );
    assert_eq!(told(ValidationError::AssertionsNotArray), "Assertions must be an array");
    assert_eq!(told(ValidationError::MalformedAssertion), "Invalid assertion format");
    assert_eq!(
        told(ValidationError::InvalidAssertion { assertion_type: "isPurple".to_string() }),
        "Invalid assertion type: isPurple"
    );
    assert_eq!(
        told(ValidationError::AssertionNotAllowedForAction {
            assertion_type: "urlEquals".to_string(),
            action_type: "click".to_string(),
        }),
        "Assertion 'urlEquals' is not allowed for action 'click'"
    );
    let missing = |field| {
        told(ValidationError::MissingRequiredField {
            assertion: Some("hasAttribute".to_string()),
            field,
        })
    };
    assert_eq!(missing(RequiredField::Selector), "Assertion 'hasAttribute' requires a selector");
    assert_eq!(
        missing(RequiredField::ExpectedValue),
        "Assertion 'hasAttribute' requires an expectedValue"
    );
    assert_eq!(
        missing(RequiredField::AttributeName),
        "Assertion 'hasAttribute' requires an attributeName"
    );
    assert_eq!(
        told(ValidationError::MissingRequiredField { assertion: None, field: RequiredField::Key }),
        "pressKey action requires a 'key' parameter"
    );
    assert_eq!(
        told(ValidationError::InvalidKeyOption { key: "NotAKey".to_string() }),
        "Invalid key 'NotAKey' for pressKey action"
    );
}
