//! The catalog: the fixed tables of action kinds, assertion kinds and key
//! names, the assertions that may follow each action, and the parameters
//! that each action keeps.
use crate::text::{str_eq, texts};
use vstd::prelude::*;

verus! {

/// One kind of action that a step can perform.
#[derive(Debug, Clone, Copy)]
pub struct ActionDefinition {
    pub value: &'static str,
    pub label: &'static str,
    /// `"both"`, `"web"` or `"mobile"`.
    pub platform: &'static str,
    pub icon: &'static str,
}

/// One kind of assertion, with the fields that an assertion of this kind
/// has to carry.
#[derive(Debug, Clone, Copy)]
pub struct AssertionDefinition {
    pub value: &'static str,
    pub label: &'static str,
    pub needs_selector: bool,
    pub needs_value: bool,
    pub needs_attribute: bool,
}

/// One key that the action `pressKey` accepts.
#[derive(Debug, Clone, Copy)]
pub struct KeyOption {
    pub value: &'static str,
    pub label: &'static str,
}

/// Mathematical model of an [`ActionDefinition`].
pub struct ActionEntry {
    pub value: Seq<char>,
    pub label: Seq<char>,
    pub platform: Seq<char>,
    pub icon: Seq<char>,
}

impl View for ActionDefinition {
    type V = ActionEntry;

    open spec fn view(&self) -> ActionEntry {
        ActionEntry {
            value: self.value@,
            label: self.label@,
            platform: self.platform@,
            icon: self.icon@,
        }
    }
}

/// Mathematical model of a [`KeyOption`].
pub struct KeyEntry {
    pub value: Seq<char>,
    pub label: Seq<char>,
}

impl View for KeyOption {
    type V = KeyEntry;

    open spec fn view(&self) -> KeyEntry {
        KeyEntry { value: self.value@, label: self.label@ }
    }
}

/// What the catalog says of an assertion kind: its name for readers, and
/// the fields that it demands.
pub struct AssertionRule {
    pub value: Seq<char>,
    pub label: Seq<char>,
    pub needs_selector: bool,
    pub needs_value: bool,
    pub needs_attribute: bool,
}

impl View for AssertionDefinition {
    type V = AssertionRule;

    open spec fn view(&self) -> AssertionRule {
        AssertionRule {
            value: self.value@,
            label: self.label@,
            needs_selector: self.needs_selector,
            needs_value: self.needs_value,
            needs_attribute: self.needs_attribute,
        }
    }
}

/// The actions, in catalog order.
pub open spec fn action_entries() -> Seq<ActionEntry> {
    seq![
        ActionEntry { value: "navigate"@, label: "Navigate to URL"@, platform: "both"@, icon: "\u{1F310}"@ },
        ActionEntry { value: "click"@, label: "Click / Tap"@, platform: "both"@, icon: "\u{1F446}"@ },
        ActionEntry { value: "type"@, label: "Type Text"@, platform: "both"@, icon: "\u{2328}\u{FE0F}"@ },
        ActionEntry { value: "clear"@, label: "Clear Input"@, platform: "both"@, icon: "\u{1F9F9}"@ },
        ActionEntry { value: "select"@, label: "Select Option"@, platform: "both"@, icon: "\u{1F4CB}"@ },
        ActionEntry { value: "scroll"@, label: "Scroll"@, platform: "both"@, icon: "\u{1F4DC}"@ },
        ActionEntry { value: "swipe"@, label: "Swipe"@, platform: "mobile"@, icon: "\u{1F449}"@ },
        ActionEntry { value: "wait"@, label: "Wait (Duration)"@, platform: "both"@, icon: "\u{23F1}\u{FE0F}"@ },
        ActionEntry { value: "waitForElement"@, label: "Wait for Element"@, platform: "both"@, icon: "\u{23F3}"@ },
        ActionEntry { value: "pressKey"@, label: "Press Key"@, platform: "both"@, icon: "\u{2328}\u{FE0F}"@ },
        ActionEntry { value: "longPress"@, label: "Long Press / Hold"@, platform: "both"@, icon: "\u{1F446}\u{23F1}\u{FE0F}"@ },
        ActionEntry { value: "doubleClick"@, label: "Double Click / Tap"@, platform: "both"@, icon: "\u{1F446}\u{1F446}"@ },
        ActionEntry { value: "hover"@, label: "Hover"@, platform: "web"@, icon: "\u{1F5B1}\u{FE0F}"@ },
        ActionEntry { value: "dragDrop"@, label: "Drag and Drop"@, platform: "both"@, icon: "\u{2194}\u{FE0F}"@ },
        ActionEntry { value: "back"@, label: "Go Back"@, platform: "both"@, icon: "\u{25C0}\u{FE0F}"@ },
        ActionEntry { value: "refresh"@, label: "Refresh Page"@, platform: "web"@, icon: "\u{1F504}"@ },
    ]
}

/// The action kinds, in catalog order.
pub open spec fn action_values() -> Seq<Seq<char>> {
    Seq::new(action_entries().len(), |i: int| action_entries()[i].value)
}

/// The assertion kinds with their demands, in catalog order.
pub open spec fn assertion_rules() -> Seq<AssertionRule> {
    seq![
        AssertionRule { value: "elementDisplayed"@, label: "Element is Visible"@, needs_selector: true, needs_value: false, needs_attribute: false },
        AssertionRule { value: "elementNotDisplayed"@, label: "Element is Hidden"@, needs_selector: true, needs_value: false, needs_attribute: false },
        AssertionRule { value: "elementExists"@, label: "Element Exists"@, needs_selector: true, needs_value: false, needs_attribute: false },
        AssertionRule { value: "elementClickable"@, label: "Element is Clickable"@, needs_selector: true, needs_value: false, needs_attribute: false },
        AssertionRule { value: "elementInViewport"@, label: "Element in Viewport"@, needs_selector: true, needs_value: false, needs_attribute: false },
        AssertionRule { value: "textEquals"@, label: "Text Equals"@, needs_selector: true, needs_value: true, needs_attribute: false },
        AssertionRule { value: "textContains"@, label: "Text Contains"@, needs_selector: true, needs_value: true, needs_attribute: false },
        AssertionRule { value: "valueEquals"@, label: "Value Equals"@, needs_selector: true, needs_value: true, needs_attribute: false },
        AssertionRule { value: "valueContains"@, label: "Value Contains"@, needs_selector: true, needs_value: true, needs_attribute: false },
        AssertionRule { value: "urlEquals"@, label: "URL Equals"@, needs_selector: false, needs_value: true, needs_attribute: false },
        AssertionRule { value: "urlContains"@, label: "URL Contains"@, needs_selector: false, needs_value: true, needs_attribute: false },
        AssertionRule { value: "titleEquals"@, label: "Title Equals"@, needs_selector: false, needs_value: true, needs_attribute: false },
        AssertionRule { value: "titleContains"@, label: "Title Contains"@, needs_selector: false, needs_value: true, needs_attribute: false },
        AssertionRule { value: "hasClass"@, label: "Has CSS Class"@, needs_selector: true, needs_value: true, needs_attribute: false },
        AssertionRule { value: "hasAttribute"@, label: "Has Attribute"@, needs_selector: true, needs_value: false, needs_attribute: true },
        AssertionRule { value: "isEnabled"@, label: "Is Enabled"@, needs_selector: true, needs_value: false, needs_attribute: false },
        AssertionRule { value: "isDisabled"@, label: "Is Disabled"@, needs_selector: true, needs_value: false, needs_attribute: false },
        AssertionRule { value: "isSelected"@, label: "Is Selected / Checked"@, needs_selector: true, needs_value: false, needs_attribute: false },
    ]
}

/// The keys that `pressKey` accepts, in catalog order.
pub open spec fn key_entries() -> Seq<KeyEntry> {
    seq![
        KeyEntry { value: "Enter"@, label: "Enter"@ },
        KeyEntry { value: "Tab"@, label: "Tab"@ },
        KeyEntry { value: "Escape"@, label: "Escape"@ },
        KeyEntry { value: "Backspace"@, label: "Backspace"@ },
        KeyEntry { value: "Delete"@, label: "Delete"@ },
        KeyEntry { value: "ArrowUp"@, label: "Arrow Up"@ },
        KeyEntry { value: "ArrowDown"@, label: "Arrow Down"@ },
        KeyEntry { value: "ArrowLeft"@, label: "Arrow Left"@ },
        KeyEntry { value: "ArrowRight"@, label: "Arrow Right"@ },
        KeyEntry { value: "Space"@, label: "Space"@ },
    ]
}

/// The key names that `pressKey` accepts, in catalog order.
pub open spec fn key_values() -> Seq<Seq<char>> {
    Seq::new(key_entries().len(), |i: int| key_entries()[i].value)
}

/// An action kind is valid when the catalog lists it, spelled exactly.
pub open spec fn is_action(action: Seq<char>) -> bool {
    action_values().contains(action)
}

/// The first rule from position `from` on whose kind is `kind`.
pub open spec fn find_rule(rules: Seq<AssertionRule>, kind: Seq<char>, from: int) -> Option<
    AssertionRule,
>
    decreases rules.len() - from,
{
    if from < 0 || from >= rules.len() {
        None
    } else if rules[from].value == kind {
        Some(rules[from])
    } else {
        find_rule(rules, kind, from + 1)
    }
}

/// The catalog's rule for an assertion kind, spelled exactly.
pub open spec fn assertion_rule(kind: Seq<char>) -> Option<AssertionRule> {
    find_rule(assertion_rules(), kind, 0)
}

/// Whether `key` is one of the key names of the catalog, spelled exactly.
pub open spec fn is_key_option(key: Seq<char>) -> bool {
    key_values().contains(key)
}

/// The assertion kinds that may follow an action, by the action's exact
/// spelling. An action that is not listed allows none.
pub open spec fn allowed_assertions(action: Seq<char>) -> Seq<Seq<char>> {
    if action == "navigate"@ {
        seq!["urlContains"@, "urlEquals"@, "titleContains"@, "titleEquals"@, "elementDisplayed"@, "elementExists"@]
    } else if action == "click"@ {
        seq!["elementDisplayed"@, "elementNotDisplayed"@, "elementExists"@, "textContains"@, "textEquals"@, "urlContains"@, "hasClass"@, "isEnabled"@, "isDisabled"@]
    } else if action == "type"@ {
        seq!["valueEquals"@, "valueContains"@, "elementDisplayed"@, "hasClass"@, "isEnabled"@, "textContains"@]
    } else if action == "clear"@ {
        seq!["valueEquals"@, "elementDisplayed"@]
    } else if action == "select"@ {
        seq!["valueEquals"@, "isSelected"@, "textEquals"@, "elementDisplayed"@]
    } else if action == "scroll"@ {
        seq!["elementDisplayed"@, "elementInViewport"@, "elementExists"@]
    } else if action == "swipe"@ {
        seq!["elementDisplayed"@, "elementNotDisplayed"@, "elementExists"@, "hasAttribute"@]
    } else if action == "wait"@ {
        seq!["elementDisplayed"@, "elementExists"@, "elementClickable"@, "hasAttribute"@]
    } else if action == "waitForElement"@ {
        seq!["elementDisplayed"@, "elementExists"@, "elementClickable"@, "hasAttribute"@]
    } else if action == "pressKey"@ {
        seq!["elementDisplayed"@, "valueContains"@, "textContains"@, "urlContains"@]
    } else if action == "longPress"@ {
        seq!["elementDisplayed"@, "textContains"@, "hasClass"@, "elementExists"@]
    } else if action == "doubleClick"@ {
        seq!["elementDisplayed"@, "textContains"@, "hasClass"@, "elementExists"@]
    } else if action == "hover"@ {
        seq!["elementDisplayed"@, "hasClass"@, "hasAttribute"@, "textContains"@]
    } else if action == "dragDrop"@ {
        seq!["elementDisplayed"@, "hasClass"@, "elementExists"@]
    } else if action == "back"@ {
        seq!["urlContains"@, "elementDisplayed"@, "titleContains"@]
    } else if action == "refresh"@ {
        seq!["elementDisplayed"@, "elementExists"@]
    } else {
        seq![]
    }
}

/// The parameter names that an action keeps, by the action's exact spelling;
/// `None` for a text that is no action of the catalog.
pub open spec fn allowed_params(action: Seq<char>) -> Option<Seq<Seq<char>>> {
    if action == "navigate"@ {
        Some(seq!["url"@])
    } else if action == "click"@ {
        Some(seq!["selector"@, "text"@])
    } else if action == "doubleClick"@ {
        Some(seq!["selector"@, "text"@])
    } else if action == "longPress"@ {
        Some(seq!["selector"@, "text"@])
    } else if action == "type"@ {
        Some(seq!["selector"@, "value"@])
    } else if action == "clear"@ {
        Some(seq!["selector"@])
    } else if action == "hover"@ {
        Some(seq!["selector"@])
    } else if action == "select"@ {
        Some(seq!["selector"@, "value"@])
    } else if action == "scroll"@ {
        Some(seq!["direction"@, "selector"@])
    } else if action == "swipe"@ {
        Some(seq!["direction"@, "selector"@])
    } else if action == "wait"@ {
        Some(seq!["timeout"@])
    } else if action == "waitForElement"@ {
        Some(seq!["selector"@, "timeout"@])
    } else if action == "pressKey"@ {
        Some(seq!["key"@])
    } else if action == "dragDrop"@ {
        Some(seq!["selector"@, "targetSelector"@])
    } else if action == "back"@ {
        Some(seq![])
    } else if action == "refresh"@ {
        Some(seq![])
    } else {
        None
    }
}

/// The table of action kinds.
pub fn action_definitions() -> (defs: Vec<ActionDefinition>)
    ensures
        defs@.len() == action_entries().len(),
        forall|i: int| 0 <= i < defs@.len() ==> (#[trigger] defs@[i])@ == action_entries()[i],
{
    vec![
        ActionDefinition { value: "navigate", label: "Navigate to URL", platform: "both", icon: "\u{1F310}" },
        ActionDefinition { value: "click", label: "Click / Tap", platform: "both", icon: "\u{1F446}" },
        ActionDefinition { value: "type", label: "Type Text", platform: "both", icon: "\u{2328}\u{FE0F}" },
        ActionDefinition { value: "clear", label: "Clear Input", platform: "both", icon: "\u{1F9F9}" },
        ActionDefinition { value: "select", label: "Select Option", platform: "both", icon: "\u{1F4CB}" },
        ActionDefinition { value: "scroll", label: "Scroll", platform: "both", icon: "\u{1F4DC}" },
        ActionDefinition { value: "swipe", label: "Swipe", platform: "mobile", icon: "\u{1F449}" },
        ActionDefinition { value: "wait", label: "Wait (Duration)", platform: "both", icon: "\u{23F1}\u{FE0F}" },
        ActionDefinition { value: "waitForElement", label: "Wait for Element", platform: "both", icon: "\u{23F3}" },
        ActionDefinition { value: "pressKey", label: "Press Key", platform: "both", icon: "\u{2328}\u{FE0F}" },
        ActionDefinition { value: "longPress", label: "Long Press / Hold", platform: "both", icon: "\u{1F446}\u{23F1}\u{FE0F}" },
        ActionDefinition { value: "doubleClick", label: "Double Click / Tap", platform: "both", icon: "\u{1F446}\u{1F446}" },
        ActionDefinition { value: "hover", label: "Hover", platform: "web", icon: "\u{1F5B1}\u{FE0F}" },
        ActionDefinition { value: "dragDrop", label: "Drag and Drop", platform: "both", icon: "\u{2194}\u{FE0F}" },
        ActionDefinition { value: "back", label: "Go Back", platform: "both", icon: "\u{25C0}\u{FE0F}" },
        ActionDefinition { value: "refresh", label: "Refresh Page", platform: "web", icon: "\u{1F504}" },
    ]
}

/// The table of assertion kinds.
pub fn assertion_definitions() -> (defs: Vec<AssertionDefinition>)
    ensures
        defs@.len() == assertion_rules().len(),
        forall|i: int| 0 <= i < defs@.len() ==> (#[trigger] defs@[i])@ == assertion_rules()[i],
{
    vec![
        AssertionDefinition {
            value: "elementDisplayed",
            label: "Element is Visible",
            needs_selector: true,
            needs_value: false,
            needs_attribute: false,
        },
        AssertionDefinition {
            value: "elementNotDisplayed",
            label: "Element is Hidden",
            needs_selector: true,
            needs_value: false,
            needs_attribute: false,
        },
        AssertionDefinition {
            value: "elementExists",
            label: "Element Exists",
            needs_selector: true,
            needs_value: false,
            needs_attribute: false,
        },
        AssertionDefinition {
            value: "elementClickable",
            label: "Element is Clickable",
            needs_selector: true,
            needs_value: false,
            needs_attribute: false,
        },
        AssertionDefinition {
            value: "elementInViewport",
            label: "Element in Viewport",
            needs_selector: true,
            needs_value: false,
            needs_attribute: false,
        },
        AssertionDefinition {
            value: "textEquals",
            label: "Text Equals",
            needs_selector: true,
            needs_value: true,
            needs_attribute: false,
        },
        AssertionDefinition {
            value: "textContains",
            label: "Text Contains",
            needs_selector: true,
            needs_value: true,
            needs_attribute: false,
        },
        AssertionDefinition {
            value: "valueEquals",
            label: "Value Equals",
            needs_selector: true,
            needs_value: true,
            needs_attribute: false,
        },
        AssertionDefinition {
            value: "valueContains",
            label: "Value Contains",
            needs_selector: true,
            needs_value: true,
            needs_attribute: false,
        },
        AssertionDefinition {
            value: "urlEquals",
            label: "URL Equals",
            needs_selector: false,
            needs_value: true,
            needs_attribute: false,
        },
        AssertionDefinition {
            value: "urlContains",
            label: "URL Contains",
            needs_selector: false,
            needs_value: true,
            needs_attribute: false,
        },
        AssertionDefinition {
            value: "titleEquals",
            label: "Title Equals",
            needs_selector: false,
            needs_value: true,
            needs_attribute: false,
        },
        AssertionDefinition {
            value: "titleContains",
            label: "Title Contains",
            needs_selector: false,
            needs_value: true,
            needs_attribute: false,
        },
        AssertionDefinition {
            value: "hasClass",
            label: "Has CSS Class",
            needs_selector: true,
            needs_value: true,
            needs_attribute: false,
        },
        AssertionDefinition {
            value: "hasAttribute",
            label: "Has Attribute",
            needs_selector: true,
            needs_value: false,
            needs_attribute: true,
        },
        AssertionDefinition {
            value: "isEnabled",
            label: "Is Enabled",
            needs_selector: true,
            needs_value: false,
            needs_attribute: false,
        },
        AssertionDefinition {
            value: "isDisabled",
            label: "Is Disabled",
            needs_selector: true,
            needs_value: false,
            needs_attribute: false,
        },
        AssertionDefinition {
            value: "isSelected",
            label: "Is Selected / Checked",
            needs_selector: true,
            needs_value: false,
            needs_attribute: false,
        },
    ]
}

/// The table of key names for `pressKey`.
pub fn key_options() -> (keys: Vec<KeyOption>)
    ensures
        keys@.len() == key_entries().len(),
        forall|i: int| 0 <= i < keys@.len() ==> (#[trigger] keys@[i])@ == key_entries()[i],
{
    vec![
        KeyOption { value: "Enter", label: "Enter" },
        KeyOption { value: "Tab", label: "Tab" },
        KeyOption { value: "Escape", label: "Escape" },
        KeyOption { value: "Backspace", label: "Backspace" },
        KeyOption { value: "Delete", label: "Delete" },
        KeyOption { value: "ArrowUp", label: "Arrow Up" },
        KeyOption { value: "ArrowDown", label: "Arrow Down" },
        KeyOption { value: "ArrowLeft", label: "Arrow Left" },
        KeyOption { value: "ArrowRight", label: "Arrow Right" },
        KeyOption { value: "Space", label: "Space" },
    ]
}

/// Whether `action_type` names an action of the catalog, spelled exactly.
pub fn is_valid_action_type(action_type: &str) -> (valid: bool)
    ensures
        valid == is_action(action_type@),
{
    let defs = action_definitions();
    let mut i: usize = 0;
    while i < defs.len()
        invariant
            i <= defs.len(),
            defs@.len() == action_values().len(),
            forall|k: int| 0 <= k < defs@.len() ==> (#[trigger] defs@[k])@ == action_entries()[k],
            forall|k: int| 0 <= k < i ==> #[trigger] action_values()[k] != action_type@,
        decreases defs.len() - i,
    {
        assert(action_values()[i as int] == defs@[i as int].value@);
        if str_eq(defs[i].value, action_type) {
            assert(action_values().contains(action_type@));
            return true;
        }
        i += 1;
    }
    false
}

/// The catalog's definition of an assertion kind, spelled exactly.
pub fn get_assertion_definition(assertion_type: &str) -> (found: Option<AssertionDefinition>)
    ensures
        found.is_some() == assertion_rule(assertion_type@).is_some(),
        found.is_some() ==> found.unwrap()@ == assertion_rule(assertion_type@).unwrap(),
{
    let defs = assertion_definitions();
    let mut i: usize = 0;
    while i < defs.len()
        invariant
            i <= defs.len(),
            defs@.len() == assertion_rules().len(),
            forall|k: int| 0 <= k < defs@.len() ==> (#[trigger] defs@[k])@ == assertion_rules()[k],
            assertion_rule(assertion_type@) == find_rule(
                assertion_rules(),
                assertion_type@,
                i as int,
            ),
        decreases defs.len() - i,
    {
        if str_eq(defs[i].value, assertion_type) {
            return Some(defs[i]);
        }
        i += 1;
    }
    None
}

/// Whether `assertion_type` names an assertion of the catalog, spelled
/// exactly.
pub fn is_valid_assertion_type(assertion_type: &str) -> (valid: bool)
    ensures
        valid == assertion_rule(assertion_type@).is_some(),
{
    get_assertion_definition(assertion_type).is_some()
}

/// Whether `key` is one of the key names that `pressKey` accepts.
pub fn is_valid_key_option(key: &str) -> (valid: bool)
    ensures
        valid == is_key_option(key@),
{
    let keys = key_options();
    let mut i: usize = 0;
    while i < keys.len()
        invariant
            i <= keys.len(),
            keys@.len() == key_values().len(),
            forall|k: int| 0 <= k < keys@.len() ==> (#[trigger] keys@[k])@ == key_entries()[k],
            forall|k: int| 0 <= k < i ==> #[trigger] key_values()[k] != key@,
        decreases keys.len() - i,
    {
        assert(key_values()[i as int] == keys@[i as int].value@);
        if str_eq(keys[i].value, key) {
            assert(key_values().contains(key@));
            return true;
        }
        i += 1;
    }
    false
}

/// The assertion kinds that may follow the action `action_type`.
pub fn allowed_assertions_for_action(action_type: &str) -> (allowed: Vec<&'static str>)
    ensures
        texts(allowed@) == allowed_assertions(action_type@),
{
    let allowed: Vec<&'static str> = if str_eq(action_type, "navigate") {
        vec!["urlContains", "urlEquals", "titleContains", "titleEquals", "elementDisplayed", "elementExists"]
    } else if str_eq(action_type, "click") {
        vec!["elementDisplayed", "elementNotDisplayed", "elementExists", "textContains", "textEquals", "urlContains", "hasClass", "isEnabled", "isDisabled"]
    } else if str_eq(action_type, "type") {
        vec!["valueEquals", "valueContains", "elementDisplayed", "hasClass", "isEnabled", "textContains"]
    } else if str_eq(action_type, "clear") {
        vec!["valueEquals", "elementDisplayed"]
    } else if str_eq(action_type, "select") {
        vec!["valueEquals", "isSelected", "textEquals", "elementDisplayed"]
    } else if str_eq(action_type, "scroll") {
        vec!["elementDisplayed", "elementInViewport", "elementExists"]
    } else if str_eq(action_type, "swipe") {
        vec!["elementDisplayed", "elementNotDisplayed", "elementExists", "hasAttribute"]
    } else if str_eq(action_type, "wait") {
        vec!["elementDisplayed", "elementExists", "elementClickable", "hasAttribute"]
    } else if str_eq(action_type, "waitForElement") {
        vec!["elementDisplayed", "elementExists", "elementClickable", "hasAttribute"]
    } else if str_eq(action_type, "pressKey") {
        vec!["elementDisplayed", "valueContains", "textContains", "urlContains"]
    } else if str_eq(action_type, "longPress") {
        vec!["elementDisplayed", "textContains", "hasClass", "elementExists"]
    } else if str_eq(action_type, "doubleClick") {
        vec!["elementDisplayed", "textContains", "hasClass", "elementExists"]
    } else if str_eq(action_type, "hover") {
        vec!["elementDisplayed", "hasClass", "hasAttribute", "textContains"]
    } else if str_eq(action_type, "dragDrop") {
        vec!["elementDisplayed", "hasClass", "elementExists"]
    } else if str_eq(action_type, "back") {
        vec!["urlContains", "elementDisplayed", "titleContains"]
    } else if str_eq(action_type, "refresh") {
        vec!["elementDisplayed", "elementExists"]
    } else {
        vec![]
    };
    assert(texts(allowed@) =~= allowed_assertions(action_type@));
    allowed
}

/// The parameter names that the action `action_type` keeps, or `None` where
/// it is no action of the catalog.
pub fn allowed_params_for_action(action_type: &str) -> (allowed: Option<Vec<&'static str>>)
    ensures
        allowed.is_some() == allowed_params(action_type@).is_some(),
        allowed.is_some() ==> texts(allowed.unwrap()@) == allowed_params(action_type@).unwrap(),
{
    let allowed: Option<Vec<&'static str>> = if str_eq(action_type, "navigate") {
        Some(vec!["url"])
    } else if str_eq(action_type, "click") {
        Some(vec!["selector", "text"])
    } else if str_eq(action_type, "doubleClick") {
        Some(vec!["selector", "text"])
    } else if str_eq(action_type, "longPress") {
        Some(vec!["selector", "text"])
    } else if str_eq(action_type, "type") {
        Some(vec!["selector", "value"])
    } else if str_eq(action_type, "clear") {
        Some(vec!["selector"])
    } else if str_eq(action_type, "hover") {
        Some(vec!["selector"])
    } else if str_eq(action_type, "select") {
        Some(vec!["selector", "value"])
    } else if str_eq(action_type, "scroll") {
        Some(vec!["direction", "selector"])
    } else if str_eq(action_type, "swipe") {
        Some(vec!["direction", "selector"])
    } else if str_eq(action_type, "wait") {
        Some(vec!["timeout"])
    } else if str_eq(action_type, "waitForElement") {
        Some(vec!["selector", "timeout"])
    } else if str_eq(action_type, "pressKey") {
        Some(vec!["key"])
    } else if str_eq(action_type, "dragDrop") {
        Some(vec!["selector", "targetSelector"])
    } else if str_eq(action_type, "back") {
        Some(vec![])
    } else if str_eq(action_type, "refresh") {
        Some(vec![])
    } else {
        None
    };
    assert(allowed.is_some() ==> texts(allowed.unwrap()@) =~= allowed_params(action_type@).unwrap());
    allowed
}

/// A rule that stands at or after position `from` is found from there.
pub proof fn lemma_rule_is_found(rules: Seq<AssertionRule>, kind: Seq<char>, from: int, at: int)
    requires
        0 <= from <= at < rules.len(),
        rules[at].value == kind,
    ensures
        find_rule(rules, kind, from).is_some(),
        find_rule(rules, kind, from).unwrap().value == kind,
    decreases at - from,
{
    if rules[from].value != kind {
        lemma_rule_is_found(rules, kind, from + 1, at);
    }
}

/// The valid actions are those that have a list of the parameters that
/// they keep; no assertion may follow any other.
pub proof fn lemma_listed_actions(action: Seq<char>)
    ensures
        is_action(action) <==> allowed_params(action).is_some(),
        !is_action(action) ==> allowed_assertions(action).len() == 0,
{
    let values = action_values();
    assert(values.len() == 16);
    assert(values[0] == "navigate"@);
    assert(values[1] == "click"@);
    assert(values[2] == "type"@);
    assert(values[3] == "clear"@);
    assert(values[4] == "select"@);
    assert(values[5] == "scroll"@);
    assert(values[6] == "swipe"@);
    assert(values[7] == "wait"@);
    assert(values[8] == "waitForElement"@);
    assert(values[9] == "pressKey"@);
    assert(values[10] == "longPress"@);
    assert(values[11] == "doubleClick"@);
    assert(values[12] == "hover"@);
    assert(values[13] == "dragDrop"@);
    assert(values[14] == "back"@);
    assert(values[15] == "refresh"@);
    if is_action(action) {
        let at = choose|at: int| 0 <= at < values.len() && values[at] == action;
        assert(values[at] == action);
    }
    if allowed_params(action).is_some() {
        assert(values.contains(action));
    }
}

/// Every assertion kind that may follow an action is a kind of the
/// catalog.
pub proof fn lemma_allowed_assertions_are_known(action: Seq<char>, at: int)
    requires
        0 <= at < allowed_assertions(action).len(),
    ensures
        assertion_rule(allowed_assertions(action)[at]).is_some(),
{
    let rules = assertion_rules();
    let kind = allowed_assertions(action)[at];
    assert(rules.len() == 18);
    if kind == "elementDisplayed"@ {
        lemma_rule_is_found(rules, kind, 0, 0);
    } else if kind == "elementNotDisplayed"@ {
        lemma_rule_is_found(rules, kind, 0, 1);
    } else if kind == "elementExists"@ {
        lemma_rule_is_found(rules, kind, 0, 2);
    } else if kind == "elementClickable"@ {
        lemma_rule_is_found(rules, kind, 0, 3);
    } else if kind == "elementInViewport"@ {
        lemma_rule_is_found(rules, kind, 0, 4);
    } else if kind == "textEquals"@ {
        lemma_rule_is_found(rules, kind, 0, 5);
    } else if kind == "textContains"@ {
        lemma_rule_is_found(rules, kind, 0, 6);
    } else if kind == "valueEquals"@ {
        lemma_rule_is_found(rules, kind, 0, 7);
    } else if kind == "valueContains"@ {
        lemma_rule_is_found(rules, kind, 0, 8);
    } else if kind == "urlEquals"@ {
        lemma_rule_is_found(rules, kind, 0, 9);
    } else if kind == "urlContains"@ {
        lemma_rule_is_found(rules, kind, 0, 10);
    } else if kind == "titleEquals"@ {
        lemma_rule_is_found(rules, kind, 0, 11);
    } else if kind == "titleContains"@ {
        lemma_rule_is_found(rules, kind, 0, 12);
    } else if kind == "hasClass"@ {
        lemma_rule_is_found(rules, kind, 0, 13);
    } else if kind == "hasAttribute"@ {
        lemma_rule_is_found(rules, kind, 0, 14);
    } else if kind == "isEnabled"@ {
        lemma_rule_is_found(rules, kind, 0, 15);
    } else if kind == "isDisabled"@ {
        lemma_rule_is_found(rules, kind, 0, 16);
    } else if kind == "isSelected"@ {
        lemma_rule_is_found(rules, kind, 0, 17);
    }
}

} // verus!
