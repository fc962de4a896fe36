//! Definitions of actions and assertions as a store holds them for its
//! clients, beside the catalog that the validator goes by.
use crate::ids::{hyphenated, id_to_string};
use crate::step::text_view;
use crate::time::Timestamp;
use vstd::prelude::*;

verus! {

/// The definition of an action as stored.
#[derive(Debug)]
pub struct ActionDefinition {
    pub id: u128,
    pub action_key: String,
    pub label: String,
    pub category: String,
    pub platform: String,
    pub description: Option<String>,
    /// The shape of the parameters, in serialized form.
    pub param_schema: String,
    pub is_system: bool,
    pub created_by: Option<u128>,
    pub display_order: i32,
    pub is_active: bool,
    pub created_at: Timestamp,
    pub updated_at: Timestamp,
}

/// The definition of an assertion as stored.
#[derive(Debug)]
pub struct AssertionDefinition {
    pub id: u128,
    pub assertion_key: String,
    pub label: String,
    pub category: String,
    pub description: Option<String>,
    /// The shape of the parameters, in serialized form.
    pub param_schema: String,
    pub valid_for_actions: Vec<String>,
    pub is_system: bool,
    pub created_by: Option<u128>,
    pub display_order: i32,
    pub is_active: bool,
    pub created_at: Timestamp,
    pub updated_at: Timestamp,
}

/// The definition of an action as shown to clients.
#[derive(Debug)]
pub struct ActionDefinitionResponse {
    pub id: String,
    pub action_key: String,
    pub label: String,
    pub category: String,
    pub platform: String,
    pub description: Option<String>,
    pub param_schema: String,
    pub is_system: bool,
    pub display_order: i32,
}

/// The definition of an assertion as shown to clients.
#[derive(Debug)]
pub struct AssertionDefinitionResponse {
    pub id: String,
    pub assertion_key: String,
    pub label: String,
    pub category: String,
    pub description: Option<String>,
    pub param_schema: String,
    pub valid_for_actions: Vec<String>,
    pub is_system: bool,
    pub display_order: i32,
}

/// All definitions that are in use.
#[derive(Debug)]
pub struct DefinitionsResponse {
    pub actions: Vec<ActionDefinitionResponse>,
    pub assertions: Vec<AssertionDefinitionResponse>,
}

impl ActionDefinitionResponse {
    /// What is shown of the definition of an action: all but its times, its
    /// author and whether it is in use, under its identifier in hyphenated
    /// form.
    pub fn from_definition(ad: ActionDefinition) -> (shown: ActionDefinitionResponse)
        ensures
            shown.id@ == hyphenated(ad.id),
            shown.action_key@ == ad.action_key@,
            shown.label@ == ad.label@,
            shown.category@ == ad.category@,
            shown.platform@ == ad.platform@,
            text_view(shown.description) == text_view(ad.description),
            shown.param_schema@ == ad.param_schema@,
            shown.is_system == ad.is_system,
            shown.display_order == ad.display_order,
    {
        ActionDefinitionResponse {
            id: id_to_string(ad.id),
            action_key: ad.action_key,
            label: ad.label,
            category: ad.category,
            platform: ad.platform,
            description: ad.description,
            param_schema: ad.param_schema,
            is_system: ad.is_system,
            display_order: ad.display_order,
        }
    }
}

impl AssertionDefinitionResponse {
    /// What is shown of the definition of an assertion: all but its times,
    /// its author and whether it is in use, under its identifier in
    /// hyphenated form.
    pub fn from_definition(ad: AssertionDefinition) -> (shown: AssertionDefinitionResponse)
        ensures
            shown.id@ == hyphenated(ad.id),
            shown.assertion_key@ == ad.assertion_key@,
            shown.label@ == ad.label@,
            shown.category@ == ad.category@,
            text_view(shown.description) == text_view(ad.description),
            shown.param_schema@ == ad.param_schema@,
            shown.valid_for_actions == ad.valid_for_actions,
            shown.is_system == ad.is_system,
            shown.display_order == ad.display_order,
    {
        AssertionDefinitionResponse {
            id: id_to_string(ad.id),
            assertion_key: ad.assertion_key,
            label: ad.label,
            category: ad.category,
            description: ad.description,
            param_schema: ad.param_schema,
            valid_for_actions: ad.valid_for_actions,
            is_system: ad.is_system,
            display_order: ad.display_order,
        }
    }
}

} // verus!
