//! Profiles and settings as the store's tables hold them.

use vstd::prelude::*;
use vstd::string::*;

use crate::config::{
    mapping_mode_of, opt_view, rule_views, MappingRule, MappingRuleView, ModelMappingMode,
    Profile, ProfileView,
};

verus! {

/// A flag as a table holds it: 1 or 0.
pub fn flag_to_int(flag: bool) -> (r: i32)
    ensures
        r == if flag {
            1i32
        } else {
            0i32
        },
{
    if flag {
        1
    } else {
        0
    }
}

/// A flag as a setting holds it: `true` or `false`.
pub fn flag_to_text(flag: bool) -> (r: &'static str)
    ensures
        r@ == if flag {
            "true"@
        } else {
            "false"@
        },
{
    if flag {
        "true"
    } else {
        "false"
    }
}

/// The mapping rule of a table row: any number but 0 marks a regular
/// expression.
pub fn rule_from_row(pattern: String, target: String, use_regex: i32) -> (r: MappingRule)
    ensures
        r@ == (MappingRuleView { pattern: pattern@, target: target@, use_regex: use_regex != 0 }),
{
    MappingRule { pattern, target, use_regex: use_regex != 0 }
}

/// The profile of a table row and its rules: any number but 0 marks the
/// active profile, and the mode is read by its name.
pub fn profile_from_row(
    id: String,
    name: String,
    api_base_url: String,
    api_key: String,
    is_active: i32,
    model_mapping_mode: &str,
    override_model: Option<String>,
    model_mappings: Vec<MappingRule>,
) -> (r: Profile)
    ensures
        r@ == (ProfileView {
            id: id@,
            name: name@,
            api_base_url: api_base_url@,
            api_key: api_key@,
            is_active: is_active != 0,
            model_mapping_mode: mapping_mode_of(model_mapping_mode@),
            override_model: opt_view(override_model),
            model_mappings: rule_views(model_mappings@),
        }),
{
    Profile {
        id,
        name,
        api_base_url,
        api_key,
        is_active: is_active != 0,
        model_mapping_mode: ModelMappingMode::from_str(model_mapping_mode),
        override_model,
        model_mappings,
    }
}

} // verus!
