//! Upstream profiles, their model-mapping rules, and the store that holds the
//! profiles together with the proxy's own access key.

use vstd::prelude::*;
use vstd::string::*;

pub mod laws;
pub mod matcher;
pub mod store;

use crate::config::matcher::{compile, is_match, regex_compiles, regex_matches};
use crate::ident::fresh_uuid;
use crate::text::str_eq;

verus! {

/// How a profile turns the requested model into the forwarded one.
#[derive(Debug, Clone, Copy, PartialEq, Eq, Structural)]
pub enum ModelMappingMode {
    /// Forward the requested model unchanged.
    Passthrough,
    /// Always forward the profile's own model.
    Override,
    /// Forward what the first matching rule names.
    MapRules,
}

/// The name under which a mode is stored and shown.
pub open spec fn mapping_mode_name(mode: ModelMappingMode) -> Seq<char> {
    match mode {
        ModelMappingMode::Passthrough => "passthrough"@,
        ModelMappingMode::Override => "override"@,
        ModelMappingMode::MapRules => "map"@,
    }
}

/// The mode that a stored name stands for; unknown names mean passthrough.
pub open spec fn mapping_mode_of(name: Seq<char>) -> ModelMappingMode {
    if name == "override"@ {
        ModelMappingMode::Override
    } else if name == "map"@ {
        ModelMappingMode::MapRules
    } else {
        ModelMappingMode::Passthrough
    }
}

impl Default for ModelMappingMode {
    fn default() -> (r: Self)
        ensures
            r == ModelMappingMode::Passthrough,
    {
        ModelMappingMode::Passthrough
    }
}

impl ModelMappingMode {
    pub fn as_str(&self) -> (r: &'static str)
        ensures
            r@ == mapping_mode_name(*self),
    {
        match self {
            ModelMappingMode::Passthrough => "passthrough",
            ModelMappingMode::Override => "override",
            ModelMappingMode::MapRules => "map",
        }
    }

    pub fn from_str(s: &str) -> (r: Self)
        ensures
            r == mapping_mode_of(s@),
    {
        if str_eq(s, "override") {
            ModelMappingMode::Override
        } else if str_eq(s, "map") {
            ModelMappingMode::MapRules
        } else {
            ModelMappingMode::Passthrough
        }
    }
}

/// Reading back a written mode name gives the mode.
pub proof fn lemma_mapping_mode_round_trip(mode: ModelMappingMode)
    ensures
        mapping_mode_of(mapping_mode_name(mode)) == mode,
{
    reveal_strlit("passthrough");
    reveal_strlit("override");
    reveal_strlit("map");
    assert("passthrough"@.len() == 11);
    assert("override"@.len() == 8);
    assert("map"@.len() == 3);
}

/// One mapping rule: models that match `pattern` are forwarded as `target`.
#[derive(Debug)]
pub struct MappingRule {
    /// An exact model name, or a regular expression when `use_regex` is set.
    pub pattern: String,
    /// The model to forward instead.
    pub target: String,
    /// Whether `pattern` is a regular expression.
    pub use_regex: bool,
}

/// The mathematical content of a [`MappingRule`].
pub struct MappingRuleView {
    pub pattern: Seq<char>,
    pub target: Seq<char>,
    pub use_regex: bool,
}

impl View for MappingRule {
    type V = MappingRuleView;

    open spec fn view(&self) -> MappingRuleView {
        MappingRuleView { pattern: self.pattern@, target: self.target@, use_regex: self.use_regex }
    }
}

impl Clone for MappingRule {
    fn clone(&self) -> (r: Self)
        ensures
            r@ == self@,
    {
        MappingRule {
            pattern: self.pattern.clone(),
            target: self.target.clone(),
            use_regex: self.use_regex,
        }
    }
}

/// The views of a list of rules, in order.
pub open spec fn rule_views(rules: Seq<MappingRule>) -> Seq<MappingRuleView> {
    Seq::new(rules.len(), |i: int| rules[i]@)
}

/// Copies a rule list.
pub fn clone_rules(rules: &Vec<MappingRule>) -> (r: Vec<MappingRule>)
    ensures
        rule_views(r@) == rule_views(rules@),
{
    let mut out: Vec<MappingRule> = Vec::new();
    let mut i: usize = 0;
    while i < rules.len()
        invariant
            i <= rules.len(),
            out@.len() == i,
            forall|j: int| 0 <= j < i ==> out@[j]@ == rules@[j]@,
        decreases rules.len() - i,
    {
        out.push(rules[i].clone());
        i += 1;
    }
    proof {
        assert(rule_views(out@) =~= rule_views(rules@));
    }
    out
}

/// Copies an optional text.
pub fn clone_opt(text: &Option<String>) -> (r: Option<String>)
    ensures
        opt_view(r) == opt_view(*text),
{
    match text {
        Some(s) => Some(s.clone()),
        None => None,
    }
}

/// The view of an optional text.
pub open spec fn opt_view(text: Option<String>) -> Option<Seq<char>> {
    match text {
        Some(s) => Some(s@),
        None => None,
    }
}

/// True when a rule applies to a model: a regular-expression rule whose
/// pattern compiles and matches, or an exact rule equal to the model. A
/// regular expression that does not compile applies to nothing.
pub open spec fn rule_matches(rule: MappingRuleView, model: Seq<char>) -> bool {
    if rule.use_regex {
        regex_compiles(rule.pattern) && regex_matches(rule.pattern, model)
    } else {
        rule.pattern == model
    }
}

/// The target of the first rule at or after `from` that applies to `model`,
/// or `model` itself when none does.
pub open spec fn resolve_rules(rules: Seq<MappingRuleView>, model: Seq<char>, from: int) -> Seq<
    char,
>
    decreases rules.len() - from,
{
    if from < 0 || from >= rules.len() {
        model
    } else if rule_matches(rules[from], model) {
        rules[from].target
    } else {
        resolve_rules(rules, model, from + 1)
    }
}

/// An upstream endpoint the proxy can forward to.
#[derive(Debug)]
pub struct Profile {
    pub id: String,
    pub name: String,
    pub api_base_url: String,
    pub api_key: String,
    pub is_active: bool,
    pub model_mapping_mode: ModelMappingMode,
    pub override_model: Option<String>,
    pub model_mappings: Vec<MappingRule>,
}

/// The mathematical content of a [`Profile`].
pub struct ProfileView {
    pub id: Seq<char>,
    pub name: Seq<char>,
    pub api_base_url: Seq<char>,
    pub api_key: Seq<char>,
    pub is_active: bool,
    pub model_mapping_mode: ModelMappingMode,
    pub override_model: Option<Seq<char>>,
    pub model_mappings: Seq<MappingRuleView>,
}

impl View for Profile {
    type V = ProfileView;

    open spec fn view(&self) -> ProfileView {
        ProfileView {
            id: self.id@,
            name: self.name@,
            api_base_url: self.api_base_url@,
            api_key: self.api_key@,
            is_active: self.is_active,
            model_mapping_mode: self.model_mapping_mode,
            override_model: opt_view(self.override_model),
            model_mappings: rule_views(self.model_mappings@),
        }
    }
}

/// The views of a list of profiles, in order.
pub open spec fn profile_views(profiles: Seq<Profile>) -> Seq<ProfileView> {
    Seq::new(profiles.len(), |i: int| profiles[i]@)
}

impl Clone for Profile {
    fn clone(&self) -> (r: Self)
        ensures
            r@ == self@,
    {
        Profile {
            id: self.id.clone(),
            name: self.name.clone(),
            api_base_url: self.api_base_url.clone(),
            api_key: self.api_key.clone(),
            is_active: self.is_active,
            model_mapping_mode: self.model_mapping_mode,
            override_model: clone_opt(&self.override_model),
            model_mappings: clone_rules(&self.model_mappings),
        }
    }
}

impl ProfileView {
    /// The model that this profile forwards for a requested model.
    pub open spec fn resolve(self, model: Seq<char>) -> Seq<char> {
        match self.model_mapping_mode {
            ModelMappingMode::Passthrough => model,
            ModelMappingMode::Override => match self.override_model {
                Some(m) => m,
                None => model,
            },
            ModelMappingMode::MapRules => resolve_rules(self.model_mappings, model, 0),
        }
    }

    /// The same profile with another activation flag.
    pub open spec fn with_active(self, active: bool) -> ProfileView {
        ProfileView { is_active: active, ..self }
    }
}

impl Profile {
    /// A new inactive passthrough profile with a fresh identifier.
    pub fn new(name: String, api_base_url: String, api_key: String) -> (r: Self)
        ensures
            r@.name == name@,
            r@.api_base_url == api_base_url@,
            r@.api_key == api_key@,
            !r@.is_active,
            r@.model_mapping_mode == ModelMappingMode::Passthrough,
            r@.override_model is None,
            r@.model_mappings.len() == 0,
            r@.id.len() == 36,
    {
        Profile {
            id: fresh_uuid(),
            name,
            api_base_url,
            api_key,
            is_active: false,
            model_mapping_mode: ModelMappingMode::Passthrough,
            override_model: None,
            model_mappings: Vec::new(),
        }
    }

    /// The model to forward for a requested model, by this profile's policy.
    pub fn resolve_model(&self, original_model: &str) -> (r: String)
        ensures
            r@ == self@.resolve(original_model@),
    {
        match self.model_mapping_mode {
            ModelMappingMode::Passthrough => String::from_str(original_model),
            ModelMappingMode::Override => match &self.override_model {
                Some(m) => m.clone(),
                None => String::from_str(original_model),
            },
            ModelMappingMode::MapRules => {
                let ghost rules = rule_views(self.model_mappings@);
                let mut i: usize = 0;
                while i < self.model_mappings.len()
                    invariant
                        i <= self.model_mappings.len(),
                        self.model_mapping_mode == ModelMappingMode::MapRules,
                        rules == rule_views(self.model_mappings@),
                        resolve_rules(rules, original_model@, i as int) == resolve_rules(
                            rules,
                            original_model@,
                            0,
                        ),
                    decreases self.model_mappings.len() - i,
                {
                    let rule = &self.model_mappings[i];
                    assert(rules[i as int] == rule@);
                    if rule_applies(rule, original_model) {
                        return rule.target.clone();
                    }
                    i += 1;
                }
                String::from_str(original_model)
            },
        }
    }
}

/// Tells whether a rule applies to a model.
pub fn rule_applies(rule: &MappingRule, model: &str) -> (r: bool)
    ensures
        r == rule_matches(rule@, model@),
{
    if rule.use_regex {
        match compile(rule.pattern.as_str()) {
            Some(re) => is_match(&re, model),
            None => false,
        }
    } else {
        str_eq(rule.pattern.as_str(), model)
    }
}

/// A passthrough profile forwards every model unchanged.
pub proof fn lemma_passthrough_is_identity(profile: ProfileView, model: Seq<char>)
    requires
        profile.model_mapping_mode == ModelMappingMode::Passthrough,
    ensures
        profile.resolve(model) == model,
{
}

/// Rules before `from` that do not apply have no say in the result.
proof fn lemma_resolve_skips(rules: Seq<MappingRuleView>, model: Seq<char>, from: int, k: int)
    requires
        0 <= from <= k <= rules.len(),
        forall|j: int| from <= j < k ==> !rule_matches(#[trigger] rules[j], model),
    ensures
        resolve_rules(rules, model, from) == resolve_rules(rules, model, k),
    decreases k - from,
{
    if from < k {
        lemma_resolve_skips(rules, model, from + 1, k);
    }
}

/// A mapping profile forwards the target of the first rule that applies.
pub proof fn lemma_map_first_match_wins(profile: ProfileView, model: Seq<char>, k: int)
    requires
        profile.model_mapping_mode == ModelMappingMode::MapRules,
        0 <= k < profile.model_mappings.len(),
        rule_matches(profile.model_mappings[k], model),
        forall|j: int| 0 <= j < k ==> !rule_matches(#[trigger] profile.model_mappings[j], model),
    ensures
        profile.resolve(model) == profile.model_mappings[k].target,
{
    lemma_resolve_skips(profile.model_mappings, model, 0, k);
}

/// A mapping profile none of whose rules applies forwards the model unchanged.
pub proof fn lemma_map_no_match_is_identity(profile: ProfileView, model: Seq<char>)
    requires
        profile.model_mapping_mode == ModelMappingMode::MapRules,
        forall|j: int|
            0 <= j < profile.model_mappings.len() ==> !rule_matches(
                #[trigger] profile.model_mappings[j],
                model,
            ),
    ensures
        profile.resolve(model) == model,
{
    lemma_resolve_skips(
        profile.model_mappings,
        model,
        0,
        profile.model_mappings.len() as int,
    );
}

} // verus!
