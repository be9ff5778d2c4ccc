//! The request log: one record per forwarded request.

use vstd::prelude::*;
use vstd::string::*;

use crate::clock::now_millis;
use crate::config::{clone_opt, opt_view, ModelMappingMode};
use crate::ident::fresh_uuid;
use crate::text::{contains_bytes, str_contains, str_eq, utf8};

verus! {

/// How the forwarded model of a logged request came about.
#[derive(Debug, Clone, Copy, PartialEq, Eq, Structural)]
pub enum ModelMode {
    /// The requested model was forwarded unchanged.
    Passthrough,
    /// The profile's own model was forwarded.
    Override,
    /// A mapping rule decided.
    Mapping,
}

/// The name under which a mode is logged.
pub open spec fn model_mode_name(mode: ModelMode) -> Seq<char> {
    match mode {
        ModelMode::Passthrough => "passthrough"@,
        ModelMode::Override => "override"@,
        ModelMode::Mapping => "mapping"@,
    }
}

/// The mode that a logged name stands for; unknown names mean passthrough.
pub open spec fn model_mode_of(name: Seq<char>) -> ModelMode {
    if name == "override"@ {
        ModelMode::Override
    } else if name == "mapping"@ {
        ModelMode::Mapping
    } else {
        ModelMode::Passthrough
    }
}

/// The logged mode for a profile's mapping mode.
pub open spec fn model_mode_for(mode: ModelMappingMode) -> ModelMode {
    match mode {
        ModelMappingMode::Passthrough => ModelMode::Passthrough,
        ModelMappingMode::Override => ModelMode::Override,
        ModelMappingMode::MapRules => ModelMode::Mapping,
    }
}

impl ModelMode {
    pub fn as_str(&self) -> (r: &'static str)
        ensures
            r@ == model_mode_name(*self),
    {
        match self {
            ModelMode::Passthrough => "passthrough",
            ModelMode::Override => "override",
            ModelMode::Mapping => "mapping",
        }
    }

    pub fn from_str(s: &str) -> (r: Self)
        ensures
            r == model_mode_of(s@),
    {
        if str_eq(s, "override") {
            ModelMode::Override
        } else if str_eq(s, "mapping") {
            ModelMode::Mapping
        } else {
            ModelMode::Passthrough
        }
    }

    pub fn from_mapping_mode(mode: &ModelMappingMode) -> (r: Self)
        ensures
            r == model_mode_for(*mode),
    {
        match mode {
            ModelMappingMode::Passthrough => ModelMode::Passthrough,
            ModelMappingMode::Override => ModelMode::Override,
            ModelMappingMode::MapRules => ModelMode::Mapping,
        }
    }
}

/// Reading back a logged mode name gives the mode.
pub proof fn lemma_model_mode_round_trip(mode: ModelMode)
    ensures
        model_mode_of(model_mode_name(mode)) == mode,
{
    reveal_strlit("passthrough");
    reveal_strlit("override");
    reveal_strlit("mapping");
    assert("passthrough"@.len() == 11);
    assert("override"@.len() == 8);
    assert("mapping"@.len() == 7);
}

/// The provider tag of an upstream address: by which well-known host name its
/// bytes contain.
pub open spec fn provider_of(api_base_url: Seq<char>) -> Seq<char> {
    if contains_bytes(utf8(api_base_url), utf8("anthropic.com"@)) {
        "Anthropic"@
    } else if contains_bytes(utf8(api_base_url), utf8("openai.com"@)) {
        "OpenAI"@
    } else {
        "Custom"@
    }
}

/// The provider tag of an upstream address.
pub fn extract_provider(api_base_url: &str) -> (r: String)
    ensures
        r@ == provider_of(api_base_url@),
{
    if str_contains(api_base_url, "anthropic.com") {
        String::from_str("Anthropic")
    } else if str_contains(api_base_url, "openai.com") {
        String::from_str("OpenAI")
    } else {
        String::from_str("Custom")
    }
}

/// A byte count as the log stores it: the count itself, or the largest
/// storable value where it does not fit.
pub open spec fn stored_size(n: usize) -> i64 {
    if n <= i64::MAX {
        n as i64
    } else {
        i64::MAX
    }
}

/// A byte count as the log stores it.
pub fn size_to_i64(n: usize) -> (r: i64)
    ensures
        r == stored_size(n),
{
    let wide: u64 = n as u64;
    if wide <= 0x7fff_ffff_ffff_ffff {
        wide as i64
    } else {
        0x7fff_ffff_ffff_ffff
    }
}

/// One row of the request log.
#[derive(Debug)]
pub struct RequestLog {
    pub request_id: String,
    pub timestamp: i64,
    pub profile_id: String,
    pub profile_name: String,
    pub provider: String,
    pub original_model: String,
    pub model_mode: String,
    pub forwarded_model: String,
    pub input_tokens: i32,
    pub output_tokens: i32,
    pub cache_creation_input_tokens: i32,
    pub cache_read_input_tokens: i32,
    pub duration_ms: i64,
    pub upstream_duration_ms: Option<i64>,
    pub status_code: i32,
    pub error_message: Option<String>,
    pub is_stream: bool,
    pub request_size_bytes: Option<i64>,
    pub response_size_bytes: Option<i64>,
    pub response_body: Option<String>,
}

/// The mathematical content of a [`RequestLog`].
pub struct RequestLogView {
    pub request_id: Seq<char>,
    pub timestamp: i64,
    pub profile_id: Seq<char>,
    pub profile_name: Seq<char>,
    pub provider: Seq<char>,
    pub original_model: Seq<char>,
    pub model_mode: Seq<char>,
    pub forwarded_model: Seq<char>,
    pub input_tokens: i32,
    pub output_tokens: i32,
    pub cache_creation_input_tokens: i32,
    pub cache_read_input_tokens: i32,
    pub duration_ms: i64,
    pub upstream_duration_ms: Option<i64>,
    pub status_code: i32,
    pub error_message: Option<Seq<char>>,
    pub is_stream: bool,
    pub request_size_bytes: Option<i64>,
    pub response_size_bytes: Option<i64>,
    pub response_body: Option<Seq<char>>,
}

impl View for RequestLog {
    type V = RequestLogView;

    open spec fn view(&self) -> RequestLogView {
        RequestLogView {
            request_id: self.request_id@,
            timestamp: self.timestamp,
            profile_id: self.profile_id@,
            profile_name: self.profile_name@,
            provider: self.provider@,
            original_model: self.original_model@,
            model_mode: self.model_mode@,
            forwarded_model: self.forwarded_model@,
            input_tokens: self.input_tokens,
            output_tokens: self.output_tokens,
            cache_creation_input_tokens: self.cache_creation_input_tokens,
            cache_read_input_tokens: self.cache_read_input_tokens,
            duration_ms: self.duration_ms,
            upstream_duration_ms: self.upstream_duration_ms,
            status_code: self.status_code,
            error_message: opt_view(self.error_message),
            is_stream: self.is_stream,
            request_size_bytes: self.request_size_bytes,
            response_size_bytes: self.response_size_bytes,
            response_body: opt_view(self.response_body),
        }
    }
}

impl Clone for RequestLog {
    fn clone(&self) -> (r: Self)
        ensures
            r@ == self@,
    {
        RequestLog {
            request_id: self.request_id.clone(),
            timestamp: self.timestamp,
            profile_id: self.profile_id.clone(),
            profile_name: self.profile_name.clone(),
            provider: self.provider.clone(),
            original_model: self.original_model.clone(),
            model_mode: self.model_mode.clone(),
            forwarded_model: self.forwarded_model.clone(),
            input_tokens: self.input_tokens,
            output_tokens: self.output_tokens,
            cache_creation_input_tokens: self.cache_creation_input_tokens,
            cache_read_input_tokens: self.cache_read_input_tokens,
            duration_ms: self.duration_ms,
            upstream_duration_ms: self.upstream_duration_ms,
            status_code: self.status_code,
            error_message: clone_opt(&self.error_message),
            is_stream: self.is_stream,
            request_size_bytes: self.request_size_bytes,
            response_size_bytes: self.response_size_bytes,
            response_body: clone_opt(&self.response_body),
        }
    }
}

/// The row that is written when a request is dispatched: who asked for what,
/// with every count and measurement still at its starting value.
pub open spec fn initial_log(
    request_id: Seq<char>,
    timestamp: i64,
    profile_id: Seq<char>,
    profile_name: Seq<char>,
    original_model: Seq<char>,
    model_mode: ModelMode,
    forwarded_model: Seq<char>,
    api_base_url: Seq<char>,
    request_size: usize,
) -> RequestLogView {
    RequestLogView {
        request_id,
        timestamp,
        profile_id,
        profile_name,
        provider: provider_of(api_base_url),
        original_model,
        model_mode: model_mode_name(model_mode),
        forwarded_model,
        input_tokens: 0,
        output_tokens: 0,
        cache_creation_input_tokens: 0,
        cache_read_input_tokens: 0,
        duration_ms: 0,
        upstream_duration_ms: None,
        status_code: 0,
        error_message: None,
        is_stream: false,
        request_size_bytes: Some(stored_size(request_size)),
        response_size_bytes: None,
        response_body: None,
    }
}

impl RequestLog {
    /// The starting row for a request with the given identifier and time.
    pub fn with_identity(
        request_id: String,
        timestamp: i64,
        profile_id: String,
        profile_name: String,
        original_model: String,
        model_mode: ModelMode,
        forwarded_model: String,
        api_base_url: String,
        request_size: usize,
    ) -> (r: Self)
        ensures
            r@ == initial_log(
                request_id@,
                timestamp,
                profile_id@,
                profile_name@,
                original_model@,
                model_mode,
                forwarded_model@,
                api_base_url@,
                request_size,
            ),
    {
        let provider = extract_provider(api_base_url.as_str());
        RequestLog {
            request_id,
            timestamp,
            profile_id,
            profile_name,
            provider,
            original_model,
            model_mode: String::from_str(model_mode.as_str()),
            forwarded_model,
            input_tokens: 0,
            output_tokens: 0,
            cache_creation_input_tokens: 0,
            cache_read_input_tokens: 0,
            duration_ms: 0,
            upstream_duration_ms: None,
            status_code: 0,
            error_message: None,
            is_stream: false,
            request_size_bytes: Some(size_to_i64(request_size)),
            response_size_bytes: None,
            response_body: None,
        }
    }

    /// The starting row for a request that is dispatched now: a fresh
    /// identifier, the current time, and otherwise as `with_identity`.
    pub fn new(
        profile_id: String,
        profile_name: String,
        original_model: String,
        model_mode: ModelMode,
        forwarded_model: String,
        api_base_url: String,
        request_size: usize,
    ) -> (r: Self)
        ensures
            r@.request_id.len() == 36,
            r@ == initial_log(
                r@.request_id,
                r@.timestamp,
                profile_id@,
                profile_name@,
                original_model@,
                model_mode,
                forwarded_model@,
                api_base_url@,
                request_size,
            ),
    {
        let timestamp = now_millis();
        let request_id = fresh_uuid();
        Self::with_identity(
            request_id,
            timestamp,
            profile_id,
            profile_name,
            original_model,
            model_mode,
            forwarded_model,
            api_base_url,
            request_size,
        )
    }
}

} // verus!
