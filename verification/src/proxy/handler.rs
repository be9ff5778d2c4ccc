//! The rules of the request handler: who is admitted, what is sent upstream
//! in place of the client's body, and what is written to the log about the
//! answer. The handler itself, which talks to the network, calls these in
//! turn.

use vstd::prelude::*;
use vstd::string::*;

use crate::config::store::{ConfigManager, ConfigView};
use crate::config::{Profile, ProfileView};
use crate::json::{
    integer_at_either, json_parse, json_text, json_tree, parse_value, text_at, trees_of,
    value_as_array, value_as_str, value_get, value_is_null, value_is_object, value_set_text,
    value_to_text, JsonTree,
};
use crate::logger::{
    initial_log, model_mode_for, size_to_i64, stored_size, ModelMode, RequestLog, RequestLogView,
};
use crate::proxy::stream::{clamp_i32, clamp_to_i32};
use crate::strs::{lemma_prefix_bytes, strip_prefix};
use crate::text::{concat, contains_bytes, str_contains, str_eq, utf8};

verus! {

/// The status for a request that is not admitted.
pub const STATUS_UNAUTHORIZED: u16 = 401;

/// The status for a request that finds no active profile.
pub const STATUS_NO_PROFILE: u16 = 503;

/// The status for a request whose upstream could not be reached.
pub const STATUS_BAD_GATEWAY: u16 = 502;

/// True when a request with the given `Authorization` header is admitted:
/// always when authorisation is off, otherwise only with `Bearer ` and the
/// proxy's key.
pub open spec fn admits(config: ConfigView, authorization: Option<Seq<char>>) -> bool {
    !config.enable_auth || match (authorization, config.proxy_api_key) {
        (Some(header), Some(key)) => header == "Bearer "@ + key,
        _ => false,
    }
}

/// The auth gate. `authorization` is the request's `Authorization` header,
/// `None` where there is none or it is not text.
pub fn authorize(config: &ConfigManager, authorization: Option<&str>) -> (r: Result<(), u16>)
    ensures
        r is Ok <==> admits(
            config@,
            match authorization {
                Some(h) => Some(h@),
                None => None,
            },
        ),
        r matches Err(status) ==> status == STATUS_UNAUTHORIZED,
{
    if !config.is_auth_enabled() {
        return Ok(());
    }
    match authorization {
        Some(header) => match strip_prefix(header, "Bearer ") {
            Some(key) => {
                let ok = config.verify_api_key(key);
                proof {
                    match config@.proxy_api_key {
                        Some(stored) => {
                            if header@ == "Bearer "@ + stored {
                                assert(key@ =~= (header@).subrange(
                                    "Bearer "@.len() as int,
                                    header@.len() as int,
                                ));
                                assert(stored =~= ("Bearer "@ + stored).subrange(
                                    "Bearer "@.len() as int,
                                    header@.len() as int,
                                ));
                            }
                        },
                        None => {},
                    }
                }
                if ok {
                    Ok(())
                } else {
                    Err(STATUS_UNAUTHORIZED)
                }
            },
            None => {
                proof {
                    match config@.proxy_api_key {
                        Some(stored) => {
                            lemma_prefix_bytes("Bearer "@, stored);
                        },
                        None => {},
                    }
                }
                Err(STATUS_UNAUTHORIZED)
            },
        },
        None => Err(STATUS_UNAUTHORIZED),
    }
}

/// The first two steps of a request: the auth gate, then the active profile.
/// A request that is not admitted is answered 401, one that finds no active
/// profile 503; otherwise the first active profile is handed back.
pub fn admit_request(config: &ConfigManager, authorization: Option<&str>) -> (r: Result<
    Profile,
    u16,
>)
    ensures
        match r {
            Ok(profile) => {
                &&& admits(
                    config@,
                    match authorization {
                        Some(h) => Some(h@),
                        None => None,
                    },
                )
                &&& exists|i: int|
                    {
                        &&& config@.active_at(i)
                        &&& profile@ == config@.profiles[i].1
                        &&& forall|j: int| 0 <= j < i ==> !config@.active_at(j)
                    }
            },
            Err(status) => if admits(
                config@,
                match authorization {
                    Some(h) => Some(h@),
                    None => None,
                },
            ) {
                status == STATUS_NO_PROFILE && !config@.has_active()
            } else {
                status == STATUS_UNAUTHORIZED
            },
        },
{
    match authorize(config, authorization) {
        Ok(_) => {},
        Err(status) => {
            return Err(status);
        },
    }
    match config.get_active_profile() {
        Some(profile) => Ok(profile.clone()),
        None => Err(STATUS_NO_PROFILE),
    }
}

/// The model that a request document asks for.
pub open spec fn requested_model(request: JsonTree) -> Seq<char> {
    match request.text_at("model"@) {
        Some(m) => m,
        None => "unknown"@,
    }
}

/// True for a message of the user.
pub open spec fn is_user_message(message: JsonTree) -> bool {
    message.text_at("role"@) == Some("user"@)
}

/// The position of the last user message among the first `upto`, or -1.
pub open spec fn last_user_message(messages: Seq<JsonTree>, upto: int) -> int
    decreases upto,
{
    if upto <= 0 {
        -1
    } else if is_user_message(messages[upto - 1]) {
        upto - 1
    } else {
        last_user_message(messages, upto - 1)
    }
}

/// True for a content part of type `text`.
pub open spec fn is_text_part(part: JsonTree) -> bool {
    part.text_at("type"@) == Some("text"@)
}

/// The position of the first text part at or after `from`, or the length.
pub open spec fn first_text_part(parts: Seq<JsonTree>, from: int) -> int
    decreases parts.len() - from,
{
    if from < 0 || from >= parts.len() {
        parts.len() as int
    } else if is_text_part(parts[from]) {
        from
    } else {
        first_text_part(parts, from + 1)
    }
}

/// The text of a message content: the string itself, or the text of the
/// first text part of an array.
pub open spec fn content_text(content: JsonTree) -> Option<Seq<char>> {
    match content {
        JsonTree::Text(s) => Some(s),
        JsonTree::Array(parts) => {
            let at = first_text_part(parts, 0);
            if at < parts.len() {
                parts[at].text_at("text"@)
            } else {
                None
            }
        },
        _ => None,
    }
}

/// What the user last said, for the diagnostic log: the text of the last
/// user message, or `N/A`.
pub open spec fn user_prompt(request: JsonTree) -> Seq<char> {
    match request.member("messages"@) {
        Some(m) => match m.items() {
            Some(messages) => {
                let at = last_user_message(messages, messages.len() as int);
                if at >= 0 {
                    match messages[at].member("content"@) {
                        Some(content) => match content_text(content) {
                            Some(t) => t,
                            None => "N/A"@,
                        },
                        None => "N/A"@,
                    }
                } else {
                    "N/A"@
                }
            },
            None => "N/A"@,
        },
        None => "N/A"@,
    }
}

fn is_user(message: &serde_json::Value) -> (r: bool)
    ensures
        r == is_user_message(json_tree(message)),
{
    match text_at(message, "role") {
        Some(role) => str_eq(role, "user"),
        None => false,
    }
}

fn text_of_content<'a>(content: &'a serde_json::Value) -> (r: Option<&'a str>)
    ensures
        match r {
            Some(t) => content_text(json_tree(content)) == Some(t@),
            None => content_text(json_tree(content)) is None,
        },
{
    match value_as_str(content) {
        Some(s) => Some(s),
        None => match value_as_array(content) {
            Some(parts) => {
                let ghost list = trees_of(parts@);
                let mut i: usize = 0;
                while i < parts.len()
                    invariant
                        i <= parts@.len(),
                        list == trees_of(parts@),
                        json_tree(content) == JsonTree::Array(list),
                        first_text_part(list, i as int) == first_text_part(list, 0),
                    decreases parts.len() - i,
                {
                    let part = &parts[i];
                    assert(list[i as int] == json_tree(part));
                    let hit = match text_at(part, "type") {
                        Some(kind) => str_eq(kind, "text"),
                        None => false,
                    };
                    if hit {
                        return text_at(part, "text");
                    }
                    i += 1;
                }
                None
            },
            None => None,
        },
    }
}

/// What the user last said, for the diagnostic log.
pub fn extract_user_prompt(request: &serde_json::Value) -> (r: String)
    ensures
        r@ == user_prompt(json_tree(request)),
{
    match value_get(request, "messages") {
        Some(m) => match value_as_array(m) {
            Some(messages) => {
                let ghost list = trees_of(messages@);
                let mut i: usize = messages.len();
                while i > 0
                    invariant
                        i <= messages@.len(),
                        list == trees_of(messages@),
                        json_tree(request).member("messages"@) == Some(json_tree(m)),
                        json_tree(m).items() == Some(list),
                        last_user_message(list, i as int) == last_user_message(
                            list,
                            messages@.len() as int,
                        ),
                    decreases i,
                {
                    i -= 1;
                    let message = &messages[i];
                    assert(list[i as int] == json_tree(message));
                    if is_user(message) {
                        return match value_get(message, "content") {
                            Some(content) => match text_of_content(content) {
                                Some(t) => String::from_str(t),
                                None => String::from_str("N/A"),
                            },
                            None => String::from_str("N/A"),
                        };
                    }
                }
                String::from_str("N/A")
            },
            None => String::from_str("N/A"),
        },
        None => String::from_str("N/A"),
    }
}

/// True when a body asks for a streamed answer: it holds `"stream":true`,
/// with or without a space after the colon.
pub open spec fn asks_for_stream(body: Seq<char>) -> bool {
    contains_bytes(utf8(body), utf8("\"stream\":true"@)) || contains_bytes(
        utf8(body),
        utf8("\"stream\": true"@),
    )
}

/// Tells whether a body asks for a streamed answer.
pub fn detect_stream(body: &str) -> (r: bool)
    ensures
        r == asks_for_stream(body@),
{
    str_contains(body, "\"stream\":true") || str_contains(body, "\"stream\": true")
}

/// The address of the upstream endpoint of a profile.
pub open spec fn upstream_url_of(api_base_url: Seq<char>) -> Seq<char> {
    api_base_url + "/v1/messages"@
}

/// What is sent upstream for a request, and what the log says of it.
#[derive(Debug)]
pub struct ForwardPlan {
    /// The model that the client asked for.
    pub original_model: String,
    /// The model that is forwarded.
    pub forwarded_model: String,
    /// The body that is sent upstream.
    pub body: String,
    /// What the user last said.
    pub user_prompt: String,
    /// Whether the answer is streamed.
    pub is_stream: bool,
    /// Where the request is sent.
    pub upstream_url: String,
    /// The size of the body that is sent, in bytes.
    pub request_size: usize,
}

/// True when `plan` is what the given profile sends for the given body.
///
/// A body that is not JSON is sent as it is, for the model `unknown`. For a
/// JSON body the profile decides the forwarded model. Where that is the
/// requested model, the body is sent byte for byte; where it differs, the
/// document is sent with its `model` member replaced, written anew. A
/// document that can take no member is sent as it came.
pub open spec fn plans(profile: ProfileView, body: Seq<char>, plan: ForwardPlan) -> bool {
    &&& match json_parse(body) {
        None => {
            &&& plan.original_model@ == "unknown"@
            &&& plan.forwarded_model@ == "unknown"@
            &&& plan.user_prompt@ == "N/A"@
            &&& plan.body@ == body
        },
        Some(request) => {
            &&& plan.original_model@ == requested_model(request)
            &&& plan.forwarded_model@ == profile.resolve(requested_model(request))
            &&& plan.user_prompt@ == user_prompt(request)
            &&& if plan.forwarded_model@ != plan.original_model@ && request.takes_members() {
                plan.body@ == json_text(
                    request.with_member("model"@, JsonTree::Text(plan.forwarded_model@)),
                )
            } else {
                plan.body@ == body
            }
        },
    }
    &&& plan.is_stream == asks_for_stream(plan.body@)
    &&& plan.upstream_url@ == upstream_url_of(profile.api_base_url)
    &&& plan.request_size == utf8(plan.body@).len()
}

/// Replacing the model edits that member and no other: the document that
/// is written has the forwarded model under `model`, and under every other
/// key what the client's document has there.
pub proof fn lemma_rewrite_edits_only_the_model(request: JsonTree, forwarded: Seq<char>)
    requires
        request is Object,
    ensures
        request.with_member("model"@, JsonTree::Text(forwarded)) is Object,
        request.with_member("model"@, JsonTree::Text(forwarded)).text_at("model"@) == Some(
            forwarded,
        ),
        forall|key: Seq<char>|
            key != "model"@ ==> #[trigger] request.with_member(
                "model"@,
                JsonTree::Text(forwarded),
            ).member(key) == request.member(key),
{
}

/// The body that is sent where the model is replaced: the document as it was
/// written anew, or the client's body where it could not be written.
pub fn outbound_body(body: &str, rewritten: Option<String>) -> (r: String)
    ensures
        r@ == match rewritten {
            Some(text) => text@,
            None => body@,
        },
{
    match rewritten {
        Some(text) => text,
        None => String::from_str(body),
    }
}

/// Decides what is sent upstream for a request body under a profile.
pub fn plan_request(profile: &Profile, body: &str) -> (plan: ForwardPlan)
    ensures
        plans(profile@, body@, plan),
{
    let (original_model, forwarded_model, out_body, prompt) = match parse_value(body) {
        Some(request) => {
            let original = match text_at(&request, "model") {
                Some(m) => String::from_str(m),
                None => String::from_str("unknown"),
            };
            let prompt = extract_user_prompt(&request);
            let mapped = profile.resolve_model(original.as_str());
            let differs = !str_eq(original.as_str(), mapped.as_str());
            let out_body = if differs && (value_is_object(&request) || value_is_null(&request)) {
                let mut rewritten = request;
                value_set_text(&mut rewritten, "model", mapped.as_str());
                outbound_body(body, value_to_text(&rewritten))
            } else {
                String::from_str(body)
            };
            (original, mapped, out_body, prompt)
        },
        None => (
            String::from_str("unknown"),
            String::from_str("unknown"),
            String::from_str(body),
            String::from_str("N/A"),
        ),
    };
    let is_stream = detect_stream(out_body.as_str());
    let upstream_url = concat(profile.api_base_url.as_str(), "/v1/messages");
    let request_size = out_body.as_str().as_bytes().len();
    ForwardPlan {
        original_model,
        forwarded_model,
        body: out_body,
        user_prompt: prompt,
        is_stream,
        upstream_url,
        request_size,
    }
}

/// A body is forwarded byte for byte whenever the forwarded model is the
/// requested one, and whenever the body is not JSON.
pub proof fn lemma_same_model_keeps_body(profile: ProfileView, body: Seq<char>, plan: ForwardPlan)
    requires
        plans(profile, body, plan),
        plan.forwarded_model@ == plan.original_model@,
    ensures
        plan.body@ == body,
{
}

/// True for the statuses that report an error: 400 to 599.
pub open spec fn is_error_status(status: u16) -> bool {
    400 <= status <= 599
}

/// The message of an error answer: its `error.message`, or else its
/// `message`, or else a fixed text.
pub open spec fn error_text(answer: JsonTree) -> Seq<char> {
    let nested = match answer.member("error"@) {
        Some(e) => e.text_at("message"@),
        None => None,
    };
    match nested {
        Some(m) => m,
        None => match answer.text_at("message"@) {
            Some(m) => m,
            None => "Unknown error"@,
        },
    }
}

/// A token count of an answer's `usage`: the member of the first name, or
/// else of the second, or else zero.
pub open spec fn usage_count(answer: JsonTree, name: Seq<char>, other: Seq<char>) -> i32 {
    match answer.member("usage"@) {
        Some(usage) => match usage.integer_at_either(name, other) {
            Some(n) => clamp_i32(n),
            None => 0,
        },
        None => 0,
    }
}

/// What the log keeps of a complete answer.
#[derive(Debug)]
pub struct ResponseSummary {
    pub input_tokens: i32,
    pub output_tokens: i32,
    /// The body, kept for errors and for answers without output tokens.
    pub response_body: Option<String>,
    pub error_message: Option<String>,
}

/// The mathematical content of a [`ResponseSummary`].
pub struct ResponseSummaryView {
    pub input_tokens: i32,
    pub output_tokens: i32,
    pub response_body: Option<Seq<char>>,
    pub error_message: Option<Seq<char>>,
}

impl View for ResponseSummary {
    type V = ResponseSummaryView;

    open spec fn view(&self) -> ResponseSummaryView {
        ResponseSummaryView {
            input_tokens: self.input_tokens,
            output_tokens: self.output_tokens,
            response_body: crate::config::opt_view(self.response_body),
            error_message: crate::config::opt_view(self.error_message),
        }
    }
}

/// What the log keeps of an answer with the given status and body. An answer
/// that is not JSON and an error answer are kept whole, with a message; of
/// any other answer the token counts are kept, and the body too where no
/// output tokens are reported.
pub open spec fn summary_of(status: u16, body: Seq<char>) -> ResponseSummaryView {
    match json_parse(body) {
        None => ResponseSummaryView {
            input_tokens: 0,
            output_tokens: 0,
            response_body: Some(body),
            error_message: Some("Failed to parse response as JSON"@),
        },
        Some(answer) => if is_error_status(status) {
            ResponseSummaryView {
                input_tokens: 0,
                output_tokens: 0,
                response_body: Some(body),
                error_message: Some(error_text(answer)),
            }
        } else {
            ResponseSummaryView {
                input_tokens: usage_count(answer, "input_tokens"@, "prompt_tokens"@),
                output_tokens: usage_count(answer, "output_tokens"@, "completion_tokens"@),
                response_body: if usage_count(answer, "output_tokens"@, "completion_tokens"@)
                    == 0 {
                    Some(body)
                } else {
                    None
                },
                error_message: None,
            }
        },
    }
}

fn count_in_usage(answer: &serde_json::Value, name: &str, other: &str) -> (r: i32)
    ensures
        r == usage_count(json_tree(answer), name@, other@),
{
    match value_get(answer, "usage") {
        Some(usage) => match integer_at_either(usage, name, other) {
            Some(n) => clamp_to_i32(n),
            None => 0,
        },
        None => 0,
    }
}

fn error_message_of(answer: &serde_json::Value) -> (r: String)
    ensures
        r@ == error_text(json_tree(answer)),
{
    let nested = match value_get(answer, "error") {
        Some(e) => text_at(e, "message"),
        None => None,
    };
    match nested {
        Some(m) => String::from_str(m),
        None => match text_at(answer, "message") {
            Some(m) => String::from_str(m),
            None => String::from_str("Unknown error"),
        },
    }
}

/// What the log keeps of an answer with the given status and body.
pub fn summarize_response(status: u16, body: &str) -> (r: ResponseSummary)
    ensures
        r@ == summary_of(status, body@),
{
    match parse_value(body) {
        None => ResponseSummary {
            input_tokens: 0,
            output_tokens: 0,
            response_body: Some(String::from_str(body)),
            error_message: Some(String::from_str("Failed to parse response as JSON")),
        },
        Some(answer) => {
            if status >= 400 && status <= 599 {
                ResponseSummary {
                    input_tokens: 0,
                    output_tokens: 0,
                    response_body: Some(String::from_str(body)),
                    error_message: Some(error_message_of(&answer)),
                }
            } else {
                let input = count_in_usage(&answer, "input_tokens", "prompt_tokens");
                let output = count_in_usage(&answer, "output_tokens", "completion_tokens");
                let kept = if output == 0 {
                    Some(String::from_str(body))
                } else {
                    None
                };
                ResponseSummary {
                    input_tokens: input,
                    output_tokens: output,
                    response_body: kept,
                    error_message: None,
                }
            }
        },
    }
}

/// The row with which the log of a request begins: who asked for what, under
/// which profile.
pub open spec fn dispatch_log(
    request_id: Seq<char>,
    timestamp: i64,
    profile: ProfileView,
    plan: ForwardPlan,
) -> RequestLogView {
    initial_log(
        request_id,
        timestamp,
        profile.id,
        profile.name,
        plan.original_model@,
        model_mode_for(profile.model_mapping_mode),
        plan.forwarded_model@,
        profile.api_base_url,
        plan.request_size,
    )
}

/// The row written when a streamed answer begins: no tokens yet, the status
/// of the answer and the time it took to arrive.
pub open spec fn stream_start_of(base: RequestLogView, status: u16, elapsed_ms: i64) -> RequestLogView {
    RequestLogView { duration_ms: elapsed_ms, status_code: status as i32, is_stream: true, ..base }
}

/// The row written for a complete answer.
pub open spec fn answered_of(
    base: RequestLogView,
    status: u16,
    duration_ms: i64,
    body: Seq<char>,
) -> RequestLogView {
    let summary = summary_of(status, body);
    RequestLogView {
        input_tokens: summary.input_tokens,
        output_tokens: summary.output_tokens,
        duration_ms,
        status_code: status as i32,
        is_stream: false,
        response_size_bytes: Some(stored_size(utf8(body).len() as usize)),
        response_body: summary.response_body,
        error_message: summary.error_message,
        ..base
    }
}

/// The row written when the upstream could not be reached.
pub open spec fn unreachable_of(base: RequestLogView, duration_ms: i64, reason: Seq<char>) -> RequestLogView {
    RequestLogView {
        duration_ms,
        status_code: STATUS_BAD_GATEWAY as i32,
        error_message: Some(reason),
        ..base
    }
}

fn new_log(profile: &Profile, plan: &ForwardPlan) -> (r: RequestLog)
    ensures
        r@ == dispatch_log(r@.request_id, r@.timestamp, profile@, *plan),
        r@.request_id.len() == 36,
{
    RequestLog::new(
        profile.id.clone(),
        profile.name.clone(),
        plan.original_model.clone(),
        ModelMode::from_mapping_mode(&profile.model_mapping_mode),
        plan.forwarded_model.clone(),
        profile.api_base_url.clone(),
        plan.request_size,
    )
}

/// The row that is written when a streamed answer begins. It gets a fresh
/// identifier, under which the row is completed when the stream ends.
pub fn stream_start_log(profile: &Profile, plan: &ForwardPlan, status: u16, elapsed_ms: i64) -> (r:
    RequestLog)
    ensures
        r@ == stream_start_of(
            dispatch_log(r@.request_id, r@.timestamp, profile@, *plan),
            status,
            elapsed_ms,
        ),
{
    let mut log = new_log(profile, plan);
    log.duration_ms = elapsed_ms;
    log.status_code = status as i32;
    log.is_stream = true;
    log
}

/// The row that is written for a complete answer.
pub fn answered_log(
    profile: &Profile,
    plan: &ForwardPlan,
    status: u16,
    duration_ms: i64,
    response_body: &str,
) -> (r: RequestLog)
    ensures
        r@ == answered_of(
            dispatch_log(r@.request_id, r@.timestamp, profile@, *plan),
            status,
            duration_ms,
            response_body@,
        ),
{
    let summary = summarize_response(status, response_body);
    let mut log = new_log(profile, plan);
    log.input_tokens = summary.input_tokens;
    log.output_tokens = summary.output_tokens;
    log.duration_ms = duration_ms;
    log.status_code = status as i32;
    log.is_stream = false;
    log.response_size_bytes = Some(size_to_i64(response_body.as_bytes().len()));
    log.response_body = summary.response_body;
    log.error_message = summary.error_message;
    log
}

/// The row that is written when the upstream could not be reached.
pub fn unreachable_log(profile: &Profile, plan: &ForwardPlan, duration_ms: i64, reason: &str) -> (r:
    RequestLog)
    ensures
        r@ == unreachable_of(
            dispatch_log(r@.request_id, r@.timestamp, profile@, *plan),
            duration_ms,
            reason@,
        ),
{
    let mut log = new_log(profile, plan);
    log.duration_ms = duration_ms;
    log.status_code = 502;
    log.error_message = Some(String::from_str(reason));
    log
}

} // verus!
