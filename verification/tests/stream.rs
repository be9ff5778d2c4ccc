use prism_proxy::logger::{ModelMode, RequestLog};
use prism_proxy::proxy::stream::{
    clamp_to_i32, finish_log, finish_log_with, Completion, TokenStats,
};
use prism_proxy::proxy::token_counter::TokenCounter;

fn log() -> RequestLog {
    let mut l = RequestLog::with_identity(
        "req-1".to_string(),
        1_700_000_000_000,
        "pid".to_string(),
        "P".to_string(),
        "m".to_string(),
        ModelMode::Passthrough,
        "m".to_string(),
        "https://example.org".to_string(),
        10,
    );
    l.is_stream = true;
    l.status_code = 200;
    l.duration_ms = 5;
    l
}

#[test]
fn test_count_tokens() {
    let counter = TokenCounter::new().unwrap();
    let text = "Hello, world!";
    let count = counter.count_tokens(text);
    assert!(count > 0);
}

#[test]
fn test_count_input_tokens() {
    let counter = TokenCounter::new().unwrap();
    let request_body = r#"{
            "model": "sonnet-3-5-20241022",
            "messages": [
                {"role": "user", "content": "Hello, how are you?"}
            ]
        }"#;
    let count = counter.count_input_tokens(request_body);
    assert!(count > 0);
}

#[test]
fn token_counts_are_those_of_cl100k() {
    let counter = TokenCounter::new().unwrap();
    assert_eq!(counter.count_tokens(""), 0);
    assert_eq!(counter.count_tokens("Hello world"), 2);
    assert_eq!(counter.count_tokens("Hello, world!"), 4);
    assert_eq!(counter.count_tokens("<|endoftext|>"), 1);
    assert_eq!(counter.count_output_tokens("Hello world"), 2);
}

#[test]
fn input_tokens_add_system_roles_and_texts() {
    let c = TokenCounter::new().unwrap();
    let body = r#"{"system":"Be brief.","messages":[
        {"role":"user","content":"Hello world"},
        {"role":"assistant","content":[{"type":"text","text":"Hi there"},{"type":"image","text":"ignored words"},{"type":"text","text":"again"}]},
        {"role":"user"},
        {"content":"Hello, world!"}
    ]}"#;
    let expected = c.count_tokens("Be brief.")
        + c.count_tokens("user")
        + c.count_tokens("Hello world")
        + c.count_tokens("assistant")
        + c.count_tokens("Hi there")
        + c.count_tokens("again")
        + c.count_tokens("user")
        + c.count_tokens("Hello, world!");
    assert_eq!(c.count_input_tokens(body), expected as i32);
    assert_eq!(c.count_input_tokens("no json"), 0);
    assert_eq!(c.count_input_tokens("{}"), 0);
    assert_eq!(c.count_input_tokens(r#"{"messages":{"role":"user"}}"#), 0);
    let doc: serde_json::Value = serde_json::from_str(body).unwrap();
    assert_eq!(c.count_request_tokens(&doc), expected as i32);
}

#[test]
fn sse_with_cumulative_usage_scenario() {
    let mut stats = TokenStats::new();
    stats.observe_chunk(
        "event: message_start\ndata: {\"type\":\"message_start\",\"message\":{\"usage\":{\"input_tokens\":10,\"output_tokens\":0}}}\n\n",
    );
    stats.observe_chunk(
        "data: {\"type\":\"content_block_delta\",\"delta\":{\"type\":\"text_delta\",\"text\":\"Hel\"}}\n\ndata: {\"type\":\"content_block_delta\",\"delta\":{\"text\":\"lo\"}}\n\n",
    );
    stats.observe_chunk("data: {\"type\":\"message_delta\",\"usage\":{\"output_tokens\":42}}\n\n");
    assert!(stats.has_usage);
    assert_eq!(stats.input_tokens, 10);
    assert_eq!(stats.output_tokens, 42);
    assert_eq!(stats.output_text, "Hello");
    let done = finish_log(log(), &stats, 900, "{}");
    assert_eq!(done.input_tokens, 10);
    assert_eq!(done.output_tokens, 42);
    assert_eq!(done.duration_ms, 900);
    assert_eq!(done.request_id, "req-1");
    assert_eq!(done.timestamp, 1_700_000_000_000);
    assert!(done.is_stream);
}

#[test]
fn sse_with_no_usage_scenario() {
    let mut stats = TokenStats::new();
    stats.observe_chunk("data: {\"type\":\"content_block_delta\",\"delta\":{\"text\":\"Hello\"}}\n");
    stats.observe_chunk("data: {\"type\":\"content_block_delta\",\"delta\":{\"text\":\" world\"}}\n");
    assert!(!stats.has_usage);
    assert_eq!(stats.output_text, "Hello world");
    let counter = TokenCounter::new().unwrap();
    let body = r#"{"system":"sys","messages":[{"role":"user","content":"hi"}]}"#;
    let done = finish_log_with(log(), &stats, 77, body, Some(&counter));
    assert_eq!(done.output_tokens, counter.count_tokens("Hello world") as i32);
    assert!(done.output_tokens > 0);
    let input =
        counter.count_tokens("sys") + counter.count_tokens("user") + counter.count_tokens("hi");
    assert_eq!(done.input_tokens, input as i32);
    let same = finish_log(log(), &stats, 77, body);
    assert_eq!(same.output_tokens, done.output_tokens);
    assert_eq!(same.input_tokens, done.input_tokens);
}

#[test]
fn without_counter_the_upstream_numbers_stay() {
    let mut stats = TokenStats::new();
    stats.observe_chunk("data: {\"type\":\"content_block_delta\",\"delta\":{\"text\":\"x\"}}\n");
    let done = finish_log_with(log(), &stats, 1, "{}", None);
    assert_eq!((done.input_tokens, done.output_tokens), (0, 0));
}

#[test]
fn local_count_leaves_empty_sides_alone() {
    let counter = TokenCounter::new().unwrap();
    let mut stats = TokenStats::new();
    stats.observe_chunk("data: {\"usage\":{\"input_tokens\":0,\"output_tokens\":0,\"cache_read_input_tokens\":6}}\n");
    assert!(stats.has_usage);
    let done = finish_log_with(log(), &stats, 1, "", Some(&counter));
    assert_eq!((done.input_tokens, done.output_tokens), (0, 0));
    assert_eq!(done.cache_read_input_tokens, 6);
}

#[test]
fn top_level_usage_does_not_regress_to_zero() {
    let mut stats = TokenStats::new();
    stats.observe_line("data: {\"usage\":{\"input_tokens\":5,\"output_tokens\":8,\"cache_creation_input_tokens\":2,\"cache_read_input_tokens\":3}}");
    stats.observe_line("data: {\"usage\":{\"input_tokens\":0,\"output_tokens\":0,\"cache_creation_input_tokens\":0,\"cache_read_input_tokens\":-1}}");
    assert_eq!(
        (
            stats.input_tokens,
            stats.output_tokens,
            stats.cache_creation_input_tokens,
            stats.cache_read_input_tokens
        ),
        (5, 8, 2, 3)
    );
    stats.observe_line("data: {\"usage\":{\"prompt_tokens\":4,\"completion_tokens\":9}}");
    assert_eq!((stats.input_tokens, stats.output_tokens), (4, 9));
}

#[test]
fn message_usage_does_not_regress_to_zero() {
    let mut stats = TokenStats::new();
    stats.observe_line("data: {\"usage\":{\"input_tokens\":10,\"output_tokens\":8}}");
    stats.observe_line(
        "data: {\"type\":\"message_start\",\"message\":{\"usage\":{\"input_tokens\":0,\"output_tokens\":0}}}",
    );
    assert_eq!((stats.input_tokens, stats.output_tokens), (10, 8));
    stats.observe_line("data: {\"message\":{\"usage\":{\"input_tokens\":12}}}");
    assert_eq!((stats.input_tokens, stats.output_tokens), (12, 8));
}

#[test]
fn both_usages_of_one_event_apply_in_order() {
    let mut stats = TokenStats::new();
    stats.observe_line("data: {\"usage\":{\"input_tokens\":5},\"message\":{\"usage\":{\"input_tokens\":7}}}");
    assert_eq!(stats.input_tokens, 7);
}

#[test]
fn lines_that_are_no_events_are_passed_over() {
    let mut stats = TokenStats::new();
    stats.observe_chunk("data:{\"usage\":{\"input_tokens\":5}}\n");
    stats.observe_chunk(": comment\nevent: ping\ndata: not json\n data: {\"usage\":{}}\n");
    assert!(!stats.has_usage);
    assert_eq!(stats.input_tokens, 0);
    stats.observe_chunk("data: {\"usage\":null}\n");
    assert!(stats.has_usage);
}

#[test]
fn lines_end_with_or_without_carriage_return() {
    let mut stats = TokenStats::new();
    stats.observe_chunk("data: {\"usage\":{\"input_tokens\":1}}\r\ndata: {\"usage\":{\"output_tokens\":2}}");
    assert_eq!((stats.input_tokens, stats.output_tokens), (1, 2));
    let mut other = TokenStats::new();
    other.observe_chunk("\n\n\r\ndata: {\"type\":\"content_block_delta\",\"delta\":{\"text\":\"é\u{4e2d}\"}}\n");
    assert_eq!(other.output_text, "é\u{4e2d}");
}

#[test]
fn text_is_collected_only_from_content_deltas() {
    let mut stats = TokenStats::new();
    stats.observe_line("data: {\"type\":\"message_delta\",\"delta\":{\"text\":\"no\"}}");
    stats.observe_line("data: {\"delta\":{\"text\":\"no\"}}");
    stats.observe_line("data: {\"type\":\"content_block_delta\",\"delta\":{\"text\":5}}");
    stats.observe_line("data: {\"type\":\"content_block_delta\"}");
    assert_eq!(stats.output_text, "");
    let event: serde_json::Value =
        serde_json::from_str("{\"type\":\"content_block_delta\",\"delta\":{\"text\":\"yes\"}}")
            .unwrap();
    stats.observe_event(&event);
    assert_eq!(stats.output_text, "yes");
}

#[test]
fn counts_are_clamped_to_the_range() {
    assert_eq!(clamp_to_i32(0), 0);
    assert_eq!(clamp_to_i32(2_147_483_647), 2_147_483_647);
    assert_eq!(clamp_to_i32(2_147_483_648), 2_147_483_647);
    assert_eq!(clamp_to_i32(-2_147_483_649), -2_147_483_648);
    assert_eq!(clamp_to_i32(i64::MIN), i32::MIN);
    let mut stats = TokenStats::new();
    stats.observe_line("data: {\"usage\":{\"output_tokens\":4294967297}}");
    assert_eq!(stats.output_tokens, i32::MAX);
}

#[test]
fn completion_fires_exactly_once() {
    let mut c = Completion::new();
    assert!(!c.done);
    assert!(c.complete());
    assert!(c.done);
    assert!(!c.complete());
    assert!(!c.complete());
    assert!(c.done);
}
