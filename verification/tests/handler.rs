use prism_proxy::config::store::ConfigManager;
use prism_proxy::config::{ModelMappingMode, Profile};
use prism_proxy::proxy::handler::{
    admit_request, answered_log, authorize, detect_stream, extract_user_prompt, outbound_body,
    plan_request,
    stream_start_log, summarize_response, unreachable_log, STATUS_BAD_GATEWAY, STATUS_NO_PROFILE,
    STATUS_UNAUTHORIZED,
};
use prism_proxy::proxy::utils::{
    contains_header, convert_headers, relay_headers, remove_header, set_header, upstream_headers,
    valid_header_value, Header,
};

fn profile() -> Profile {
    let mut p =
        Profile::new("P".to_string(), "https://api.anthropic.com".to_string(), "KEY".to_string());
    p.id = "pid".to_string();
    p
}

fn overriding(model: &str) -> Profile {
    let mut p = profile();
    p.model_mapping_mode = ModelMappingMode::Override;
    p.override_model = Some(model.to_string());
    p
}

fn header(name: &str, value: &str) -> Header {
    Header { name: name.to_string(), value: value.to_string() }
}

fn value_of<'a>(list: &'a [Header], name: &str) -> Vec<&'a str> {
    list.iter().filter(|h| h.name.eq_ignore_ascii_case(name)).map(|h| h.value.as_str()).collect()
}

#[test]
fn passthrough_non_stream_scenario() {
    let p = profile();
    let body = r#"{"model":"sonnet-3-5","messages":[{"role":"user","content":"hi"}]}"#;
    let plan = plan_request(&p, body);
    assert_eq!(plan.body, body);
    assert_eq!(plan.original_model, "sonnet-3-5");
    assert_eq!(plan.forwarded_model, "sonnet-3-5");
    assert_eq!(plan.user_prompt, "hi");
    assert!(!plan.is_stream);
    assert_eq!(plan.upstream_url, "https://api.anthropic.com/v1/messages");
    assert_eq!(plan.request_size, body.len());

    let sent = upstream_headers(&[header("authorization", "Bearer client")].to_vec(), &p.api_key);
    assert_eq!(value_of(&sent, "authorization"), vec!["Bearer KEY"]);

    let answer = r#"{"usage":{"input_tokens":7,"output_tokens":3}}"#;
    let log = answered_log(&p, &plan, 200, 12, answer);
    assert_eq!(log.input_tokens, 7);
    assert_eq!(log.output_tokens, 3);
    assert!(!log.is_stream);
    assert_eq!(log.provider, "Anthropic");
    assert_eq!(log.status_code, 200);
    assert_eq!(log.duration_ms, 12);
    assert_eq!(log.profile_id, "pid");
    assert_eq!(log.profile_name, "P");
    assert_eq!(log.model_mode, "passthrough");
    assert_eq!(log.request_size_bytes, Some(body.len() as i64));
    assert_eq!(log.response_size_bytes, Some(answer.len() as i64));
    assert_eq!(log.response_body, None);
    assert_eq!(log.error_message, None);
}

#[test]
fn override_model_scenario() {
    let p = overriding("opus-3");
    let plan = plan_request(&p, r#"{"model":"sonnet","max_tokens":5}"#);
    assert_eq!(plan.body, r#"{"max_tokens":5,"model":"opus-3"}"#);
    assert_eq!(plan.original_model, "sonnet");
    assert_eq!(plan.forwarded_model, "opus-3");
    assert_eq!(plan.request_size, plan.body.len());
    let log = stream_start_log(&p, &plan, 200, 3);
    assert_eq!(log.original_model, "sonnet");
    assert_eq!(log.forwarded_model, "opus-3");
    assert_eq!(log.model_mode, "override");
}

#[test]
fn same_model_forwards_the_body_byte_for_byte() {
    let p = overriding("sonnet");
    let body = "{ \"model\" :  \"sonnet\",\n  \"x\": 1.50 }";
    assert_eq!(plan_request(&p, body).body, body);
    let q = profile();
    assert_eq!(plan_request(&q, body).body, body);
}

#[test]
fn rewriting_keeps_numbers_as_they_are() {
    let p = overriding("m");
    let plan = plan_request(&p, r#"{"model":"x","t":0.25,"n":18446744073709551615,"neg":-3}"#);
    assert_eq!(plan.body, r#"{"model":"m","n":18446744073709551615,"neg":-3,"t":0.25}"#);
}

#[test]
fn body_that_is_not_json_degrades() {
    let p = overriding("opus-3");
    let plan = plan_request(&p, "not json");
    assert_eq!(plan.body, "not json");
    assert_eq!(plan.original_model, "unknown");
    assert_eq!(plan.forwarded_model, "unknown");
    assert_eq!(plan.user_prompt, "N/A");
}

#[test]
fn missing_model_counts_as_unknown() {
    let p = overriding("opus-3");
    let plan = plan_request(&p, r#"{"a":1}"#);
    assert_eq!(plan.original_model, "unknown");
    assert_eq!(plan.forwarded_model, "opus-3");
    assert_eq!(plan.body, r#"{"a":1,"model":"opus-3"}"#);
}

#[test]
fn json_that_takes_no_member_is_sent_as_it_came() {
    let p = overriding("opus-3");
    let plan = plan_request(&p, "[1, 2]");
    assert_eq!(plan.body, "[1, 2]");
    assert_eq!(plan.forwarded_model, "opus-3");
    let null = plan_request(&p, "null");
    assert_eq!(null.body, r#"{"model":"opus-3"}"#);
}

#[test]
fn stream_is_detected_by_the_literal_text() {
    assert!(detect_stream(r#"{"stream":true}"#));
    assert!(detect_stream(r#"{"stream": true}"#));
    assert!(!detect_stream(r#"{"stream" : true}"#));
    assert!(!detect_stream(r#"{"stream":false}"#));
    assert!(!detect_stream(""));
    let p = profile();
    assert!(plan_request(&p, r#"{"model":"m","stream":true}"#).is_stream);
    assert!(!plan_request(&p, r#"{"model":"m"}"#).is_stream);
}

#[test]
fn user_prompt_is_the_last_user_message() {
    let doc: serde_json::Value = serde_json::from_str(
        r#"{"messages":[{"role":"user","content":"first"},{"role":"assistant","content":"a"},
        {"role":"user","content":[{"type":"image"},{"type":"text","text":"second"},{"type":"text","text":"third"}]},
        {"role":"assistant","content":"b"}]}"#,
    )
    .unwrap();
    assert_eq!(extract_user_prompt(&doc), "second");
    let none: serde_json::Value =
        serde_json::from_str(r#"{"messages":[{"role":"assistant","content":"a"}]}"#).unwrap();
    assert_eq!(extract_user_prompt(&none), "N/A");
    let odd: serde_json::Value =
        serde_json::from_str(r#"{"messages":[{"role":"user","content":[{"type":"text"}]}]}"#)
            .unwrap();
    assert_eq!(extract_user_prompt(&odd), "N/A");
    let no_list: serde_json::Value = serde_json::from_str(r#"{"messages":"x"}"#).unwrap();
    assert_eq!(extract_user_prompt(&no_list), "N/A");
}

#[test]
fn auth_gate_admits_everyone_when_off() {
    let m = ConfigManager::new();
    assert_eq!(authorize(&m, None), Ok(()));
    assert_eq!(authorize(&m, Some("whatever")), Ok(()));
}

#[test]
fn auth_gate_wants_the_bearer_key() {
    let mut m = ConfigManager::new();
    m.set_auth_enabled(true);
    assert_eq!(authorize(&m, Some("Bearer x")), Err(401));
    let key = m.refresh_api_key();
    assert_eq!(authorize(&m, Some(&format!("Bearer {}", key))), Ok(()));
    assert_eq!(authorize(&m, Some(&key)), Err(STATUS_UNAUTHORIZED));
    assert_eq!(authorize(&m, Some(&format!("bearer {}", key))), Err(401));
    assert_eq!(authorize(&m, Some(&format!("Bearer {} ", key))), Err(401));
    assert_eq!(authorize(&m, Some("Bearer ")), Err(401));
    assert_eq!(authorize(&m, None), Err(401));
}

#[test]
fn admission_checks_auth_then_profile() {
    let mut m = ConfigManager::new();
    assert_eq!(admit_request(&m, None).err(), Some(STATUS_NO_PROFILE));
    let id = m.create_profile(profile()).unwrap();
    assert_eq!(admit_request(&m, None).err(), Some(503));
    m.activate_profile(&id).unwrap();
    assert_eq!(admit_request(&m, None).unwrap().id, id);
    m.set_auth_enabled(true);
    assert_eq!(admit_request(&m, None).err(), Some(401));
    let key = m.refresh_api_key();
    assert_eq!(admit_request(&m, Some(&format!("Bearer {}", key))).unwrap().name, "P");
}

#[test]
fn error_answers_are_kept_whole() {
    let body = r#"{"error":{"message":"overloaded"},"message":"outer"}"#;
    let s = summarize_response(529, body);
    assert_eq!(s.input_tokens, 0);
    assert_eq!(s.output_tokens, 0);
    assert_eq!(s.response_body.as_deref(), Some(body));
    assert_eq!(s.error_message.as_deref(), Some("overloaded"));
    let outer = summarize_response(400, r#"{"message":"outer","usage":{"input_tokens":9}}"#);
    assert_eq!(outer.error_message.as_deref(), Some("outer"));
    assert_eq!(outer.input_tokens, 0);
    let unknown = summarize_response(599, "{}");
    assert_eq!(unknown.error_message.as_deref(), Some("Unknown error"));
    let edge = summarize_response(600, r#"{"usage":{"output_tokens":1}}"#);
    assert_eq!(edge.error_message, None);
    assert_eq!(edge.output_tokens, 1);
    let below = summarize_response(399, r#"{"usage":{"output_tokens":2}}"#);
    assert_eq!(below.output_tokens, 2);
}

#[test]
fn answers_that_are_not_json_are_kept_with_a_message() {
    let s = summarize_response(200, "<html>");
    assert_eq!(s.response_body.as_deref(), Some("<html>"));
    assert_eq!(s.error_message.as_deref(), Some("Failed to parse response as JSON"));
    assert_eq!((s.input_tokens, s.output_tokens), (0, 0));
}

#[test]
fn usage_is_read_under_either_name() {
    let s = summarize_response(200, r#"{"usage":{"prompt_tokens":11,"completion_tokens":5}}"#);
    assert_eq!((s.input_tokens, s.output_tokens), (11, 5));
    assert_eq!(s.response_body, None);
    let both = summarize_response(
        200,
        r#"{"usage":{"input_tokens":1,"prompt_tokens":2,"output_tokens":"x","completion_tokens":4}}"#,
    );
    assert_eq!((both.input_tokens, both.output_tokens), (1, 4));
    let huge = summarize_response(200, r#"{"usage":{"input_tokens":9999999999,"output_tokens":-9999999999}}"#);
    assert_eq!((huge.input_tokens, huge.output_tokens), (i32::MAX, i32::MIN));
}

#[test]
fn answers_without_output_tokens_keep_their_body() {
    let body = r#"{"usage":{"input_tokens":4}}"#;
    let s = summarize_response(200, body);
    assert_eq!(s.input_tokens, 4);
    assert_eq!(s.output_tokens, 0);
    assert_eq!(s.response_body.as_deref(), Some(body));
    assert_eq!(s.error_message, None);
}

#[test]
fn stream_start_row_has_no_tokens_yet() {
    let p = profile();
    let plan = plan_request(&p, r#"{"model":"m","stream":true}"#);
    let log = stream_start_log(&p, &plan, 200, 40);
    assert!(log.is_stream);
    assert_eq!((log.input_tokens, log.output_tokens), (0, 0));
    assert_eq!(log.status_code, 200);
    assert_eq!(log.duration_ms, 40);
    assert_eq!(log.request_id.len(), 36);
    assert!(log.timestamp > 1_600_000_000_000);
}

#[test]
fn unreachable_upstream_is_logged_as_bad_gateway() {
    let p = profile();
    let plan = plan_request(&p, r#"{"model":"m"}"#);
    let log = unreachable_log(&p, &plan, 60000, "timed out");
    assert_eq!(log.status_code, STATUS_BAD_GATEWAY as i32);
    assert_eq!(log.status_code, 502);
    assert_eq!(log.error_message.as_deref(), Some("timed out"));
    assert_eq!(log.duration_ms, 60000);
    assert!(!log.is_stream);
}

#[test]
fn upstream_headers_follow_the_rules() {
    let client = vec![
        header("host", "localhost:15288"),
        header("Connection", "keep-alive"),
        header("content-length", "12"),
        header("X-Api-Key", "placeholder"),
        header("accept", "a"),
        header("accept", "b"),
        header("authorization", "Bearer local"),
    ];
    let sent = upstream_headers(&client, "UP");
    assert!(!contains_header(&sent, "host"));
    assert!(!contains_header(&sent, "connection"));
    assert!(!contains_header(&sent, "content-length"));
    assert!(!contains_header(&sent, "x-api-key"));
    assert_eq!(value_of(&sent, "accept"), vec!["b"]);
    assert_eq!(value_of(&sent, "authorization"), vec!["Bearer UP"]);
    assert_eq!(value_of(&sent, "content-type"), vec!["application/json"]);
    assert_eq!(value_of(&sent, "user-agent").len(), 1);
    assert!(value_of(&sent, "user-agent")[0].starts_with("Mozilla/5.0 (Macintosh"));
    assert_eq!(sent.len(), 4);
}

#[test]
fn client_content_type_and_agent_are_kept() {
    let client = vec![header("Content-Type", "text/plain"), header("user-agent", "curl/8")];
    let sent = upstream_headers(&client, "UP");
    assert_eq!(value_of(&sent, "content-type"), vec!["text/plain"]);
    assert_eq!(value_of(&sent, "user-agent"), vec!["curl/8"]);
}

#[test]
fn credential_that_cannot_be_sent_is_left_out() {
    let client = vec![header("authorization", "Bearer local")];
    let empty = upstream_headers(&client, "");
    assert!(value_of(&empty, "authorization").is_empty());
    let broken = upstream_headers(&client, "bad\nkey");
    assert!(value_of(&broken, "authorization").is_empty());
}

#[test]
fn header_values_allow_tab_and_high_bytes() {
    assert!(valid_header_value("a\tb é"));
    assert!(valid_header_value(""));
    assert!(!valid_header_value("a\u{7f}"));
    assert!(!valid_header_value("a\r"));
    assert!(!valid_header_value("\u{0}"));
}

#[test]
fn header_list_operations() {
    let list = vec![header("A", "1"), header("b", "2"), header("a", "3")];
    assert_eq!(remove_header(&list, "a").len(), 1);
    let set = set_header(&list, "B", "9");
    assert_eq!(set.len(), 3);
    assert_eq!(set[2].name, "B");
    assert_eq!(set[2].value, "9");
    let merged = convert_headers(&list);
    assert_eq!(merged.len(), 2);
    assert_eq!(merged[0].name, "b");
    assert_eq!(merged[1].value, "3");
}

#[test]
fn relayed_headers_drop_the_encoding() {
    let upstream = vec![
        header("content-encoding", "gzip"),
        header("Content-Length", "10"),
        header("transfer-encoding", "chunked"),
        header("content-type", "text/event-stream"),
        header("set-cookie", "a=1"),
        header("set-cookie", "b=2"),
    ];
    let relayed = relay_headers(&upstream);
    assert_eq!(relayed.len(), 2);
    assert_eq!(value_of(&relayed, "content-type"), vec!["text/event-stream"]);
    assert_eq!(value_of(&relayed, "set-cookie"), vec!["b=2"]);
}

#[test]
fn outbound_body_falls_back_to_the_client_body() {
    assert_eq!(outbound_body("client", Some("written".to_string())), "written");
    assert_eq!(outbound_body("client", None), "client");
}
