use cloche::cli::inferred_reel_duration_ms;
use cloche::json::upsert_server;
use cloche::json::parse_json;
use cloche::json::register_json_text;
use cloche::json::JsonValue;
use cloche::reel::captions_from_cues;
use cloche::reel::card_ms;
use cloche::reel::card_text;
use cloche::setup::verify::reply_line_has_core;
use cloche::setup::verify::tools_list_has_core;

fn parse(text: &str) -> JsonValue {
    parse_json(text).expect("valid JSON")
}

fn at<'a>(value: &'a JsonValue, path: &[&str]) -> Option<&'a JsonValue> {
    let mut cursor = value;
    for key in path {
        match cursor {
            JsonValue::Object(fields) => {
                cursor = &fields.iter().find(|(name, _)| name == key)?.1;
            }
            _ => return None,
        }
    }
    Some(cursor)
}

fn text_at<'a>(value: &'a JsonValue, path: &[&str]) -> Option<&'a str> {
    match at(value, path) {
        Some(JsonValue::Str(s)) => Some(s.as_str()),
        _ => None,
    }
}

#[test]
fn adds_cloche_to_empty_doc_for_claude() {
    let (doc, changed) = upsert_server(parse("{}"), &["mcpServers"]);
    assert!(changed);
    assert_eq!(text_at(&doc, &["mcpServers", "cloche", "command"]), Some("cloche"));
    match at(&doc, &["mcpServers", "cloche", "args"]) {
        Some(JsonValue::Array(items)) => {
            assert!(matches!(&items[0], JsonValue::Str(s) if s == "mcp"));
        }
        _ => panic!("args missing"),
    }
}

#[test]
fn preserves_existing_servers() {
    let start = parse(r#"{ "mcpServers": { "other": { "command": "x" } } }"#);
    let (doc, changed) = upsert_server(start, &["mcpServers"]);
    assert!(changed);
    assert_eq!(text_at(&doc, &["mcpServers", "other", "command"]), Some("x"));
    assert_eq!(text_at(&doc, &["mcpServers", "cloche", "command"]), Some("cloche"));
}

#[test]
fn second_run_is_idempotent() {
    let (doc, _) = upsert_server(parse("{}"), &["mcp", "servers"]);
    let (_, changed) = upsert_server(doc, &["mcp", "servers"]);
    assert!(!changed);
}

#[test]
fn nested_openclaw_path() {
    let (doc, _) = upsert_server(parse("{}"), &["mcp", "servers"]);
    assert_eq!(text_at(&doc, &["mcp", "servers", "cloche", "command"]), Some("cloche"));
}

#[test]
fn an_equal_entry_in_another_order_is_not_a_change() {
    let start = parse(r#"{"mcpServers": {"cloche": {"command": "cloche", "args": ["mcp"]}}}"#);
    let (_, changed) = upsert_server(start, &["mcpServers"]);
    assert!(!changed);
    let stale = parse(r#"{"mcpServers": {"cloche": {"command": "old", "args": ["mcp"]}}}"#);
    let (doc, changed) = upsert_server(stale, &["mcpServers"]);
    assert!(changed);
    assert_eq!(text_at(&doc, &["mcpServers", "cloche", "command"]), Some("cloche"));
}

#[test]
fn a_non_object_document_is_replaced() {
    let (doc, changed) = upsert_server(parse("[1, 2]"), &["mcpServers"]);
    assert!(changed);
    assert_eq!(text_at(&doc, &["mcpServers", "cloche", "command"]), Some("cloche"));
}

#[test]
fn reel_duration_uses_longest_cue_with_default_floor() {
    let cues = parse(
        r#"{
            "captions": [{ "startMs": 100, "endMs": 2400, "text": "Caption" }],
            "zooms": [{ "startMs": 1000, "endMs": 7200, "scale": 1.1 }]
        }"#,
    );
    assert_eq!(inferred_reel_duration_ms(Some(&cues)), 7_200);
    assert_eq!(inferred_reel_duration_ms(None), 6_000);
    let cards = parse(r#"{"titleCard": {"ms": 9000}, "captions": "not a list"}"#);
    assert_eq!(inferred_reel_duration_ms(Some(&cards)), 9_000);
}

fn sample_cues() -> JsonValue {
    parse(
        r#"{
            "captions": [
                {"startMs": 1000, "endMs": 3000, "text": "First caption"},
                {"startMs": 3200, "endMs": 5000, "text": "Second & <bold>", "position": "top"}
            ],
            "titleCard": {"text": "Hello", "ms": 1200},
            "outroCard": {"text": "Subscribe", "ms": 1500}
        }"#,
    )
}

#[test]
fn captions_parsed_and_filtered() {
    let caps = captions_from_cues(&sample_cues());
    assert_eq!(caps.len(), 2);
    assert_eq!(caps[0].text, "First caption");
    assert!(caps[1].top);
    assert_eq!(caps[1].start_ms, 3200);
}

#[test]
fn captions_drop_empty_or_zero_length() {
    let cues = parse(
        r#"{
            "captions": [
                {"startMs": 0, "endMs": 0, "text": "zero"},
                {"startMs": 100, "endMs": 200, "text": ""}
            ]
        }"#,
    );
    assert!(captions_from_cues(&cues).is_empty());
}

#[test]
fn cards_read_their_text_and_length() {
    let cues = sample_cues();
    assert_eq!(card_text(&cues, "titleCard").as_deref(), Some("Hello"));
    assert_eq!(card_text(&cues, "missing"), None);
    assert_eq!(card_ms(&cues, "outroCard", 900), 1500);
    assert_eq!(card_ms(&cues, "missing", 900), 900);
}

#[test]
fn detects_core_tools_in_reply() {
    let reply = parse(
        r#"{"jsonrpc":"2.0","id":1,"result":{"tools":[
        {"name":"capture"},{"name":"polish"},{"name":"doctor"}]}}"#,
    );
    assert!(tools_list_has_core(&reply));
}

#[test]
fn rejects_reply_missing_polish() {
    let reply = parse(r#"{"jsonrpc":"2.0","id":1,"result":{"tools":[{"name":"capture"}]}}"#);
    assert!(!tools_list_has_core(&reply));
}

#[test]
fn rejects_garbage() {
    assert!(serde_json::from_str::<serde_json::Value>("not json").is_err());
    assert!(!tools_list_has_core(&JsonValue::Str("not json".to_string())));
}

#[test]
fn parsing_keeps_numbers_in_their_kind() {
    let doc = parse(r#"{"a": 3, "b": -4, "c": 1.5, "d": [true, null, "x"]}"#);
    assert!(matches!(at(&doc, &["a"]), Some(JsonValue::Number(cloche::json::JsonNumber::PosInt(3)))));
    assert!(matches!(at(&doc, &["b"]), Some(JsonValue::Number(cloche::json::JsonNumber::NegInt(-4)))));
    assert!(matches!(at(&doc, &["c"]), Some(JsonValue::Number(cloche::json::JsonNumber::Float(t))) if t == "1.5"));
    assert!(parse_json("{not json").is_err());
    assert!(parse_json("").is_err());
}

#[test]
fn a_missing_client_file_is_registered_from_scratch() {
    let (doc, changed) = register_json_text("/h/.c.json", None, &["mcpServers"]).expect("registers");
    assert!(changed);
    assert_eq!(text_at(&doc, &["mcpServers", "cloche", "command"]), Some("cloche"));
}

#[test]
fn an_existing_client_file_keeps_its_servers() {
    let text = r#"{"theme": "dark", "mcpServers": {"other": {"command": "x"}}}"#;
    let (doc, changed) = register_json_text("/h/.c.json", Some(text), &["mcpServers"]).expect("registers");
    assert!(changed);
    assert_eq!(text_at(&doc, &["theme"]), Some("dark"));
    assert_eq!(text_at(&doc, &["mcpServers", "other", "command"]), Some("x"));
    assert_eq!(text_at(&doc, &["mcpServers", "cloche", "command"]), Some("cloche"));
    let again = r#"{"mcpServers": {"cloche": {"command": "cloche", "args": ["mcp"]}}}"#;
    let (_, changed) = register_json_text("/h/.c.json", Some(again), &["mcpServers"]).expect("registers");
    assert!(!changed);
}

#[test]
fn a_malformed_client_file_is_reported_not_replaced() {
    let err = register_json_text("/h/.c.json", Some("{oops"), &["mcpServers"]).expect_err("rejects");
    assert!(err.starts_with("/h/.c.json is not valid JSON: "));
}

#[test]
fn server_output_lines_are_parsed_one_by_one() {
    let reply = r#"{"jsonrpc":"2.0","id":2,"result":{"tools":[{"name":"capture"},{"name":"polish"}]}}"#;
    assert!(reply_line_has_core(reply));
    assert!(!reply_line_has_core("starting server"));
    assert!(!reply_line_has_core(r#"{"jsonrpc":"2.0","id":1,"result":{}}"#));
}

#[test]
fn reel_inputs_collect_every_early_error() {
    let r = cloche::reel::reel_inputs(
        "/v/in.mp4",
        false,
        Some("could not create /out".to_string()),
        Some(Err("permission denied".to_string())),
        None,
    );
    assert_eq!(
        r.errors,
        vec![
            "input video does not exist: /v/in.mp4".to_string(),
            "could not create /out".to_string(),
            "cue file could not be read: permission denied".to_string(),
        ]
    );
    assert_eq!(r.duration_ms, 6000);
}

#[test]
fn reel_inputs_parse_the_cue_file_and_infer_the_length() {
    let cues = r#"{"captions": [{"startMs": 0, "endMs": 9000, "text": "hi"}]}"#;
    let r = cloche::reel::reel_inputs("/v/in.mp4", true, None, Some(Ok(cues.to_string())), None);
    assert!(r.errors.is_empty());
    assert_eq!(r.duration_ms, 9000);
    assert!(matches!(r.cues, JsonValue::Object(ref fields) if fields.len() == 1));
    let r = cloche::reel::reel_inputs("/v/in.mp4", true, None, Some(Ok(cues.to_string())), Some(1234));
    assert_eq!(r.duration_ms, 1234);
    let r = cloche::reel::reel_inputs("/v/in.mp4", true, None, None, None);
    assert!(r.errors.is_empty());
    assert!(matches!(r.cues, JsonValue::Object(ref fields) if fields.is_empty()));
    assert_eq!(r.duration_ms, 6000);
}

#[test]
fn a_malformed_cue_file_is_an_error() {
    let r = cloche::reel::reel_inputs("/v/in.mp4", true, None, Some(Ok("{bad".to_string())), None);
    assert_eq!(r.errors.len(), 1);
    assert!(r.errors[0].starts_with("cue file is not valid JSON: "));
    assert_eq!(r.duration_ms, 6000);
}

#[test]
fn reel_outcomes_warn_about_left_props() {
    assert_eq!(cloche::reel::reel_outcome(false, true, false), (vec!["render props were written for debugging".to_string()], false));
    assert_eq!(cloche::reel::reel_outcome(true, true, true), (Vec::new(), true));
    assert_eq!(cloche::reel::reel_outcome(true, false, false), (Vec::new(), false));
}
