use agent_reviewer::json::JsonValue;
use agent_reviewer::text::{decimal_string, is_white_space_char, trim};
use agent_reviewer::tool_calls::{
    extract_text_tool_calls, parse_tool_call_object, strip_markdown_fence, tool_calls_from_json,
    CallIdCounter, TextToolCall,
};

fn extract(text: &str) -> Vec<TextToolCall> {
    let mut ids = CallIdCounter::new();
    extract_text_tool_calls(text, &mut ids)
}

fn member<'a>(v: &'a JsonValue, key: &str) -> Option<&'a JsonValue> {
    match v {
        JsonValue::Object(entries) => entries.iter().find(|(k, _)| k == key).map(|(_, v)| v),
        _ => None,
    }
}

#[test]
fn parses_plain_json_tool_call() {
    let calls = extract(r#"{"name":"submit_triage","arguments":{"review_units":[]}}"#);
    assert_eq!(calls.len(), 1);
    assert_eq!(calls[0].fn_name, "submit_triage");
}

#[test]
fn parses_fenced_json_tool_call() {
    let calls = extract(
        "```json\n{\"name\":\"read_file\",\"arguments\":{\"path\":\"Cargo.toml\"}}\n```",
    );
    assert_eq!(calls.len(), 1);
    assert_eq!(calls[0].fn_name, "read_file");
}

#[test]
fn plain_call_keeps_its_arguments() {
    let calls = extract(r#"  {"name":"read_file","arguments":{"path":"a.rs","line":3}}  "#);
    assert_eq!(calls.len(), 1);
    assert_eq!(calls[0].call_id, "call_0");
    match member(&calls[0].fn_arguments, "path") {
        Some(JsonValue::Str(s)) => assert_eq!(s, "a.rs"),
        other => panic!("unexpected {:?}", other),
    }
    match member(&calls[0].fn_arguments, "line") {
        Some(JsonValue::Number(n)) => assert_eq!(n, "3"),
        other => panic!("unexpected {:?}", other),
    }
}

#[test]
fn function_form_without_arguments_gives_empty_object() {
    let calls = extract(r#"{"function":{"name":"list_files"}}"#);
    assert_eq!(calls.len(), 1);
    assert_eq!(calls[0].fn_name, "list_files");
    match &calls[0].fn_arguments {
        JsonValue::Object(entries) => assert!(entries.is_empty()),
        other => panic!("unexpected {:?}", other),
    }
}

#[test]
fn function_form_with_arguments() {
    let calls = extract(r#"{"type":"function","function":{"name":"grep","arguments":{"q":"x"}}}"#);
    assert_eq!(calls.len(), 1);
    assert_eq!(calls[0].fn_name, "grep");
    assert!(matches!(member(&calls[0].fn_arguments, "q"), Some(JsonValue::Str(s)) if s == "x"));
}

#[test]
fn name_that_is_not_a_string_gives_no_call() {
    assert!(extract(r#"{"name":3,"arguments":{}}"#).is_empty());
    // With both "name" and "arguments" present the "function" form is not consulted.
    assert!(extract(r#"{"name":3,"arguments":{},"function":{"name":"f"}}"#).is_empty());
}

#[test]
fn name_without_arguments_falls_back_to_function_form() {
    let calls = extract(r#"{"name":"a","function":{"name":"b","arguments":[1]}}"#);
    assert_eq!(calls.len(), 1);
    assert_eq!(calls[0].fn_name, "b");
    assert!(matches!(&calls[0].fn_arguments, JsonValue::Array(items) if items.len() == 1));
}

#[test]
fn array_gives_calls_in_order_with_consecutive_ids() {
    let text = r#"[{"name":"a","arguments":{}}, 5, {"nothing":1}, {"function":{"name":"b"}}, {"name":"c","arguments":null}]"#;
    let mut ids = CallIdCounter::starting_at(7);
    let calls = extract_text_tool_calls(text, &mut ids);
    let names: Vec<&str> = calls.iter().map(|c| c.fn_name.as_str()).collect();
    assert_eq!(names, vec!["a", "b", "c"]);
    let ids_seen: Vec<&str> = calls.iter().map(|c| c.call_id.as_str()).collect();
    assert_eq!(ids_seen, vec!["call_7", "call_8", "call_9"]);
    assert!(matches!(calls[2].fn_arguments, JsonValue::Null));
    assert_eq!(ids.peek(), 10);
}

#[test]
fn text_that_is_not_json_gives_nothing_and_keeps_counter() {
    let mut ids = CallIdCounter::starting_at(4);
    assert!(extract_text_tool_calls("I will call read_file now.", &mut ids).is_empty());
    assert!(extract_text_tool_calls("", &mut ids).is_empty());
    assert!(extract_text_tool_calls("\"just a string\"", &mut ids).is_empty());
    assert!(extract_text_tool_calls("[1, 2, \"x\"]", &mut ids).is_empty());
    assert_eq!(ids.peek(), 4);
}

#[test]
fn counter_wraps_after_max() {
    let mut ids = CallIdCounter::starting_at(u64::MAX);
    assert_eq!(ids.next_call_id(), format!("call_{}", u64::MAX));
    assert_eq!(ids.next_call_id(), "call_0");
    assert_eq!(ids.peek(), 1);
}

#[test]
fn ids_continue_across_extractions() {
    let mut ids = CallIdCounter::new();
    let first = extract_text_tool_calls(r#"{"name":"a","arguments":{}}"#, &mut ids);
    let second = extract_text_tool_calls(r#"{"name":"b","arguments":{}}"#, &mut ids);
    assert_eq!(first[0].call_id, "call_0");
    assert_eq!(second[0].call_id, "call_1");
}

#[test]
fn parse_object_directly() {
    let mut ids = CallIdCounter::new();
    let entries = vec![
        ("arguments".to_string(), JsonValue::Bool(true)),
        ("name".to_string(), JsonValue::Str("x".to_string())),
    ];
    let call = parse_tool_call_object(entries, &mut ids).unwrap();
    assert_eq!(call.fn_name, "x");
    assert!(matches!(call.fn_arguments, JsonValue::Bool(true)));
    assert!(parse_tool_call_object(vec![], &mut ids).is_none());
    assert_eq!(ids.peek(), 1);
}

#[test]
fn calls_from_parsed_value() {
    let mut ids = CallIdCounter::new();
    let value = JsonValue::Array(vec![
        JsonValue::Object(vec![
            ("name".to_string(), JsonValue::Str("n".to_string())),
            ("arguments".to_string(), JsonValue::Null),
        ]),
        JsonValue::Null,
    ]);
    let calls = tool_calls_from_json(value, &mut ids);
    assert_eq!(calls.len(), 1);
    assert!(tool_calls_from_json(JsonValue::Str("s".to_string()), &mut ids).is_empty());
}

#[test]
fn arguments_keep_every_kind_of_value() {
    let calls = extract(r#"{"name":"f","arguments":[true, null, 1.5, "s", {"k": -2}]}"#);
    assert_eq!(calls.len(), 1);
    match &calls[0].fn_arguments {
        JsonValue::Array(items) => {
            assert_eq!(items.len(), 5);
            assert!(matches!(items[0], JsonValue::Bool(true)));
            assert!(matches!(items[1], JsonValue::Null));
            assert!(matches!(&items[2], JsonValue::Number(n) if n == "1.5"));
            assert!(matches!(&items[3], JsonValue::Str(s) if s == "s"));
            assert!(matches!(&items[4], JsonValue::Object(e) if e.len() == 1 && e[0].0 == "k"));
        }
        other => panic!("unexpected {:?}", other),
    }
}

#[test]
fn trailing_text_after_document_is_rejected() {
    assert!(extract(r#"{"name":"f","arguments":{}} and more"#).is_empty());
    assert!(extract(r#"{"name":"f","arguments":{}"#).is_empty());
}

#[test]
fn strip_markdown_fence_cases() {
    assert_eq!(strip_markdown_fence("```json\n{}\n```"), "{}");
    assert_eq!(strip_markdown_fence("```\n[1]\n```"), "[1]");
    assert_eq!(strip_markdown_fence("  {} "), "{}");
    assert_eq!(strip_markdown_fence("```json"), "");
    assert_eq!(strip_markdown_fence("```"), "");
    assert_eq!(strip_markdown_fence("{}```"), "{}");
    assert_eq!(strip_markdown_fence("```JSON x```"), "JSON x");
    assert_eq!(strip_markdown_fence(" ```json x```"), "```json x");
    assert_eq!(strip_markdown_fence("ünï```"), "ünï");
}

#[test]
fn trim_agrees_with_std() {
    let samples = [
        "", " ", "a", "  a b  ", "\t\n x \r\n", "\u{00A0}y\u{3000}", "\u{2009}z\u{200B}",
        "\u{85}q\u{1680}", "é  ", "\u{2028}\u{2029}\u{202F}\u{205F}", "\u{0B}\u{0C}k",
    ];
    for s in samples {
        assert_eq!(trim(s), s.trim(), "sample {:?}", s);
    }
}

#[test]
fn whitespace_agrees_with_std() {
    for u in 0u32..0x3100 {
        if let Some(c) = char::from_u32(u) {
            assert_eq!(is_white_space_char(c), c.is_whitespace(), "char {:#x}", u);
        }
    }
}

#[test]
fn decimal_agrees_with_to_string() {
    for n in [0u64, 1, 9, 10, 11, 99, 100, 12345, 1_000_000_007, u64::MAX] {
        assert_eq!(decimal_string(n), n.to_string());
    }
}
