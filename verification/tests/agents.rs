use viban::agents::{
    build_commit_prompt, chosen_commit_message, classify_value, claude_args, clean_message, parse_line, stdout_event, user_message_line,
    AgentEvent,
};
use viban::git::{FileDiff, FileStatus};
use viban::json::JsonValue;

fn diff(path: &str, status: FileStatus, new_text: &str) -> FileDiff {
    FileDiff {
        path: path.to_string(),
        status,
        old_text: String::new(),
        new_text: new_text.to_string(),
    }
}

fn str_member<'a>(value: &'a JsonValue, key: &str) -> Option<&'a str> {
    value.get(key).and_then(|v| v.as_str())
}

#[test]
fn classifies_init() {
    let line = r#"{"type":"system","subtype":"init","session_id":"abc-123"}"#;
    match parse_line(line) {
        AgentEvent::SessionStarted { session_id } => assert_eq!(session_id, "abc-123"),
        other => panic!("expected SessionStarted, got {other:?}"),
    }
}

#[test]
fn extracts_assistant_text() {
    let line = r#"{"type":"assistant","message":{"content":[{"type":"text","text":"hi"}]}}"#;
    match parse_line(line) {
        AgentEvent::AssistantText { text } => assert_eq!(text, "hi"),
        other => panic!("expected AssistantText, got {other:?}"),
    }
}

#[test]
fn unknown_type_is_raw() {
    match parse_line(r#"{"type":"rate_limit_event"}"#) {
        AgentEvent::Raw { .. } => {}
        other => panic!("expected Raw, got {other:?}"),
    }
}

#[test]
fn result_carries_error_flag() {
    match parse_line(r#"{"type":"result","subtype":"success","is_error":false}"#) {
        AgentEvent::Result { is_error, .. } => assert!(!is_error),
        other => panic!("expected Result, got {other:?}"),
    }
}

#[test]
fn invalid_json_becomes_an_error_event() {
    match parse_line("this is not json") {
        AgentEvent::Error { message } => {
            assert!(message.contains("invalid agent output"), "got: {message}");
        }
        other => panic!("expected Error, got {other:?}"),
    }
}

#[test]
fn assistant_tool_use_block_is_classified() {
    let line = r#"{"type":"assistant","message":{"content":[
        {"type":"tool_use","name":"Read","input":{"file":"a.txt"}}]}}"#;
    match parse_line(line) {
        AgentEvent::ToolUse { name, input } => {
            assert_eq!(name, "Read");
            assert_eq!(str_member(&input, "file"), Some("a.txt"));
        }
        other => panic!("expected ToolUse, got {other:?}"),
    }
}

#[test]
fn assistant_concatenates_multiple_text_blocks() {
    let line = r#"{"type":"assistant","message":{"content":[
        {"type":"text","text":"foo "},{"type":"text","text":"bar"}]}}"#;
    match parse_line(line) {
        AgentEvent::AssistantText { text } => assert_eq!(text, "foo bar"),
        other => panic!("expected AssistantText, got {other:?}"),
    }
}

#[test]
fn assistant_without_content_is_raw() {
    match parse_line(r#"{"type":"assistant","message":{}}"#) {
        AgentEvent::Raw { .. } => {}
        other => panic!("expected Raw, got {other:?}"),
    }
}

#[test]
fn system_without_init_subtype_is_raw() {
    match parse_line(r#"{"type":"system","subtype":"other"}"#) {
        AgentEvent::Raw { .. } => {}
        other => panic!("expected Raw, got {other:?}"),
    }
}

#[test]
fn init_without_session_id_is_raw() {
    match parse_line(r#"{"type":"system","subtype":"init"}"#) {
        AgentEvent::Raw { .. } => {}
        other => panic!("expected Raw, got {other:?}"),
    }
}

#[test]
fn result_defaults_is_error_to_false_when_absent() {
    match parse_line(r#"{"type":"result"}"#) {
        AgentEvent::Result { is_error, .. } => assert!(!is_error),
        other => panic!("expected Result, got {other:?}"),
    }
}

#[test]
fn result_captures_token_usage() {
    let line = r#"{"type":"result","is_error":false,
        "usage":{"input_tokens":1200,"output_tokens":340}}"#;
    match parse_line(line) {
        AgentEvent::Result {
            usage: Some(usage), ..
        } => {
            assert_eq!(usage.input_tokens, 1200);
            assert_eq!(usage.output_tokens, 340);
        }
        other => panic!("expected Result with usage, got {other:?}"),
    }
}

#[test]
fn result_without_usage_has_none() {
    match parse_line(r#"{"type":"result","is_error":false}"#) {
        AgentEvent::Result { usage, .. } => assert!(usage.is_none()),
        other => panic!("expected Result, got {other:?}"),
    }
}

#[test]
fn result_reports_a_true_error_flag() {
    match parse_line(r#"{"type":"result","is_error":true}"#) {
        AgentEvent::Result { is_error, .. } => assert!(is_error),
        other => panic!("expected Result, got {other:?}"),
    }
}

#[test]
fn json_without_a_type_field_is_raw() {
    match parse_line(r#"{"hello":"world"}"#) {
        AgentEvent::Raw { payload } => assert_eq!(str_member(&payload, "hello"), Some("world")),
        other => panic!("expected Raw, got {other:?}"),
    }
}

#[test]
fn usage_with_a_missing_count_reads_zero() {
    match parse_line(r#"{"type":"result","usage":{"input_tokens":7}}"#) {
        AgentEvent::Result {
            is_error,
            usage: Some(usage),
        } => {
            assert!(!is_error);
            assert_eq!(usage.input_tokens, 7);
            assert_eq!(usage.output_tokens, 0);
        }
        other => panic!("expected Result with usage, got {other:?}"),
    }
}

#[test]
fn tool_use_after_text_is_ignored_in_favor_of_the_text() {
    let line = r#"{"type":"assistant","message":{"content":[
        {"type":"text","text":"let me look"},{"type":"tool_use","name":"Read","input":{}}]}}"#;
    match parse_line(line) {
        AgentEvent::AssistantText { text } => assert_eq!(text, "let me look"),
        other => panic!("expected AssistantText, got {other:?}"),
    }
}

#[test]
fn tool_use_without_input_carries_null() {
    let line = r#"{"type":"assistant","message":{"content":[{"type":"tool_use"}]}}"#;
    match parse_line(line) {
        AgentEvent::ToolUse { name, input } => {
            assert_eq!(name, "");
            assert!(input.is_null());
        }
        other => panic!("expected ToolUse, got {other:?}"),
    }
}

#[test]
fn stdout_blank_lines_carry_no_event() {
    assert!(stdout_event("   \t").is_none());
    match stdout_event("  {\"type\":\"result\",\"is_error\":true}  ") {
        Some(AgentEvent::Result { is_error, .. }) => assert!(is_error),
        other => panic!("expected Result, got {other:?}"),
    }
}

#[test]
fn build_commit_prompt_includes_files_and_the_instruction() {
    let prompt = build_commit_prompt(&[
        diff("src/a.rs", FileStatus::Modified, "fn a() {}"),
        diff("src/b.rs", FileStatus::Added, "fn b() {}"),
    ]);
    assert!(prompt.contains("conventional-commits"));
    assert!(prompt.contains("src/a.rs"));
    assert!(prompt.contains("src/b.rs"));
    assert!(prompt.contains("fn b() {}"));
}

#[test]
fn build_commit_prompt_omits_deleted_file_content() {
    let prompt = build_commit_prompt(&[diff("gone.rs", FileStatus::Deleted, "")]);
    assert!(prompt.contains("deleted: gone.rs"));
}

#[test]
fn build_commit_prompt_lays_out_each_file_section() {
    let prompt = build_commit_prompt(&[
        diff("a.rs", FileStatus::Modified, "x"),
        diff("gone.rs", FileStatus::Deleted, "ignored"),
    ]);
    assert!(prompt.ends_with("\n=== modified: a.rs ===\nx\n\n=== deleted: gone.rs ===\n"));
    assert!(!prompt.contains("ignored"));
}

#[test]
fn build_commit_prompt_caps_the_file_dump() {
    let big = "y".repeat(20_000);
    let prompt = build_commit_prompt(&[diff("big.rs", FileStatus::Added, &big)]);
    let empty = build_commit_prompt(&[]);
    assert_eq!(prompt.chars().count(), empty.chars().count() + 8000);
}

#[test]
fn clean_message_takes_the_first_line_without_quotes() {
    assert_eq!(
        clean_message("\"feat: add thing\"\n\nextra"),
        "feat: add thing"
    );
    assert_eq!(clean_message("  fix: the bug  "), "fix: the bug");
    assert_eq!(clean_message("`chore: tidy`"), "chore: tidy");
    assert_eq!(clean_message(""), "");
}

#[test]
fn clean_message_skips_blank_lines_and_nested_quotes() {
    assert_eq!(clean_message("\n   \n'\"docs: x\"'\nmore"), "docs: x");
    assert_eq!(clean_message("\r\n\u{3000}\n"), "");
}

#[test]
fn user_message_line_frames_a_stream_json_envelope() {
    let line = user_message_line("say \"hi\"");
    assert_eq!(
        line,
        "{\"message\":{\"content\":\"say \\\"hi\\\"\",\"role\":\"user\"},\"type\":\"user\"}\n"
    );
    let value: serde_json::Value = serde_json::from_str(line.trim_end()).expect("valid json");
    assert_eq!(value["message"]["content"], "say \"hi\"");
}

#[test]
fn claude_args_add_resume_only_when_given() {
    let fresh = claude_args(None);
    assert_eq!(fresh.len(), 7);
    assert_eq!(fresh[0], "--input-format");
    let resumed = claude_args(Some("abc"));
    assert_eq!(&resumed[7..], &["--resume".to_string(), "abc".to_string()]);
}

#[test]
fn chosen_commit_message_prefers_a_non_empty_reply() {
    assert_eq!(chosen_commit_message(Some("feat: x".to_string()), "Title"), "feat: x");
    assert_eq!(chosen_commit_message(Some(String::new()), "Title"), "Title");
    assert_eq!(chosen_commit_message(None, "Title"), "Title");
}

#[test]
fn classify_value_reads_a_parsed_system_event() {
    let value = viban::json::parse_json(r#"{"type":"system","subtype":"init","session_id":"abc"}"#)
        .expect("valid json");
    match classify_value(value) {
        AgentEvent::SessionStarted { session_id } => assert_eq!(session_id, "abc"),
        other => panic!("unexpected event: {other:?}"),
    }
}
