use viban::agents::AgentEvent;
use viban::json::{parse_json, JsonValue};
use viban::rpc::{
    activate_attempt, apply_task_update, bool_param, branch_name, conversation_entry,
    dispatch_method, make_title, move_to_column, next_position, opt_str_param,
    parse_error_response, plan_start_session, push_decimal, response_text, str_param,
    task_ids_param, plan_send_message, parse_request, description_param, new_task,
    topic_notification, session_notification, Method, RpcError, SendPlan, StartPlan,
};
use viban::types::{Attempt, Column, Session, Task};

fn json(text: &str) -> JsonValue {
    parse_json(text).expect("valid json")
}

fn task(id: &str, column_id: &str, position: i64) -> Task {
    Task {
        id: id.to_string(),
        column_id: column_id.to_string(),
        title: "Title".to_string(),
        description: String::new(),
        position,
        session_id: None,
        worktree_path: None,
        branch: None,
        created_at: 0,
    }
}

fn column(id: &str, name: &str, position: i64) -> Column {
    Column {
        id: id.to_string(),
        board_id: "b".to_string(),
        name: name.to_string(),
        position,
    }
}

#[test]
fn rpc_make_title_keeps_a_short_prompt_verbatim() {
    assert_eq!(make_title("Fix the login bug"), "Fix the login bug");
}

#[test]
fn rpc_make_title_uses_only_the_first_line() {
    assert_eq!(make_title("First line\nsecond line\nthird"), "First line");
}

#[test]
fn rpc_make_title_truncates_and_ellipsizes_long_prompts() {
    let long = "a".repeat(80);
    let title = make_title(&long);
    assert!(title.ends_with('…'), "long titles end with an ellipsis");
    assert_eq!(title.chars().count(), 51, "50 characters plus the ellipsis");
}

#[test]
fn rpc_make_title_does_not_truncate_at_exactly_fifty_characters() {
    let exact = "a".repeat(50);
    assert_eq!(make_title(&exact), exact);
}

#[test]
fn rpc_make_title_falls_back_for_blank_input() {
    assert_eq!(make_title(""), "Untitled session");
    assert_eq!(make_title("   \n  "), "Untitled session");
}

#[test]
fn sessions_make_title_keeps_a_short_prompt_verbatim() {
    assert_eq!(make_title("Fix the login bug"), "Fix the login bug");
}

#[test]
fn sessions_make_title_uses_only_the_first_line() {
    assert_eq!(make_title("First line\nsecond line\nthird"), "First line");
}

#[test]
fn sessions_make_title_truncates_and_ellipsizes_long_prompts() {
    let long = "a".repeat(80);
    let title = make_title(&long);
    assert!(title.ends_with('…'), "long titles end with an ellipsis");
    assert_eq!(title.chars().count(), 51, "50 characters plus the ellipsis");
}

#[test]
fn sessions_make_title_does_not_truncate_at_exactly_fifty_characters() {
    let exact = "a".repeat(50);
    assert_eq!(make_title(&exact), exact);
}

#[test]
fn sessions_make_title_falls_back_for_blank_input() {
    assert_eq!(make_title(""), "Untitled session");
    assert_eq!(make_title("   \n  "), "Untitled session");
}

#[test]
fn anyhow_errors_convert_to_internal_rpc_errors() {
    let err = RpcError::internal(format!("{:#}", anyhow::Error::msg("disk on fire")));
    assert_eq!(err.code, -32603);
    assert!(err.message.contains("disk on fire"));
}

#[test]
fn converted_errors_keep_the_anyhow_context_chain() {
    let chained = anyhow::Error::msg("root cause").context("while doing the thing");
    let err = RpcError::internal(format!("{chained:#}"));
    // `{:#}` flattens the whole chain into the message.
    assert!(err.message.contains("while doing the thing"));
    assert!(err.message.contains("root cause"));
}

#[test]
fn str_param_rejects_a_missing_key() {
    let params = json(r#"{ "present": "yes" }"#);
    let err = str_param(&params, "absent").expect_err("missing key errors");
    assert_eq!(err.code, -32602);
    assert_eq!(str_param(&params, "present").expect("present"), "yes");
}

#[test]
fn unknown_methods_are_method_not_found() {
    let err = dispatch_method("does.not_exist").expect_err("unknown method");
    assert_eq!(err.code, -32601);
    assert_eq!(err.message, "method not found: does.not_exist");
    assert_eq!(dispatch_method("git.merge").expect("known"), Method::GitMerge);
    assert_eq!(
        dispatch_method("tasks.start_session").expect("known"),
        Method::TasksStartSession
    );
}

#[test]
fn task_ids_keep_only_the_strings_in_order() {
    let params = json(r#"{ "task_ids": ["b", 3, "a", null] }"#);
    assert_eq!(task_ids_param(&params).expect("array"), vec!["b", "a"]);
    let err = task_ids_param(&json(r#"{ "task_ids": "b" }"#)).expect_err("not an array");
    assert_eq!(err.code, -32602);
}

#[test]
fn only_conversational_events_are_persisted() {
    let entry = conversation_entry(&AgentEvent::ToolUse {
        name: "Edit".to_string(),
        input: JsonValue::Null,
    });
    assert_eq!(entry, Some(("tool".to_string(), "using Edit".to_string())));
    let entry = conversation_entry(&AgentEvent::AssistantText {
        text: "hi".to_string(),
    });
    assert_eq!(entry, Some(("assistant".to_string(), "hi".to_string())));
    assert_eq!(
        conversation_entry(&AgentEvent::Result {
            is_error: false,
            usage: None
        }),
        None
    );
}

#[test]
fn new_tasks_go_to_the_end_of_their_column() {
    let tasks = vec![task("t0", "c1", 0), task("t1", "c2", 0), task("t2", "c1", 1)];
    assert_eq!(next_position(&tasks, "c1"), 2);
    assert_eq!(next_position(&tasks, "c3"), 0);
}

#[test]
fn moving_a_task_puts_it_after_the_others_in_the_named_column() {
    let columns = vec![column("c1", "In Progress", 0), column("c2", "Review", 1)];
    let tasks = vec![task("t0", "c2", 0), task("t1", "c1", 0), task("t2", "c2", 1)];
    let mut moving = task("t1", "c1", 0);
    move_to_column(&columns, &tasks, &mut moving, "Review").expect("column exists");
    assert_eq!(moving.column_id, "c2");
    assert_eq!(moving.position, 2);
    let mut already = task("t2", "c2", 1);
    move_to_column(&columns, &tasks, &mut already, "Review").expect("column exists");
    assert_eq!(already.position, 1);
    let err = move_to_column(&columns, &tasks, &mut moving, "Done").expect_err("no such column");
    assert_eq!(err.code, -32603);
    assert_eq!(err.message, "no column named Done");
}

#[test]
fn task_updates_change_only_the_given_fields() {
    let mut t = task("t1", "c1", 4);
    apply_task_update(&mut t, &json(r#"{ "task_id": "t1", "title": "New title", "description": 5 }"#));
    assert_eq!(t.title, "New title");
    assert_eq!(t.description, "");
    assert_eq!(t.position, 4);
    apply_task_update(&mut t, &json(r#"{ "session_id": "s9" }"#));
    assert_eq!(t.session_id.as_deref(), Some("s9"));
    assert_eq!(t.title, "New title");
}

#[test]
fn activating_an_attempt_repoints_the_task() {
    let mut t = task("t1", "c1", 0);
    activate_attempt(
        &mut t,
        Attempt {
            id: "a1".to_string(),
            task_id: "t1".to_string(),
            session_id: Some("s1".to_string()),
            worktree_path: Some("/wt/a1".to_string()),
            branch: Some("viban/x-a1".to_string()),
            created_at: 3,
        },
    );
    assert_eq!(t.session_id.as_deref(), Some("s1"));
    assert_eq!(t.worktree_path.as_deref(), Some("/wt/a1"));
    assert_eq!(t.branch.as_deref(), Some("viban/x-a1"));
    assert_eq!(t.created_at, 0);
}

#[test]
fn start_session_plans_follow_the_task_and_the_repository() {
    let mut t = task("t1", "c1", 0);
    assert!(matches!(plan_start_session(&t, true, false, false), StartPlan::WithoutGit));
    assert!(matches!(plan_start_session(&t, false, false, false), StartPlan::NeedsGitInit));
    assert!(matches!(plan_start_session(&t, false, false, true), StartPlan::InitThenWorktree));
    assert!(matches!(plan_start_session(&t, false, true, false), StartPlan::Worktree));
    t.session_id = Some("s1".to_string());
    match plan_start_session(&t, true, false, true) {
        StartPlan::Existing { session_id } => assert_eq!(session_id, "s1"),
        other => panic!("expected Existing, got {other:?}"),
    }
}

#[test]
fn branch_names_carry_the_slug_and_an_id_fragment() {
    assert_eq!(
        branch_name("Add login flow", "0123456789abcdef"),
        "viban/add-login-flow-01234567"
    );
    assert_eq!(branch_name("!!!", "ab"), "viban/task-ab");
}

#[test]
fn response_text_frames_a_result() {
    let id = json("7");
    let outcome = Ok(json("{\"ok\":true}"));
    assert_eq!(
        response_text(&id, &outcome),
        "{\"jsonrpc\":\"2.0\",\"id\":7,\"result\":{\"ok\":true}}"
    );
}

#[test]
fn response_text_frames_an_error() {
    let id = json("\"req-1\"");
    let outcome = Err(RpcError::invalid_params("bad \"input\"".to_string()));
    assert_eq!(
        response_text(&id, &outcome),
        "{\"jsonrpc\":\"2.0\",\"id\":\"req-1\",\"error\":{\"code\":-32602,\"message\":\"bad \\\"input\\\"\"}}"
    );
}

#[test]
fn parse_error_response_has_a_null_id() {
    assert_eq!(
        parse_error_response("EOF while parsing"),
        "{\"jsonrpc\":\"2.0\",\"id\":null,\"error\":{\"code\":-32700,\"message\":\"parse error: EOF while parsing\"}}"
    );
}

#[test]
fn push_decimal_writes_signed_numbers() {
    for n in [0, 7, -32601, 2147483647, -2147483648] {
        let mut out = "x=".to_string();
        push_decimal(&mut out, n);
        assert_eq!(out, format!("x={n}"));
    }
}

#[test]
fn optional_params_fall_back_when_absent_or_mistyped() {
    let params = json("{\"a\":\"s\",\"b\":true,\"c\":1}");
    assert_eq!(opt_str_param(&params, "a").as_deref(), Some("s"));
    assert_eq!(opt_str_param(&params, "b"), None);
    assert_eq!(opt_str_param(&params, "z"), None);
    assert!(bool_param(&params, "b"));
    assert!(!bool_param(&params, "a"));
    assert!(!bool_param(&params, "z"));
    assert!(!bool_param(&json("null"), "b"));
}

#[test]
fn titles_are_never_empty_and_at_most_fifty_one_characters() {
    for prompt in ["", "   \n", "short", &"é".repeat(300)] {
        let title = make_title(prompt);
        assert!(!title.is_empty());
        assert!(title.chars().count() <= 51);
    }
}

#[test]
fn attempts_of_one_task_get_distinct_branches() {
    let a = branch_name("Fix bug", "12345678-aaaa");
    let b = branch_name("Fix bug", "12345679-aaaa");
    assert_eq!(a, "viban/fix-bug-12345678");
    assert_ne!(a, b);
}

fn stored_session(agent_id: Option<&str>) -> Session {
    Session {
        id: "s1".to_string(),
        claude_session_id: agent_id.map(str::to_string),
        title: "t".to_string(),
        created_at: 1,
        project_path: "/work/tree".to_string(),
    }
}

#[test]
fn plan_send_message_covers_every_case() {
    assert!(matches!(plan_send_message("s1", true, None), Ok(SendPlan::Deliver)));
    let err = plan_send_message("s1", false, None).err().expect("unknown session");
    assert_eq!(err.code, -32602);
    assert_eq!(err.message, "unknown session: s1");
    let err = plan_send_message("s1", false, Some(stored_session(None)))
        .err()
        .expect("no agent id");
    assert_eq!(err.code, -32603);
    match plan_send_message("s1", false, Some(stored_session(Some("agent-9")))) {
        Ok(SendPlan::Resume { project_path, agent_session_id }) => {
            assert_eq!(project_path, "/work/tree");
            assert_eq!(agent_session_id, "agent-9");
        }
        other => panic!("unexpected plan: {other:?}"),
    }
}

#[test]
fn error_messages_are_escaped_as_json_strings() {
    let id = json("1");
    let outcome = Err(RpcError::internal("a\u{1}b\tc\\d\u{8}\u{c}\u{1f}\u{7f}é".to_string()));
    assert_eq!(
        response_text(&id, &outcome),
        "{\"jsonrpc\":\"2.0\",\"id\":1,\"error\":{\"code\":-32603,\"message\":\"a\\u0001b\\tc\\\\d\\b\\f\\u001f\u{7f}é\"}}"
    );
}

#[test]
fn parse_request_reads_id_method_and_params() {
    let (id, method, params) =
        parse_request(r#"{"jsonrpc":"2.0","id":3,"method":"boards.get","params":{"a":1}}"#)
            .expect("a request");
    assert_eq!(id.as_i64(), Some(3));
    assert_eq!(method, "boards.get");
    assert_eq!(params.get("a").and_then(|a| a.as_i64()), Some(1));

    let (_, method, params) = parse_request(r#"{"id":"x","method":"sessions.list"}"#).expect("ok");
    assert_eq!(method, "sessions.list");
    assert!(params.is_null());

    let (id, method, params) = parse_request(r#"[7, "git.diff"]"#).expect("array form");
    assert_eq!(id.as_i64(), Some(7));
    assert_eq!(method, "git.diff");
    assert!(params.is_null());
}

#[test]
fn parse_request_rejects_malformed_text_and_non_requests() {
    let err = parse_request("{not json").err().expect("malformed");
    assert_eq!(err.code, -32700);
    assert!(err.message.starts_with("parse error: "));
    for raw in [r#"{"method":"x"}"#, r#"{"id":1,"method":5}"#, "5", r#"[1]"#, r#"[1,"m",2,3]"#] {
        let err = parse_request(raw).err().expect("not a request");
        assert_eq!(err.code, -32700);
        assert_eq!(err.message, "parse error: not a JSON-RPC request");
    }
}

#[test]
fn new_task_goes_to_the_end_of_its_column() {
    let tasks = vec![task("t1", "c1", 0), task("t2", "c2", 0), task("t3", "c1", 1)];
    let t = new_task("n".into(), "c1".into(), "Title".into(), description_param(&json("{}")), &tasks, 9);
    assert_eq!(t.position, 2);
    assert_eq!(t.description, "");
    assert!(t.session_id.is_none() && t.worktree_path.is_none() && t.branch.is_none());
    assert_eq!(t.created_at, 9);
    assert_eq!(description_param(&json(r#"{"description":"d"}"#)), "d");
    assert_eq!(description_param(&json(r#"{"description":3}"#)), "");
}

#[test]
fn notifications_are_framed_as_events_update() {
    assert_eq!(
        topic_notification("tasks", json(r#"{"status":"done"}"#)),
        r#"{"jsonrpc":"2.0","method":"events.update","params":{"payload":{"status":"done"},"topic":"tasks"}}"#
    );
    assert_eq!(
        session_notification("s1", json(r#"{"type":"error"}"#)),
        r#"{"jsonrpc":"2.0","method":"events.update","params":{"event":{"type":"error"},"subscription_id":"s1"}}"#
    );
}
