use viban::json::{parse_json, JsonValue};
use viban::shell::{
    extract_result, generate_token, hex_encode, parse_ready, ready_port, next_backoff, route_message, supervisor_step, NextStep, Route,
    RunOutcome, INITIAL_BACKOFF_MS, MAX_BACKOFF_MS,
};

fn json(text: &str) -> JsonValue {
    parse_json(text).expect("valid json")
}

#[test]
fn backoff_doubles_each_step() {
    let first = next_backoff(INITIAL_BACKOFF_MS);
    assert_eq!(first, 1_000);
    assert_eq!(next_backoff(first), 2_000);
}

#[test]
fn backoff_is_capped_at_the_maximum() {
    let mut backoff = INITIAL_BACKOFF_MS;
    for _ in 0..20 {
        backoff = next_backoff(backoff);
    }
    assert_eq!(backoff, MAX_BACKOFF_MS, "backoff settles at the cap");
    assert_eq!(
        next_backoff(MAX_BACKOFF_MS),
        MAX_BACKOFF_MS,
        "and never exceeds it"
    );
}

#[test]
fn supervisor_restarts_with_backoff_and_stops_on_shutdown() {
    assert_eq!(supervisor_step(4_000, RunOutcome::StartFailed, true), NextStep::Stop);
    assert_eq!(
        supervisor_step(4_000, RunOutcome::StartFailed, false),
        NextStep::SleepThenRestart {
            sleep_ms: 4_000,
            backoff_ms: 8_000
        }
    );
    assert_eq!(
        supervisor_step(4_000, RunOutcome::Exited, false),
        NextStep::SleepThenRestart {
            sleep_ms: 500,
            backoff_ms: 1_000
        }
    );
    assert_eq!(
        supervisor_step(4_000, RunOutcome::Switched, false),
        NextStep::Restart { backoff_ms: 500 }
    );
}

#[test]
fn tokens_are_64_hex_characters() {
    let token = generate_token().expect("OS RNG must be available");
    assert_eq!(token.len(), 64);
    assert!(token.chars().all(|c| c.is_ascii_hexdigit() && !c.is_ascii_uppercase()));
    assert_ne!(token, generate_token().expect("OS RNG must be available"));
}

#[test]
fn responses_yield_their_result_or_their_error() {
    match extract_result(json(r#"{"jsonrpc":"2.0","id":1,"result":{"ok":true}}"#)) {
        Ok(value) => assert_eq!(value.get("ok").and_then(|v| v.as_bool()), Some(true)),
        Err(err) => panic!("expected a result, got {err}"),
    }
    let err = extract_result(json(r#"{"id":1,"error":{"code":-32601}}"#)).expect_err("error");
    assert_eq!(err, "server error: {\"code\":-32601}");
    assert!(extract_result(json(r#"{"id":2}"#)).expect("null result").is_null());
}

#[test]
fn server_messages_route_by_id_or_subscription() {
    match route_message(json(r#"{"id":7,"result":3}"#)) {
        Route::Response { id, outcome } => {
            assert_eq!(id, 7);
            assert_eq!(outcome.expect("ok").as_i64(), Some(3));
        }
        other => panic!("expected a response, got {other:?}"),
    }
    let note = r#"{"method":"events.update","params":{"subscription_id":"s1","event":{"type":"raw"}}}"#;
    match route_message(json(note)) {
        Route::Event {
            subscription_id,
            event,
        } => {
            assert_eq!(subscription_id, "s1");
            assert_eq!(event.get("type").and_then(|v| v.as_str()), Some("raw"));
        }
        other => panic!("expected an event, got {other:?}"),
    }
    assert!(matches!(
        route_message(json(r#"{"method":"events.update","params":{"topic":"t"}}"#)),
        Route::Ignore
    ));
    assert!(matches!(route_message(json(r#"{"id":-1}"#)), Route::Ignore));
}

#[test]
fn hex_encode_writes_two_digits_per_byte() {
    assert_eq!(hex_encode(&[0x00, 0xab, 0x7f]), "00ab7f");
    assert_eq!(hex_encode(&[]), "");
}

#[test]
fn parse_ready_reads_the_bound_port() {
    assert_eq!(parse_ready(r#"{"ready":true,"port":51234}"#), Ok(51234));
    assert_eq!(parse_ready(r#"{"port":80,"ready":true,"extra":1}"#), Ok(80));
}

#[test]
fn parse_ready_reads_the_array_form() {
    assert_eq!(parse_ready("[true, 8080]"), Ok(8080));
    assert_eq!(parse_ready("[false, 8080]"), Err("viban-server reported not ready".to_string()));
    assert_eq!(
        parse_ready("[true, 8080, 1]"),
        Err("unexpected ready line: [true, 8080, 1]".to_string())
    );
}

#[test]
fn parse_ready_rejects_a_server_that_is_not_ready() {
    assert_eq!(
        parse_ready(r#"{"ready":false,"port":1}"#),
        Err("viban-server reported not ready".to_string())
    );
}

#[test]
fn parse_ready_rejects_other_lines() {
    for line in ["hello", r#"{"ready":true}"#, r#"{"ready":true,"port":70000}"#, r#"{"ready":"yes","port":1}"#] {
        assert_eq!(parse_ready(line), Err(format!("unexpected ready line: {line}")));
    }
    assert_eq!(
        ready_port("x", Err("bad".to_string())),
        Err("unexpected ready line: x".to_string())
    );
}
