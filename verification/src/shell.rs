//! The desktop shell's decisions: restart backoff for the server process, the
//! supervisor's next step, the auth token, and routing the server's messages.

use vstd::prelude::*;

use crate::json::{
    bool_of, json_parse, json_text, member, member_of, parse_json, str_of, u64_of, write_json,
    JsonValue,
};
use crate::paths::{hex_char, hex_digit, hex_digits};
use crate::text::{push_char, push_str, str_eq};

verus! {

/// The first restart delay, in milliseconds.
pub const INITIAL_BACKOFF_MS: u64 = 500;

/// The longest restart delay, in milliseconds.
pub const MAX_BACKOFF_MS: u64 = 30_000;

/// The next restart delay after a failed or lost server: double the current
/// one, capped at `MAX_BACKOFF_MS`.
pub open spec fn next_backoff_of(current: u64) -> u64 {
    if 2 * current > MAX_BACKOFF_MS {
        MAX_BACKOFF_MS
    } else {
        (2 * current) as u64
    }
}

pub fn next_backoff(current_ms: u64) -> (r: u64)
    ensures
        r == next_backoff_of(current_ms),
{
    if current_ms > MAX_BACKOFF_MS / 2 {
        MAX_BACKOFF_MS
    } else {
        let doubled = current_ms * 2;
        if doubled > MAX_BACKOFF_MS {
            MAX_BACKOFF_MS
        } else {
            doubled
        }
    }
}

/// The backoff never exceeds the cap, and never shrinks while below it.
pub proof fn lemma_backoff_bounded(current: u64)
    ensures
        next_backoff_of(current) <= MAX_BACKOFF_MS,
        current <= MAX_BACKOFF_MS ==> current <= next_backoff_of(current),
        next_backoff_of(MAX_BACKOFF_MS) == MAX_BACKOFF_MS,
{
}

/// The backoff after `n` failed restarts in a row, starting from the first.
pub open spec fn backoff_after(n: nat) -> u64
    decreases n,
{
    if n == 0 {
        INITIAL_BACKOFF_MS
    } else {
        next_backoff_of(backoff_after((n - 1) as nat))
    }
}

/// Repeated failures settle the backoff at the cap: from the sixth restart
/// on it is `MAX_BACKOFF_MS`, and it never exceeds it before.
pub proof fn lemma_backoff_reaches_cap(n: nat)
    ensures
        backoff_after(n) <= MAX_BACKOFF_MS,
        n >= 6 ==> backoff_after(n) == MAX_BACKOFF_MS,
    decreases n,
{
    if n > 0 {
        lemma_backoff_reaches_cap((n - 1) as nat);
    }
    if n == 6 {
        reveal_with_fuel(backoff_after, 7);
    }
}

/// How one run of the supervisor loop ended.
#[derive(Debug, Clone, Copy, PartialEq, Eq, Structural)]
pub enum RunOutcome {
    /// No project was open; a project change woke the supervisor.
    NoProject,
    /// The server started, then the open project changed.
    Switched,
    /// The server started, then died.
    Exited,
    /// The server could not be started.
    StartFailed,
}

/// What the supervisor does next.
#[derive(Debug, Clone, Copy, PartialEq, Eq, Structural)]
pub enum NextStep {
    /// The app is exiting: stop supervising.
    Stop,
    /// Start again at once, with this backoff.
    Restart { backoff_ms: u64 },
    /// Wait `sleep_ms`, then start again with backoff `backoff_ms`.
    SleepThenRestart { sleep_ms: u64, backoff_ms: u64 },
}

/// The supervisor's step after a run: stop when shutting down; restart at
/// once after a project change; otherwise sleep for the backoff and double
/// it. A server that did start resets the backoff first.
pub open spec fn next_step_of(backoff: u64, outcome: RunOutcome, shutting_down: bool) -> NextStep {
    if shutting_down {
        NextStep::Stop
    } else {
        match outcome {
            RunOutcome::NoProject => NextStep::Restart { backoff_ms: INITIAL_BACKOFF_MS },
            RunOutcome::Switched => NextStep::Restart { backoff_ms: INITIAL_BACKOFF_MS },
            RunOutcome::Exited => NextStep::SleepThenRestart {
                sleep_ms: INITIAL_BACKOFF_MS,
                backoff_ms: next_backoff_of(INITIAL_BACKOFF_MS),
            },
            RunOutcome::StartFailed => NextStep::SleepThenRestart {
                sleep_ms: backoff,
                backoff_ms: next_backoff_of(backoff),
            },
        }
    }
}

/// Decides the supervisor's next step after a run.
pub fn supervisor_step(backoff_ms: u64, outcome: RunOutcome, shutting_down: bool) -> (r: NextStep)
    ensures
        r == next_step_of(backoff_ms, outcome, shutting_down),
{
    if shutting_down {
        return NextStep::Stop;
    }
    match outcome {
        RunOutcome::NoProject => NextStep::Restart { backoff_ms: INITIAL_BACKOFF_MS },
        RunOutcome::Switched => NextStep::Restart { backoff_ms: INITIAL_BACKOFF_MS },
        RunOutcome::Exited => NextStep::SleepThenRestart {
            sleep_ms: INITIAL_BACKOFF_MS,
            backoff_ms: next_backoff(INITIAL_BACKOFF_MS),
        },
        RunOutcome::StartFailed => NextStep::SleepThenRestart {
            sleep_ms: backoff_ms,
            backoff_ms: next_backoff(backoff_ms),
        },
    }
}

/// The supervisor never sleeps longer than the cap, and its backoff stays
/// within the cap: from a backoff within the cap, every step keeps it there.
pub proof fn lemma_supervisor_backoff_capped(backoff: u64, outcome: RunOutcome, shutting_down: bool)
    requires
        backoff <= MAX_BACKOFF_MS,
    ensures
        match next_step_of(backoff, outcome, shutting_down) {
            NextStep::Stop => true,
            NextStep::Restart { backoff_ms } => backoff_ms <= MAX_BACKOFF_MS,
            NextStep::SleepThenRestart { sleep_ms, backoff_ms } => sleep_ms <= MAX_BACKOFF_MS
                && backoff_ms <= MAX_BACKOFF_MS,
        },
{
}

/// Lowercase hex of every byte, two digits each (`{byte:02x}`).
pub open spec fn hex_bytes(bytes: Seq<u8>) -> Seq<char>
    decreases bytes.len(),
{
    if bytes.len() == 0 {
        Seq::empty()
    } else {
        hex_bytes(bytes.drop_last()) + hex_digits(bytes.last() as nat, 2)
    }
}

pub proof fn lemma_hex_pair(v: nat)
    requires
        v < 256,
    ensures
        hex_digits(v, 2) == seq![hex_char((v / 16) as int), hex_char((v % 16) as int)],
{
    assert(hex_digits(v / 16 / 16, 0) == Seq::<char>::empty());
    assert(hex_digits(v / 16, 1) == hex_digits(v / 16 / 16, 0).push(hex_char(((v / 16) % 16) as int)));
    assert((v / 16) % 16 == v / 16);
    assert(hex_digits(v, 2) == hex_digits(v / 16, 1).push(hex_char((v % 16) as int)));
    assert(hex_digits(v, 2) =~= seq![hex_char((v / 16) as int), hex_char((v % 16) as int)]);
}

pub proof fn lemma_hex_bytes_len(bytes: Seq<u8>)
    ensures
        hex_bytes(bytes).len() == 2 * bytes.len(),
    decreases bytes.len(),
{
    if bytes.len() > 0 {
        lemma_hex_bytes_len(bytes.drop_last());
        lemma_hex_pair(bytes.last() as nat);
    }
}

/// Hex-encodes bytes, two lowercase digits per byte.
pub fn hex_encode(bytes: &[u8]) -> (r: String)
    ensures
        r@ == hex_bytes(bytes@),
{
    let mut out = String::new();
    let mut i: usize = 0;
    while i < bytes.len()
        invariant
            i <= bytes.len(),
            out@ == hex_bytes(bytes@.subrange(0, i as int)),
        decreases bytes.len() - i,
    {
        let b = bytes[i];
        assert(bytes@.subrange(0, i as int + 1).drop_last() =~= bytes@.subrange(0, i as int));
        proof {
            lemma_hex_pair(b as nat);
        }
        push_char(&mut out, hex_digit(b / 16));
        push_char(&mut out, hex_digit(b % 16));
        i += 1;
    }
    assert(bytes@.subrange(0, bytes.len() as int) =~= bytes@);
    out
}

/// A fresh auth token: 32 bytes of OS randomness as 64 lowercase hex digits;
/// `None` when the OS has no randomness to give.
pub fn generate_token() -> (r: Option<String>)
    ensures
        r matches Some(token) ==> token@.len() == 64 && exists|bytes: Seq<u8>|
            bytes.len() == 32 && token@ == hex_bytes(bytes),
{
    match crate::random_bytes(32) {
        Some(bytes) => {
            let token = hex_encode(bytes.as_slice());
            proof {
                lemma_hex_bytes_len(bytes@);
            }
            Some(token)
        },
        None => None,
    }
}

/// The `ready` flag and `port` number of a ready line's document: the
/// members of an object, or the two elements of a two-element array (the
/// forms a derived `Deserialize` of `{ ready: bool, port: u16 }` reads).
pub open spec fn ready_fields_of(v: JsonValue) -> Option<(bool, u64)> {
    match v {
        JsonValue::Array(items) => if items@.len() == 2 {
            match (bool_of(Some(items@[0])), u64_of(Some(items@[1]))) {
                (Some(ready), Some(port)) => Some((ready, port)),
                _ => None,
            }
        } else {
            None
        },
        _ => match (bool_of(member(v, "ready"@)), u64_of(member(v, "port"@))) {
            (Some(ready), Some(port)) => Some((ready, port)),
            _ => None,
        },
    }
}

/// What the server's ready line announces, given what the JSON parser made
/// of it: the port when `ready` is `true` and `port` fits a `u16`; a
/// not-ready error when `ready` is `false`; otherwise an error naming the
/// line.
pub open spec fn ready_outcome_of(line: Seq<char>, parsed: Result<JsonValue, Seq<char>>) -> Result<u16, Seq<char>> {
    let unexpected = "unexpected ready line: "@ + line;
    match parsed {
        Ok(v) => match ready_fields_of(v) {
            Some((ready, port)) => if port > u16::MAX {
                Err(unexpected)
            } else if ready {
                Ok(port as u16)
            } else {
                Err("viban-server reported not ready"@)
            },
            None => Err(unexpected),
        },
        Err(_) => Err(unexpected),
    }
}

/// The `ready` flag and `port` of a parsed ready line.
fn ready_fields(v: &JsonValue) -> (r: Option<(bool, u64)>)
    ensures
        r == ready_fields_of(*v),
{
    match v {
        JsonValue::Array(items) => {
            if items.len() == 2 {
                match (items[0].as_bool(), items[1].as_u64()) {
                    (Some(ready), Some(port)) => Some((ready, port)),
                    _ => None,
                }
            } else {
                None
            }
        },
        _ => {
            let ready = match v.get("ready") {
                Some(x) => x.as_bool(),
                None => None,
            };
            let port = match v.get("port") {
                Some(x) => x.as_u64(),
                None => None,
            };
            match (ready, port) {
                (Some(ready), Some(port)) => Some((ready, port)),
                _ => None,
            }
        },
    }
}

/// The port of a ready line, from the parser's outcome on it.
pub fn ready_port(line: &str, parsed: Result<JsonValue, String>) -> (r: Result<u16, String>)
    ensures
        match r {
            Ok(port) => ready_outcome_of(line@, match parsed {
                Ok(v) => Ok(v),
                Err(e) => Err(e@),
            }) == Ok::<u16, Seq<char>>(port),
            Err(e) => ready_outcome_of(line@, match parsed {
                Ok(v) => Ok(v),
                Err(e) => Err(e@),
            }) == Err::<u16, Seq<char>>(e@),
        },
{
    let mut unexpected = "unexpected ready line: ".to_string();
    push_str(&mut unexpected, line);
    let value = match parsed {
        Ok(v) => v,
        Err(_) => return Err(unexpected),
    };
    match ready_fields(&value) {
        Some((ready, port)) => {
            if port > 65535 {
                Err(unexpected)
            } else if ready {
                Ok(port as u16)
            } else {
                Err("viban-server reported not ready".to_string())
            }
        },
        None => Err(unexpected),
    }
}

/// Reads the server's ready line (`{"ready":true,"port":N}`) for the port it
/// bound.
pub fn parse_ready(line: &str) -> (r: Result<u16, String>)
    ensures
        match r {
            Ok(port) => ready_outcome_of(line@, json_parse(line@)) == Ok::<u16, Seq<char>>(port),
            Err(e) => ready_outcome_of(line@, json_parse(line@)) == Err::<u16, Seq<char>>(e@),
        },
{
    ready_port(line, parse_json(line))
}

/// The result of a JSON-RPC response: its `error` member, when present, is a
/// failure `"server error: <error as JSON>"`; otherwise its `result` member,
/// or `null`.
pub open spec fn call_result_of(response: JsonValue) -> Result<JsonValue, Seq<char>> {
    match member(response, "error"@) {
        Some(error) => Err("server error: "@ + json_text(error)),
        None => Ok(
            match member(response, "result"@) {
                Some(v) => v,
                None => JsonValue::Null,
            },
        ),
    }
}

/// Splits a JSON-RPC response into its result or its error.
pub fn extract_result(response: JsonValue) -> (r: Result<JsonValue, String>)
    ensures
        match r {
            Ok(v) => call_result_of(response) == Ok::<JsonValue, Seq<char>>(v),
            Err(e) => call_result_of(response) == Err::<JsonValue, Seq<char>>(e@),
        },
{
    if let Some(error) = response.get("error") {
        let mut message = "server error: ".to_string();
        let text = write_json(error);
        push_str(&mut message, text.as_str());
        return Err(message);
    }
    match response.take_member("result") {
        Some(v) => Ok(v),
        None => Ok(JsonValue::Null),
    }
}

/// Where a message from the server goes.
#[derive(Debug)]
pub enum Route {
    /// The response to call `id`.
    Response { id: u64, outcome: Result<JsonValue, String> },
    /// An `events.update` notification for a subscription.
    Event { subscription_id: String, event: JsonValue },
    /// Anything else: dropped.
    Ignore,
}

/// The route of a server message: a message with an unsigned integer `id`
/// answers that call; an `events.update` notification naming a subscription
/// and carrying an event goes to that subscription; the rest is dropped.
pub open spec fn route_matches(message: JsonValue, r: Route) -> bool {
    match u64_of(member(message, "id"@)) {
        Some(id) => match r {
            Route::Response { id: rid, outcome } => rid == id && match outcome {
                Ok(v) => call_result_of(message) == Ok::<JsonValue, Seq<char>>(v),
                Err(e) => call_result_of(message) == Err::<JsonValue, Seq<char>>(e@),
            },
            _ => false,
        },
        None => {
            let params = member(message, "params"@);
            if str_of(member(message, "method"@)) == Some("events.update"@) && str_of(
                member_of(params, "subscription_id"@),
            ) is Some && member_of(params, "event"@) is Some {
                match r {
                    Route::Event { subscription_id, event } => Some(subscription_id@) == str_of(
                        member_of(params, "subscription_id"@),
                    ) && Some(event) == member_of(params, "event"@),
                    _ => false,
                }
            } else {
                r is Ignore
            }
        },
    }
}

/// Routes one message read from the server.
pub fn route_message(message: JsonValue) -> (r: Route)
    ensures
        route_matches(message, r),
{
    let id = match message.get("id") {
        Some(v) => v.as_u64(),
        None => None,
    };
    if let Some(id) = id {
        return Route::Response { id, outcome: extract_result(message) };
    }
    let is_update = match message.get("method") {
        Some(m) => match m.as_str() {
            Some(name) => str_eq(name, "events.update"),
            None => false,
        },
        None => false,
    };
    if !is_update {
        return Route::Ignore;
    }
    let subscription_id = match message.get("params") {
        Some(params) => match params.get("subscription_id") {
            Some(s) => match s.as_str() {
                Some(text) => Some(text.to_string()),
                None => None,
            },
            None => None,
        },
        None => None,
    };
    let subscription_id = match subscription_id {
        Some(s) => s,
        None => return Route::Ignore,
    };
    let event = match message.take_member("params") {
        Some(params) => params.take_member("event"),
        None => None,
    };
    match event {
        Some(event) => Route::Event { subscription_id, event },
        None => Route::Ignore,
    }
}

} // verus!
