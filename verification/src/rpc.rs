//! The JSON-RPC server's decisions: error values, the method table, request
//! parameters, session titles, which agent events become conversation
//! messages, and how tasks, attempts, and columns are updated.

use vstd::prelude::*;

use crate::agents::AgentEvent;
use crate::git::{slug_of, slugify};
use crate::agents::{is_string_member, or_else};
use crate::json::{
    array_of, bool_of, encode_json_string, json_parse, json_string, json_text, member, parse_json,
    str_of, write_json, JsonValue,
};
use crate::text::{
    before_newline, chars_of, copy_range, find_newline, lemma_newline_split, push_char,
    push_chars, push_str, str_eq, string_of, take_at_most, take_chars, trim_chars, trimmed,
};
use crate::types::{Attempt, Column, Session, Task};

verus! {

/// A JSON-RPC error object.
#[derive(Debug, Clone)]
pub struct RpcError {
    pub code: i32,
    pub message: String,
}

/// JSON-RPC: the request text is not valid JSON.
pub const PARSE_ERROR: i32 = -32700;

/// JSON-RPC: no such method.
pub const METHOD_NOT_FOUND: i32 = -32601;

/// JSON-RPC: invalid method parameters.
pub const INVALID_PARAMS: i32 = -32602;

/// JSON-RPC: internal error.
pub const INTERNAL_ERROR: i32 = -32603;

impl RpcError {
    pub fn new(code: i32, message: String) -> (r: RpcError)
        ensures
            r.code == code,
            r.message@ == message@,
    {
        RpcError { code, message }
    }

    /// The error for an unknown method.
    pub fn method_not_found(method: &str) -> (r: RpcError)
        ensures
            r.code == METHOD_NOT_FOUND,
            r.message@ == "method not found: "@ + method@,
    {
        let mut message = "method not found: ".to_string();
        push_str(&mut message, method);
        RpcError::new(METHOD_NOT_FOUND, message)
    }

    pub fn invalid_params(message: String) -> (r: RpcError)
        ensures
            r.code == INVALID_PARAMS,
            r.message@ == message@,
    {
        RpcError::new(INVALID_PARAMS, message)
    }

    pub fn internal(message: String) -> (r: RpcError)
        ensures
            r.code == INTERNAL_ERROR,
            r.message@ == message@,
    {
        RpcError::new(INTERNAL_ERROR, message)
    }

    /// The error for request text that is not a JSON-RPC request.
    pub fn parse_error(detail: &str) -> (r: RpcError)
        ensures
            r.code == PARSE_ERROR,
            r.message@ == "parse error: "@ + detail@,
    {
        let mut message = "parse error: ".to_string();
        push_str(&mut message, detail);
        RpcError::new(PARSE_ERROR, message)
    }
}

/// Every method the server answers.
#[derive(Debug, Clone, Copy, PartialEq, Eq, Structural)]
pub enum Method {
    ServerHealth,
    AgentsSpawn,
    SessionsSendMessage,
    SessionsList,
    SessionsGet,
    BoardsGet,
    TasksCreate,
    TasksUpdate,
    TasksDelete,
    TasksReorder,
    TasksRunCommand,
    TasksStartSession,
    AttemptsCreate,
    AttemptsList,
    AttemptsActivate,
    GitDiff,
    GitCommit,
    GitRestore,
    GitMerge,
}

/// The method a request names, by its `<area>.<action>` name.
pub open spec fn method_named(name: Seq<char>) -> Option<Method> {
    if name == "server.health"@ {
        Some(Method::ServerHealth)
    } else if name == "agents.spawn"@ {
        Some(Method::AgentsSpawn)
    } else if name == "sessions.send_message"@ {
        Some(Method::SessionsSendMessage)
    } else if name == "sessions.list"@ {
        Some(Method::SessionsList)
    } else if name == "sessions.get"@ {
        Some(Method::SessionsGet)
    } else if name == "boards.get"@ {
        Some(Method::BoardsGet)
    } else if name == "tasks.create"@ {
        Some(Method::TasksCreate)
    } else if name == "tasks.update"@ {
        Some(Method::TasksUpdate)
    } else if name == "tasks.delete"@ {
        Some(Method::TasksDelete)
    } else if name == "tasks.reorder"@ {
        Some(Method::TasksReorder)
    } else if name == "tasks.run_command"@ {
        Some(Method::TasksRunCommand)
    } else if name == "tasks.start_session"@ {
        Some(Method::TasksStartSession)
    } else if name == "attempts.create"@ {
        Some(Method::AttemptsCreate)
    } else if name == "attempts.list"@ {
        Some(Method::AttemptsList)
    } else if name == "attempts.activate"@ {
        Some(Method::AttemptsActivate)
    } else if name == "git.diff"@ {
        Some(Method::GitDiff)
    } else if name == "git.commit"@ {
        Some(Method::GitCommit)
    } else if name == "git.restore"@ {
        Some(Method::GitRestore)
    } else if name == "git.merge"@ {
        Some(Method::GitMerge)
    } else {
        None
    }
}

/// Resolves a method name; an unknown name is a method-not-found error.
pub fn dispatch_method(name: &str) -> (r: Result<Method, RpcError>)
    ensures
        match r {
            Ok(m) => method_named(name@) == Some(m),
            Err(e) => method_named(name@) is None && e.code == METHOD_NOT_FOUND && e.message@
                == "method not found: "@ + name@,
        },
{
    if str_eq(name, "server.health") {
        Ok(Method::ServerHealth)
    } else if str_eq(name, "agents.spawn") {
        Ok(Method::AgentsSpawn)
    } else if str_eq(name, "sessions.send_message") {
        Ok(Method::SessionsSendMessage)
    } else if str_eq(name, "sessions.list") {
        Ok(Method::SessionsList)
    } else if str_eq(name, "sessions.get") {
        Ok(Method::SessionsGet)
    } else if str_eq(name, "boards.get") {
        Ok(Method::BoardsGet)
    } else if str_eq(name, "tasks.create") {
        Ok(Method::TasksCreate)
    } else if str_eq(name, "tasks.update") {
        Ok(Method::TasksUpdate)
    } else if str_eq(name, "tasks.delete") {
        Ok(Method::TasksDelete)
    } else if str_eq(name, "tasks.reorder") {
        Ok(Method::TasksReorder)
    } else if str_eq(name, "tasks.run_command") {
        Ok(Method::TasksRunCommand)
    } else if str_eq(name, "tasks.start_session") {
        Ok(Method::TasksStartSession)
    } else if str_eq(name, "attempts.create") {
        Ok(Method::AttemptsCreate)
    } else if str_eq(name, "attempts.list") {
        Ok(Method::AttemptsList)
    } else if str_eq(name, "attempts.activate") {
        Ok(Method::AttemptsActivate)
    } else if str_eq(name, "git.diff") {
        Ok(Method::GitDiff)
    } else if str_eq(name, "git.commit") {
        Ok(Method::GitCommit)
    } else if str_eq(name, "git.restore") {
        Ok(Method::GitRestore)
    } else if str_eq(name, "git.merge") {
        Ok(Method::GitMerge)
    } else {
        Err(RpcError::method_not_found(name))
    }
}

/// Whether `v` is an `events.update` notification carrying `params`:
/// `{"jsonrpc":"2.0","method":"events.update","params":<params>}`.
pub open spec fn is_notification(v: JsonValue, params: JsonValue) -> bool {
    &&& v matches JsonValue::Object(entries)
    &&& entries@.len() == 3
    &&& is_string_member(entries@[0], "jsonrpc"@, "2.0"@)
    &&& is_string_member(entries@[1], "method"@, "events.update"@)
    &&& entries@[2].0@ == "params"@
    &&& entries@[2].1 == params
}

/// Whether `p` is the object `{<value_key>: value, <name_key>: <name>}`.
pub open spec fn is_tagged_params(
    p: JsonValue,
    value_key: Seq<char>,
    value: JsonValue,
    name_key: Seq<char>,
    name: Seq<char>,
) -> bool {
    &&& p matches JsonValue::Object(entries)
    &&& entries@.len() == 2
    &&& entries@[0].0@ == value_key
    &&& entries@[0].1 == value
    &&& is_string_member(entries@[1], name_key, name)
}

/// The text of an `events.update` notification whose params are
/// `{<value_key>: value, <name_key>: name}`.
fn notification_text(value_key: &str, value: JsonValue, name_key: &str, name: &str) -> (r: String)
    ensures
        exists|v: JsonValue, p: JsonValue|
            is_notification(v, p) && is_tagged_params(p, value_key@, value, name_key@, name@)
                && r@ == json_text(v),
{
    let ghost given = value;
    let mut params: Vec<(String, JsonValue)> = Vec::new();
    params.push((value_key.to_string(), value));
    params.push((name_key.to_string(), JsonValue::String(name.to_string())));
    let p = JsonValue::Object(params);
    let mut entries: Vec<(String, JsonValue)> = Vec::new();
    entries.push(("jsonrpc".to_string(), JsonValue::String("2.0".to_string())));
    entries.push(("method".to_string(), JsonValue::String("events.update".to_string())));
    let ghost pv = p;
    entries.push(("params".to_string(), p));
    let v = JsonValue::Object(entries);
    let text = write_json(&v);
    assert(is_notification(v, pv) && is_tagged_params(pv, value_key@, given, name_key@, name@));
    text
}

/// An `events.update` notification on `topic` carrying `payload`.
pub fn topic_notification(topic: &str, payload: JsonValue) -> (r: String)
    ensures
        exists|v: JsonValue, p: JsonValue|
            is_notification(v, p) && is_tagged_params(p, "payload"@, payload, "topic"@, topic@)
                && r@ == json_text(v),
{
    notification_text("payload", payload, "topic", topic)
}

/// An `events.update` notification of an agent event for the subscription
/// named by the session id.
pub fn session_notification(session_id: &str, event: JsonValue) -> (r: String)
    ensures
        exists|v: JsonValue, p: JsonValue|
            is_notification(v, p) && is_tagged_params(
                p,
                "event"@,
                event,
                "subscription_id"@,
                session_id@,
            ) && r@ == json_text(v),
{
    notification_text("event", event, "subscription_id", session_id)
}

/// The detail of the parse error for a JSON document that is not a request.
pub const NOT_A_REQUEST: &'static str = "not a JSON-RPC request";

/// The id, method and params of a request document, as a derived
/// `Deserialize` of `{ id, method: String, #[serde(default)] params }` reads
/// them: from an object with an `id` member and a string `method` (params
/// `null` when absent), or from an array `[id, method]` or
/// `[id, method, params]`; `None` for anything else.
pub open spec fn request_fields_of(v: JsonValue) -> Option<(JsonValue, Seq<char>, JsonValue)> {
    match v {
        JsonValue::Object(_) => match (member(v, "id"@), str_of(member(v, "method"@))) {
            (Some(id), Some(method)) => Some(
                (id, method, or_else(member(v, "params"@), JsonValue::Null)),
            ),
            _ => None,
        },
        JsonValue::Array(items) => if (items@.len() == 2 || items@.len() == 3) && str_of(
            Some(items@[1]),
        ) is Some {
            Some(
                (
                    items@[0],
                    str_of(Some(items@[1]))->0,
                    if items@.len() == 3 {
                        items@[2]
                    } else {
                        JsonValue::Null
                    },
                ),
            )
        } else {
            None
        },
        _ => None,
    }
}

/// Moves the id, method and params out of a request document.
fn request_fields(v: JsonValue) -> (r: Option<(JsonValue, String, JsonValue)>)
    ensures
        match r {
            Some((id, method, params)) => request_fields_of(v) == Some((id, method@, params)),
            None => request_fields_of(v) is None,
        },
{
    let is_object = match &v {
        JsonValue::Object(_) => true,
        _ => false,
    };
    if is_object {
        let method = match v.get("method") {
            Some(m) => match m.as_str() {
                Some(text) => text.to_string(),
                None => return None,
            },
            None => return None,
        };
        let id_at = match v.member_index("id") {
            Some(i) => i,
            None => return None,
        };
        let params_at = v.member_index("params");
        let ghost whole = v;
        match v {
            JsonValue::Object(entries) => {
                let mut entries = entries;
                let ghost before = entries@;
                match params_at {
                    None => {
                        let id = entries.remove(id_at).1;
                        Some((id, method, JsonValue::Null))
                    },
                    Some(p) => {
                        proof {
                            reveal_strlit("id");
                            reveal_strlit("params");
                            assert(before[p as int].0@ == "params"@);
                            assert(before[id_at as int].0@ == "id"@);
                            assert("id"@.len() != "params"@.len());
                            assert(p != id_at);
                        }
                        if p > id_at {
                            let params = entries.remove(p).1;
                            assert(entries@[id_at as int] == before[id_at as int]);
                            let id = entries.remove(id_at).1;
                            Some((id, method, params))
                        } else {
                            let id = entries.remove(id_at).1;
                            assert(entries@[p as int] == before[p as int]);
                            let params = entries.remove(p).1;
                            Some((id, method, params))
                        }
                    },
                }
            },
            _ => None,
        }
    } else {
        match v {
            JsonValue::Array(items) => {
                let n = items.len();
                if n != 2 && n != 3 {
                    return None;
                }
                let method = match items[1].as_str() {
                    Some(text) => text.to_string(),
                    None => return None,
                };
                let ghost all = items@;
                let mut items = items;
                let params = if n == 3 {
                    items.pop().unwrap()
                } else {
                    JsonValue::Null
                };
                let _ = items.pop();
                let id = items.pop().unwrap();
                assert(id == all[0]);
                Some((id, method, params))
            },
            _ => None,
        }
    }
}

/// Reads the raw text of a request: its id, method and params; a parse
/// error carrying the parser's message when the text is not JSON, or
/// `NOT_A_REQUEST` when the document is not a request.
pub fn parse_request(raw: &str) -> (r: Result<(JsonValue, String, JsonValue), RpcError>)
    ensures
        match r {
            Ok((id, method, params)) => json_parse(raw@) matches Ok(v) && request_fields_of(v) == Some(
                (id, method@, params),
            ),
            Err(e) => e.code == PARSE_ERROR && match json_parse(raw@) {
                Err(m) => e.message@ == "parse error: "@ + m,
                Ok(v) => request_fields_of(v) is None && e.message@ == "parse error: "@
                    + NOT_A_REQUEST@,
            },
        },
{
    match parse_json(raw) {
        Err(m) => Err(RpcError::parse_error(m.as_str())),
        Ok(v) => match request_fields(v) {
            Some(fields) => Ok(fields),
            None => Err(RpcError::parse_error(NOT_A_REQUEST)),
        },
    }
}

/// Extracts a required string parameter, erroring with `invalid_params`.
pub fn str_param(params: &JsonValue, key: &str) -> (r: Result<String, RpcError>)
    ensures
        match r {
            Ok(s) => str_of(member(*params, key@)) == Some(s@),
            Err(e) => str_of(member(*params, key@)) is None && e.code == INVALID_PARAMS
                && e.message@ == "missing or non-string '"@ + key@ + "'"@,
        },
{
    let found = match params.get(key) {
        Some(v) => v.as_str(),
        None => None,
    };
    match found {
        Some(s) => Ok(s.to_string()),
        None => {
            let mut message = "missing or non-string '".to_string();
            push_str(&mut message, key);
            push_str(&mut message, "'");
            Err(RpcError::invalid_params(message))
        },
    }
}

/// An optional string parameter.
pub fn opt_str_param(params: &JsonValue, key: &str) -> (r: Option<String>)
    ensures
        match r {
            Some(s) => str_of(member(*params, key@)) == Some(s@),
            None => str_of(member(*params, key@)) is None,
        },
{
    let found = match params.get(key) {
        Some(v) => v.as_str(),
        None => None,
    };
    match found {
        Some(s) => Some(s.to_string()),
        None => None,
    }
}

/// An optional boolean parameter, `false` when absent or not a boolean.
pub fn bool_param(params: &JsonValue, key: &str) -> (r: bool)
    ensures
        r == (bool_of(member(*params, key@)) == Some(true)),
{
    match params.get(key) {
        Some(v) => match v.as_bool() {
            Some(b) => b,
            None => false,
        },
        None => false,
    }
}

/// The texts of the string elements of `items`, in order.
pub open spec fn strings_in(items: Seq<JsonValue>) -> Seq<Seq<char>>
    decreases items.len(),
{
    if items.len() == 0 {
        Seq::empty()
    } else {
        let rest = strings_in(items.drop_last());
        match str_of(Some(items.last())) {
            Some(s) => rest.push(s),
            None => rest,
        }
    }
}

/// The `task_ids` parameter of `tasks.reorder`: the string elements of an
/// array, in order; anything but an array is an `invalid_params` error.
pub fn task_ids_param(params: &JsonValue) -> (r: Result<Vec<String>, RpcError>)
    ensures
        match r {
            Ok(ids) => array_of(member(*params, "task_ids"@)) matches Some(items)
                && ids@.map_values(|s: String| s@) == strings_in(items),
            Err(e) => array_of(member(*params, "task_ids"@)) is None && e.code == INVALID_PARAMS
                && e.message@ == "missing or non-array 'task_ids'"@,
        },
{
    let items = match params.get("task_ids") {
        Some(v) => v.as_array(),
        None => None,
    };
    match items {
        None => Err(RpcError::invalid_params("missing or non-array 'task_ids'".to_string())),
        Some(items) => {
            let mut ids: Vec<String> = Vec::new();
            let mut i: usize = 0;
            while i < items.len()
                invariant
                    i <= items.len(),
                    ids@.map_values(|s: String| s@) == strings_in(items@.subrange(0, i as int)),
                decreases items.len() - i,
            {
                assert(items@.subrange(0, i as int + 1).drop_last() =~= items@.subrange(0, i as int));
                assert(items@.subrange(0, i as int + 1).last() == items@[i as int]);
                if let Some(s) = items[i].as_str() {
                    ids.push(s.to_string());
                    assert(ids@.map_values(|s: String| s@) =~= strings_in(
                        items@.subrange(0, i as int),
                    ).push(s@));
                }
                i += 1;
            }
            assert(items@.subrange(0, items.len() as int) =~= items@);
            Ok(ids)
        },
    }
}

/// The most characters a session title keeps before it is ellipsized.
pub const TITLE_MAX: usize = 50;

/// A session's title: the first line of its prompt, trimmed; cut to
/// `TITLE_MAX` characters plus `'…'` when longer; `"Untitled session"` when
/// blank.
pub open spec fn title_of(prompt: Seq<char>) -> Seq<char> {
    let line = trimmed(before_newline(prompt));
    if line.len() > TITLE_MAX {
        line.take(TITLE_MAX as int).push('…')
    } else if line.len() == 0 {
        "Untitled session"@
    } else {
        line
    }
}

/// A title is never empty and keeps at most `TITLE_MAX` characters of the
/// prompt, plus the ellipsis.
pub proof fn lemma_title_bounded(prompt: Seq<char>)
    ensures
        0 < title_of(prompt).len() <= TITLE_MAX + 1,
{
    reveal_strlit("Untitled session");
}

/// The session's first prompt line, trimmed to ~50 characters.
pub fn make_title(prompt: &str) -> (r: String)
    ensures
        r@ == title_of(prompt@),
{
    let chars = chars_of(prompt);
    let stop = find_newline(&chars, 0);
    proof {
        lemma_newline_split(chars@, 0, stop as int);
        assert(chars@.subrange(0, chars@.len() as int) =~= chars@);
    }
    let line = trim_chars(&copy_range(&chars, 0, stop));
    if line.len() > TITLE_MAX {
        let mut title = string_of(&take_chars(&line, TITLE_MAX));
        push_char(&mut title, '…');
        title
    } else if line.len() == 0 {
        "Untitled session".to_string()
    } else {
        string_of(&line)
    }
}

/// The conversation message an agent event is persisted as, as a role and
/// content: assistant text, a tool use, or an error. Control events (init,
/// result, raw) carry no conversation.
pub open spec fn conversation_entry_of(event: AgentEvent) -> Option<(Seq<char>, Seq<char>)> {
    match event {
        AgentEvent::AssistantText { text } => Some(("assistant"@, text@)),
        AgentEvent::ToolUse { name, .. } => Some(("tool"@, "using "@ + name@)),
        AgentEvent::Error { message } => Some(("error"@, message@)),
        _ => None,
    }
}

/// The role and content an agent event is persisted with, if any.
pub fn conversation_entry(event: &AgentEvent) -> (r: Option<(String, String)>)
    ensures
        match r {
            Some((role, content)) => conversation_entry_of(*event) == Some((role@, content@)),
            None => conversation_entry_of(*event) is None,
        },
{
    match event {
        AgentEvent::AssistantText { text } => Some(("assistant".to_string(), text.clone())),
        AgentEvent::ToolUse { name, .. } => {
            let mut content = "using ".to_string();
            push_str(&mut content, name.as_str());
            Some(("tool".to_string(), content))
        },
        AgentEvent::Error { message } => Some(("error".to_string(), message.clone())),
        _ => None,
    }
}

/// How many of `tasks` sit in column `column_id`.
pub open spec fn count_in_column(tasks: Seq<Task>, column_id: Seq<char>) -> nat
    decreases tasks.len(),
{
    if tasks.len() == 0 {
        0
    } else {
        count_in_column(tasks.drop_last(), column_id) + if tasks.last().column_id@ == column_id {
            1nat
        } else {
            0nat
        }
    }
}

pub proof fn lemma_count_in_column_bound(tasks: Seq<Task>, column_id: Seq<char>)
    ensures
        count_in_column(tasks, column_id) <= tasks.len(),
    decreases tasks.len(),
{
    if tasks.len() > 0 {
        lemma_count_in_column_bound(tasks.drop_last(), column_id);
    }
}

/// The position a new task takes in a column: after every task already there.
pub fn next_position(tasks: &Vec<Task>, column_id: &str) -> (r: i64)
    requires
        tasks.len() <= i64::MAX,
    ensures
        r == count_in_column(tasks@, column_id@),
{
    let mut count: i64 = 0;
    let mut i: usize = 0;
    while i < tasks.len()
        invariant
            i <= tasks.len() <= i64::MAX,
            count == count_in_column(tasks@.subrange(0, i as int), column_id@),
        decreases tasks.len() - i,
    {
        proof {
            assert(tasks@.subrange(0, i as int + 1).drop_last() =~= tasks@.subrange(0, i as int));
            lemma_count_in_column_bound(tasks@.subrange(0, i as int), column_id@);
        }
        if str_eq(tasks[i].column_id.as_str(), column_id) {
            count += 1;
        }
        i += 1;
    }
    assert(tasks@.subrange(0, tasks.len() as int) =~= tasks@);
    count
}

/// The `description` parameter of `tasks.create`: its text when it is a
/// string, otherwise empty.
pub fn description_param(params: &JsonValue) -> (r: String)
    ensures
        r@ == or_text(str_of(member(*params, "description"@)), Seq::empty()),
{
    match opt_str_param(params, "description") {
        Some(text) => text,
        None => String::new(),
    }
}

/// The task `tasks.create` makes: at the end of column `column_id` (after
/// every task already there), with no session, worktree or branch yet.
pub fn new_task(
    id: String,
    column_id: String,
    title: String,
    description: String,
    tasks: &Vec<Task>,
    created_at: i64,
) -> (r: Task)
    requires
        tasks.len() <= i64::MAX,
    ensures
        r.id == id,
        r.column_id == column_id,
        r.title == title,
        r.description == description,
        r.position == count_in_column(tasks@, column_id@),
        r.session_id is None,
        r.worktree_path is None,
        r.branch is None,
        r.created_at == created_at,
{
    let position = next_position(tasks, column_id.as_str());
    Task {
        id,
        column_id,
        title,
        description,
        position,
        session_id: None,
        worktree_path: None,
        branch: None,
        created_at,
    }
}

/// How many of `tasks`, other than task `task_id`, sit in column `column_id`.
pub open spec fn count_others_in_column(
    tasks: Seq<Task>,
    column_id: Seq<char>,
    task_id: Seq<char>,
) -> nat
    decreases tasks.len(),
{
    if tasks.len() == 0 {
        0
    } else {
        count_others_in_column(tasks.drop_last(), column_id, task_id) + if tasks.last().column_id@
            == column_id && tasks.last().id@ != task_id {
            1nat
        } else {
            0nat
        }
    }
}

pub proof fn lemma_count_others_bound(tasks: Seq<Task>, column_id: Seq<char>, task_id: Seq<char>)
    ensures
        count_others_in_column(tasks, column_id, task_id) <= tasks.len(),
    decreases tasks.len(),
{
    if tasks.len() > 0 {
        lemma_count_others_bound(tasks.drop_last(), column_id, task_id);
    }
}

/// The index of the first column named `name`.
pub open spec fn column_index_named(columns: Seq<Column>, name: Seq<char>) -> Option<int>
    decreases columns.len(),
{
    if columns.len() == 0 {
        None
    } else if columns[0].name@ == name {
        Some(0)
    } else {
        match column_index_named(columns.drop_first(), name) {
            Some(i) => Some(i + 1),
            None => None,
        }
    }
}

/// Where moving a task to the column named `column_name` puts it: that
/// column's id and the position after every other task in it.
pub open spec fn column_move_of(
    columns: Seq<Column>,
    tasks: Seq<Task>,
    task_id: Seq<char>,
    column_name: Seq<char>,
) -> Option<(Seq<char>, int)> {
    match column_index_named(columns, column_name) {
        None => None,
        Some(i) => Some(
            (
                columns[i].id@,
                count_others_in_column(tasks, columns[i].id@, task_id) as int,
            ),
        ),
    }
}

pub proof fn lemma_column_index_in_range(columns: Seq<Column>, name: Seq<char>)
    ensures
        column_index_named(columns, name) matches Some(i) ==> 0 <= i < columns.len()
            && columns[i].name@ == name,
    decreases columns.len(),
{
    if columns.len() > 0 && columns[0].name@ != name {
        lemma_column_index_in_range(columns.drop_first(), name);
    }
}

/// Moves `task` to the end of the column named `column_name`: sets its
/// column and its position after every other task there. An unknown column
/// is an internal error.
pub fn move_to_column(
    columns: &Vec<Column>,
    tasks: &Vec<Task>,
    task: &mut Task,
    column_name: &str,
) -> (r: Result<(), RpcError>)
    requires
        tasks.len() <= i64::MAX,
    ensures
        match column_move_of(columns@, tasks@, old(task).id@, column_name@) {
            Some((column_id, position)) => {
                &&& r is Ok
                &&& final(task).column_id@ == column_id
                &&& final(task).position == position
                &&& same_card(*final(task), *old(task))
            },
            None => {
                &&& r matches Err(e) && e.code == INTERNAL_ERROR && e.message@
                    == "no column named "@ + column_name@
                &&& *final(task) == *old(task)
            },
        },
{
    let mut c: usize = 0;
    assert(columns@.skip(0) =~= columns@);
    while c < columns.len() && !str_eq(columns[c].name.as_str(), column_name)
        invariant
            c <= columns.len(),
            column_index_named(columns@, column_name@) == match column_index_named(
                columns@.skip(c as int),
                column_name@,
            ) {
                Some(i) => Some(i + c),
                None => None,
            },
        decreases columns.len() - c,
    {
        assert(columns@.skip(c as int).drop_first() =~= columns@.skip(c as int + 1));
        c += 1;
    }
    if c == columns.len() {
        assert(columns@.skip(c as int) =~= Seq::<Column>::empty());
        let mut message = "no column named ".to_string();
        push_str(&mut message, column_name);
        return Err(RpcError::internal(message));
    }
    assert(columns@.skip(c as int)[0] == columns@[c as int]);
    let column_id = columns[c].id.clone();
    let mut count: i64 = 0;
    let mut i: usize = 0;
    while i < tasks.len()
        invariant
            i <= tasks.len() <= i64::MAX,
            count == count_others_in_column(
                tasks@.subrange(0, i as int),
                column_id@,
                task.id@,
            ),
        decreases tasks.len() - i,
    {
        proof {
            assert(tasks@.subrange(0, i as int + 1).drop_last() =~= tasks@.subrange(0, i as int));
            lemma_count_others_bound(tasks@.subrange(0, i as int), column_id@, task.id@);
        }
        if str_eq(tasks[i].column_id.as_str(), column_id.as_str()) && !str_eq(
            tasks[i].id.as_str(),
            task.id.as_str(),
        ) {
            count += 1;
        }
        i += 1;
    }
    assert(tasks@.subrange(0, tasks.len() as int) =~= tasks@);
    task.column_id = column_id;
    task.position = count;
    Ok(())
}

/// Two tasks agree on everything but their place (column and position).
pub open spec fn same_card(a: Task, b: Task) -> bool {
    &&& a.id == b.id
    &&& a.title == b.title
    &&& a.description == b.description
    &&& a.session_id == b.session_id
    &&& a.worktree_path == b.worktree_path
    &&& a.branch == b.branch
    &&& a.created_at == b.created_at
}

/// Applies `tasks.update` parameters to a task: each of `title`,
/// `description`, and `session_id` that is given as a string replaces the
/// field; the rest of the task is unchanged.
pub fn apply_task_update(task: &mut Task, params: &JsonValue)
    ensures
        final(task).title@ == or_text(str_of(member(*params, "title"@)), old(task).title@),
        final(task).description@ == or_text(
            str_of(member(*params, "description"@)),
            old(task).description@,
        ),
        match str_of(member(*params, "session_id"@)) {
            Some(s) => final(task).session_id matches Some(id) && id@ == s,
            None => final(task).session_id == old(task).session_id,
        },
        final(task).id == old(task).id,
        final(task).column_id == old(task).column_id,
        final(task).position == old(task).position,
        final(task).worktree_path == old(task).worktree_path,
        final(task).branch == old(task).branch,
        final(task).created_at == old(task).created_at,
{
    if let Some(title) = opt_str_param(params, "title") {
        task.title = title;
    }
    if let Some(description) = opt_str_param(params, "description") {
        task.description = description;
    }
    if let Some(session_id) = opt_str_param(params, "session_id") {
        task.session_id = Some(session_id);
    }
}

/// A given text, or the current one.
pub open spec fn or_text(given: Option<Seq<char>>, current: Seq<char>) -> Seq<char> {
    match given {
        Some(s) => s,
        None => current,
    }
}

/// Makes `attempt` the task's active one: the task's session, worktree, and
/// branch become the attempt's; nothing else changes.
pub fn activate_attempt(task: &mut Task, attempt: Attempt)
    ensures
        final(task).session_id == attempt.session_id,
        final(task).worktree_path == attempt.worktree_path,
        final(task).branch == attempt.branch,
        final(task).id == old(task).id,
        final(task).column_id == old(task).column_id,
        final(task).title == old(task).title,
        final(task).description == old(task).description,
        final(task).position == old(task).position,
        final(task).created_at == old(task).created_at,
{
    task.session_id = attempt.session_id;
    task.worktree_path = attempt.worktree_path;
    task.branch = attempt.branch;
}

/// How `tasks.start_session` proceeds for a task.
#[derive(Debug)]
pub enum StartPlan {
    /// The task already has a session: return its id, change nothing.
    Existing { session_id: String },
    /// Run the agent in the project folder, with no worktree.
    WithoutGit,
    /// The project folder is not a ready repository: ask the caller.
    NeedsGitInit,
    /// Initialize the repository, then create a worktree attempt.
    InitThenWorktree,
    /// Create a worktree attempt.
    Worktree,
}

/// Decides how `tasks.start_session` proceeds for `task`: an existing
/// session wins; then the no-git mode; a worktree needs a ready repository,
/// initialized only when the caller asks for it.
pub fn plan_start_session(task: &Task, without_git: bool, repo_ready: bool, init_git: bool) -> (r: StartPlan)
    ensures
        match task.session_id {
            Some(id) => r matches StartPlan::Existing { session_id } && session_id@ == id@,
            None => if without_git {
                r is WithoutGit
            } else if !repo_ready && !init_git {
                r is NeedsGitInit
            } else if !repo_ready {
                r is InitThenWorktree
            } else {
                r is Worktree
            },
        },
{
    match &task.session_id {
        Some(id) => StartPlan::Existing { session_id: id.clone() },
        None => {
            if without_git {
                StartPlan::WithoutGit
            } else if !repo_ready && !init_git {
                StartPlan::NeedsGitInit
            } else if !repo_ready {
                StartPlan::InitThenWorktree
            } else {
                StartPlan::Worktree
            }
        },
    }
}

/// How `sessions.send_message` delivers a prompt.
#[derive(Debug)]
pub enum SendPlan {
    /// The session's agent is running: write to it.
    Deliver,
    /// The agent is gone: start it again in `project_path`, resuming its own
    /// session `agent_session_id`.
    Resume { project_path: String, agent_session_id: String },
}

/// Decides how a follow-up prompt reaches session `session_id`: straight to
/// a live agent; otherwise by resuming the stored session, which must exist
/// (`invalid_params` "unknown session: <id>") and must know the agent's own
/// session id (`internal`).
pub fn plan_send_message(session_id: &str, live: bool, stored: Option<Session>) -> (r: Result<SendPlan, RpcError>)
    ensures
        live ==> r matches Ok(SendPlan::Deliver),
        !live ==> match stored {
            None => r matches Err(e) && e.code == INVALID_PARAMS && e.message@ == "unknown session: "@
                + session_id@,
            Some(session) => match session.claude_session_id {
                None => r matches Err(e) && e.code == INTERNAL_ERROR && e.message@
                    == "session cannot be resumed: no agent session id"@,
                Some(id) => r matches Ok(SendPlan::Resume { project_path, agent_session_id })
                    && project_path == session.project_path && agent_session_id == id,
            },
        },
{
    if live {
        return Ok(SendPlan::Deliver);
    }
    match stored {
        None => {
            let mut message = "unknown session: ".to_string();
            push_str(&mut message, session_id);
            Err(RpcError::invalid_params(message))
        },
        Some(session) => match session.claude_session_id {
            None => Err(
                RpcError::internal("session cannot be resumed: no agent session id".to_string()),
            ),
            Some(id) => Ok(
                SendPlan::Resume { project_path: session.project_path, agent_session_id: id },
            ),
        },
    }
}

/// How many characters of an attempt id a branch name carries.
pub const BRANCH_ID_CHARS: usize = 8;

/// The branch of an attempt: `viban/<slug of the title>-<first 8 characters
/// of the attempt id>`.
pub open spec fn branch_name_of(title: Seq<char>, attempt_id: Seq<char>) -> Seq<char> {
    "viban/"@ + slug_of(title) + seq!['-'] + take_at_most(attempt_id, BRANCH_ID_CHARS as nat)
}

/// Attempts of one task never collide: attempt ids that differ within their
/// first `BRANCH_ID_CHARS` characters give different branches.
pub proof fn lemma_branches_distinct(title: Seq<char>, a: Seq<char>, b: Seq<char>)
    requires
        take_at_most(a, BRANCH_ID_CHARS as nat) != take_at_most(b, BRANCH_ID_CHARS as nat),
    ensures
        branch_name_of(title, a) != branch_name_of(title, b),
{
    let prefix = "viban/"@ + slug_of(title) + seq!['-'];
    let ta = take_at_most(a, BRANCH_ID_CHARS as nat);
    let tb = take_at_most(b, BRANCH_ID_CHARS as nat);
    if branch_name_of(title, a) == branch_name_of(title, b) {
        assert((prefix + ta).skip(prefix.len() as int) =~= ta);
        assert((prefix + tb).skip(prefix.len() as int) =~= tb);
    }
}

/// The branch name for a new attempt of a task titled `title`.
pub fn branch_name(title: &str, attempt_id: &str) -> (r: String)
    ensures
        r@ == branch_name_of(title@, attempt_id@),
{
    let mut branch = "viban/".to_string();
    let slug = slugify(title);
    push_str(&mut branch, slug.as_str());
    push_char(&mut branch, '-');
    push_chars(&mut branch, &take_chars(&chars_of(attempt_id), BRANCH_ID_CHARS));
    branch
}

/// The decimal digits of a natural number.
pub open spec fn digits_of(n: nat) -> Seq<char>
    decreases n,
{
    if n < 10 {
        seq![(48 + n) as char]
    } else {
        digits_of(n / 10).push((48 + n % 10) as char)
    }
}

/// The decimal text of an integer, with a leading `'-'` when negative.
pub open spec fn decimal_of(n: int) -> Seq<char> {
    if n < 0 {
        seq!['-'] + digits_of((-n) as nat)
    } else {
        digits_of(n as nat)
    }
}

fn push_digits(out: &mut String, n: u64)
    ensures
        final(out)@ == old(out)@ + digits_of(n as nat),
    decreases n,
{
    if n >= 10 {
        push_digits(out, n / 10);
    }
    let d = (n % 10) as u8;
    push_char(out, (48u8 + d) as char);
    proof {
        if n >= 10 {
            assert(old(out)@ + digits_of(n as nat) =~= old(out)@ + digits_of((n / 10) as nat) + seq![
                (48 + n % 10) as char,
            ]);
        } else {
            assert(digits_of(n as nat) =~= seq![(48 + n) as char]);
        }
    }
}

/// Appends the decimal text of `n`.
pub fn push_decimal(out: &mut String, n: i32)
    ensures
        final(out)@ == old(out)@ + decimal_of(n as int),
{
    if n < 0 {
        push_char(out, '-');
        let magnitude: u64 = (0i64 - n as i64) as u64;
        push_digits(out, magnitude);
        assert(final(out)@ =~= old(out)@ + decimal_of(n as int));
    } else {
        push_digits(out, n as u64);
    }
}

/// The JSON text of a JSON-RPC 2.0 response to request `id`: the result, or
/// the error object with its code and message; members in the order
/// `jsonrpc`, `id`, then `result` or `error`.
pub open spec fn response_text_of(id: JsonValue, outcome: Result<JsonValue, RpcError>) -> Seq<char> {
    match outcome {
        Ok(result) => "{\"jsonrpc\":\"2.0\",\"id\":"@ + json_text(id) + ",\"result\":"@ + json_text(
            result,
        ) + "}"@,
        Err(error) => error_response_text_of(id, error.code, error.message@),
    }
}

/// The JSON text of a JSON-RPC 2.0 error response.
pub open spec fn error_response_text_of(id: JsonValue, code: i32, message: Seq<char>) -> Seq<char> {
    "{\"jsonrpc\":\"2.0\",\"id\":"@ + json_text(id) + ",\"error\":{\"code\":"@ + decimal_of(
        code as int,
    ) + ",\"message\":"@ + json_string(message) + "}}"@
}

/// Serializes the response to request `id` with the handler's outcome.
pub fn response_text(id: &JsonValue, outcome: &Result<JsonValue, RpcError>) -> (r: String)
    ensures
        r@ == response_text_of(*id, *outcome),
{
    let mut text = "{\"jsonrpc\":\"2.0\",\"id\":".to_string();
    let id_text = write_json(id);
    push_str(&mut text, id_text.as_str());
    match outcome {
        Ok(result) => {
            push_str(&mut text, ",\"result\":");
            let result_text = write_json(result);
            push_str(&mut text, result_text.as_str());
            push_str(&mut text, "}");
        },
        Err(error) => {
            push_str(&mut text, ",\"error\":{\"code\":");
            push_decimal(&mut text, error.code);
            push_str(&mut text, ",\"message\":");
            let message = encode_json_string(error.message.as_str());
            push_str(&mut text, message.as_str());
            push_str(&mut text, "}}");
        },
    }
    text
}

/// The response to request text that could not be parsed: a parse error
/// with a `null` id.
pub fn parse_error_response(detail: &str) -> (r: String)
    ensures
        r@ == error_response_text_of(JsonValue::Null, PARSE_ERROR, "parse error: "@ + detail@),
{
    let outcome: Result<JsonValue, RpcError> = Err(RpcError::parse_error(detail));
    response_text(&JsonValue::Null, &outcome)
}

/// The wire name of each method: `<area>.<action>`.
pub open spec fn method_name(m: Method) -> Seq<char> {
    match m {
        Method::ServerHealth => "server.health"@,
        Method::AgentsSpawn => "agents.spawn"@,
        Method::SessionsSendMessage => "sessions.send_message"@,
        Method::SessionsList => "sessions.list"@,
        Method::SessionsGet => "sessions.get"@,
        Method::BoardsGet => "boards.get"@,
        Method::TasksCreate => "tasks.create"@,
        Method::TasksUpdate => "tasks.update"@,
        Method::TasksDelete => "tasks.delete"@,
        Method::TasksReorder => "tasks.reorder"@,
        Method::TasksRunCommand => "tasks.run_command"@,
        Method::TasksStartSession => "tasks.start_session"@,
        Method::AttemptsCreate => "attempts.create"@,
        Method::AttemptsList => "attempts.list"@,
        Method::AttemptsActivate => "attempts.activate"@,
        Method::GitDiff => "git.diff"@,
        Method::GitCommit => "git.commit"@,
        Method::GitRestore => "git.restore"@,
        Method::GitMerge => "git.merge"@,
    }
}

/// The method table is exactly the methods' wire names: every method is
/// found under its own name, and a name that is found names the method it
/// resolves to — so distinct names resolve to distinct methods.
pub proof fn lemma_method_table(m: Method, name: Seq<char>)
    ensures
        method_named(method_name(m)) == Some(m),
        method_named(name) matches Some(found) ==> name == method_name(found),
{
    reveal_strlit("server.health");
    reveal_strlit("agents.spawn");
    reveal_strlit("sessions.send_message");
    reveal_strlit("sessions.list");
    reveal_strlit("sessions.get");
    reveal_strlit("boards.get");
    reveal_strlit("tasks.create");
    reveal_strlit("tasks.update");
    reveal_strlit("tasks.delete");
    reveal_strlit("tasks.reorder");
    reveal_strlit("tasks.run_command");
    reveal_strlit("tasks.start_session");
    reveal_strlit("attempts.create");
    reveal_strlit("attempts.list");
    reveal_strlit("attempts.activate");
    reveal_strlit("git.diff");
    reveal_strlit("git.commit");
    reveal_strlit("git.restore");
    reveal_strlit("git.merge");
    match m {
        Method::ServerHealth => {

        },
        Method::AgentsSpawn => {
            assert("agents.spawn"@.len() != "server.health"@.len());
        },
        Method::SessionsSendMessage => {
            assert("sessions.send_message"@.len() != "server.health"@.len());
            assert("sessions.send_message"@.len() != "agents.spawn"@.len());
        },
        Method::SessionsList => {
            assert("sessions.list"@[2] != "server.health"@[2]);
            assert("sessions.list"@.len() != "agents.spawn"@.len());
            assert("sessions.list"@.len() != "sessions.send_message"@.len());
        },
        Method::SessionsGet => {
            assert("sessions.get"@.len() != "server.health"@.len());
            assert("sessions.get"@[0] != "agents.spawn"@[0]);
            assert("sessions.get"@.len() != "sessions.send_message"@.len());
            assert("sessions.get"@.len() != "sessions.list"@.len());
        },
        Method::BoardsGet => {
            assert("boards.get"@.len() != "server.health"@.len());
            assert("boards.get"@.len() != "agents.spawn"@.len());
            assert("boards.get"@.len() != "sessions.send_message"@.len());
            assert("boards.get"@.len() != "sessions.list"@.len());
            assert("boards.get"@.len() != "sessions.get"@.len());
        },
        Method::TasksCreate => {
            assert("tasks.create"@.len() != "server.health"@.len());
            assert("tasks.create"@[0] != "agents.spawn"@[0]);
            assert("tasks.create"@.len() != "sessions.send_message"@.len());
            assert("tasks.create"@.len() != "sessions.list"@.len());
            assert("tasks.create"@[0] != "sessions.get"@[0]);
            assert("tasks.create"@.len() != "boards.get"@.len());
        },
        Method::TasksUpdate => {
            assert("tasks.update"@.len() != "server.health"@.len());
            assert("tasks.update"@[0] != "agents.spawn"@[0]);
            assert("tasks.update"@.len() != "sessions.send_message"@.len());
            assert("tasks.update"@.len() != "sessions.list"@.len());
            assert("tasks.update"@[0] != "sessions.get"@[0]);
            assert("tasks.update"@.len() != "boards.get"@.len());
            assert("tasks.update"@[6] != "tasks.create"@[6]);
        },
        Method::TasksDelete => {
            assert("tasks.delete"@.len() != "server.health"@.len());
            assert("tasks.delete"@[0] != "agents.spawn"@[0]);
            assert("tasks.delete"@.len() != "sessions.send_message"@.len());
            assert("tasks.delete"@.len() != "sessions.list"@.len());
            assert("tasks.delete"@[0] != "sessions.get"@[0]);
            assert("tasks.delete"@.len() != "boards.get"@.len());
            assert("tasks.delete"@[6] != "tasks.create"@[6]);
            assert("tasks.delete"@[6] != "tasks.update"@[6]);
        },
        Method::TasksReorder => {
            assert("tasks.reorder"@[0] != "server.health"@[0]);
            assert("tasks.reorder"@.len() != "agents.spawn"@.len());
            assert("tasks.reorder"@.len() != "sessions.send_message"@.len());
            assert("tasks.reorder"@[0] != "sessions.list"@[0]);
            assert("tasks.reorder"@.len() != "sessions.get"@.len());
            assert("tasks.reorder"@.len() != "boards.get"@.len());
            assert("tasks.reorder"@.len() != "tasks.create"@.len());
            assert("tasks.reorder"@.len() != "tasks.update"@.len());
            assert("tasks.reorder"@.len() != "tasks.delete"@.len());
        },
        Method::TasksRunCommand => {
            assert("tasks.run_command"@.len() != "server.health"@.len());
            assert("tasks.run_command"@.len() != "agents.spawn"@.len());
            assert("tasks.run_command"@.len() != "sessions.send_message"@.len());
            assert("tasks.run_command"@.len() != "sessions.list"@.len());
            assert("tasks.run_command"@.len() != "sessions.get"@.len());
            assert("tasks.run_command"@.len() != "boards.get"@.len());
            assert("tasks.run_command"@.len() != "tasks.create"@.len());
            assert("tasks.run_command"@.len() != "tasks.update"@.len());
            assert("tasks.run_command"@.len() != "tasks.delete"@.len());
            assert("tasks.run_command"@.len() != "tasks.reorder"@.len());
        },
        Method::TasksStartSession => {
            assert("tasks.start_session"@.len() != "server.health"@.len());
            assert("tasks.start_session"@.len() != "agents.spawn"@.len());
            assert("tasks.start_session"@.len() != "sessions.send_message"@.len());
            assert("tasks.start_session"@.len() != "sessions.list"@.len());
            assert("tasks.start_session"@.len() != "sessions.get"@.len());
            assert("tasks.start_session"@.len() != "boards.get"@.len());
            assert("tasks.start_session"@.len() != "tasks.create"@.len());
            assert("tasks.start_session"@.len() != "tasks.update"@.len());
            assert("tasks.start_session"@.len() != "tasks.delete"@.len());
            assert("tasks.start_session"@.len() != "tasks.reorder"@.len());
            assert("tasks.start_session"@.len() != "tasks.run_command"@.len());
        },
        Method::AttemptsCreate => {
            assert("attempts.create"@.len() != "server.health"@.len());
            assert("attempts.create"@.len() != "agents.spawn"@.len());
            assert("attempts.create"@.len() != "sessions.send_message"@.len());
            assert("attempts.create"@.len() != "sessions.list"@.len());
            assert("attempts.create"@.len() != "sessions.get"@.len());
            assert("attempts.create"@.len() != "boards.get"@.len());
            assert("attempts.create"@.len() != "tasks.create"@.len());
            assert("attempts.create"@.len() != "tasks.update"@.len());
            assert("attempts.create"@.len() != "tasks.delete"@.len());
            assert("attempts.create"@.len() != "tasks.reorder"@.len());
            assert("attempts.create"@.len() != "tasks.run_command"@.len());
            assert("attempts.create"@.len() != "tasks.start_session"@.len());
        },
        Method::AttemptsList => {
            assert("attempts.list"@[0] != "server.health"@[0]);
            assert("attempts.list"@.len() != "agents.spawn"@.len());
            assert("attempts.list"@.len() != "sessions.send_message"@.len());
            assert("attempts.list"@[0] != "sessions.list"@[0]);
            assert("attempts.list"@.len() != "sessions.get"@.len());
            assert("attempts.list"@.len() != "boards.get"@.len());
            assert("attempts.list"@.len() != "tasks.create"@.len());
            assert("attempts.list"@.len() != "tasks.update"@.len());
            assert("attempts.list"@.len() != "tasks.delete"@.len());
            assert("attempts.list"@[0] != "tasks.reorder"@[0]);
            assert("attempts.list"@.len() != "tasks.run_command"@.len());
            assert("attempts.list"@.len() != "tasks.start_session"@.len());
            assert("attempts.list"@.len() != "attempts.create"@.len());
        },
        Method::AttemptsActivate => {
            assert("attempts.activate"@.len() != "server.health"@.len());
            assert("attempts.activate"@.len() != "agents.spawn"@.len());
            assert("attempts.activate"@.len() != "sessions.send_message"@.len());
            assert("attempts.activate"@.len() != "sessions.list"@.len());
            assert("attempts.activate"@.len() != "sessions.get"@.len());
            assert("attempts.activate"@.len() != "boards.get"@.len());
            assert("attempts.activate"@.len() != "tasks.create"@.len());
            assert("attempts.activate"@.len() != "tasks.update"@.len());
            assert("attempts.activate"@.len() != "tasks.delete"@.len());
            assert("attempts.activate"@.len() != "tasks.reorder"@.len());
            assert("attempts.activate"@[0] != "tasks.run_command"@[0]);
            assert("attempts.activate"@.len() != "tasks.start_session"@.len());
            assert("attempts.activate"@.len() != "attempts.create"@.len());
            assert("attempts.activate"@.len() != "attempts.list"@.len());
        },
        Method::GitDiff => {
            assert("git.diff"@.len() != "server.health"@.len());
            assert("git.diff"@.len() != "agents.spawn"@.len());
            assert("git.diff"@.len() != "sessions.send_message"@.len());
            assert("git.diff"@.len() != "sessions.list"@.len());
            assert("git.diff"@.len() != "sessions.get"@.len());
            assert("git.diff"@.len() != "boards.get"@.len());
            assert("git.diff"@.len() != "tasks.create"@.len());
            assert("git.diff"@.len() != "tasks.update"@.len());
            assert("git.diff"@.len() != "tasks.delete"@.len());
            assert("git.diff"@.len() != "tasks.reorder"@.len());
            assert("git.diff"@.len() != "tasks.run_command"@.len());
            assert("git.diff"@.len() != "tasks.start_session"@.len());
            assert("git.diff"@.len() != "attempts.create"@.len());
            assert("git.diff"@.len() != "attempts.list"@.len());
            assert("git.diff"@.len() != "attempts.activate"@.len());
        },
        Method::GitCommit => {
            assert("git.commit"@.len() != "server.health"@.len());
            assert("git.commit"@.len() != "agents.spawn"@.len());
            assert("git.commit"@.len() != "sessions.send_message"@.len());
            assert("git.commit"@.len() != "sessions.list"@.len());
            assert("git.commit"@.len() != "sessions.get"@.len());
            assert("git.commit"@[0] != "boards.get"@[0]);
            assert("git.commit"@.len() != "tasks.create"@.len());
            assert("git.commit"@.len() != "tasks.update"@.len());
            assert("git.commit"@.len() != "tasks.delete"@.len());
            assert("git.commit"@.len() != "tasks.reorder"@.len());
            assert("git.commit"@.len() != "tasks.run_command"@.len());
            assert("git.commit"@.len() != "tasks.start_session"@.len());
            assert("git.commit"@.len() != "attempts.create"@.len());
            assert("git.commit"@.len() != "attempts.list"@.len());
            assert("git.commit"@.len() != "attempts.activate"@.len());
            assert("git.commit"@.len() != "git.diff"@.len());
        },
        Method::GitRestore => {
            assert("git.restore"@.len() != "server.health"@.len());
            assert("git.restore"@.len() != "agents.spawn"@.len());
            assert("git.restore"@.len() != "sessions.send_message"@.len());
            assert("git.restore"@.len() != "sessions.list"@.len());
            assert("git.restore"@.len() != "sessions.get"@.len());
            assert("git.restore"@.len() != "boards.get"@.len());
            assert("git.restore"@.len() != "tasks.create"@.len());
            assert("git.restore"@.len() != "tasks.update"@.len());
            assert("git.restore"@.len() != "tasks.delete"@.len());
            assert("git.restore"@.len() != "tasks.reorder"@.len());
            assert("git.restore"@.len() != "tasks.run_command"@.len());
            assert("git.restore"@.len() != "tasks.start_session"@.len());
            assert("git.restore"@.len() != "attempts.create"@.len());
            assert("git.restore"@.len() != "attempts.list"@.len());
            assert("git.restore"@.len() != "attempts.activate"@.len());
            assert("git.restore"@.len() != "git.diff"@.len());
            assert("git.restore"@.len() != "git.commit"@.len());
        },
        Method::GitMerge => {
            assert("git.merge"@.len() != "server.health"@.len());
            assert("git.merge"@.len() != "agents.spawn"@.len());
            assert("git.merge"@.len() != "sessions.send_message"@.len());
            assert("git.merge"@.len() != "sessions.list"@.len());
            assert("git.merge"@.len() != "sessions.get"@.len());
            assert("git.merge"@.len() != "boards.get"@.len());
            assert("git.merge"@.len() != "tasks.create"@.len());
            assert("git.merge"@.len() != "tasks.update"@.len());
            assert("git.merge"@.len() != "tasks.delete"@.len());
            assert("git.merge"@.len() != "tasks.reorder"@.len());
            assert("git.merge"@.len() != "tasks.run_command"@.len());
            assert("git.merge"@.len() != "tasks.start_session"@.len());
            assert("git.merge"@.len() != "attempts.create"@.len());
            assert("git.merge"@.len() != "attempts.list"@.len());
            assert("git.merge"@.len() != "attempts.activate"@.len());
            assert("git.merge"@.len() != "git.diff"@.len());
            assert("git.merge"@.len() != "git.commit"@.len());
            assert("git.merge"@.len() != "git.restore"@.len());
        },
    }
}

/// Which agent events become conversation messages, and as what: a session
/// start, a turn's result and a raw event carry none; the assistant's text,
/// a tool use and an error each become a message under a role of its own —
/// `assistant`, `tool`, `error` — with the text and the error message kept
/// unchanged as content and the tool named in it.
pub proof fn lemma_conversation_entries(e: AgentEvent)
    ensures
        (conversation_entry_of(e) is None) <==> (e is SessionStarted || e is Result || e is Raw),
        conversation_entry_of(e) matches Some((role, content)) ==> {
            &&& (role == "assistant"@ <==> e is AssistantText)
            &&& (role == "tool"@ <==> e is ToolUse)
            &&& (role == "error"@ <==> e is Error)
            &&& (e matches AgentEvent::AssistantText { text } ==> content == text@)
            &&& (e matches AgentEvent::Error { message } ==> content == message@)
            &&& (e matches AgentEvent::ToolUse { name, .. } ==> content == "using "@ + name@)
        },
{
    reveal_strlit("assistant");
    reveal_strlit("tool");
    reveal_strlit("error");
    assert("assistant"@.len() != "tool"@.len());
    assert("assistant"@.len() != "error"@.len());
    assert("tool"@.len() != "error"@.len());
}

} // verus!
