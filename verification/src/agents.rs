//! The agent layer's logic: normalizing the agent CLI's stream-json stdout into
//! `AgentEvent`s, and the pieces of the one-shot commit-message flow.

use vstd::prelude::*;

use crate::json::{
    array_of, bool_of, i64_of, json_parse, json_text, member, member_of, parse_json, str_of,
    write_json, JsonValue,
};
use crate::git::{FileDiff, FileStatus};
use crate::text::{
    is_piece, lemma_lines_pieces, lemma_piece_chars, lemma_piece_trans, lemma_trim_by_piece,
    lemma_trimmed_piece,
    chars_of, copy_range, find_newline, lemma_newline_split, lines, push_char, push_chars, push_str,
    quote_pred, str_eq, string_of, take_at_most, take_chars, trim_by, trim_chars, trim_quotes,
    trimmed,
};

verus! {

/// Token counts reported with a finished turn.
#[derive(Debug, Clone, Copy, PartialEq, Eq, Structural)]
pub struct TokenUsage {
    pub input_tokens: i64,
    pub output_tokens: i64,
}

/// A normalized event from a running agent session.
///
/// Only the events viban acts on are classified; everything else passes
/// through as `Raw` so nothing is lost.
#[derive(Debug)]
pub enum AgentEvent {
    /// The session announced itself; carries the agent CLI session id.
    SessionStarted { session_id: String },
    /// The assistant produced text.
    AssistantText { text: String },
    /// The assistant invoked a tool.
    ToolUse { name: String, input: JsonValue },
    /// The turn finished.
    Result { is_error: bool, usage: Option<TokenUsage> },
    /// A fatal error in the session.
    Error { message: String },
    /// An unclassified event, passed through verbatim.
    Raw { payload: JsonValue },
}

/// The mathematical content of an `AgentEvent`: texts as character sequences.
pub enum EventView {
    SessionStarted { session_id: Seq<char> },
    AssistantText { text: Seq<char> },
    ToolUse { name: Seq<char>, input: JsonValue },
    Result { is_error: bool, usage: Option<TokenUsage> },
    Error { message: Seq<char> },
    Raw { payload: JsonValue },
}

impl View for AgentEvent {
    type V = EventView;

    open spec fn view(&self) -> EventView {
        match *self {
            AgentEvent::SessionStarted { session_id } => EventView::SessionStarted {
                session_id: session_id@,
            },
            AgentEvent::AssistantText { text } => EventView::AssistantText { text: text@ },
            AgentEvent::ToolUse { name, input } => EventView::ToolUse { name: name@, input },
            AgentEvent::Result { is_error, usage } => EventView::Result { is_error, usage },
            AgentEvent::Error { message } => EventView::Error { message: message@ },
            AgentEvent::Raw { payload } => EventView::Raw { payload },
        }
    }
}

/// An optional value, or a default.
pub open spec fn or_else<T>(value: Option<T>, default: T) -> T {
    match value {
        Some(v) => v,
        None => default,
    }
}

/// The token counts of a `result` event: `None` without a `usage` member, a
/// missing count reads as zero.
pub open spec fn usage_of(value: JsonValue) -> Option<TokenUsage> {
    match member(value, "usage"@) {
        None => None,
        Some(usage) => Some(
            TokenUsage {
                input_tokens: or_else(i64_of(member(usage, "input_tokens"@)), 0),
                output_tokens: or_else(i64_of(member(usage, "output_tokens"@)), 0),
            },
        ),
    }
}

/// A `system` event: `init` with a session id starts a session; anything
/// else is raw.
pub open spec fn system_event(value: JsonValue) -> EventView {
    if str_of(member(value, "subtype"@)) == Some("init"@) && str_of(
        member(value, "session_id"@),
    ) is Some {
        EventView::SessionStarted { session_id: str_of(member(value, "session_id"@))->0 }
    } else {
        EventView::Raw { payload: value }
    }
}

/// What a walk over an assistant message's content blocks finds: a tool
/// invocation seen before any text, or the concatenated text.
pub enum BlockScan {
    Tool { name: Seq<char>, input: JsonValue },
    Text { text: Seq<char> },
}

/// Walks content blocks: `text` blocks append their text; a `tool_use` block
/// ends the walk when no text has been seen yet; other blocks are skipped.
pub open spec fn scan_blocks(blocks: Seq<JsonValue>, text: Seq<char>) -> BlockScan
    decreases blocks.len(),
{
    if blocks.len() == 0 {
        BlockScan::Text { text }
    } else {
        let block = blocks[0];
        let kind = str_of(member(block, "type"@));
        if kind == Some("text"@) {
            let next = match str_of(member(block, "text"@)) {
                Some(chunk) => text + chunk,
                None => text,
            };
            scan_blocks(blocks.drop_first(), next)
        } else if kind == Some("tool_use"@) && text.len() == 0 {
            BlockScan::Tool {
                name: or_else(str_of(member(block, "name"@)), Seq::empty()),
                input: or_else(member(block, "input"@), JsonValue::Null),
            }
        } else {
            scan_blocks(blocks.drop_first(), text)
        }
    }
}

/// An `assistant` event: its content blocks become text or a tool use; a
/// message without content blocks, or with neither, is raw.
pub open spec fn assistant_event(value: JsonValue) -> EventView {
    match array_of(member_of(member(value, "message"@), "content"@)) {
        None => EventView::Raw { payload: value },
        Some(blocks) => match scan_blocks(blocks, Seq::empty()) {
            BlockScan::Tool { name, input } => EventView::ToolUse { name, input },
            BlockScan::Text { text } => if text.len() == 0 {
                EventView::Raw { payload: value }
            } else {
                EventView::AssistantText { text }
            },
        },
    }
}

/// The text a content block contributes: the `text` of a `text` block
/// (nothing when it is not a string); nothing for any other block.
pub open spec fn block_text(block: JsonValue) -> Seq<char> {
    if str_of(member(block, "type"@)) == Some("text"@) {
        or_else(str_of(member(block, "text"@)), Seq::empty())
    } else {
        Seq::empty()
    }
}

/// The text accumulated from the first `i` blocks.
pub open spec fn text_before(blocks: Seq<JsonValue>, i: nat) -> Seq<char>
    decreases i,
{
    if i == 0 {
        Seq::empty()
    } else {
        text_before(blocks, (i - 1) as nat) + block_text(blocks[i - 1])
    }
}

/// Whether block `i` is a `tool_use` block with no text accumulated before it.
pub open spec fn opens_with_tool(blocks: Seq<JsonValue>, i: int) -> bool {
    &&& str_of(member(blocks[i], "type"@)) == Some("tool_use"@)
    &&& text_before(blocks, i as nat).len() == 0
}

proof fn lemma_scan_step(blocks: Seq<JsonValue>, k: nat)
    requires
        k < blocks.len(),
        !opens_with_tool(blocks, k as int),
    ensures
        scan_blocks(blocks.skip(k as int), text_before(blocks, k)) == scan_blocks(
            blocks.skip(k as int + 1),
            text_before(blocks, k + 1),
        ),
{
    let rest = blocks.skip(k as int);
    assert(rest[0] == blocks[k as int]);
    assert(rest.drop_first() =~= blocks.skip(k as int + 1));
    assert(text_before(blocks, k + 1) == text_before(blocks, k) + block_text(blocks[k as int]));
    let block = blocks[k as int];
    if str_of(member(block, "type"@)) == Some("text"@) {
        if str_of(member(block, "text"@)) is None {
            assert(text_before(blocks, k) + Seq::<char>::empty() =~= text_before(blocks, k));
        }
    } else {
        assert(text_before(blocks, k) + Seq::<char>::empty() =~= text_before(blocks, k));
    }
}

proof fn lemma_scan_to_tool(blocks: Seq<JsonValue>, k: nat, i: int)
    requires
        k <= i < blocks.len(),
        opens_with_tool(blocks, i),
        forall|j: int| k <= j < i ==> !#[trigger] opens_with_tool(blocks, j),
    ensures
        scan_blocks(blocks.skip(k as int), text_before(blocks, k)) == (BlockScan::Tool {
            name: or_else(str_of(member(blocks[i], "name"@)), Seq::empty()),
            input: or_else(member(blocks[i], "input"@), JsonValue::Null),
        }),
    decreases i - k,
{
    if k == i {
        let rest = blocks.skip(k as int);
        assert(rest[0] == blocks[i]);
        reveal_strlit("text");
        reveal_strlit("tool_use");
        assert("text"@ != "tool_use"@) by {
            assert("text"@.len() != "tool_use"@.len());
        }
        assert(str_of(member(rest[0], "type"@)) != Some("text"@));
        assert(scan_blocks(rest, text_before(blocks, k)) == (BlockScan::Tool {
            name: or_else(str_of(member(rest[0], "name"@)), Seq::empty()),
            input: or_else(member(rest[0], "input"@), JsonValue::Null),
        }));
    } else {
        lemma_scan_step(blocks, k);
        lemma_scan_to_tool(blocks, k + 1, i);
    }
}

proof fn lemma_scan_to_text(blocks: Seq<JsonValue>, k: nat)
    requires
        k <= blocks.len(),
        forall|j: int| k <= j < blocks.len() ==> !#[trigger] opens_with_tool(blocks, j),
    ensures
        scan_blocks(blocks.skip(k as int), text_before(blocks, k)) == (BlockScan::Text {
            text: text_before(blocks, blocks.len()),
        }),
    decreases blocks.len() - k,
{
    if k == blocks.len() {
        assert(blocks.skip(k as int) =~= Seq::<JsonValue>::empty());
    } else {
        lemma_scan_step(blocks, k);
        lemma_scan_to_text(blocks, k + 1);
    }
}

/// An assistant message is classified by the text its content blocks
/// accumulate and by the first `tool_use` block that comes before any text:
/// without a content array it is raw; when some block opens with a tool,
/// the first such block is the tool use; otherwise the accumulated text, or
/// raw when there is none.
pub proof fn lemma_assistant_event_form(value: JsonValue)
    ensures
        match array_of(member_of(member(value, "message"@), "content"@)) {
            None => assistant_event(value) == (EventView::Raw { payload: value }),
            Some(blocks) => {
                &&& forall|i: int|
                    0 <= i < blocks.len() && #[trigger] opens_with_tool(blocks, i) && (forall|j: int|
                        0 <= j < i ==> !opens_with_tool(blocks, j)) ==> assistant_event(value) == (
                    EventView::ToolUse {
                        name: or_else(str_of(member(blocks[i], "name"@)), Seq::empty()),
                        input: or_else(member(blocks[i], "input"@), JsonValue::Null),
                    })
                &&& (forall|j: int| 0 <= j < blocks.len() ==> !#[trigger] opens_with_tool(blocks, j))
                    ==> assistant_event(value) == if text_before(blocks, blocks.len()).len() == 0 {
                    EventView::Raw { payload: value }
                } else {
                    EventView::AssistantText { text: text_before(blocks, blocks.len()) }
                }
            },
        },
{
    if let Some(blocks) = array_of(member_of(member(value, "message"@), "content"@)) {
        assert(blocks.skip(0) =~= blocks);
        assert(text_before(blocks, 0) =~= Seq::<char>::empty());
        assert forall|i: int|
            0 <= i < blocks.len() && #[trigger] opens_with_tool(blocks, i) && (forall|j: int|
                0 <= j < i ==> !opens_with_tool(blocks, j)) implies assistant_event(value) == (
            EventView::ToolUse {
                name: or_else(str_of(member(blocks[i], "name"@)), Seq::empty()),
                input: or_else(member(blocks[i], "input"@), JsonValue::Null),
            }) by {
            lemma_scan_to_tool(blocks, 0, i);
        }
        if forall|j: int| 0 <= j < blocks.len() ==> !#[trigger] opens_with_tool(blocks, j) {
            lemma_scan_to_text(blocks, 0);
        }
    }
}

/// The event for one parsed line of stdout, by its `type` member.
pub open spec fn event_of_value(value: JsonValue) -> EventView {
    let kind = str_of(member(value, "type"@));
    if kind == Some("system"@) {
        system_event(value)
    } else if kind == Some("assistant"@) {
        assistant_event(value)
    } else if kind == Some("result"@) {
        EventView::Result {
            is_error: or_else(bool_of(member(value, "is_error"@)), false),
            usage: usage_of(value),
        }
    } else {
        EventView::Raw { payload: value }
    }
}

/// Nothing is lost: whatever the classifier does not act on passes through
/// as `Raw`, carrying the parsed value unchanged; in particular every value
/// whose `type` is not `system`, `assistant` or `result` does.
pub proof fn lemma_unclassified_passes_through(value: JsonValue)
    ensures
        event_of_value(value) matches EventView::Raw { payload } ==> payload == value,
        str_of(member(value, "type"@)) != Some("system"@) && str_of(member(value, "type"@))
            != Some("assistant"@) && str_of(member(value, "type"@)) != Some("result"@)
            ==> event_of_value(value) == (EventView::Raw { payload: value }),
{
}

/// The event for one line of stdout, given what the JSON parser made of it.
pub open spec fn event_of(parsed: Result<JsonValue, Seq<char>>) -> EventView {
    match parsed {
        Ok(value) => event_of_value(value),
        Err(message) => EventView::Error { message: "invalid agent output: "@ + message },
    }
}

fn parse_usage(value: &JsonValue) -> (r: Option<TokenUsage>)
    ensures
        r == usage_of(*value),
{
    match value.get("usage") {
        None => None,
        Some(usage) => {
            let input_tokens = match usage.get("input_tokens") {
                Some(n) => match n.as_i64() {
                    Some(k) => k,
                    None => 0,
                },
                None => 0,
            };
            let output_tokens = match usage.get("output_tokens") {
                Some(n) => match n.as_i64() {
                    Some(k) => k,
                    None => 0,
                },
                None => 0,
            };
            Some(TokenUsage { input_tokens, output_tokens })
        },
    }
}

/// The text of member `key` when it is a string.
fn str_member<'a>(value: &'a JsonValue, key: &str) -> (r: Option<&'a str>)
    ensures
        match r {
            Some(s) => str_of(member(*value, key@)) == Some(s@),
            None => str_of(member(*value, key@)) is None,
        },
{
    match value.get(key) {
        Some(v) => v.as_str(),
        None => None,
    }
}

/// Whether member `key` is the string `expected`.
fn member_is(value: &JsonValue, key: &str, expected: &str) -> (r: bool)
    ensures
        r == (str_of(member(*value, key@)) == Some(expected@)),
{
    match str_member(value, key) {
        Some(s) => str_eq(s, expected),
        None => false,
    }
}

fn parse_system(value: JsonValue) -> (r: AgentEvent)
    ensures
        r@ == system_event(value),
{
    if member_is(&value, "subtype", "init") {
        if let Some(session_id) = str_member(&value, "session_id") {
            return AgentEvent::SessionStarted { session_id: session_id.to_string() };
        }
    }
    AgentEvent::Raw { payload: value }
}

fn parse_assistant(value: JsonValue) -> (r: AgentEvent)
    ensures
        r@ == assistant_event(value),
{
    // Walk the blocks by reference; remember where a tool use was found.
    let mut text = String::new();
    let mut tool: Option<(usize, String)> = None;
    let found: bool;
    {
        let blocks: Option<&Vec<JsonValue>> = match value.get("message") {
            Some(message) => match message.get("content") {
                Some(content) => content.as_array(),
                None => None,
            },
            None => None,
        };
        match blocks {
            None => {
                found = false;
            },
            Some(blocks) => {
                found = true;
                let mut i: usize = 0;
                assert(blocks@.skip(0) =~= blocks@);
                while i < blocks.len()
                    invariant_except_break
                        tool is None,
                        scan_blocks(blocks@, Seq::empty()) == scan_blocks(
                            blocks@.skip(i as int),
                            text@,
                        ),
                    invariant
                        i <= blocks.len(),
                    ensures
                        match tool {
                            Some((j, name)) => j < blocks.len() && scan_blocks(
                                blocks@,
                                Seq::empty(),
                            ) == (BlockScan::Tool {
                                name: name@,
                                input: or_else(member(blocks@[j as int], "input"@), JsonValue::Null),
                            }),
                            None => scan_blocks(blocks@, Seq::empty()) == (BlockScan::Text {
                                text: text@,
                            }),
                        },
                    decreases blocks.len() - i,
                {
                    let block = &blocks[i];
                    assert(blocks@.skip(i as int).drop_first() =~= blocks@.skip(i as int + 1));
                    assert(blocks@.skip(i as int)[0] == blocks@[i as int]);
                    if member_is(block, "type", "text") {
                        if let Some(chunk) = str_member(block, "text") {
                            push_str(&mut text, chunk);
                        }
                    } else if member_is(block, "type", "tool_use") && text.as_str().is_empty() {
                        let name = match str_member(block, "name") {
                            Some(n) => n.to_string(),
                            None => String::new(),
                        };
                        tool = Some((i, name));
                        break;
                    }
                    i += 1;
                }
            },
        }
    }
    if !found {
        return AgentEvent::Raw { payload: value };
    }
    match tool {
        Some((j, name)) => {
            let input = match value.take_member("message") {
                Some(message) => match message.take_member("content") {
                    Some(content) => match content.take_element(j) {
                        Some(block) => block.take_member("input"),
                        None => None,
                    },
                    None => None,
                },
                None => None,
            };
            let input = match input {
                Some(v) => v,
                None => JsonValue::Null,
            };
            AgentEvent::ToolUse { name, input }
        },
        None => {
            if text.as_str().is_empty() {
                AgentEvent::Raw { payload: value }
            } else {
                AgentEvent::AssistantText { text }
            }
        },
    }
}

/// Classifies one parsed line of agent stdout.
pub fn classify_value(value: JsonValue) -> (r: AgentEvent)
    ensures
        r@ == event_of_value(value),
{
    if member_is(&value, "type", "system") {
        parse_system(value)
    } else if member_is(&value, "type", "assistant") {
        parse_assistant(value)
    } else if member_is(&value, "type", "result") {
        let is_error = match value.get("is_error") {
            Some(flag) => match flag.as_bool() {
                Some(b) => b,
                None => false,
            },
            None => false,
        };
        let usage = parse_usage(&value);
        AgentEvent::Result { is_error, usage }
    } else {
        AgentEvent::Raw { payload: value }
    }
}

/// The event for one line of stdout given the JSON parser's outcome: a parse
/// failure becomes an `Error` event carrying the parser's message.
pub fn classify_parsed(parsed: Result<JsonValue, String>) -> (r: AgentEvent)
    ensures
        r@ == event_of(
            match parsed {
                Ok(v) => Ok(v),
                Err(e) => Err(e@),
            },
        ),
{
    match parsed {
        Ok(value) => classify_value(value),
        Err(err) => {
            let mut message = "invalid agent output: ".to_string();
            push_str(&mut message, err.as_str());
            AgentEvent::Error { message }
        },
    }
}

/// Classifies one line of agent stdout. Unrecognized shapes pass
/// through as `AgentEvent::Raw`; text that is not JSON becomes an `Error`.
pub fn parse_line(line: &str) -> (r: AgentEvent)
    ensures
        r@ == event_of(json_parse(line@)),
{
    classify_parsed(parse_json(line))
}

/// The stdout line's event: blank lines carry none; any other line is
/// trimmed and classified.
pub open spec fn stdout_event_of(line: Seq<char>) -> Option<EventView> {
    if trimmed(line).len() == 0 {
        None
    } else {
        Some(event_of(json_parse(trimmed(line))))
    }
}

/// What the agent's stdout pump makes of one line: `None` for a blank line,
/// otherwise the event of the trimmed line.
pub fn stdout_event(line: &str) -> (r: Option<AgentEvent>)
    ensures
        match r {
            Some(e) => stdout_event_of(line@) == Some(e@),
            None => stdout_event_of(line@) is None,
        },
{
    let t = trim_chars(&chars_of(line));
    if t.len() == 0 {
        None
    } else {
        let text = string_of(&t);
        Some(parse_line(text.as_str()))
    }
}

/// The first line of `ls` that is not blank, trimmed; empty when all are.
pub open spec fn first_nonblank(ls: Seq<Seq<char>>) -> Seq<char>
    decreases ls.len(),
{
    if ls.len() == 0 {
        Seq::empty()
    } else if trimmed(ls[0]).len() > 0 {
        trimmed(ls[0])
    } else {
        first_nonblank(ls.drop_first())
    }
}

/// The commit message in an agent's reply: its first non-blank line, without
/// surrounding quotes or whitespace.
pub open spec fn cleaned_message(text: Seq<char>) -> Seq<char> {
    trimmed(trim_by(first_nonblank(lines(text)), quote_pred()))
}

proof fn lemma_first_nonblank_piece(ls: Seq<Seq<char>>, s: Seq<char>)
    requires
        forall|i: int|
            0 <= i < ls.len() ==> is_piece(#[trigger] ls[i], s) && forall|j: int|
                0 <= j < ls[i].len() ==> ls[i][j] != '\n',
    ensures
        is_piece(first_nonblank(ls), s),
        forall|j: int| 0 <= j < first_nonblank(ls).len() ==> #[trigger] first_nonblank(ls)[j] != '\n',
    decreases ls.len(),
{
    if ls.len() == 0 {
        assert(s.subrange(0, 0) =~= first_nonblank(ls));
    } else if trimmed(ls[0]).len() > 0 {
        lemma_trimmed_piece(ls[0]);
        lemma_piece_trans(trimmed(ls[0]), ls[0], s);
        assert forall|j: int| 0 <= j < ls[0].len() implies #[trigger] ls[0][j] != '\n' by {}
        lemma_piece_chars(trimmed(ls[0]), ls[0], '\n');
    } else {
        let rest = ls.drop_first();
        assert forall|i: int|
            0 <= i < rest.len() implies is_piece(#[trigger] rest[i], s) && forall|j: int|
                0 <= j < rest[i].len() ==> rest[i][j] != '\n' by {
            assert(rest[i] == ls[i + 1]);
        }
        lemma_first_nonblank_piece(rest, s);
    }
}

/// The commit message taken from an agent's reply holds no line break and
/// is a contiguous piece of the reply.
pub proof fn lemma_cleaned_message_piece(text: Seq<char>)
    ensures
        is_piece(cleaned_message(text), text),
        forall|j: int|
            0 <= j < cleaned_message(text).len() ==> #[trigger] cleaned_message(text)[j] != '\n',
{
    lemma_lines_pieces(text);
    lemma_first_nonblank_piece(lines(text), text);
    let f = first_nonblank(lines(text));
    let q = trim_by(f, quote_pred());
    lemma_trim_by_piece(f, quote_pred());
    lemma_trimmed_piece(q);
    lemma_piece_trans(q, f, text);
    lemma_piece_trans(trimmed(q), q, text);
    lemma_piece_chars(q, f, '\n');
    lemma_piece_chars(trimmed(q), q, '\n');
}

/// The first non-empty line of `text`, stripped of surrounding quotes.
pub fn clean_message(text: &str) -> (r: String)
    ensures
        r@ == cleaned_message(text@),
{
    let chars = chars_of(text);
    let n = chars.len();
    let mut start: usize = 0;
    let mut found: Vec<char> = Vec::new();
    assert(chars@.subrange(0, n as int) =~= chars@);
    loop
        invariant_except_break
            first_nonblank(lines(text@)) == first_nonblank(
                lines(chars@.subrange(start as int, n as int)),
            ),
            found@.len() == 0,
        invariant
            start <= n == chars.len(),
            chars@ == text@,
        ensures
            first_nonblank(lines(text@)) == found@,
        decreases n - start,
    {
        if start == n {
            assert(chars@.subrange(start as int, n as int) =~= Seq::<char>::empty());
            assert(found@ =~= Seq::<char>::empty());
            break;
        }
        let stop = find_newline(&chars, start);
        proof {
            lemma_newline_split(chars@, start as int, stop as int);
        }
        let line = copy_range(&chars, start, stop);
        let ghost sub = chars@.subrange(start as int, n as int);
        assert(lines(sub) == if stop < n {
            seq![line@] + lines(chars@.subrange(stop + 1, n as int))
        } else {
            seq![line@]
        });
        let t = trim_chars(&line);
        if t.len() > 0 {
            found = t;
            break;
        }
        if stop == n {
            assert(lines(sub)[0] == line@);
            assert(lines(sub).drop_first() =~= Seq::<Seq<char>>::empty());
            assert(first_nonblank(lines(sub)) == first_nonblank(lines(sub).drop_first()));
            break;
        }
        assert(lines(sub).drop_first() =~= lines(chars@.subrange(stop + 1, n as int)));
        start = stop + 1;
    }
    let unquoted = trim_quotes(&found);
    string_of(&trim_chars(&unquoted))
}

/// The instruction that opens the commit-message prompt.
pub const COMMIT_INSTRUCTION: &'static str = "Write a single-line git commit message in the conventional-commits style (for example \"feat: ...\" or \"fix: ...\") summarizing the change below. Reply with ONLY the message — no quotes, no body, no explanation.\n";

/// The most characters of changed-file content the prompt carries.
pub const PROMPT_BODY_MAX: usize = 8000;

/// The word a file's status is described by in the prompt.
pub open spec fn verb_of(status: FileStatus) -> Seq<char> {
    match status {
        FileStatus::Added => "added"@,
        FileStatus::Modified => "modified"@,
        FileStatus::Deleted => "deleted"@,
    }
}

/// A file's section of the prompt: a header naming it, then its new content
/// unless it was deleted.
pub open spec fn file_section(file: FileDiff) -> Seq<char> {
    let header = "\n=== "@ + verb_of(file.status) + ": "@ + file.path@ + " ===\n"@;
    if file.status != FileStatus::Deleted {
        (header + file.new_text@).push('\n')
    } else {
        header
    }
}

/// The sections of every file, in order.
pub open spec fn prompt_body(files: Seq<FileDiff>) -> Seq<char>
    decreases files.len(),
{
    if files.len() == 0 {
        Seq::empty()
    } else {
        prompt_body(files.drop_last()) + file_section(files.last())
    }
}

/// The one-shot commit-message prompt for `files`.
pub open spec fn commit_prompt(files: Seq<FileDiff>) -> Seq<char> {
    COMMIT_INSTRUCTION@ + take_at_most(prompt_body(files), PROMPT_BODY_MAX as nat)
}

fn verb(status: FileStatus) -> (r: &'static str)
    ensures
        r@ == verb_of(status),
{
    match status {
        FileStatus::Added => "added",
        FileStatus::Modified => "modified",
        FileStatus::Deleted => "deleted",
    }
}

/// Builds the one-shot prompt: an instruction plus a capped dump of the
/// changed files and their new content.
pub fn build_commit_prompt(files: &[FileDiff]) -> (r: String)
    ensures
        r@ == commit_prompt(files@),
{
    let mut body = String::new();
    let mut i: usize = 0;
    while i < files.len()
        invariant
            i <= files.len(),
            body@ == prompt_body(files@.subrange(0, i as int)),
        decreases files.len() - i,
    {
        let file = &files[i];
        let ghost before = body@;
        push_str(&mut body, "\n=== ");
        push_str(&mut body, verb(file.status));
        push_str(&mut body, ": ");
        push_str(&mut body, file.path.as_str());
        push_str(&mut body, " ===\n");
        if file.status != FileStatus::Deleted {
            push_str(&mut body, file.new_text.as_str());
            push_char(&mut body, '\n');
        }
        proof {
            let f = files@[i as int];
            assert(files@.subrange(0, i as int + 1).drop_last() =~= files@.subrange(0, i as int));
            assert(files@.subrange(0, i as int + 1).last() == f);
            if f.status != FileStatus::Deleted {
                assert(body@ =~= before + file_section(f));
            } else {
                assert(body@ =~= before + file_section(f));
            }
        }
        i += 1;
    }
    assert(files@.subrange(0, files.len() as int) =~= files@);
    let capped = take_chars(&chars_of(body.as_str()), PROMPT_BODY_MAX);
    let mut prompt = COMMIT_INSTRUCTION.to_string();
    push_chars(&mut prompt, &capped);
    prompt
}

/// The commit message `generate_commit_message` settles on: the agent's
/// cleaned reply when it gave a non-empty one, otherwise `fallback`.
pub fn chosen_commit_message(reply: Option<String>, fallback: &str) -> (r: String)
    ensures
        r@ == match reply {
            Some(m) => if m@.len() > 0 {
                m@
            } else {
                fallback@
            },
            None => fallback@,
        },
{
    match reply {
        Some(m) => if m.as_str().is_empty() {
            fallback.to_string()
        } else {
            m
        },
        None => fallback.to_string(),
    }
}

/// Whether `entry` is the member `key` holding the JSON string `text`.
pub open spec fn is_string_member(entry: (String, JsonValue), key: Seq<char>, text: Seq<char>) -> bool {
    &&& entry.0@ == key
    &&& entry.1 matches JsonValue::String(s) && s@ == text
}

/// Whether `v` is the envelope of a user message:
/// `{"message":{"content":<text>,"role":"user"},"type":"user"}`.
pub open spec fn is_user_envelope(v: JsonValue, text: Seq<char>) -> bool {
    &&& v matches JsonValue::Object(entries)
    &&& entries@.len() == 2
    &&& entries@[0].0@ == "message"@
    &&& entries@[0].1 matches JsonValue::Object(inner)
    &&& inner@.len() == 2
    &&& is_string_member(inner@[0], "content"@, text)
    &&& is_string_member(inner@[1], "role"@, "user"@)
    &&& is_string_member(entries@[1], "type"@, "user"@)
}

/// Builds the envelope of a user message.
pub fn user_envelope(text: &str) -> (v: JsonValue)
    ensures
        is_user_envelope(v, text@),
{
    let mut inner: Vec<(String, JsonValue)> = Vec::new();
    inner.push(("content".to_string(), JsonValue::String(text.to_string())));
    inner.push(("role".to_string(), JsonValue::String("user".to_string())));
    let mut entries: Vec<(String, JsonValue)> = Vec::new();
    entries.push(("message".to_string(), JsonValue::Object(inner)));
    entries.push(("type".to_string(), JsonValue::String("user".to_string())));
    JsonValue::Object(entries)
}

/// Frames a user message as one stream-json line for the agent's stdin: the
/// envelope's JSON text, as serde_json writes it, and a newline.
pub fn user_message_line(text: &str) -> (r: String)
    ensures
        exists|v: JsonValue| is_user_envelope(v, text@) && r@ == json_text(v).push('\n'),
{
    let envelope = user_envelope(text);
    let mut line = write_json(&envelope);
    push_char(&mut line, '\n');
    line
}

/// The flags the agent CLI runs with: bidirectional stream-json, verbose output,
/// edits accepted, and `--resume <id>` when reattaching to a session.
pub open spec fn claude_args_of(resume: Option<Seq<char>>) -> Seq<Seq<char>> {
    let base = seq![
        "--input-format"@,
        "stream-json"@,
        "--output-format"@,
        "stream-json"@,
        "--verbose"@,
        "--permission-mode"@,
        "acceptEdits"@,
    ];
    match resume {
        Some(id) => base + seq!["--resume"@, id],
        None => base,
    }
}

/// The argv (after the program) that the agent CLI is started with.
pub fn claude_args(resume: Option<&str>) -> (r: Vec<String>)
    ensures
        r@.map_values(|s: String| s@) == claude_args_of(
            match resume {
                Some(id) => Some(id@),
                None => None,
            },
        ),
{
    let mut args: Vec<String> = Vec::new();
    args.push("--input-format".to_string());
    args.push("stream-json".to_string());
    args.push("--output-format".to_string());
    args.push("stream-json".to_string());
    args.push("--verbose".to_string());
    args.push("--permission-mode".to_string());
    args.push("acceptEdits".to_string());
    if let Some(id) = resume {
        args.push("--resume".to_string());
        args.push(id.to_string());
    }
    assert(args@.map_values(|s: String| s@) =~= claude_args_of(
        match resume {
            Some(id) => Some(id@),
            None => None,
        },
    ));
    args
}

/// Only an `init` system event starts a session, and it carries the
/// event's own `session_id`; every other `system` event — another subtype,
/// or no string session id — passes through unchanged as raw.
pub proof fn lemma_system_events(value: JsonValue)
    ensures
        event_of_value(value) matches EventView::SessionStarted { session_id } ==> {
            &&& str_of(member(value, "type"@)) == Some("system"@)
            &&& str_of(member(value, "subtype"@)) == Some("init"@)
            &&& str_of(member(value, "session_id"@)) == Some(session_id)
        },
        str_of(member(value, "type"@)) == Some("system"@) ==> {
            &&& (str_of(member(value, "subtype"@)) == Some("init"@) && str_of(
                member(value, "session_id"@),
            ) is Some) ==> event_of_value(value) == (EventView::SessionStarted {
                session_id: str_of(member(value, "session_id"@))->0,
            })
            &&& !(str_of(member(value, "subtype"@)) == Some("init"@) && str_of(
                member(value, "session_id"@),
            ) is Some) ==> event_of_value(value) == (EventView::Raw { payload: value })
        },
{
    reveal_strlit("system");
    reveal_strlit("assistant");
    reveal_strlit("result");
    assert("system"@ != "assistant"@) by {
        assert("system"@[0] != "assistant"@[0]);
    }
    assert("system"@ != "result"@) by {
        assert("system"@[0] != "result"@[0]);
    }
    if let EventView::SessionStarted { session_id } = event_of_value(value) {
        let kind = str_of(member(value, "type"@));
        if kind == Some("assistant"@) {
            lemma_assistant_never_starts(value);
        }
    }
}

/// An assistant message never yields a session start.
proof fn lemma_assistant_never_starts(value: JsonValue)
    ensures
        !(assistant_event(value) is SessionStarted),
{
}

/// The header a file's section of the commit prompt opens with.
pub open spec fn section_header(file: FileDiff) -> Seq<char> {
    "\n=== "@ + verb_of(file.status) + ": "@ + file.path@ + " ===\n"@
}

/// The dump of several files is the dump of each in turn: for `a` then
/// `b`, the sections of `a` followed by those of `b`.
pub proof fn lemma_prompt_body_append(a: Seq<FileDiff>, b: Seq<FileDiff>)
    ensures
        prompt_body(a + b) == prompt_body(a) + prompt_body(b),
    decreases b.len(),
{
    if b.len() == 0 {
        assert(a + b =~= a);
        assert(prompt_body(a) + prompt_body(b) =~= prompt_body(a));
    } else {
        assert((a + b).drop_last() =~= a + b.drop_last());
        assert((a + b).last() == b.last());
        lemma_prompt_body_append(a, b.drop_last());
        assert(prompt_body(a) + (prompt_body(b.drop_last()) + file_section(b.last())) =~= (
        prompt_body(a) + prompt_body(b.drop_last())) + file_section(b.last()));
    }
}

/// Each file's section opens with its header and, unless the file was
/// deleted, holds the file's new text right after it.
pub proof fn lemma_file_section_header(file: FileDiff)
    ensures
        file_section(file).len() >= section_header(file).len(),
        file_section(file).subrange(0, section_header(file).len() as int) == section_header(file),
        file.status != FileStatus::Deleted ==> file_section(file).subrange(
            section_header(file).len() as int,
            (section_header(file).len() + file.new_text@.len()) as int,
        ) == file.new_text@,
{
    let h = section_header(file);
    if file.status != FileStatus::Deleted {
        assert(file_section(file) == (h + file.new_text@).push('\n'));
        assert(file_section(file).subrange(0, h.len() as int) =~= h);
        assert(file_section(file).subrange(h.len() as int, (h.len() + file.new_text@.len()) as int)
            =~= file.new_text@);
    } else {
        assert(file_section(file).subrange(0, h.len() as int) =~= h);
    }
}

/// The commit prompt is the instruction followed by the first
/// `min(len, PROMPT_BODY_MAX)` characters of the full dump — a prefix, so
/// for a non-empty change it opens with the first file's section header.
pub proof fn lemma_commit_prompt_prefix(files: Seq<FileDiff>)
    ensures
        commit_prompt(files).len() == COMMIT_INSTRUCTION@.len() + if prompt_body(files).len()
            <= PROMPT_BODY_MAX {
            prompt_body(files).len()
        } else {
            PROMPT_BODY_MAX as nat
        },
        commit_prompt(files).subrange(0, COMMIT_INSTRUCTION@.len() as int) == COMMIT_INSTRUCTION@,
        forall|i: int|
            0 <= i < commit_prompt(files).len() - COMMIT_INSTRUCTION@.len() ==> #[trigger] commit_prompt(
                files,
            )[COMMIT_INSTRUCTION@.len() + i] == prompt_body(files)[i],
        files.len() > 0 ==> prompt_body(files).subrange(
            0,
            file_section(files[0]).len() as int,
        ) == file_section(files[0]),
{
    let instr = COMMIT_INSTRUCTION@;
    let body = prompt_body(files);
    let cut = take_at_most(body, PROMPT_BODY_MAX as nat);
    assert(commit_prompt(files).subrange(0, instr.len() as int) =~= instr);
    assert forall|i: int| 0 <= i < commit_prompt(files).len() - instr.len() implies #[trigger] commit_prompt(
        files,
    )[instr.len() + i] == body[i] by {
        assert(commit_prompt(files)[instr.len() + i] == cut[i]);
    }
    if files.len() > 0 {
        let first = seq![files[0]];
        assert(first + files.drop_first() =~= files);
        lemma_prompt_body_append(first, files.drop_first());
        assert(first.drop_last() =~= Seq::<FileDiff>::empty());
        assert(prompt_body(first.drop_last()) == Seq::<char>::empty());
        assert(first.last() == files[0]);
        assert(prompt_body(first) == Seq::<char>::empty() + file_section(files[0]));
        assert(prompt_body(first) =~= file_section(files[0]));
        assert(body.subrange(0, file_section(files[0]).len() as int) =~= file_section(files[0]));
    }
}

} // verus!
