//! Message types and mention helpers for the Constellation protocol.
//!
//! This module defines the core data structures for sending and receiving messages,
//! structured tasks, and constellation metadata. It also provides utilities for
//! parsing @-mentions from message bodies and formatting HTML mention links.

use vstd::prelude::*;

use crate::text::{chars_of, push_char};
use crate::utils::{html_escape, html_escaped, is_markup_char, lemma_html_escaped_has_no_markup};

verus! {

/// Makes `serde_json::Value` known to Verus as an opaque type, carried in
/// payload fields and never looked into.
#[verifier::external_type_specification]
#[verifier::external_body]
pub struct ExJsonValue(serde_json::Value);

/// `<serde_json::Value as Clone>::clone`.
/// Claimed: the copy is the same value; `Value` derives `Clone`, which
/// copies every variant field by field.
pub assume_specification[ <serde_json::Value as Clone>::clone ](v: &serde_json::Value) -> (res: serde_json::Value)
    ensures
        res == *v,
;

/// A copy of an optional string.
pub(crate) fn copy_opt_text(v: &Option<String>) -> (res: Option<String>)
    ensures
        res == *v,
{
    match v {
        Some(s) => Some(s.clone()),
        None => None,
    }
}

/// Priority level for tasks, from lowest to highest urgency.
#[derive(Debug, Clone, Copy, PartialEq, Eq, Structural)]
pub enum Priority {
    Low,
    Normal,
    High,
    Critical,
}

impl Default for Priority {
    fn default() -> (res: Self)
        ensures
            res == Priority::Normal,
    {
        Priority::Normal
    }
}

/// Status of a task through its lifecycle.
#[derive(Debug, Clone, Copy, PartialEq, Eq, Structural)]
pub enum TaskStatus {
    Pending,
    InProgress,
    Completed,
    Failed,
}

/// The `ai.constellation.metadata` block embedded in Matrix message event content.
///
/// This structured metadata enables machine-readable task routing alongside
/// the human-readable message body and HTML @-mentions.
#[derive(Debug, Clone)]
pub struct ConstellationMetadata {
    /// Unique identifier of the task.
    pub task_id: String,
    /// The type/category of the task (e.g. "analysis", "code-review").
    pub task_type: String,
    /// Arbitrary JSON payload with task-specific data.
    pub payload: serde_json::Value,
    /// Priority level for task scheduling.
    pub priority: Priority,
    /// If this is a reply to another task, that task's ID.
    pub reply_to_task: Option<String>,
    /// Thread ID for grouping related tasks together.
    pub thread_id: Option<String>,
}

/// An outgoing message to be sent to a room.
#[derive(Debug, Clone)]
pub struct Message {
    /// The plain-text body of the message.
    pub body: String,
    /// Optional constellation metadata to embed in the event content.
    pub metadata: Option<ConstellationMetadata>,
}

impl Message {
    /// Create a plain text message with no metadata.
    pub fn text(body: &str) -> (res: Self)
        ensures
            res.body@ == body@,
            res.metadata is None,
    {
        Message { body: String::from_str(body), metadata: None }
    }

    /// Attach [`ConstellationMetadata`] to this message (builder pattern).
    pub fn with_metadata(self, metadata: ConstellationMetadata) -> (res: Self)
        ensures
            res.body == self.body,
            res.metadata == Some(metadata),
    {
        let mut msg = self;
        msg.metadata = Some(metadata);
        msg
    }
}

/// Event received when this agent is @-mentioned in a message.
#[derive(Debug, Clone)]
pub struct MentionEvent {
    /// The Matrix user ID of the sender (e.g. `@agent-a:constellation.local`).
    pub sender: String,
    /// The room ID where the mention occurred.
    pub room_id: String,
    /// The plain-text body of the message.
    pub body: String,
    /// Parsed constellation metadata, if the message included it.
    pub metadata: Option<ConstellationMetadata>,
    /// All agent user IDs mentioned in this message.
    pub mentioned_agents: Vec<String>,
}

/// Event received for any message in a joined room.
#[derive(Debug, Clone)]
pub struct MessageEvent {
    /// The Matrix user ID of the sender.
    pub sender: String,
    /// The room ID where the message was sent.
    pub room_id: String,
    /// The plain-text body of the message.
    pub body: String,
    /// The full event as a JSON value for access to all fields.
    pub raw_event: serde_json::Value,
}

/// Event received when a structured task message arrives.
///
/// Only fires for messages containing valid `ai.constellation.metadata`.
#[derive(Debug, Clone)]
pub struct TaskEvent {
    /// The Matrix user ID of the sender.
    pub sender: String,
    /// The room ID where the task was sent.
    pub room_id: String,
    /// The unique task identifier from the metadata.
    pub task_id: String,
    /// The task type/category from the metadata.
    pub task_type: String,
    /// The task payload from the metadata.
    pub payload: serde_json::Value,
    /// The task priority from the metadata.
    pub priority: Priority,
}

/// The text form of a UUID: 36 characters, lowercase hexadecimal digits
/// with `-` at positions 8, 13, 18 and 23.
pub open spec fn is_hyphenated_uuid(s: Seq<char>) -> bool {
    &&& s.len() == 36
    &&& forall|i: int| 0 <= i < 36 ==> (#[trigger] s[i] == '-' <==> (i == 8 || i == 13 || i == 18 || i == 23))
    &&& forall|i: int| 0 <= i < 36 && s[i] != '-' ==> crate::utils::is_lower_hex_digit(#[trigger] s[i])
}

/// A fresh random (version 4) UUID in its hyphenated text form:
/// `uuid::Uuid::new_v4()` formatted by its `Display` impl.
/// Claimed, as the `uuid` source shows (`format_hyphenated` with lowercase
/// digits): the text has the shape `is_hyphenated_uuid`. Which digits come
/// out is left open: they come from a random source.
#[verifier::external_body]
fn random_uuid_text() -> (res: String)
    ensures
        is_hyphenated_uuid(res@),
{
    uuid::Uuid::new_v4().to_string()
}

/// A fresh task ID: the text of a random UUID.
pub fn generate_task_id() -> (res: String)
    ensures
        is_hyphenated_uuid(res@),
{
    random_uuid_text()
}

/// A task to be created and sent to a room.
///
/// Use the builder methods to configure the task before passing it to
/// the agent's `create_task`.
#[derive(Debug, Clone)]
pub struct Task {
    /// Unique task identifier (a random UUID unless specified).
    pub id: String,
    /// The type/category of the task.
    pub task_type: String,
    /// Arbitrary JSON payload with task-specific data.
    pub payload: serde_json::Value,
    /// Priority level for task scheduling.
    pub priority: Priority,
    /// The ID of the task that the task replies to, if any.
    pub reply_to_task: Option<String>,
    /// Thread ID for grouping related tasks.
    pub thread_id: Option<String>,
}

impl Task {
    /// Create a new task with a type and payload. A UUID is generated automatically.
    pub fn new(task_type: &str, payload: serde_json::Value) -> (res: Self)
        ensures
            is_hyphenated_uuid(res.id@),
            res.task_type@ == task_type@,
            res.payload == payload,
            res.priority == Priority::Normal,
            res.reply_to_task is None,
            res.thread_id is None,
    {
        Task {
            id: generate_task_id(),
            task_type: String::from_str(task_type),
            payload,
            priority: Priority::Normal,
            reply_to_task: None,
            thread_id: None,
        }
    }

    /// Set the priority level (builder pattern).
    pub fn with_priority(self, priority: Priority) -> (res: Self)
        ensures
            res == (Task { priority, ..self }),
    {
        let mut task = self;
        task.priority = priority;
        task
    }

    /// Set the thread ID for grouping related tasks (builder pattern).
    pub fn with_thread(self, thread_id: &str) -> (res: Self)
        ensures
            res.thread_id matches Some(t) && t@ == thread_id@,
            res.id == self.id,
            res.task_type == self.task_type,
            res.payload == self.payload,
            res.priority == self.priority,
            res.reply_to_task == self.reply_to_task,
    {
        let mut task = self;
        task.thread_id = Some(String::from_str(thread_id));
        task
    }

    /// Mark the task as a reply to another task (builder pattern).
    pub fn replying_to(self, task_id: &str) -> (res: Self)
        ensures
            res.reply_to_task matches Some(t) && t@ == task_id@,
            res.id == self.id,
            res.task_type == self.task_type,
            res.payload == self.payload,
            res.priority == self.priority,
            res.thread_id == self.thread_id,
    {
        let mut task = self;
        task.reply_to_task = Some(String::from_str(task_id));
        task
    }

    /// Convert the task into [`ConstellationMetadata`] for embedding in a message.
    pub fn to_metadata(&self) -> (res: ConstellationMetadata)
        ensures
            res.task_id == self.id,
            res.task_type == self.task_type,
            res.payload == self.payload,
            res.priority == self.priority,
            res.reply_to_task == self.reply_to_task,
            res.thread_id == self.thread_id,
    {
        ConstellationMetadata {
            task_id: self.id.clone(),
            task_type: self.task_type.clone(),
            payload: self.payload.clone(),
            priority: self.priority,
            reply_to_task: copy_opt_text(&self.reply_to_task),
            thread_id: copy_opt_text(&self.thread_id),
        }
    }
}

/// The result of completing a task, sent back to the originating room.
#[derive(Debug, Clone)]
pub struct TaskResult {
    /// The ID of the task being completed.
    pub task_id: String,
    /// Whether the task completed successfully or failed.
    pub status: TaskStatus,
    /// Arbitrary JSON result data.
    pub result_data: serde_json::Value,
}

impl TaskResult {
    /// Create a successful task result.
    pub fn success(task_id: &str, data: serde_json::Value) -> (res: Self)
        ensures
            res.task_id@ == task_id@,
            res.status == TaskStatus::Completed,
            res.result_data == data,
    {
        TaskResult { task_id: String::from_str(task_id), status: TaskStatus::Completed, result_data: data }
    }

    /// Create a failed task result.
    pub fn failure(task_id: &str, data: serde_json::Value) -> (res: Self)
        ensures
            res.task_id@ == task_id@,
            res.status == TaskStatus::Failed,
            res.result_data == data,
    {
        TaskResult { task_id: String::from_str(task_id), status: TaskStatus::Failed, result_data: data }
    }
}


// ---------------------------------------------------------------------------
// Mention helpers
// ---------------------------------------------------------------------------

/// What `char::is_alphanumeric` answers for `c` (Unicode `Alphabetic` or
/// `Numeric`), for characters outside ASCII.
pub uninterp spec fn char_is_alphanumeric(c: char) -> bool;

/// An ASCII letter or digit.
pub open spec fn is_ascii_alphanumeric(c: char) -> bool {
    ('a' <= c && c <= 'z') || ('A' <= c && c <= 'Z') || ('0' <= c && c <= '9')
}

/// Whether `c` is alphanumeric: for ASCII exactly the letters and digits,
/// beyond ASCII as Unicode says.
pub open spec fn is_alphanumeric_char(c: char) -> bool {
    if (c as u32) < 128 {
        is_ascii_alphanumeric(c)
    } else {
        char_is_alphanumeric(c)
    }
}

/// `char::is_alphanumeric`.
/// Claimed: for ASCII characters the answer is true exactly of letters and
/// digits, as std documents; for other characters it is a function of `c`
/// alone, named `char_is_alphanumeric`. The Unicode tables that decide it
/// are not stated.
#[verifier::external_body]
fn is_alphanumeric(c: char) -> (res: bool)
    ensures
        res == is_alphanumeric_char(c),
        (c as u32) >= 128 ==> res == char_is_alphanumeric(c),
{
    c.is_alphanumeric()
}

/// A character that a mention's localpart may hold.
pub open spec fn is_mention_localpart_char(c: char) -> bool {
    is_alphanumeric_char(c) || c == '-' || c == '_' || c == '.'
}

/// A character that a mention's server name may hold.
pub open spec fn is_mention_server_char(c: char) -> bool {
    is_alphanumeric_char(c) || c == '.' || c == '-'
}

/// An ASCII decimal digit.
pub open spec fn is_ascii_digit(c: char) -> bool {
    '0' <= c && c <= '9'
}

/// The end of the run of characters of `s` from `i` on that satisfy `p`.
pub open spec fn run_end(s: Seq<char>, i: int, p: spec_fn(char) -> bool) -> int
    decreases s.len() - i,
{
    if 0 <= i < s.len() && p(s[i]) {
        run_end(s, i + 1, p)
    } else {
        i
    }
}

/// A run that starts at `i` ends at or after `i`, within `s`, at a
/// character that fails `p`.
pub proof fn lemma_run_end_bounds(s: Seq<char>, i: int, p: spec_fn(char) -> bool)
    requires
        0 <= i,
    ensures
        i <= run_end(s, i, p),
        i <= s.len() ==> run_end(s, i, p) <= s.len(),
        run_end(s, i, p) < s.len() ==> !p(s[run_end(s, i, p)]),
    decreases s.len() - i,
{
    if 0 <= i < s.len() && p(s[i]) {
        lemma_run_end_bounds(s, i + 1, p);
    }
}

/// For an `@` at `start`, the end of the mention that begins there:
/// `@`, a localpart, `:`, a server name, and a port `:digits` when digits
/// follow the second colon. `None` when no `:` follows the localpart.
pub open spec fn mention_end(s: Seq<char>, start: int) -> Option<int> {
    let j = run_end(s, start + 1, |c: char| is_mention_localpart_char(c));
    if j < s.len() && s[j] == ':' {
        let k = run_end(s, j + 1, |c: char| is_mention_server_char(c));
        if k < s.len() && s[k] == ':' {
            let d = run_end(s, k + 1, |c: char| is_ascii_digit(c));
            if d == k + 1 {
                Some(k)
            } else {
                Some(d)
            }
        } else {
            Some(k)
        }
    } else {
        None
    }
}

/// Whether the candidate mention at `start` has a non-empty localpart and a
/// non-empty server name.
pub open spec fn mention_is_complete(s: Seq<char>, start: int) -> bool {
    let j = run_end(s, start + 1, |c: char| is_mention_localpart_char(c));
    let k = run_end(s, j + 1, |c: char| is_mention_server_char(c));
    j > start + 1 && k > j + 1
}

/// The mentions found by scanning `s` from position `i` on, left to right.
/// A candidate mention is kept when both its localpart and its server name
/// are non-empty (`@x:y` at least); the scan goes on after it either way. After an `@` with no `:` behind its localpart
/// the scan goes on after the localpart.
pub open spec fn mentions_from(s: Seq<char>, i: int) -> Seq<Seq<char>>
    decreases s.len() - i,
{
    if i < 0 || i >= s.len() {
        Seq::empty()
    } else if s[i] == '@' {
        proof {
            lemma_run_end_bounds(s, i + 1, |c: char| is_mention_localpart_char(c));
        }
        match mention_end(s, i) {
            Some(e) => {
                proof {
                    lemma_mention_end_bounds(s, i);
                }
                let m = s.subrange(i, e);
                (if mention_is_complete(s, i) {
                    seq![m]
                } else {
                    Seq::empty()
                }) + mentions_from(s, e)
            },
            None => mentions_from(s, run_end(s, i + 1, |c: char| is_mention_localpart_char(c))),
        }
    } else {
        mentions_from(s, i + 1)
    }
}

/// A mention ends at least two characters after its `@`, within `s`.
pub proof fn lemma_mention_end_bounds(s: Seq<char>, start: int)
    requires
        0 <= start < s.len(),
    ensures
        mention_end(s, start) matches Some(e) ==> start + 2 <= e <= s.len(),
{
    let j = run_end(s, start + 1, |c: char| is_mention_localpart_char(c));
    lemma_run_end_bounds(s, start + 1, |c: char| is_mention_localpart_char(c));
    if j < s.len() && s[j] == ':' {
        let k = run_end(s, j + 1, |c: char| is_mention_server_char(c));
        lemma_run_end_bounds(s, j + 1, |c: char| is_mention_server_char(c));
        if k < s.len() && s[k] == ':' {
            lemma_run_end_bounds(s, k + 1, |c: char| is_ascii_digit(c));
        }
    }
}

/// The mentions in a message body, in order.
pub open spec fn mentions_in(body: Seq<char>) -> Seq<Seq<char>> {
    mentions_from(body, 0)
}

/// Mention number `k` found from `i` on is a piece of `s` at or after `i`
/// that starts with `@`.
pub proof fn lemma_mention_is_piece(s: Seq<char>, i: int, k: int)
    requires
        0 <= i,
        0 <= k < mentions_from(s, i).len(),
    ensures
        exists|a: int, b: int|
            #![trigger s.subrange(a, b)]
            i <= a < b <= s.len() && s[a] == '@' && mentions_from(s, i)[k] == s.subrange(a, b),
    decreases s.len() - i,
{
    if i < s.len() {
        if s[i] == '@' {
            lemma_run_end_bounds(s, i + 1, |c: char| is_mention_localpart_char(c));
            lemma_mention_end_bounds(s, i);
            match mention_end(s, i) {
                Some(e) => {
                    let m = s.subrange(i, e);
                    let head: Seq<Seq<char>> = if mention_is_complete(s, i) {
                        seq![m]
                    } else {
                        Seq::empty()
                    };
                    let rest = mentions_from(s, e);
                    assert(mentions_from(s, i) == head + rest);
                    if k < head.len() {
                        assert(mentions_from(s, i)[k] == s.subrange(i, e));
                    } else {
                        lemma_mention_is_piece(s, e, k - head.len());
                        assert(mentions_from(s, i)[k] == rest[k - head.len()]);
                    }
                },
                None => {
                    let j = run_end(s, i + 1, |c: char| is_mention_localpart_char(c));
                    assert(mentions_from(s, i) == mentions_from(s, j));
                    lemma_mention_is_piece(s, j, k);
                },
            }
        } else {
            assert(mentions_from(s, i) == mentions_from(s, i + 1));
            lemma_mention_is_piece(s, i + 1, k);
        }
    }
}

/// Every character of `s` from `i` up to the end of its run satisfies `p`.
proof fn lemma_run_end_all(s: Seq<char>, i: int, p: spec_fn(char) -> bool)
    requires
        0 <= i,
    ensures
        forall|t: int| i <= t < run_end(s, i, p) ==> #[trigger] p(s[t]),
    decreases s.len() - i,
{
    if 0 <= i < s.len() && p(s[i]) {
        lemma_run_end_all(s, i + 1, p);
    }
}

/// `m` is `@`, a non-empty run of localpart characters, the `:` at `colon`,
/// a non-empty run of server-name characters up to `port`, and then either
/// nothing (`port` is the end) or `:` followed by at least one ASCII digit.
pub open spec fn mention_shape_at(m: Seq<char>, colon: int, port: int) -> bool {
    &&& 2 <= colon
    &&& colon + 2 <= port <= m.len()
    &&& m[0] == '@'
    &&& m[colon] == ':'
    &&& forall|t: int| 1 <= t < colon ==> is_mention_localpart_char(#[trigger] m[t])
    &&& forall|t: int| colon < t < port ==> is_mention_server_char(#[trigger] m[t])
    &&& (port == m.len() || {
        &&& port + 2 <= m.len()
        &&& m[port] == ':'
        &&& forall|t: int| port < t < m.len() ==> is_ascii_digit(#[trigger] m[t])
    })
}

/// Whether `m` has the shape of a mention: `@localpart:server`, with a
/// non-empty localpart and a non-empty server name, and optionally
/// `:digits` after it.
pub open spec fn is_mention_shape(m: Seq<char>) -> bool {
    exists|colon: int, port: int| #[trigger] mention_shape_at(m, colon, port)
}

/// Every mention found from `i` on has the shape of a mention: `@`, a
/// non-empty localpart of localpart characters, `:`, a non-empty server name
/// of server-name characters, and optionally `:` and one or more digits.
pub proof fn lemma_mention_has_shape(s: Seq<char>, i: int, k: int)
    requires
        0 <= i,
        0 <= k < mentions_from(s, i).len(),
    ensures
        is_mention_shape(mentions_from(s, i)[k]),
    decreases s.len() - i,
{
    let local = |c: char| is_mention_localpart_char(c);
    let server = |c: char| is_mention_server_char(c);
    let digit = |c: char| is_ascii_digit(c);
    if i < s.len() {
        if s[i] == '@' {
            lemma_run_end_bounds(s, i + 1, local);
            lemma_mention_end_bounds(s, i);
            match mention_end(s, i) {
                Some(e) => {
                    let m = s.subrange(i, e);
                    let head: Seq<Seq<char>> = if mention_is_complete(s, i) {
                        seq![m]
                    } else {
                        Seq::empty()
                    };
                    let rest = mentions_from(s, e);
                    assert(mentions_from(s, i) == head + rest);
                    if k < head.len() {
                        let j = run_end(s, i + 1, local);
                        let kk = run_end(s, j + 1, server);
                        lemma_run_end_all(s, i + 1, local);
                        lemma_run_end_bounds(s, j + 1, server);
                        lemma_run_end_all(s, j + 1, server);
                        if kk < s.len() && s[kk] == ':' {
                            lemma_run_end_bounds(s, kk + 1, digit);
                            lemma_run_end_all(s, kk + 1, digit);
                        }
                        assert(mentions_from(s, i)[k] == m);
                        assert forall|t: int| 1 <= t < j - i implies is_mention_localpart_char(#[trigger] m[t]) by {
                            assert(m[t] == s[i + t]);
                            assert(local(s[i + t]));
                        }
                        assert forall|t: int| j - i < t < kk - i implies is_mention_server_char(#[trigger] m[t]) by {
                            assert(m[t] == s[i + t]);
                            assert(server(s[i + t]));
                        }
                        assert forall|t: int| kk - i < t < m.len() implies is_ascii_digit(#[trigger] m[t]) by {
                            assert(m[t] == s[i + t]);
                            assert(digit(s[i + t]));
                        }
                        assert(mention_shape_at(m, j - i, kk - i));
                    } else {
                        lemma_mention_has_shape(s, e, k - head.len());
                        assert(mentions_from(s, i)[k] == rest[k - head.len()]);
                    }
                },
                None => {
                    let j = run_end(s, i + 1, local);
                    assert(mentions_from(s, i) == mentions_from(s, j));
                    lemma_mention_has_shape(s, j, k);
                },
            }
        } else {
            assert(mentions_from(s, i) == mentions_from(s, i + 1));
            lemma_mention_has_shape(s, i + 1, k);
        }
    }
}

/// A plain Matrix user ID `@localpart:server`: a non-empty localpart of
/// ASCII letters, digits, `-`, `_` and `.`, and a non-empty server name of
/// ASCII letters, digits, `.` and `-`.
pub open spec fn is_plain_user_id(id: Seq<char>, colon: int) -> bool {
    &&& 2 <= colon <= id.len() - 2
    &&& id[0] == '@'
    &&& id[colon] == ':'
    &&& forall|i: int| 1 <= i < colon ==> {
        let c = #[trigger] id[i];
        is_ascii_alphanumeric(c) || c == '-' || c == '_' || c == '.'
    }
    &&& forall|i: int| colon < i < id.len() ==> {
        let c = #[trigger] id[i];
        is_ascii_alphanumeric(c) || c == '.' || c == '-'
    }
}

proof fn lemma_run_end_at(s: Seq<char>, a: int, b: int, p: spec_fn(char) -> bool)
    requires
        0 <= a <= b <= s.len(),
        forall|i: int| a <= i < b ==> #[trigger] p(s[i]),
        b == s.len() || !p(s[b]),
    ensures
        run_end(s, a, p) == b,
    decreases b - a,
{
    if a < b {
        lemma_run_end_at(s, a + 1, b, p);
    }
}

/// A body that begins with a plain user ID, followed by nothing or by an
/// ASCII character that cannot continue a server name (a space, a line
/// break, `?`, `,`, `!` and the like: anything but a letter, a digit, `.`,
/// `-` and `:`), mentions exactly that user ID first.
pub proof fn lemma_leading_user_id_is_mentioned(id: Seq<char>, colon: int, rest: Seq<char>)
    requires
        is_plain_user_id(id, colon),
        rest.len() == 0 || {
            let c = rest[0];
            &&& (c as u32) < 128
            &&& !('a' <= c && c <= 'z')
            &&& !('A' <= c && c <= 'Z')
            &&& !('0' <= c && c <= '9')
            &&& c != '.'
            &&& c != '-'
            &&& c != ':'
        },
    ensures
        mentions_in(id + rest).len() > 0,
        mentions_in(id + rest)[0] == id,
{
    let s = id + rest;
    let n = id.len() as int;
    assert(s[0] == '@');
    let local = |c: char| is_mention_localpart_char(c);
    let server = |c: char| is_mention_server_char(c);
    assert forall|i: int| 1 <= i < colon implies #[trigger] local(s[i]) by {
        assert(s[i] == id[i]);
    }
    assert(!local(s[colon]));
    lemma_run_end_at(s, 1, colon, local);
    assert forall|i: int| colon + 1 <= i < n implies #[trigger] server(s[i]) by {
        assert(s[i] == id[i]);
    }
    if n < s.len() {
        assert(s[n] == rest[0]);
    }
    lemma_run_end_at(s, colon + 1, n, server);
    assert(mention_end(s, 0) == Some(n));
    assert(s.subrange(0, n) =~= id);
    assert(mention_is_complete(s, 0));
    lemma_mention_end_bounds(s, 0);
    let head: Seq<Seq<char>> = seq![id];
    assert(mentions_from(s, 0) == head + mentions_from(s, n));
}

/// Every character of every mention is `@`, `:`, an ASCII letter or digit,
/// `-`, `_`, `.`, or a character beyond ASCII: in particular a mention never
/// holds a space, a tab, a line break or punctuation such as `?` or `,`.
pub proof fn lemma_mention_chars(body: Seq<char>, k: int, t: int)
    requires
        0 <= k < mentions_in(body).len(),
        0 <= t < mentions_in(body)[k].len(),
    ensures
        ({
            let c = mentions_in(body)[k][t];
            &&& (c as u32) >= 128 || ('a' <= c && c <= 'z') || ('A' <= c && c <= 'Z') || ('0' <= c && c <= '9')
                || c == '@' || c == ':' || c == '-' || c == '_' || c == '.'
            &&& c != ' ' && c != '\t' && c != '\n' && c != '\r'
        }),
{
    lemma_mention_has_shape(body, 0, k);
    let m = mentions_in(body)[k];
    let (colon, port) = choose|colon: int, port: int| #[trigger] mention_shape_at(m, colon, port);
    assert(mention_shape_at(m, colon, port));
    let c = m[t];
    if t == 0 {
    } else if t < colon {
        assert(is_mention_localpart_char(m[t]));
    } else if t == colon {
    } else if t < port {
        assert(is_mention_server_char(m[t]));
    } else if t == port {
    } else {
        assert(is_ascii_digit(m[t]));
    }
}

/// Extract Matrix user IDs mentioned in a message body via `@localpart:server` patterns.
///
/// Parses the plain-text body for Matrix-style mentions. The localpart may contain
/// alphanumeric characters, hyphens, underscores, and dots. The server part may
/// contain alphanumeric characters, hyphens, dots, and an optional port.
pub fn parse_mentions(body: &str) -> (res: Vec<String>)
    ensures
        res@.map_values(|m: String| m@) == mentions_in(body@),
        forall|k: int| 0 <= k < res@.len() ==> is_mention_shape(#[trigger] res@[k]@),
{
    let chars = chars_of(body);
    let ghost s = chars@;
    let mut mentions: Vec<String> = Vec::new();
    let mut i: usize = 0;
    while i < chars.len()
        invariant
            s == chars@,
            s == body@,
            i <= chars.len(),
            mentions@.map_values(|m: String| m@) + mentions_from(s, i as int) == mentions_in(s),
        decreases chars.len() - i,
    {
        if chars[i] == '@' {
            let start = i;
            let ghost before = mentions@.map_values(|m: String| m@);
            proof {
                lemma_run_end_bounds(s, start + 1, |c: char| is_mention_localpart_char(c));
                lemma_mention_end_bounds(s, start as int);
            }
            i += 1;
            // Consume localpart (alphanumeric, -, _, .)
            while i < chars.len() && (is_alphanumeric(chars[i]) || chars[i] == '-' || chars[i] == '_'
                || chars[i] == '.')
                invariant
                    s == chars@,
                    start < i <= chars.len(),
                    run_end(s, i as int, |c: char| is_mention_localpart_char(c))
                        == run_end(s, start + 1, |c: char| is_mention_localpart_char(c)),
                decreases chars.len() - i,
            {
                i += 1;
            }
            let local_end = i;
            let ghost j = i as int;
            assert(j == run_end(s, start + 1, |c: char| is_mention_localpart_char(c)));
            // Expect ':'
            if i < chars.len() && chars[i] == ':' {
                i += 1;
                // Consume server name (alphanumeric, ., -)
                while i < chars.len() && (is_alphanumeric(chars[i]) || chars[i] == '.' || chars[i] == '-')
                    invariant
                        s == chars@,
                        j < i <= chars.len(),
                        run_end(s, i as int, |c: char| is_mention_server_char(c))
                            == run_end(s, j + 1, |c: char| is_mention_server_char(c)),
                    decreases chars.len() - i,
                {
                    i += 1;
                }
                let server_end = i;
                let ghost k = i as int;
                // Optionally consume port (:digits)
                if i < chars.len() && chars[i] == ':' {
                    let port_start = i;
                    i += 1;
                    while i < chars.len() && '0' <= chars[i] && chars[i] <= '9'
                        invariant
                            s == chars@,
                            port_start < i <= chars.len(),
                            run_end(s, i as int, |c: char| is_ascii_digit(c))
                                == run_end(s, port_start + 1, |c: char| is_ascii_digit(c)),
                        decreases chars.len() - i,
                    {
                        i += 1;
                    }
                    // If no digits followed the colon, backtrack.
                    if i == port_start + 1 {
                        i = port_start;
                    }
                }
                assert(mention_end(s, start as int) == Some(i as int));
                let mut mention = String::new();
                let mut p: usize = start;
                while p < i
                    invariant
                        s == chars@,
                        start <= p <= i <= chars.len(),
                        mention@ == s.subrange(start as int, p as int),
                    decreases i - p,
                {
                    push_char(&mut mention, chars[p]);
                    assert(s.subrange(start as int, p + 1) =~= s.subrange(start as int, p as int).push(s[p as int]));
                    p += 1;
                }
                let ghost m = s.subrange(start as int, i as int);
                let ghost head: Seq<Seq<char>> = if mention_is_complete(s, start as int) { seq![m] } else { Seq::empty() };
                assert(mentions_from(s, start as int) == head + mentions_from(s, i as int));
                // Must have at least @x:y
                if local_end > start + 1 && server_end > local_end + 1 {
                    mentions.push(mention);
                    assert(mentions@.map_values(|m: String| m@) =~= before.push(s.subrange(start as int, i as int)));
                } else {
                    assert(mentions@.map_values(|m: String| m@) =~= before);
                }
                assert(mentions@.map_values(|m: String| m@) + mentions_from(s, i as int) =~=
                    before + mentions_from(s, start as int));
            }
        } else {
            i += 1;
        }
    }
    proof {
        assert forall|k: int| 0 <= k < mentions@.len() implies is_mention_shape(#[trigger] mentions@[k]@) by {
            assert(mentions@.map_values(|m: String| m@)[k] == mentions@[k]@);
            lemma_mention_has_shape(s, 0, k);
        }
    }
    mentions
}


/// The HTML link that mentions `user_id` under the (escaped) `display_name`.
pub open spec fn mention_link_html(user_id: Seq<char>, display_name: Seq<char>) -> Seq<char> {
    "<a href=\"https://matrix.to/#/"@ + user_id + "\">"@ + html_escaped(display_name) + "</a>"@
}

/// Appends the mention link for `user_id` and `display_name` to `out`.
fn push_mention_link(out: &mut String, user_id: &str, display_name: &str)
    ensures
        final(out)@ == old(out)@ + mention_link_html(user_id@, display_name@),
{
    let escaped_name = html_escape(display_name);
    out.append("<a href=\"https://matrix.to/#/");
    out.append(user_id);
    out.append("\">");
    out.append(escaped_name.as_str());
    out.append("</a>");
}

/// Build an HTML-formatted mention link for a Matrix user.
///
/// Returns a tuple of `(plain_text, html)` suitable for the Matrix message
/// `body` and `formatted_body` fields respectively.
pub fn format_mention(user_id: &str, display_name: &str) -> (res: (String, String))
    ensures
        res.0@ == display_name@,
        res.1@ == mention_link_html(user_id@, display_name@),
{
    let plain = String::from_str(display_name);
    let mut html = String::new();
    push_mention_link(&mut html, user_id, display_name);
    (plain, html)
}

/// Build a full message body with a leading @-mention.
///
/// Returns a tuple of `(plain_text, html)` where the mention is an HTML link
/// and the message body is HTML-escaped to prevent injection: after the link
/// the HTML holds no `<`, `>`, `"` or `'`.
pub fn format_mention_message(user_id: &str, display_name: &str, message: &str) -> (res: (String, String))
    ensures
        res.0@ == display_name@ + seq![' '] + message@,
        res.1@ == mention_link_html(user_id@, display_name@) + seq![' '] + html_escaped(message@),
        forall|i: int|
            mention_link_html(user_id@, display_name@).len() <= i < res.1@.len() ==> !is_markup_char(#[trigger] res.1@[i]),
{
    let mut plain = String::from_str(display_name);
    push_char(&mut plain, ' ');
    plain.append(message);
    let escaped_msg = html_escape(message);
    let mut html = String::new();
    push_mention_link(&mut html, user_id, display_name);
    push_char(&mut html, ' ');
    html.append(escaped_msg.as_str());
    proof {
        lemma_html_escaped_has_no_markup(message@);
        let link = mention_link_html(user_id@, display_name@);
        assert forall|i: int| link.len() <= i < html@.len() implies !is_markup_char(#[trigger] html@[i]) by {
            if i > link.len() {
                assert(html@[i] == html_escaped(message@)[i - link.len() - 1]);
            }
        }
    }
    (plain, html)
}

} // verus!
