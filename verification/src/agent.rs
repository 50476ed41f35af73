//! The decisions that a Constellation agent takes, apart from the Matrix
//! client that carries them out: how an incoming message is dispatched to
//! handlers, how tasks are announced and completed, and which names the
//! agent shows.

use vstd::prelude::*;

use crate::config::AgentConfig;
use crate::error::{ConstellationError, Result};
use crate::message::{
    format_mention_message, mention_link_html, mentions_in, parse_mentions, ConstellationMetadata, MentionEvent, Message, Task, TaskEvent,
    TaskResult, TaskStatus,
};
use crate::task::{completed, created, lookup, TaskManager};
use crate::utils::{html_escaped, parse_url, url_parse_outcome, ParsedUrl};

verus! {

/// Which handlers an incoming text message reaches, besides the message
/// handlers, which it always reaches.
pub struct Dispatch {
    /// The event for the mention handlers, when the message mentions this agent.
    pub mention: Option<MentionEvent>,
    /// The event for the task handlers, when the message carries task metadata.
    pub task: Option<TaskEvent>,
}

/// Whether `id` is among the mentions `mentions`.
pub open spec fn is_mentioned(mentions: Seq<Seq<char>>, id: Seq<char>) -> bool {
    exists|k: int| 0 <= k < mentions.len() && #[trigger] mentions[k] == id
}

/// The task event for metadata received from `sender` in `room_id`.
pub open spec fn is_task_event_for(ev: TaskEvent, sender: Seq<char>, room_id: Seq<char>, meta: ConstellationMetadata) -> bool {
    &&& ev.sender@ == sender
    &&& ev.room_id@ == room_id
    &&& ev.task_id == meta.task_id
    &&& ev.task_type == meta.task_type
    &&& ev.payload == meta.payload
    &&& ev.priority == meta.priority
}

/// Decide where an incoming message goes.
///
/// `body` is the text of a text message, `None` for any other kind. The
/// agent's own messages and non-text messages go nowhere (`None`). Any other
/// message reaches the message handlers; it reaches the mention handlers
/// when the mentions parsed from its body include `my_user_id`, and the task
/// handlers when it carries constellation metadata.
pub fn plan_dispatch(
    my_user_id: &str,
    sender: &str,
    room_id: &str,
    body: Option<&str>,
    metadata: Option<ConstellationMetadata>,
) -> (res: Option<Dispatch>)
    ensures
        (sender@ == my_user_id@ || body is None) <==> res is None,
        res matches Some(d) ==> {
            let text = body->0@;
            &&& (d.mention is Some <==> is_mentioned(mentions_in(text), my_user_id@))
            &&& d.mention matches Some(ev) ==> {
                &&& ev.sender@ == sender@
                &&& ev.room_id@ == room_id@
                &&& ev.body@ == text
                &&& ev.metadata == metadata
                &&& ev.mentioned_agents@.map_values(|m: String| m@) == mentions_in(text)
            }
            &&& (d.task is Some <==> metadata is Some)
            &&& d.task matches Some(ev) ==> is_task_event_for(ev, sender@, room_id@, metadata->0)
        },
{
    // Ignore our own messages.
    if crate::text::same_text(sender, my_user_id) {
        return None;
    }
    let text = match body {
        Some(t) => t,
        None => return None,
    };
    let task = match &metadata {
        Some(meta) => Some(TaskEvent {
            sender: String::from_str(sender),
            room_id: String::from_str(room_id),
            task_id: meta.task_id.clone(),
            task_type: meta.task_type.clone(),
            payload: meta.payload.clone(),
            priority: meta.priority,
        }),
        None => None,
    };
    let mentions = parse_mentions(text);
    let me = String::from_str(my_user_id);
    let mut found = false;
    let mut k: usize = 0;
    while k < mentions.len()
        invariant
            k <= mentions@.len(),
            found <==> exists|j: int| 0 <= j < k && #[trigger] mentions@[j]@ == me@,
        decreases mentions.len() - k,
    {
        if mentions[k] == me {
            found = true;
        }
        k += 1;
    }
    proof {
        let ms = mentions@.map_values(|m: String| m@);
        if found {
            let j = choose|j: int| 0 <= j < mentions@.len() && #[trigger] mentions@[j]@ == me@;
            assert(ms[j] == my_user_id@);
        } else {
            assert forall|j: int| 0 <= j < ms.len() implies #[trigger] ms[j] != my_user_id@ by {
                assert(ms[j] == mentions@[j]@);
            }
        }
    }
    let mention = if found {
        Some(MentionEvent {
            sender: String::from_str(sender),
            room_id: String::from_str(room_id),
            body: String::from_str(text),
            metadata,
            mentioned_agents: mentions,
        })
    } else {
        None
    };
    Some(Dispatch { mention, task })
}

/// A message whose text begins with the agent's own plain user ID, followed
/// by a space or by nothing, reaches the agent's mention handlers (when
/// someone else sent it).
pub proof fn lemma_addressed_agent_is_mentioned(me: Seq<char>, colon: int, rest: Seq<char>)
    requires
        crate::message::is_plain_user_id(me, colon),
        rest.len() == 0 || rest[0] == ' ',
    ensures
        is_mentioned(mentions_in(me + rest), me),
{
    crate::message::lemma_leading_user_id_is_mentioned(me, colon, rest);
    assert(mentions_in(me + rest)[0] == me);
}

/// A task recorded by `track_task` is known afterwards, with the room it
/// was sent to: finishing it gives that room.
pub proof fn lemma_tracked_task_can_be_finished(
    before: Seq<crate::task::TaskRecord>,
    after: Seq<crate::task::TaskRecord>,
    id: Seq<char>,
    task_type: Seq<char>,
    payload: serde_json::Value,
    room_id: Seq<char>,
)
    requires
        crate::task::ids_distinct(before),
        created(before, after, id, task_type, payload, room_id),
    ensures
        lookup(after, id) matches Some(r) && r.room_id@ == room_id && r.status == TaskStatus::Pending,
{
    crate::task::lemma_create_then_lookup(before, after, id, task_type, payload, room_id);
}

/// The plain text of the message that mentions `user_id`: the user ID, a
/// space, then `message`.
pub open spec fn mention_body(user_id: Seq<char>, message: Seq<char>) -> Seq<char> {
    user_id + seq![' '] + message
}

/// Build the message that @-mentions the agent `user_id` ahead of
/// `message`: its plain body and its HTML, a mention link followed by the
/// escaped message. The link is shown under the full user ID, so the plain
/// body names the target agent in full and its mention handlers fire.
pub fn agent_mention_message(user_id: &str, message: &str) -> (res: (String, String))
    ensures
        res.0@ == mention_body(user_id@, message@),
        res.1@ == mention_link_html(user_id@, user_id@) + seq![' '] + html_escaped(message@),
{
    format_mention_message(user_id, user_id, message)
}

/// The message that `agent_mention_message` builds for a plain user ID
/// reaches that agent's mention handlers: the user ID is among the mentions
/// of its plain body, whatever the message says.
pub proof fn lemma_mention_message_reaches_agent(user_id: Seq<char>, colon: int, message: Seq<char>)
    requires
        crate::message::is_plain_user_id(user_id, colon),
    ensures
        is_mentioned(mentions_in(mention_body(user_id, message)), user_id),
{
    let rest = seq![' '] + message;
    assert(mention_body(user_id, message) =~= user_id + rest);
    lemma_addressed_agent_is_mentioned(user_id, colon, rest);
}

/// The device display name given at login: the display name when one is
/// configured, else the username.
pub fn device_display_name(config: &AgentConfig) -> (res: String)
    ensures
        res@ == (match config.display_name {
            Some(n) => n@,
            None => config.username@,
        }),
{
    match &config.display_name {
        Some(n) => n.clone(),
        None => config.username.clone(),
    }
}

/// The body of the message that announces a task: `[task:<type>] <id>`.
pub open spec fn task_announcement_body(task_type: Seq<char>, id: Seq<char>) -> Seq<char> {
    "[task:"@ + task_type + "] "@ + id
}

/// Record `task` as pending in `tasks`, sent to `room_id`, and give the
/// message that announces it: the announcement body with the task's metadata.
pub fn track_task(tasks: &mut TaskManager, task: &Task, room_id: &str) -> (res: Message)
    requires
        old(tasks).wf(),
    ensures
        final(tasks).wf(),
        created(old(tasks).records(), final(tasks).records(), task.id@, task.task_type@, task.payload, room_id@),
        res.body@ == task_announcement_body(task.task_type@, task.id@),
        res.metadata matches Some(m) && m.task_id == task.id && m.task_type == task.task_type
            && m.payload == task.payload && m.priority == task.priority
            && m.reply_to_task == task.reply_to_task && m.thread_id == task.thread_id,
{
    tasks.create(task.id.as_str(), task.task_type.as_str(), task.payload.clone(), room_id);
    let mut body = String::from_str("[task:");
    body.append(task.task_type.as_str());
    body.append("] ");
    body.append(task.id.as_str());
    Message::text(body.as_str()).with_metadata(task.to_metadata())
}

/// The word that a task-result notice uses for a status.
pub open spec fn status_word(status: TaskStatus) -> Seq<char> {
    match status {
        TaskStatus::Completed => "completed"@,
        TaskStatus::Failed => "failed"@,
        _ => "updated"@,
    }
}

/// The body of the notice that reports a task's result: `[task-result:<word>] <id>`.
pub open spec fn task_result_body(task_id: Seq<char>, status: TaskStatus) -> Seq<char> {
    "[task-result:"@ + status_word(status) + "] "@ + task_id
}

/// The notice sent back to a task's room when it finishes with `status`.
pub fn task_result_notice(task_id: &str, status: TaskStatus) -> (res: Message)
    ensures
        res.body@ == task_result_body(task_id@, status),
        res.metadata is None,
{
    let mut body = String::from_str("[task-result:");
    match status {
        TaskStatus::Completed => body.append("completed"),
        TaskStatus::Failed => body.append("failed"),
        _ => body.append("updated"),
    }
    body.append("] ");
    body.append(task_id);
    Message::text(body.as_str())
}

/// Complete task `task_id` in `tasks` with `result` and give the room the
/// task was sent to, where the notice of its result goes.
///
/// # Errors
///
/// Returns [`ConstellationError::Task`] if the task is not known; the
/// registry is then unchanged.
pub fn finish_task(tasks: &mut TaskManager, task_id: &str, result: TaskResult) -> (res: Result<String>)
    requires
        old(tasks).wf(),
    ensures
        final(tasks).wf(),
        completed(old(tasks).records(), final(tasks).records(), task_id@, result.status, result.result_data),
        match lookup(old(tasks).records(), task_id@) {
            Some(r) => res matches Ok(room) && room@ == r.room_id@,
            None => res matches Err(ConstellationError::Task(m)) && m@ == crate::task::task_not_found_message(task_id@),
        },
{
    let room_id = match tasks.get(task_id) {
        Some(record) => record.room_id.clone(),
        None => {
            let mut msg = String::from_str("task not found: ");
            msg.append(task_id);
            return Err(ConstellationError::Task(msg));
        },
    };
    let outcome = tasks.complete(task_id, result);
    match outcome {
        Ok(()) => Ok(room_id),
        Err(e) => Err(e),
    }
}

/// The homeserver URL that login connects to: the configured URL as parsed.
///
/// # Errors
///
/// Returns [`ConstellationError::UrlParse`] if the configured URL does not
/// parse.
pub fn homeserver_for_login(config: &AgentConfig) -> (res: Result<ParsedUrl>)
    ensures
        match url_parse_outcome(config.homeserver_url@) {
            Ok(parts) => res matches Ok(p) && p.parts() == parts,
            Err(_) => res matches Err(ConstellationError::UrlParse(_)),
        },
{
    match parse_url(config.homeserver_url.as_str()) {
        Ok(p) => Ok(p),
        Err(e) => Err(ConstellationError::UrlParse(e.error)),
    }
}

/// Seconds the sync loop waits after a failed sync before it tries again.
pub const SYNC_RETRY_SECS: u64 = 5;

/// What the sync loop does next.
pub struct SyncStep {
    /// The batch token to give the next sync (`None`: sync from the start).
    pub token: Option<String>,
    /// Seconds to wait before the next sync.
    pub wait_secs: u64,
}

/// Decide the sync loop's next step from the token it used and the outcome
/// of the sync: after a sync that returned `next_batch`, sync again at once
/// from that token; after a failed sync (`None`), wait
/// [`SYNC_RETRY_SECS`] and retry with the same token.
pub fn next_sync_step(token: Option<String>, next_batch: Option<String>) -> (res: SyncStep)
    ensures
        match next_batch {
            Some(t) => res.token == Some(t) && res.wait_secs == 0,
            None => res.token == token && res.wait_secs == SYNC_RETRY_SECS,
        },
{
    match next_batch {
        Some(t) => SyncStep { token: Some(t), wait_secs: 0 },
        None => SyncStep { token, wait_secs: SYNC_RETRY_SECS },
    }
}

} // verus!
