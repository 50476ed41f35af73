//! Concrete cases of the library's contracts and laws, its edge cases and
//! its error variants.

use constellation_core::agent::{
    agent_mention_message, device_display_name, finish_task, homeserver_for_login, next_sync_step, plan_dispatch,
    task_result_notice, track_task, SYNC_RETRY_SECS,
};
use constellation_core::ids::{parse_invites, parse_room_alias, parse_room_id};
use constellation_core::message::{format_mention, format_mention_message, generate_task_id, parse_mentions};
use constellation_core::utils::{
    check_homeserver_url, device_id_from_uuid, format_room_alias, html_escape, parse_homeserver_url,
    sanitize_username, UrlError,
};
use constellation_core::{
    AgentConfig, AgentConfigBuilder, ConstellationError, ConstellationMetadata, Priority, Task, TaskManager,
    TaskResult, TaskStatus,
};

fn json(text: &str) -> serde_json::Value {
    serde_json::from_str(text).unwrap()
}

fn config_message<T: std::fmt::Debug>(res: Result<T, ConstellationError>) -> String {
    match res {
        Err(ConstellationError::Config(m)) => m,
        other => panic!("expected a configuration error, got {:?}", other),
    }
}

fn is_uuid_text(s: &str) -> bool {
    let cs: Vec<char> = s.chars().collect();
    cs.len() == 36
        && cs.iter().enumerate().all(|(i, c)| {
            if i == 8 || i == 13 || i == 18 || i == 23 {
                *c == '-'
            } else {
                c.is_ascii_digit() || ('a'..='f').contains(c)
            }
        })
}

// --- sanitising ---------------------------------------------------------

#[test]
fn sanitize_is_idempotent_on_samples() {
    for name in ["Research Agent", "Agent #1 (Test)", "--a--b--", "Ünïcödé Näme", "a.b_c=d/e", "  ", "X/Y=Z"] {
        let once = sanitize_username(name);
        assert_eq!(sanitize_username(&once), once);
    }
}

#[test]
fn sanitize_output_is_clean_localpart() {
    let out = sanitize_username("--Héllo,,  World!!--");
    assert_eq!(out, "h-llo-world");
    assert!(!out.starts_with('-') && !out.ends_with('-'));
    assert!(!out.contains("--"));
    assert!(out.chars().all(|c| c.is_ascii_lowercase() || c.is_ascii_digit() || ".-_=/".contains(c)));
}

#[test]
fn sanitize_only_hyphens_gives_empty() {
    assert_eq!(sanitize_username("- - -"), "");
    assert_eq!(sanitize_username("!!!"), "");
}

#[test]
fn room_alias_sanitises_name_only() {
    assert_eq!(format_room_alias("A B", "Example.COM"), "#a-b:Example.COM");
    assert_eq!(format_room_alias("", "s"), "#:s");
}

// --- HTML escaping ------------------------------------------------------

#[test]
fn html_escape_every_special_character() {
    assert_eq!(html_escape("&<>\"'"), "&amp;&lt;&gt;&quot;&#x27;");
    assert_eq!(html_escape(""), "");
    assert_eq!(html_escape("é"), "é");
}

#[test]
fn html_escape_leaves_no_markup() {
    let out = html_escape("<a href=\"x\" onclick='y'>z</a>");
    assert!(!out.contains('<') && !out.contains('>') && !out.contains('"') && !out.contains('\''));
}

// --- mentions -----------------------------------------------------------

#[test]
fn mention_needs_localpart_and_server() {
    assert!(parse_mentions("@a:").is_empty());
    assert!(parse_mentions("@:ab").is_empty());
    assert!(parse_mentions("@ab:").is_empty());
    assert_eq!(parse_mentions("@a:b"), vec!["@a:b"]);
}

#[test]
fn mention_with_non_ascii_localpart() {
    assert!(parse_mentions("@é:").is_empty());
    assert_eq!(parse_mentions("@é:x"), vec!["@é:x"]);
}

#[test]
fn mention_scan_resumes_after_localpart() {
    assert_eq!(parse_mentions("@@a:b"), vec!["@a:b"]);
    assert_eq!(parse_mentions("x@y z@w:v"), vec!["@w:v"]);
}

#[test]
fn mention_port_backtracks_without_digits() {
    assert_eq!(parse_mentions("@a:b:"), vec!["@a:b"]);
    assert_eq!(parse_mentions("@a:b:12x"), vec!["@a:b:12"]);
}

#[test]
fn mentions_are_pieces_of_the_body() {
    let body = "hi @a-b_c.d:host.example:8080, @z:q and @not";
    for m in parse_mentions(body) {
        assert!(m.starts_with('@'));
        assert!(body.contains(&m));
    }
}

#[test]
fn format_mention_exact() {
    let (plain, html) = format_mention("@u:s", "N&M");
    assert_eq!(plain, "N&M");
    assert_eq!(html, "<a href=\"https://matrix.to/#/@u:s\">N&amp;M</a>");
}

#[test]
fn format_mention_message_exact() {
    let (plain, html) = format_mention_message("@u:s", "<U>", "a<b");
    assert_eq!(plain, "<U> a<b");
    assert_eq!(html, "<a href=\"https://matrix.to/#/@u:s\">&lt;U&gt;</a> a&lt;b");
}

// --- configuration ------------------------------------------------------

#[test]
fn validate_reports_first_missing_field() {
    let mut c = AgentConfig::default();
    assert_eq!(config_message(c.validate()), "username is required");
    c.username = "u".into();
    assert_eq!(config_message(c.validate()), "password is required");
    c.password = "p".into();
    c.homeserver_url = String::new();
    assert_eq!(config_message(c.validate()), "homeserver_url is required");
    c.homeserver_url = "x".into();
    assert!(c.validate().is_ok());
}

#[test]
fn build_error_is_the_validation_error() {
    let res = AgentConfigBuilder::new().username("u").build();
    assert_eq!(config_message(res), "password is required");
}

// --- homeserver URLs ----------------------------------------------------

#[test]
fn homeserver_url_error_messages() {
    assert_eq!(
        config_message(parse_homeserver_url("ftp://example.com")),
        "unsupported URL scheme 'ftp': expected http or https"
    );
    let m = config_message(parse_homeserver_url("not-a-url"));
    assert!(m.starts_with("invalid homeserver URL 'not-a-url': "));
    assert!(m.len() > "invalid homeserver URL 'not-a-url': ".len());
}

#[test]
fn homeserver_url_parse_error_is_reported() {
    let err = UrlError { error: url::ParseError::EmptyHost, text: "boom".to_string() };
    assert_eq!(config_message(check_homeserver_url("u", Err(err))), "invalid homeserver URL 'u': boom");
}

#[test]
fn homeserver_url_trailing_slashes_are_stripped() {
    let url = parse_homeserver_url("http://localhost:6167/_matrix/").unwrap();
    assert_eq!(url.path(), "/_matrix");
    assert_eq!(url.as_str(), "http://localhost:6167/_matrix");
    let url = parse_homeserver_url("https://example.org/a//").unwrap();
    assert_eq!(url.path(), "/a");
    assert_eq!(url.url().as_str(), "https://example.org/a");
}

#[test]
fn homeserver_url_root_path_is_kept() {
    let url = parse_homeserver_url("http://localhost:6167/").unwrap();
    assert_eq!(url.as_str(), "http://localhost:6167/");
    assert_eq!(url.path(), "/");
    let url = parse_homeserver_url("http://localhost:6167").unwrap();
    assert_eq!(url.as_str(), "http://localhost:6167/");
    assert_eq!(url.host_str(), Some("localhost"));
    assert_eq!(url.port(), Some(6167));
    let url = parse_homeserver_url("http://localhost:6167///").unwrap();
    assert_eq!(url.as_str(), "http://localhost:6167/");
    assert_eq!(url.port(), Some(6167));
}

#[test]
fn mentions_have_mention_shape() {
    let found = parse_mentions("@a-b.c_d:host.x:8448 @é:y @q:r: x@s:t:");
    assert_eq!(found, vec!["@a-b.c_d:host.x:8448", "@é:y", "@q:r", "@s:t"]);
}

#[test]
fn homeserver_url_is_the_parsed_input() {
    let url = parse_homeserver_url("https://matrix.example.com:8448/x").unwrap();
    assert_eq!(url.as_str(), "https://matrix.example.com:8448/x");
    assert_eq!(url.host_str(), Some("matrix.example.com"));
    assert_eq!(url.port(), Some(8448));
    assert_eq!(url.path(), "/x");
}

#[test]
fn login_homeserver_is_the_configured_url() {
    let mut c = AgentConfig::default();
    c.homeserver_url = "http://example.net:6167".into();
    let url = homeserver_for_login(&c).unwrap();
    assert_eq!(url.as_str(), "http://example.net:6167/");
    assert_eq!(url.into_url().host_str(), Some("example.net"));
    c.homeserver_url = "not a url".into();
    assert!(matches!(homeserver_for_login(&c), Err(ConstellationError::UrlParse(_))));
}

#[test]
fn homeserver_url_accepts_https_with_host() {
    let url = parse_homeserver_url("https://matrix.example.com/").unwrap();
    assert_eq!(url.host_str(), Some("matrix.example.com"));
    assert_eq!(url.scheme(), "https");
}

// --- tasks and messages -------------------------------------------------

#[test]
fn task_ids_are_uuid_text() {
    let t = Task::new("x", serde_json::Value::Null);
    assert!(is_uuid_text(&t.id));
    assert!(is_uuid_text(&generate_task_id()));
    assert_ne!(generate_task_id(), generate_task_id());
}

#[test]
fn task_metadata_copies_every_field() {
    let t = Task::new("kind", json("{\"n\": [1, 2]}"))
        .with_priority(Priority::High)
        .with_thread("th")
        .replying_to("parent");
    let m = t.to_metadata();
    assert_eq!(m.task_id, t.id);
    assert_eq!(m.payload, t.payload);
    assert_eq!(m.priority, Priority::High);
    assert_eq!(m.thread_id.as_deref(), Some("th"));
    assert_eq!(m.reply_to_task.as_deref(), Some("parent"));
}

#[test]
fn task_manager_create_replaces_same_id() {
    let mut mgr = TaskManager::new();
    mgr.create("t", "first", serde_json::Value::Null, "!a:s");
    mgr.update_status("t", TaskStatus::InProgress).unwrap();
    mgr.create("t", "second", serde_json::Value::Null, "!b:s");
    assert_eq!(mgr.len(), 1);
    let r = mgr.get("t").unwrap();
    assert_eq!(r.task_type, "second");
    assert_eq!(r.room_id, "!b:s");
    assert_eq!(r.status, TaskStatus::Pending);
}

#[test]
fn task_manager_operations_leave_others_alone() {
    let mut mgr = TaskManager::new();
    mgr.create("a", "ta", serde_json::Value::Null, "!r:s");
    mgr.create("b", "tb", serde_json::Value::Null, "!r:s");
    mgr.complete("a", TaskResult::failure("a", json("1"))).unwrap();
    assert_eq!(mgr.get_status("b"), Some(TaskStatus::Pending));
    assert_eq!(mgr.get_status("a"), Some(TaskStatus::Failed));
    assert_eq!(mgr.get("a").unwrap().result, Some(json("1")));
    mgr.remove("a");
    assert_eq!(mgr.get_status("b"), Some(TaskStatus::Pending));
    assert!(mgr.get("a").is_none());
}

#[test]
fn task_manager_unknown_id_error_message() {
    let mut mgr = TaskManager::new();
    match mgr.update_status("ghost", TaskStatus::Failed) {
        Err(ConstellationError::Task(m)) => assert_eq!(m, "task not found: ghost"),
        other => panic!("unexpected {:?}", other),
    }
}

// --- agent decisions ----------------------------------------------------

fn metadata() -> ConstellationMetadata {
    Task::new("review", json("{\"pr\": 7}")).with_priority(Priority::Critical).to_metadata()
}

#[test]
fn own_messages_are_ignored() {
    assert!(plan_dispatch("@me:s", "@me:s", "!r:s", Some("hi @me:s"), None).is_none());
}

#[test]
fn non_text_messages_are_ignored() {
    assert!(plan_dispatch("@me:s", "@you:s", "!r:s", None, Some(metadata())).is_none());
}

#[test]
fn plain_message_reaches_only_message_handlers() {
    let d = plan_dispatch("@me:s", "@you:s", "!r:s", Some("hello @other:s"), None).unwrap();
    assert!(d.mention.is_none());
    assert!(d.task.is_none());
}

#[test]
fn mention_and_task_events_are_built() {
    let meta = metadata();
    let d = plan_dispatch("@me:s", "@you:s", "!r:s", Some("@me:s please"), Some(meta.clone())).unwrap();
    let m = d.mention.unwrap();
    assert_eq!(m.sender, "@you:s");
    assert_eq!(m.room_id, "!r:s");
    assert_eq!(m.body, "@me:s please");
    assert_eq!(m.mentioned_agents, vec!["@me:s"]);
    assert_eq!(m.metadata.unwrap().task_id, meta.task_id);
    let t = d.task.unwrap();
    assert_eq!(t.task_id, meta.task_id);
    assert_eq!(t.task_type, "review");
    assert_eq!(t.payload, meta.payload);
    assert_eq!(t.priority, Priority::Critical);
}

#[test]
fn display_names() {
    let mut c = AgentConfigBuilder::new().username("u").password("p").build().unwrap();
    assert_eq!(device_display_name(&c), "u");
    c.display_name = Some("Shown".into());
    assert_eq!(device_display_name(&c), "Shown");
}

#[test]
fn track_and_finish_task() {
    let mut mgr = TaskManager::new();
    let task = Task::new("analysis", serde_json::Value::Null);
    let msg = track_task(&mut mgr, &task, "!room:s");
    assert_eq!(msg.body, format!("[task:analysis] {}", task.id));
    assert_eq!(msg.metadata.unwrap().task_id, task.id);
    assert_eq!(mgr.get_status(&task.id), Some(TaskStatus::Pending));

    let room = finish_task(&mut mgr, &task.id, TaskResult::success(&task.id, json("true"))).unwrap();
    assert_eq!(room, "!room:s");
    assert_eq!(mgr.get_status(&task.id), Some(TaskStatus::Completed));

    match finish_task(&mut mgr, "nope", TaskResult::failure("nope", serde_json::Value::Null)) {
        Err(ConstellationError::Task(m)) => assert_eq!(m, "task not found: nope"),
        other => panic!("unexpected {:?}", other),
    }
}

#[test]
fn task_result_notices() {
    assert_eq!(task_result_notice("t", TaskStatus::Completed).body, "[task-result:completed] t");
    assert_eq!(task_result_notice("t", TaskStatus::Failed).body, "[task-result:failed] t");
    assert_eq!(task_result_notice("t", TaskStatus::InProgress).body, "[task-result:updated] t");
    assert!(task_result_notice("t", TaskStatus::Pending).metadata.is_none());
}

// --- identifiers, device IDs and the sync loop ---------------------------

#[test]
fn invited_user_ids_are_read() {
    let ids = parse_invites(&["@a:b", "@agent-b:constellation.local"]).unwrap();
    assert_eq!(ids.len(), 2);
    assert_eq!(ids[0].as_str(), "@a:b");
    assert_eq!(ids[1].inner().as_str(), "@agent-b:constellation.local");
    assert!(parse_invites(&[]).unwrap().is_empty());
}

#[test]
fn malformed_invite_is_an_id_error() {
    assert!(matches!(parse_invites(&["@a:b", "nope"]), Err(ConstellationError::MatrixId(_))));
}

#[test]
fn room_alias_and_room_id_are_read() {
    let alias = parse_room_alias("#agents:constellation.local").unwrap();
    assert_eq!(alias.as_str(), "#agents:constellation.local");
    assert_eq!(alias.into_inner().as_str(), "#agents:constellation.local");
    assert!(matches!(parse_room_alias("agents"), Err(ConstellationError::MatrixId(_))));
    let room = parse_room_id("!abc:constellation.local").unwrap();
    assert_eq!(room.as_str(), "!abc:constellation.local");
    assert!(matches!(parse_room_id("abc"), Err(ConstellationError::MatrixId(_))));
}

#[test]
fn device_id_from_uuid_takes_twelve_digits() {
    assert_eq!(device_id_from_uuid("0123456789abcdef0123456789abcdef"), "CONSTELLATION_0123456789ab");
    assert_eq!(device_id_from_uuid("ffffffffffff"), "CONSTELLATION_ffffffffffff");
}

#[test]
fn sync_step_forwards_token_or_waits() {
    let step = next_sync_step(Some("s1".to_string()), Some("s2".to_string()));
    assert_eq!(step.token, Some("s2".to_string()));
    assert_eq!(step.wait_secs, 0);
    let step = next_sync_step(Some("s1".to_string()), None);
    assert_eq!(step.token, Some("s1".to_string()));
    assert_eq!(step.wait_secs, 5);
    assert_eq!(SYNC_RETRY_SECS, 5);
    let step = next_sync_step(None, None);
    assert_eq!(step.token, None);
}

#[test]
fn agent_mention_reaches_the_target() {
    let target = "@agent-b:constellation.local";
    let (plain, html) = agent_mention_message(target, "analyze <this>");
    assert_eq!(plain, "@agent-b:constellation.local analyze <this>");
    assert_eq!(
        html,
        "<a href=\"https://matrix.to/#/@agent-b:constellation.local\">@agent-b:constellation.local</a> analyze &lt;this&gt;"
    );
    assert_eq!(parse_mentions(&plain), vec![target]);
    let d = plan_dispatch(target, "@agent-a:constellation.local", "!r:s", Some(&plain), None).unwrap();
    let ev = d.mention.unwrap();
    assert_eq!(ev.body, plain);
    assert_eq!(ev.mentioned_agents, vec![target.to_string()]);
}
