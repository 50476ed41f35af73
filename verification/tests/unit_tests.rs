//! Tests of the mention helpers and utilities.

use constellation_core::message::{format_mention_message, parse_mentions};
use constellation_core::utils::{format_room_alias, generate_device_id, html_escape, parse_homeserver_url, sanitize_username};

#[test]
fn test_parse_mentions() {
    let body = "@agent-a:constellation.local can you help @agent-b:constellation.local?";
    let mentions = parse_mentions(body);
    assert_eq!(mentions.len(), 2);
    assert_eq!(mentions[0], "@agent-a:constellation.local");
    assert_eq!(mentions[1], "@agent-b:constellation.local");
}

#[test]
fn test_parse_mentions_none() {
    let mentions = parse_mentions("hello world, no mentions here");
    assert!(mentions.is_empty());
}

#[test]
fn test_parse_mentions_with_port() {
    let mentions = parse_mentions("@agent:localhost:8448 do something");
    assert_eq!(mentions.len(), 1);
    assert_eq!(mentions[0], "@agent:localhost:8448");
}

#[test]
fn test_parse_mentions_port_no_digits_ignored() {
    let mentions = parse_mentions("@agent:server: next word");
    assert_eq!(mentions.len(), 1);
    assert_eq!(mentions[0], "@agent:server");
}

#[test]
fn test_format_mention_message() {
    let (plain, html) = format_mention_message("@agent-b:constellation.local", "@agent-b", "analyze this data");
    assert_eq!(plain, "@agent-b analyze this data");
    assert!(html.contains("matrix.to"));
    assert!(html.contains("@agent-b:constellation.local"));
}

#[test]
fn test_format_mention_message_escapes_html() {
    let (_, html) = format_mention_message("@agent:server", "@agent", "<script>alert('xss')</script>");
    assert!(!html.contains("<script>"));
    assert!(html.contains("&lt;script&gt;"));
}

#[test]
fn test_sanitize_username_basic() {
    assert_eq!(sanitize_username("Research Agent"), "research-agent");
    assert_eq!(sanitize_username("agent-coder"), "agent-coder");
    assert_eq!(sanitize_username("Agent_1"), "agent_1");
}

#[test]
fn test_sanitize_username_special_chars() {
    assert_eq!(sanitize_username("Agent #1 (Test)"), "agent-1-test");
    assert_eq!(sanitize_username("hello@world!"), "hello-world");
    assert_eq!(sanitize_username("  spaces  "), "spaces");
}

#[test]
fn test_sanitize_username_preserves_valid() {
    assert_eq!(sanitize_username("a.b_c=d/e"), "a.b_c=d/e");
    assert_eq!(sanitize_username("UPPER"), "upper");
}

#[test]
fn test_format_room_alias() {
    assert_eq!(format_room_alias("agents", "constellation.local"), "#agents:constellation.local");
    assert_eq!(format_room_alias("My Room", "example.com"), "#my-room:example.com");
}

#[test]
fn test_parse_homeserver_url_valid() {
    let url = parse_homeserver_url("http://localhost:6167").unwrap();
    assert_eq!(url.host_str(), Some("localhost"));

    let url = parse_homeserver_url("https://matrix.example.com").unwrap();
    assert_eq!(url.scheme(), "https");
}

#[test]
fn test_parse_homeserver_url_invalid() {
    assert!(parse_homeserver_url("not-a-url").is_err());
    assert!(parse_homeserver_url("ftp://example.com").is_err());
}

#[test]
fn test_generate_device_id() {
    let id = generate_device_id();
    assert!(id.starts_with("CONSTELLATION_"));
    assert_eq!(id.len(), 14 + 12);

    let id2 = generate_device_id();
    assert_ne!(id, id2);
}

#[test]
fn test_html_escape() {
    assert_eq!(html_escape("hello"), "hello");
    assert_eq!(html_escape("<script>"), "&lt;script&gt;");
    assert_eq!(html_escape("a & b"), "a &amp; b");
    assert_eq!(html_escape("\"quoted\""), "&quot;quoted&quot;");
}
