//! Chat sends, the pending index and its reconciliation against echoes.

use ironvein_client::normalize_key;
use ironvein_client::pending::PendingIndex;
use ironvein_client::ClientError;
use ironvein_client::Effect;
use ironvein_client::IronVeinClient;

fn open_client() -> IronVeinClient {
    let mut c = IronVeinClient::new();
    c.set_user_info("alice", "r1");
    c.connect().unwrap();
    let _ = c.on_open();
    c
}

#[test]
fn normalization_lowercases_and_trims() {
    assert_eq!(normalize_key("  Hello World \n"), "hello world");
    assert_eq!(normalize_key("HELLO"), "hello");
    assert_eq!(normalize_key("\u{d6}sterreich"), "\u{f6}sterreich");
    assert_eq!(normalize_key(""), "");
}

#[test]
fn register_then_retire_is_case_and_whitespace_insensitive() {
    let mut p = PendingIndex::new();
    p.register("Hello", 1, 10);
    let e = p.retire("hello").unwrap();
    assert_eq!(e.placeholder, 1);
    assert_eq!(e.sent_at, 10);
    // retired: gone now
    assert!(p.retire("hello").is_none());
    // whitespace-insensitive too
    p.register("  Hi there ", 2, 20);
    let e = p.retire("hi there").unwrap();
    assert_eq!(e.placeholder, 2);
}

#[test]
fn retire_on_an_unregistered_key_returns_none() {
    let mut p = PendingIndex::new();
    assert!(p.retire("never sent").is_none());
    p.register("a", 1, 0);
    assert!(p.retire("b").is_none());
    assert!(p.is_pending("a"));
}

#[test]
fn colliding_register_keeps_the_newest_entry() {
    let mut p = PendingIndex::new();
    p.register("dup", 1, 10);
    p.register("DUP", 2, 20);
    let e = p.retire("dup").unwrap();
    assert_eq!(e.placeholder, 2);
    assert!(p.retire("dup").is_none());
}

#[test]
fn chat_while_not_open_yields_not_connected_and_nothing_reaches_the_channel() {
    let mut c = IronVeinClient::new();
    c.set_user_info("alice", "r1");
    assert_eq!(c.send_message("hello", 0).unwrap_err(), ClientError::NotConnected);
    assert!(!c.is_pending("hello"));
    // likewise after the channel closed
    let mut c = open_client();
    let _ = c.on_close(1000, "bye");
    assert_eq!(c.send_message("hello", 0).unwrap_err(), ClientError::NotConnected);
    assert!(!c.is_pending("hello"));
}

#[test]
fn a_probe_body_is_sent_silently_and_never_registered() {
    let mut c = open_client();
    let sent = c.send_message("p", 0).unwrap().unwrap();
    assert_eq!(
        sent.frame,
        "{\"type\":\"message\",\"username\":\"alice\",\"message\":\"p\",\"room\":\"r1\"}"
    );
    assert!(sent.placeholder.is_none());
    assert!(!c.is_pending("p"));
    // while closed, a probe body fails silently instead of erroring
    let _ = c.on_close(1000, "bye");
    assert!(c.send_message("__ping__", 0).unwrap().is_none());
}

#[test]
fn chat_send_registers_pending_until_the_echo_retires_it() {
    let mut c = open_client();
    let sent = c.send_message("Hello World", 45_296_780).unwrap().unwrap();
    assert_eq!(
        sent.frame,
        "{\"type\":\"message\",\"username\":\"alice\",\"message\":\"Hello World\",\"room\":\"r1\"}"
    );
    let ph = sent.placeholder.unwrap();
    assert_eq!(ph.line, "[12:34:56.78] alice: Hello World [SENDING...]");
    assert!(c.is_pending("hello world"));
    // the authoritative echo retires the placeholder, then shows the line
    let effs = c
        .on_frame(
            "{\"type\":\"chat_message\",\"id\":1,\"username\":\"alice\",\"message\":\"Hello World\",\"timestamp\":\"2023-05-01T10:02:03.456Z\",\"room\":\"r1\"}",
            0,
        )
        .unwrap();
    assert_eq!(
        effs,
        vec![
            Effect::RetirePlaceholder(ph.id),
            Effect::ChatLine("[10:02:03.45] alice: Hello World".to_string()),
        ]
    );
    assert!(!c.is_pending("hello world"));
}

#[test]
fn distinct_placeholder_handles_for_successive_sends() {
    let mut c = open_client();
    let a = c.send_message("one", 0).unwrap().unwrap().placeholder.unwrap();
    let b = c.send_message("two", 0).unwrap().unwrap().placeholder.unwrap();
    assert_ne!(a.id, b.id);
}

#[test]
fn an_echo_with_no_pending_match_is_a_fresh_line() {
    let mut c = open_client();
    let effs = c
        .on_frame(
            "{\"type\":\"chat_message\",\"id\":1,\"username\":\"bob\",\"message\":\"news\",\"timestamp\":\"2023-05-01T10:02:03.456Z\",\"room\":\"r1\"}",
            0,
        )
        .unwrap();
    assert_eq!(effs, vec![Effect::ChatLine("[10:02:03.45] bob: news".to_string())]);
}

#[test]
fn server_side_trimming_still_retires_the_placeholder() {
    let mut c = open_client();
    let sent = c.send_message("  Padded  ", 0).unwrap().unwrap();
    let ph = sent.placeholder.unwrap();
    let effs = c
        .on_frame(
            "{\"type\":\"chat_message\",\"id\":1,\"username\":\"alice\",\"message\":\"padded\",\"timestamp\":1,\"room\":\"r1\"}",
            0,
        )
        .unwrap();
    assert_eq!(effs.first(), Some(&Effect::RetirePlaceholder(ph.id)));
}

#[test]
fn a_failed_send_retires_its_own_placeholder() {
    let mut c = open_client();
    let sent = c.send_message("doomed", 0).unwrap().unwrap();
    let ph = sent.placeholder.unwrap();
    let effs = c.chat_send_failed("doomed");
    assert_eq!(
        effs,
        vec![
            Effect::RetirePlaceholder(ph.id),
            Effect::ChatLine("Failed to send message - connection lost".to_string()),
        ]
    );
    assert!(!c.is_pending("doomed"));
    // with nothing pending, only the failure line remains
    let effs = c.chat_send_failed("doomed");
    assert_eq!(
        effs,
        vec![Effect::ChatLine("Failed to send message - connection lost".to_string())]
    );
    // a failed probe is swallowed entirely
    assert_eq!(c.chat_send_failed("p"), vec![]);
}
