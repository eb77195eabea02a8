use letronna::backend::{validate, Connection};
use letronna::gateway::gateway;
use letronna::install::{uninstall_entry, up_to_date};
use letronna::plugins::{choices_after_toggle, initially_enabled, PresenceMode};
use letronna::store::{Conversation, Store};
use letronna::tools::{limit_output, MAX_OUTPUT};

fn session(id: u64) -> Conversation {
    Conversation { id, title: "s".into(), messages: Vec::new(), updated: 0, pinned: false }
}

fn store(ids: &[u64], active: usize) -> Store {
    Store {
        conversations: ids.iter().map(|&i| session(i)).collect(),
        active,
        endpoint: String::new(),
        model: String::new(),
        gateway: String::new(),
        presence: String::new(),
    }
}

#[test]
fn validated_urls_are_chat_endpoints() {
    for endpoint in [
        "http://localhost:11434/v1",
        "https://api.example.com/v1/chat/completions/",
        "  https://api.example.com  ",
    ] {
        let c = Connection { endpoint: endpoint.into(), model: "m".into(), key: String::new() };
        let u = validate(&c).unwrap();
        assert!(u.ends_with("/chat/completions") && !u.ends_with('/'));
        let again = Connection { endpoint: u.clone(), model: "m".into(), key: String::new() };
        assert_eq!(validate(&again).unwrap(), u);
    }
    let c = Connection {
        endpoint: "https://api.example.com/v1/chat/completions/".into(),
        model: "m".into(),
        key: String::new(),
    };
    assert_eq!(validate(&c).unwrap(), "https://api.example.com/v1/chat/completions");
}

#[test]
fn cut_output_is_the_longest_fitting_prefix() {
    let exact = "x".repeat(MAX_OUTPUT);
    assert_eq!(limit_output(exact.clone()), exact);
    let over = format!("{}ab", "x".repeat(MAX_OUTPUT - 1));
    assert_eq!(limit_output(over), format!("{}a\n… [truncated]", "x".repeat(MAX_OUTPUT - 1)));
}

#[test]
fn deleting_keeps_the_active_session_in_range() {
    for active in 0..3 {
        for index in 0..3 {
            let mut s = store(&[1, 2, 3], active);
            assert!(s.delete_session(index, false));
            assert!(s.active < s.conversations.len());
        }
    }
    let mut last = store(&[4], 0);
    assert!(last.delete_session(0, false));
    assert!(last.conversations.is_empty());
}

#[test]
fn new_sessions_get_fresh_ids() {
    let mut s = store(&[7, 2, 9], 0);
    s.new_session(1);
    assert_eq!(s.conversations[3].id, 10);
    assert!(s.conversations[..3].iter().all(|c| c.id < 10));
    assert_eq!(s.active, 3);
}

#[test]
fn a_saved_toggle_is_read_back() {
    let installed = vec![("discord-presence".to_string(), true), ("hello".to_string(), true)];
    let saved = vec![("hello".to_string(), true)];
    let after = choices_after_toggle(saved, &installed, "hello", false);
    assert!(!initially_enabled(&after, "hello"));
    assert!(initially_enabled(&after, "discord-presence"));
    let again = choices_after_toggle(after, &installed, "hello", true);
    assert!(initially_enabled(&again, "hello"));
}

#[test]
fn install_decisions() {
    let v = Some("0.1.0".to_string());
    assert!(up_to_date(&v, "0.1.0", true, false));
    assert!(!up_to_date(&v, "0.2.0", true, false));
    assert!(!up_to_date(&None, "0.1.0", true, false));
    assert!(!up_to_date(&v, "0.1.0", false, false));
    assert!(!up_to_date(&v, "0.1.0", true, true));
    let entry = uninstall_entry("C:\\Apps\\Letronna", "C:\\Apps\\Letronna\\Letronna.exe", "0.1.0");
    assert_eq!(entry.len(), 9);
    assert_eq!(entry[0], ("DisplayName".to_string(), "Letronna".to_string()));
    assert_eq!(entry[1].1, "0.1.0");
    assert_eq!(entry[3].1, "C:\\Apps\\Letronna");
    assert_eq!(
        entry[5],
        (
            "UninstallString".to_string(),
            "\"C:\\Apps\\Letronna\\Letronna.exe\" --uninstall".to_string()
        )
    );
    assert_eq!(entry[8], ("NoRepair".to_string(), "1".to_string()));
}

#[test]
fn presence_saves_and_labels() {
    let mut s = store(&[1], 0);
    s.presence = "off".into();
    assert!(s.migrate_presence());
    assert_eq!(s.presence, "detailed");
    assert!(!s.migrate_presence());
    s.presence = "minimal".into();
    assert!(!s.migrate_presence());
    assert_eq!(s.presence, "minimal");
    assert_eq!(PresenceMode::Minimal.share_label(), "Hide activity details");
    assert_eq!(PresenceMode::Detailed.share_label(), "Show what I am doing");
}

#[test]
fn settling_keeps_saved_sessions() {
    let mut s = store(&[0, 4, 0], 7);
    s.conversations[1].title = "kept".into();
    s.conversations[1].updated = 99;
    s.conversations[1].pinned = true;
    s.settle(5, "https://e".into(), "m".into());
    let ids: Vec<u64> = s.conversations.iter().map(|c| c.id).collect();
    assert_eq!(ids, vec![5, 4, 6]);
    assert_eq!(s.conversations[1].title, "kept");
    assert_eq!(s.conversations[1].updated, 99);
    assert!(s.conversations[1].pinned);
    assert_eq!(s.active, 2);
    let mut empty = store(&[], 0);
    empty.settle(42, String::new(), String::new());
    assert_eq!(empty.conversations.len(), 1);
    let c = &empty.conversations[0];
    assert_eq!((c.id, c.title.as_str(), c.messages.len(), c.updated, c.pinned), (1, "New session", 0, 42, false));
}

#[test]
fn gateway_blurbs() {
    assert_eq!(gateway("Ollama").blurb, "Local models on this machine. Works offline.");
    assert_eq!(
        gateway("x").blurb,
        "Guest access to the AILE catalog. No key, a few replies per session."
    );
}
