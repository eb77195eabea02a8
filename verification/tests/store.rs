use letronna::backend::Message;
use letronna::chat::{
    another_round, attachment_note, awaits_user, endpoint_for_model, export_markdown,
    export_name, greeting, read_prompt, session_rows, visible_sessions, Page, Prompt, Row,
};
use letronna::store::{age_label, bucket, Conversation, Store, DAY};

fn conversation(id: u64, title: &str, updated: u64, pinned: bool) -> Conversation {
    Conversation {
        id,
        title: title.into(),
        messages: Vec::new(),
        updated,
        pinned,
    }
}

fn store(convs: Vec<Conversation>) -> Store {
    Store {
        conversations: convs,
        active: 0,
        endpoint: String::new(),
        model: String::new(),
        gateway: String::new(),
        presence: String::new(),
    }
}

#[test]
fn ids_are_assigned_above_existing_ones() {
    let mut s = store(vec![
        conversation(0, "a", 0, false),
        conversation(7, "b", 0, false),
        conversation(0, "c", 0, false),
    ]);
    assert_eq!(s.next_id(), 8);
    s.assign_ids();
    let ids: Vec<u64> = s.conversations.iter().map(|c| c.id).collect();
    assert_eq!(ids, vec![8, 7, 9]);
    assert_eq!(s.index_of(9), Some(2));
    assert_eq!(s.index_of(1), None);
    assert_eq!(store(Vec::new()).next_id(), 1);
}

#[test]
fn buckets_and_ages() {
    let now = 100 * DAY;
    assert_eq!(bucket(now, now), "TODAY");
    assert_eq!(bucket(now - DAY, now), "YESTERDAY");
    assert_eq!(bucket(now - 6 * DAY, now), "EARLIER THIS WEEK");
    assert_eq!(bucket(now - 13 * DAY, now), "LAST WEEK");
    assert_eq!(bucket(now - 14 * DAY, now), "OLDER");
    assert_eq!(bucket(now + 5, now), "TODAY");
    assert_eq!(age_label(0, now), "");
    assert_eq!(age_label(now - 10, now), "1m");
    assert_eq!(age_label(now - 600, now), "10m");
    assert_eq!(age_label(now - 7200, now), "2h");
    assert_eq!(age_label(now - 3 * DAY, now), "3d");
}

#[test]
fn sending_a_prompt() {
    assert!(matches!(read_prompt("   "), Prompt::Empty));
    assert!(matches!(read_prompt(&"x".repeat(12_001)), Prompt::TooLong(_)));
    let Prompt::Send(p) = read_prompt("  A question that is much longer than forty characters, really  ")
    else {
        panic!()
    };
    let mut s = store(vec![conversation(3, "New session", 0, false)]);
    let id = s.record_prompt(p, 42);
    assert_eq!(id, 3);
    let c = &s.conversations[0];
    assert_eq!(c.title, "A question that is much longer than fort");
    assert_eq!(c.updated, 42);
    assert_eq!(c.messages.len(), 1);
    assert_eq!(c.messages[0].role, "user");
    assert_eq!(s.record_reply(3, "answer".into(), "m".into(), 50), Some(0));
    assert_eq!(s.conversations[0].messages[1].role, "assistant");
    assert_eq!(s.record_reply(99, "x".into(), "m".into(), 50), None);
}

#[test]
fn session_operations() {
    let mut s = store(vec![conversation(1, "a", 0, false), conversation(2, "b", 0, false)]);
    s.active = 1;
    assert!(!s.delete_session(0, true));
    assert!(!s.delete_session(5, false));
    assert!(s.delete_session(0, false));
    assert_eq!(s.active, 0);
    assert_eq!(s.conversations.len(), 1);
    s.new_session(10);
    assert_eq!(s.active, 1);
    assert_eq!(s.conversations[1].id, 3);
    assert_eq!(s.conversations[1].title, "New session");
    s.toggle_pin(1);
    assert!(s.conversations[1].pinned);
    assert!(!s.rename_session(1, "   "));
    assert!(s.rename_session(1, "  Named  "));
    assert_eq!(s.conversations[1].title, "Named");
    let mut loaded = store(Vec::new());
    loaded.active = 9;
    loaded.settle(5, "https://e".into(), "m".into());
    assert_eq!(loaded.conversations.len(), 1);
    assert_eq!(loaded.conversations[0].id, 1);
    assert_eq!(loaded.active, 0);
    assert_eq!(loaded.gateway, "AILE Free");
    assert_eq!(loaded.endpoint, "https://e");
    assert_eq!(loaded.model, "m");
}

#[test]
fn session_list() {
    let now = 30 * DAY;
    let convs = vec![
        conversation(1, "Old notes", now - 20 * DAY, false),
        conversation(2, "Pinned plan", now - 20 * DAY, true),
        conversation(3, "Today's work", now, false),
        conversation(4, "More work", now - 10, false),
    ];
    let all = visible_sessions(&convs, "");
    assert_eq!(all, vec![3, 2, 1, 0]);
    assert_eq!(visible_sessions(&convs, "work"), vec![3, 2]);
    let rows = session_rows(&convs, &all, now);
    assert_eq!(
        rows,
        vec![
            Row::Session(1),
            Row::Heading("TODAY"),
            Row::Session(3),
            Row::Session(2),
            Row::Heading("OLDER"),
            Row::Session(0),
        ]
    );
}

#[test]
fn export_and_pages() {
    let mut c = conversation(1, "Plan: v2/ready?", 0, false);
    c.messages.push(Message { role: "user".into(), content: "hi".into(), model: String::new() });
    c.messages.push(Message { role: "assistant".into(), content: "yo".into(), model: "gpt".into() });
    c.messages.push(Message { role: "assistant".into(), content: "!".into(), model: String::new() });
    assert_eq!(
        export_markdown(&c),
        "# Plan: v2/ready?\n\n**You**\n\nhi\n\n---\n\n**gpt**\n\nyo\n\n---\n\n**Assistant**\n\n!\n\n---\n\n"
    );
    assert_eq!(export_name("Plan: v2/ready?"), "Plan- v2-ready-");
    assert_eq!(export_name("  hi  "), "hi");
    assert_eq!(attachment_note(&vec!["a.txt".into(), "b".into()]), "[attached: a.txt]\n[attached: b]\n");
    assert_eq!(Page::Jobs.title(), "Scheduled jobs");
    assert_eq!(Page::Chat.blurb(), "");
    assert!(!Page::Skills.blurb().is_empty());
    assert_eq!(greeting(7), "What are we building today?");
    assert_eq!(endpoint_for_model("aile-free/x"), Some("https://api.aile.sh/v1"));
    assert_eq!(endpoint_for_model("gpt-4"), None);
    assert!(awaits_user("ask_user", true, true));
    assert!(awaits_user("write_file", false, false));
    assert!(!awaits_user("write_file", true, false));
    assert!(!awaits_user("write_file", false, true));
    assert!(!awaits_user("read_file", false, false));
    assert!(another_round(1, 24) && !another_round(1, 25) && !another_round(0, 0));
}
