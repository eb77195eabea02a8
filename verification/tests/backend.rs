use letronna::backend::{
    body, bearer_token, check_endpoint, event_delta, free_model_ids, guest_allowance, guest_cookie,
    check_guest_session, is_json_reply, list_failure, model_ids, models_url, now, parse_event,
    reply_text, status_message, stream_line, unwrap_response, validate, Connection, Event,
    Message, StreamState, StreamStep, UrlParts, MAX_CONTEXT_CHARS,
};
use letronna::backend::{data_root, DataRoot};
use letronna::json::{parse, Json};

fn connection() -> Connection {
    Connection {
        endpoint: "http://localhost:11434/v1/".into(),
        model: "test-model".into(),
        key: String::new(),
    }
}

#[test]
fn endpoint_validation() {
    assert_eq!(
        validate(&connection()).unwrap(),
        "http://localhost:11434/v1/chat/completions"
    );
    let mut c = connection();
    c.model.clear();
    assert!(validate(&c).is_err());
    c.model = "test".into();
    c.endpoint = "http://example.com/v1".into();
    assert!(validate(&c).is_err());
}

#[test]
fn parses_text_and_provider_errors() {
    assert_eq!(
        parse_event(r#"{"choices":[{"delta":{"content":"hello"}}]}"#).unwrap(),
        Some("hello".into())
    );
    assert!(parse_event(r#"{"error":{"message":"bad"}}"#).is_err());
    assert_eq!(
        parse_event(r#"{"choices":[{"delta":{"role":"assistant"}}]}"#).unwrap(),
        None
    );
}

#[test]
fn aile_free_contract() {
    assert_eq!(
        parse_event(r#"{"success":true,"data":{"choices":[{"delta":{"content":"AILE reply"}}]}}"#)
            .unwrap(),
        Some("AILE reply".into())
    );
    assert!(parse_event(r#"{"success":false,"message":"Quota exhausted"}"#).is_err());
    let c = Connection {
        endpoint: "https://api.aile.sh/v1".into(),
        model: "aile-free/gpt-oss-20b".into(),
        key: String::new(),
    };
    assert_eq!(
        validate(&c).unwrap(),
        "https://chat.aile.sh/api/free/chat/completions"
    );
}

#[test]
fn context_keeps_complete_recent_turns() {
    let messages: Vec<_> = (0..30)
        .map(|i| Message {
            role: if i % 2 == 0 { "user" } else { "assistant" }.into(),
            content: format!("message {i}"),
            model: String::new(),
        })
        .collect();
    let payload = body(&connection(), &messages);
    let context = payload.get("messages").unwrap().as_array().unwrap();
    assert_eq!(context.len(), 21);
    assert_eq!(context[1].get("role").unwrap().as_str(), Some("user"));
    assert_eq!(
        context.last().unwrap().get("content").unwrap().as_str(),
        Some("message 29")
    );
}

fn message(role: &str, content: &str) -> Message {
    Message {
        role: role.into(),
        content: content.into(),
        model: String::new(),
    }
}

#[test]
fn validation_reports_each_refusal() {
    let mut c = connection();
    c.endpoint = "not a url".into();
    assert_eq!(
        validate(&c).unwrap_err(),
        "Enter a valid endpoint, such as http://localhost:11434/v1"
    );
    c.endpoint = "ftp://localhost/v1".into();
    assert_eq!(validate(&c).unwrap_err(), "Endpoint must be an HTTP or HTTPS URL.");
    c.endpoint = "https://user:pw@example.com/v1".into();
    assert_eq!(
        validate(&c).unwrap_err(),
        "Use a base URL without credentials, query parameters, or fragments."
    );
    c.endpoint = "https://example.com/v1?x=1".into();
    assert!(validate(&c).is_err());
    c.endpoint = "http://example.com/v1".into();
    assert_eq!(
        validate(&c).unwrap_err(),
        "Use HTTPS for remote providers, or HTTP on localhost."
    );
    c.endpoint = "https://example.com/v1".into();
    c.model = "   ".into();
    assert_eq!(
        validate(&c).unwrap_err(),
        "Enter the model ID served by your provider in Connection settings."
    );
    c.model = "aile-free/x".into();
    assert_eq!(
        validate(&c).unwrap_err(),
        "Aile Free models use the AILE connection: https://api.aile.sh/v1"
    );
}

#[test]
fn validation_keeps_a_full_completions_url_and_trims() {
    let c = Connection {
        endpoint: "  https://example.com/v1/chat/completions/  ".into(),
        model: "m".into(),
        key: String::new(),
    };
    assert_eq!(validate(&c).unwrap(), "https://example.com/v1/chat/completions");
    let c = Connection {
        endpoint: "http://127.0.0.1:8080".into(),
        model: "m".into(),
        key: String::new(),
    };
    assert_eq!(validate(&c).unwrap(), "http://127.0.0.1:8080/chat/completions");
}

#[test]
fn check_endpoint_reads_the_parsed_parts() {
    let parts = UrlParts {
        scheme: "https".into(),
        host: Some("example.com".into()),
        username: String::new(),
        password: None,
        query: None,
        fragment: Some("x".into()),
    };
    let c = Connection {
        endpoint: "https://example.com/v1".into(),
        model: "m".into(),
        key: String::new(),
    };
    assert!(check_endpoint(&c, &Some(parts)).is_err());
    assert!(check_endpoint(&c, &None).is_err());
}

#[test]
fn context_drops_an_oversized_history_but_keeps_the_prompt() {
    let big = "x".repeat(MAX_CONTEXT_CHARS - 10);
    let messages = vec![
        message("user", "first"),
        message("assistant", &big),
        message("user", "0123456789a"),
    ];
    let payload = body(&connection(), &messages);
    let context = payload.get("messages").unwrap().as_array().unwrap();
    assert_eq!(context.len(), 2);
    assert_eq!(context[0].get("role").unwrap().as_str(), Some("system"));
    assert_eq!(context[1].get("content").unwrap().as_str(), Some("0123456789a"));
    assert_eq!(payload.get("model").unwrap().as_str(), Some("test-model"));
    assert!(matches!(payload.get("stream"), Some(Json::Bool(true))));
    match payload.get("max_tokens") {
        Some(Json::Number(n)) => assert_eq!(n, "1024"),
        other => panic!("unexpected {other:?}"),
    }
}

#[test]
fn context_starts_at_a_user_turn() {
    let messages = vec![message("assistant", "hi"), message("user", "q")];
    let payload = body(&connection(), &messages);
    let context = payload.get("messages").unwrap().as_array().unwrap();
    assert_eq!(context.len(), 2);
    assert_eq!(context[1].get("content").unwrap().as_str(), Some("q"));
}

#[test]
fn provider_failures_are_cut_and_defaulted() {
    let long = "e".repeat(500);
    let v = parse(&format!(r#"{{"error":{{"message":"{long}"}}}}"#)).unwrap();
    assert_eq!(unwrap_response(&v).unwrap_err().chars().count(), 400);
    let v = parse(r#"{"error":{"message":7}}"#).unwrap();
    assert_eq!(
        unwrap_response(&v).unwrap_err(),
        "The provider could not finish this response."
    );
    let v = parse(r#"{"success":"yes","message":"m"}"#).unwrap();
    assert_eq!(unwrap_response(&v).unwrap_err(), "m");
    let v = parse(r#"{"success":true}"#).unwrap();
    assert!(unwrap_response(&v).unwrap().is_none());
    assert_eq!(
        parse_event("not json").unwrap_err(),
        "Provider returned an invalid stream event."
    );
}

#[test]
fn whole_replies_need_text() {
    let v = parse(r#"{"choices":[{"message":{"content":"hi"}}]}"#).unwrap();
    assert_eq!(reply_text(&v).unwrap(), "hi");
    let v = parse(r#"{"choices":[{"message":{"content":""}}]}"#).unwrap();
    assert_eq!(reply_text(&v).unwrap_err(), "Model returned no text.");
    let v = parse(r#"{"choices":[{"delta":{"content":"d"}}]}"#).unwrap();
    assert_eq!(event_delta(&v).unwrap(), Some("d".to_string()));
}

#[test]
fn failing_status_messages() {
    let detail = parse(r#"{"error":{"message":"quota"}}"#).ok();
    assert_eq!(status_message(&detail, 429), "quota");
    assert_eq!(
        status_message(&None, 502),
        "Provider returned HTTP 502. Check connection settings and quota."
    );
    let plain = parse(r#"{"ok":1}"#).ok();
    assert_eq!(
        status_message(&plain, 500),
        "Provider returned HTTP 500. Check connection settings and quota."
    );
}

#[test]
fn stream_lines_and_outcome() {
    let mut state = StreamState::new();
    for line in [
        ": keep-alive",
        "data: {\"choices\":[{\"delta\":{\"content\":\"He\"}}]}",
        "data:{\"choices\":[{\"delta\":{}}]}",
        "data:  [DONE]  ",
    ] {
        let step = stream_line(line);
        state.record(&step);
    }
    assert!(state.outcome().is_ok());
    assert!(matches!(stream_line("data: [DONE]"), StreamStep::Done));
    assert!(matches!(stream_line("event: x"), StreamStep::Skip));
    assert!(matches!(stream_line("data: {\"choices\":[{\"delta\":{\"content\":\"a\"}}]}"), StreamStep::Delta(t) if t == "a"));
    assert!(matches!(stream_line("data: {oops"), StreamStep::Fail(_)));
    let mut early = StreamState::new();
    early.record(&StreamStep::Delta("x".into()));
    assert_eq!(
        early.outcome().unwrap_err(),
        "The provider closed the stream early or does not support SSE chat completions."
    );
    let mut empty = StreamState::new();
    empty.record(&StreamStep::Delta(String::new()));
    empty.record(&StreamStep::Done);
    assert_eq!(
        empty.outcome().unwrap_err(),
        "The model returned no text. Check model compatibility."
    );
    assert!(is_json_reply("application/json; charset=utf-8"));
    assert!(!is_json_reply("text/event-stream"));
}

#[test]
fn model_lists() {
    let v = parse(r#"{"data":[{"id":"a"},{"key":"b"},{"id":5,"key":"c"},{"x":1}]}"#).unwrap();
    assert_eq!(model_ids(&v).unwrap(), vec!["a", "b", "c"]);
    let v = parse(r#"{"data":{}}"#).unwrap();
    assert_eq!(model_ids(&v).unwrap_err(), "Invalid model list.");
    let v = parse(r#"{"data":[{"key":"aile-free/x"},{"key":"paid/y"},{"id":"aile-free/z"}]}"#)
        .unwrap();
    assert_eq!(free_model_ids(&v).unwrap(), vec!["aile-free/x"]);
    let v = parse(r#"{"models":[]}"#).unwrap();
    assert_eq!(free_model_ids(&v).unwrap_err(), "Invalid model catalog.");
    assert_eq!(models_url(" https://x.io/v1// "), "https://x.io/v1/models");
    assert_eq!(bearer_token("  k  "), Some("k".to_string()));
    assert_eq!(bearer_token("   "), None);
    assert_eq!(list_failure(Some(401)), "The gateway rejected the API key.");
    assert_eq!(list_failure(Some(500)), "Cannot load the model list from this gateway.");
    assert_eq!(list_failure(None), "Cannot load the model list from this gateway.");
}

#[test]
fn guest_session() {
    let headers = vec![
        "other=1; Path=/".to_string(),
        "aile_private_guest=abc; HttpOnly".to_string(),
    ];
    assert_eq!(guest_cookie(&headers, "old".into()), "aile_private_guest=abc");
    assert_eq!(guest_cookie(&vec!["x=1".into()], "old".into()), "old");
    let v = parse(r#"{"remaining":3}"#).unwrap();
    assert_eq!(check_guest_session(&v, "c=1").unwrap(), 3);
    assert_eq!(
        check_guest_session(&v, "").unwrap_err(),
        "AILE did not issue a guest session."
    );
    let v = parse(r#"{"remaining":-1}"#).unwrap();
    assert_eq!(
        check_guest_session(&v, "c=1").unwrap_err(),
        "AILE returned no guest allowance."
    );
    assert_eq!(guest_allowance(2), Ok(2));
    assert!(guest_allowance(0).unwrap_err().starts_with("Your AILE guest allowance is used up."));
}

#[test]
fn clock_and_events() {
    assert!(now() > 1_600_000_000);
    let e = Event::Finished(Ok(()));
    assert!(matches!(e, Event::Finished(Ok(()))));
}

#[test]
fn pointer_token_zero_reads_objects_too() {
    assert_eq!(
        letronna::backend::parse_event(r#"{"choices":{"0":{"delta":{"content":"hi"}}}}"#).unwrap(),
        Some("hi".to_string())
    );
    assert_eq!(
        letronna::backend::parse_event(r#"{"choices":{"1":{"delta":{"content":"hi"}}}}"#).unwrap(),
        None
    );
}

#[test]
fn data_folder_choice() {
    assert_eq!(data_root(true, true, true), (DataRoot::AgentDataDir, vec![]));
    assert_eq!(data_root(false, true, true), (DataRoot::LocalAppData, vec!["Letronna"]));
    assert_eq!(data_root(false, false, true), (DataRoot::Home, vec![".local/share", "Letronna"]));
    assert_eq!(data_root(false, false, false), (DataRoot::Temp, vec!["Letronna"]));
}
