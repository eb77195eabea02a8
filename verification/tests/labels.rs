use letronna::backend::Message;
use letronna::chat::{
    approval_title, free_replies_left, gateway_status, message_label, model_choices,
    question_options, short_model_name,
};
use letronna::json::parse;

#[test]
fn short_model_names() {
    assert_eq!(short_model_name("aile-free/gpt-oss-20b"), "gpt-oss-20b");
    assert_eq!(short_model_name("openai/gpt-4o/mini"), "mini");
    assert_eq!(short_model_name("plain"), "plain");
    assert_eq!(short_model_name("trailing/"), "");
}

#[test]
fn picker_lists_current_model_first_when_missing() {
    let models: Vec<String> = vec!["a/Alpha".into(), "b/beta".into(), "c/Gamma".into()];
    assert_eq!(
        model_choices(&models, &"x/own".to_string(), ""),
        vec!["x/own", "a/Alpha", "b/beta", "c/Gamma"]
    );
    assert_eq!(
        model_choices(&models, &"b/beta".to_string(), ""),
        vec!["a/Alpha", "b/beta", "c/Gamma"]
    );
    assert_eq!(model_choices(&models, &"b/beta".to_string(), "alpha"), vec!["a/Alpha"]);
    assert_eq!(model_choices(&models, &"x/own".to_string(), "a"), vec!["a/Alpha", "b/beta", "c/Gamma"]);
    assert!(model_choices(&models, &"x/own".to_string(), "zzz").is_empty());
}

#[test]
fn status_labels() {
    assert_eq!(gateway_status("OpenAI", true, &None, 3), "OpenAI: loading model list");
    assert_eq!(
        gateway_status("OpenAI", false, &Some("HTTP 401".into()), 3),
        "OpenAI: HTTP 401"
    );
    assert_eq!(gateway_status("OpenAI", false, &None, 42), "OpenAI: 42 models");
    assert_eq!(free_replies_left(0), "0 free replies left");
    assert_eq!(free_replies_left(17), "17 free replies left");
}

#[test]
fn message_labels() {
    let selected = "sel/model".to_string();
    let user = Message { role: "user".into(), content: "hi".into(), model: "m".into() };
    let named = Message { role: "assistant".into(), content: "yo".into(), model: "gpt".into() };
    let unnamed = Message { role: "assistant".into(), content: "yo".into(), model: String::new() };
    assert_eq!(message_label(&user, &selected), "You");
    assert_eq!(message_label(&named, &selected), "gpt");
    assert_eq!(message_label(&unnamed, &selected), "sel/model");
}

#[test]
fn approval_titles() {
    assert_eq!(approval_title("write_file", "a.txt"), "Letronna wants to write a.txt");
    assert_eq!(approval_title("edit_file", "b.rs"), "Letronna wants to edit b.rs");
    assert_eq!(approval_title("run_command", "ls"), "Letronna wants to run a command");
    assert_eq!(approval_title("web_fetch", "x"), "Letronna wants to use web_fetch");
}

#[test]
fn question_choices() {
    let args = parse(r#"{"question":"Pick","options":["a",2,"b"]}"#).unwrap();
    assert_eq!(question_options(&args), vec!["a", "b"]);
    let none = parse(r#"{"question":"Pick"}"#).unwrap();
    assert!(question_options(&none).is_empty());
    let wrong = parse(r#"{"options":"a"}"#).unwrap();
    assert!(question_options(&wrong).is_empty());
}
