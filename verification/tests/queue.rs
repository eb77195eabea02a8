use letronna::chat::{Pending, Step, ToolCall, Verdict};
use letronna::tools::DECLINED;

fn call(name: &str) -> ToolCall {
    ToolCall { id: format!("id-{name}"), name: name.into(), arguments: "{}".into() }
}

#[test]
fn calls_are_answered_in_order() {
    let mut p = Pending::new(vec![call("read_file"), call("write_file"), call("ask_user")]);
    assert_eq!(p.step(false, false), Step::Run);
    assert_eq!(p.front().unwrap().name, "read_file");
    p.record(Ok("text".into()));
    assert_eq!(p.front().unwrap().name, "write_file");
    assert_eq!(p.step(false, false), Step::Wait);
    assert_eq!(p.step(true, false), Step::Run);
    assert_eq!(p.step(false, true), Step::Run);
    assert_eq!(p.resolve(Verdict::Deny), None);
    assert_eq!(p.front().unwrap().name, "ask_user");
    assert_eq!(p.step(true, true), Step::Wait);
    assert_eq!(p.resolve(Verdict::Answer("React".into())), None);
    assert!(p.front().is_none());
    assert_eq!(p.step(false, false), Step::Done);
    let (calls, results) = p.outcome();
    assert_eq!(calls.len(), 3);
    assert_eq!(
        results,
        &vec![Ok("text".to_string()), Err(DECLINED.to_string()), Ok("React".to_string())]
    );
}

#[test]
fn an_approval_leaves_the_call_to_run() {
    let mut p = Pending::new(vec![call("run_command")]);
    assert_eq!(p.step(false, false), Step::Wait);
    assert_eq!(p.resolve(Verdict::Allow { remember: true }), Some(true));
    assert_eq!(p.front().unwrap().name, "run_command");
    p.record(Err("boom".into()));
    assert_eq!(p.step(false, false), Step::Done);
    let empty = Pending::new(Vec::new());
    assert_eq!(empty.step(false, false), Step::Done);
    assert!(empty.front().is_none());
    assert_eq!(empty.outcome().1.len(), 0);
}
