use letronna::json::{render, Json};
use letronna::tools::{
    all, apply_edit, specs, clamp_lines, collect_hits, find, limit_output, listing, needs_approval,
    parse_args, path_arg, prepare, preview, required, run, search_query, search_result,
    shell_output, sort_names, summary, written, Tool, ToolContext, MAX_OUTPUT,
};
use letronna::tools::{check_read, check_write, inside_any, starts_under};

#[test]
fn approval_is_needed_for_changes_only() {
    assert!(needs_approval("run_command") && !needs_approval("read_file"));
    assert!(needs_approval("write_file") && needs_approval("edit_file"));
    assert!(needs_approval("ask_user"));
    assert!(!needs_approval("list_dir") && !needs_approval("search"));
    assert!(!needs_approval("nope"));
    assert_eq!(all().len(), 7);
    for t in all() {
        assert_eq!(find(t.name()), Some(t));
    }
}

#[test]
fn previews() {
    let ctx = ToolContext::default();
    assert_eq!(
        preview("write_file", r#"{"path":"a","content":"body"}"#, &ctx),
        "body"
    );
    assert_eq!(
        preview("edit_file", r#"{"old":"a\nb","new":"c"}"#, &ctx),
        "- a\n- b\n+ c\n"
    );
    assert_eq!(preview("run_command", r#"{"command":"ls"}"#, &ctx), "ls");
    assert_eq!(preview("read_file", r#"{ "path" : "x" }"#, &ctx), r#"{"path":"x"}"#);
    assert_eq!(preview("read_file", "", &ctx), "{}");
    assert_eq!(preview("nope", "raw", &ctx), "raw");
    assert_eq!(preview("read_file", "{bad", &ctx), "{bad");
}

#[test]
fn arguments() {
    assert!(matches!(parse_args("  "), Ok(Json::Object(e)) if e.is_empty()));
    assert!(parse_args("{bad").unwrap_err().starts_with("Invalid arguments: "));
    let v = parse_args(r#"{"path":"src","n":1}"#).unwrap();
    assert_eq!(path_arg(&v), "src");
    assert_eq!(path_arg(&parse_args("{}").unwrap()), ".");
    assert_eq!(required(&v, "content").unwrap_err(), "`content` is required.");
    assert_eq!(required(&v, "path").unwrap(), "src");
    assert_eq!(prepare("zap", "{}").unwrap_err(), "Unknown tool `zap`.");
    assert!(prepare("search", "[").is_err());
    assert_eq!(prepare("search", "").unwrap().0, Tool::Search);
}

#[test]
fn run_cuts_long_output() {
    let ctx = ToolContext::default();
    let long = run("read_file", "{}", &ctx, |_, _, _| Ok("é".repeat(MAX_OUTPUT)));
    let out = long.unwrap();
    assert!(out.ends_with("\n… [truncated]"));
    assert_eq!(out.len() - "\n… [truncated]".len(), MAX_OUTPUT);
    let short = run("read_file", "{}", &ctx, |_, _, _| Ok("ok".into()));
    assert_eq!(short.unwrap(), "ok");
    let failed = run("read_file", "{}", &ctx, |_, _, _| Err("boom".into()));
    assert_eq!(failed.unwrap_err(), "boom");
    assert!(run("nope", "{}", &ctx, |_, _, _| Ok(String::new())).is_err());
    assert_eq!(limit_output("abc".into()), "abc");
    let odd = format!("{}€", "a".repeat(MAX_OUTPUT - 1));
    assert_eq!(limit_output(odd), format!("{}\n… [truncated]", "a".repeat(MAX_OUTPUT - 1)));
}

#[test]
fn clamping_lines() {
    assert_eq!(clamp_lines("a\nb\nc", 3), "a\nb\nc");
    assert_eq!(clamp_lines("a\nb\nc\nd", 2), "a\nb\n… 2 more lines");
    assert_eq!(clamp_lines("a\r\nb\n", 1), "a\n… 1 more lines");
    assert_eq!(clamp_lines("", 0), "");
}

#[test]
fn summaries() {
    assert_eq!(summary("search", r#"{"query":"q"}"#), "\"q\"");
    assert_eq!(summary("search", "{}"), "");
    assert_eq!(summary("run_command", r#"{"command":"ls -a"}"#), "ls -a");
    assert_eq!(summary("ask_user", r#"{"question":"why?"}"#), "why?");
    assert_eq!(summary("read_file", r#"{"path":"a.txt"}"#), "a.txt");
    assert_eq!(summary("read_file", "garbage"), ".");
}

#[test]
fn editing() {
    assert_eq!(apply_edit("one two", "two", "three").unwrap(), "one three");
    assert_eq!(
        apply_edit("one two", "zzz", "").unwrap_err(),
        "`old` was not found in the file."
    );
    assert_eq!(
        apply_edit("aa aa aa", "aa", "b").unwrap_err(),
        "`old` matches 3 times; include more context."
    );
    assert_eq!(apply_edit("aaa", "aa", "b").unwrap(), "ba");
    assert_eq!(apply_edit("", "", "x").unwrap(), "x");
    assert!(apply_edit("ab", "", "x").is_err());
    assert_eq!(written("héllo"), "Wrote 6 bytes.");
}

#[test]
fn shell_outputs() {
    assert_eq!(shell_output("hi\n".into(), "  ", true, Some(0)), "hi\n");
    assert_eq!(
        shell_output("".into(), "bad", false, Some(2)),
        "\n[stderr]\nbad\n[exit code 2]"
    );
    assert_eq!(shell_output("x".into(), "", false, None), "x\n[exit code -1]");
}

#[test]
fn searching_and_listing() {
    let args = parse_args(r#"{"query":"WoRld"}"#).unwrap();
    let q = search_query(&args).unwrap();
    assert_eq!(q, "world");
    assert_eq!(
        search_query(&parse_args("{}").unwrap()).unwrap_err(),
        "Query is empty."
    );
    let mut hits = Vec::new();
    assert!(collect_hits(&mut hits, "src/a.txt", "hello\nWorld", &q));
    assert_eq!(hits, vec!["src/a.txt:2: World".to_string()]);
    assert_eq!(search_result(&hits), "src/a.txt:2: World");
    assert_eq!(search_result(&Vec::new()), "No matches.");
    let mut many = Vec::new();
    let text = "world\n".repeat(250);
    assert!(!collect_hits(&mut many, "f", &text, "world"));
    assert_eq!(many.len(), 200);
    assert_eq!(many[199], "f:200: world");
    let sorted = sort_names(vec!["b".into(), "a/".into(), "B".into(), "ä".into()]);
    assert_eq!(sorted, vec!["B", "a/", "b", "ä"]);
    assert_eq!(listing(vec!["src/".into(), "README".into()]), "README\nsrc/");
    assert_eq!(listing(Vec::new()), "");
}

#[test]
fn advertised_tool_specs() {
    let specs = specs(false);
    assert_eq!(specs.len(), 7);
    assert_eq!(
        render(&Tool::ReadFile.parameters()),
        r#"{"properties":{"path":{"type":"string"}},"required":["path"],"type":"object"}"#
    );
    assert_eq!(
        render(&Tool::ListDir.parameters()),
        r#"{"properties":{"path":{"description":"Defaults to the workspace root.","type":"string"}},"type":"object"}"#
    );
    let ask = &specs[6];
    let function = ask.get("function").unwrap();
    assert_eq!(function.get("name").unwrap().as_str(), Some("ask_user"));
    let options = function.get("parameters").unwrap().get("properties").unwrap().get("options").unwrap();
    assert_eq!(
        render(options),
        r#"{"description":"Optional choices to offer.","items":{"type":"string"},"type":"array"}"#
    );
    let run = specs[5].get("function").unwrap().get("description").unwrap().as_str().unwrap();
    assert!(run.starts_with("Run a shell (sh) command"));
    let run_windows = specs_for_windows();
    assert!(run_windows.starts_with("Run a PowerShell command"));
    assert_eq!(specs[0].get("type").unwrap().as_str(), Some("function"));
}

fn specs_for_windows() -> String {
    Tool::RunCommand.description(true).to_string()
}

#[test]
fn carriage_returns_follow_str_lines() {
    let ctx = ToolContext::default();
    assert_eq!(preview("edit_file", r#"{"old":"x\r","new":""}"#, &ctx), "- x\r\n");
    assert_eq!(
        preview("edit_file", r#"{"old":"a\r\nb","new":"c\r\n"}"#, &ctx),
        "- a\n- b\n+ c\n"
    );
    let mut hits = Vec::new();
    assert!(collect_hits(&mut hits, "a.txt", "hello\r\nWorld\r", "d\r"));
    assert_eq!(hits, vec!["a.txt:2: World".to_string()]);
    let mut none = Vec::new();
    assert!(collect_hits(&mut none, "a.txt", "World\r\nx", "d\r"));
    assert!(none.is_empty());
    assert_eq!(clamp_lines("a\r\nb\r", 5), "a\r\nb\r");
    assert_eq!(clamp_lines("a\r\nb\r\nc\r", 2), "a\nb\n… 1 more lines");
}

fn comps(parts: &[&str]) -> Vec<Vec<u8>> {
    parts.iter().map(|p| p.as_bytes().to_vec()).collect()
}

#[test]
fn confinement_by_components() {
    let ws = comps(&["/", "home", "u", "proj"]);
    assert!(starts_under(&comps(&["/", "home", "u", "proj", "src", "a.rs"]), &ws));
    assert!(starts_under(&ws, &ws));
    assert!(!starts_under(&comps(&["/", "home", "u", "project"]), &ws));
    assert!(!starts_under(&comps(&["/", "home", "u"]), &ws));
    let home = comps(&["/", "home", "u"]);
    assert!(inside_any(&comps(&["/", "home", "u", "notes.txt"]), &vec![ws.clone(), home]));
    assert!(!inside_any(&comps(&["/", "etc", "passwd"]), &vec![ws]));
    assert!(!inside_any(&comps(&["/"]), &Vec::new()));
}

#[test]
fn path_checks() {
    let ws = comps(&["/", "w"]);
    let home = comps(&["/", "h"]);
    let roots = vec![ws.clone(), home];
    assert_eq!(check_read("a", &Some(comps(&["/", "w", "a"])), &roots), Ok(()));
    assert_eq!(check_read("x", &None, &roots), Err("`x` does not exist.".to_string()));
    assert_eq!(
        check_read("../e", &Some(comps(&["/", "e"])), &roots),
        Err("`../e` is outside the workspace and home folder.".to_string())
    );
    assert_eq!(check_write("n/b.txt", &comps(&["/", "w"]), &ws), Ok(()));
    assert_eq!(
        check_write("../x", &comps(&["/"]), &ws),
        Err("`../x` is outside the project folder.".to_string())
    );
}
