//! Tools the model may call. Each one is a `Tool`; the registry below is what
//! gets advertised to the provider and dispatched on `tool_calls`.
//!
//! Read-only tools run without asking. Tools that change the workspace or
//! run a command need approval, and the chat shows a card first. `ask_user`
//! is answered by the user, never run here.
//!
//! The file system and the shell are the caller's; this module decides
//! everything around them: which tool a name means, how arguments are read,
//! what the approval card shows, and how outputs are put together.

use crate::json::{self, Json, json_parse, str_value};
use crate::text::{self, decimal, lines, trimmed};
use vstd::prelude::*;

verus! {

broadcast use vstd::string::group_string_axioms;

#[verifier::external_type_specification]
#[verifier::external_body]
pub struct ExPathBuf(std::path::PathBuf);

/// Where a session is allowed to look.
#[derive(Clone, Debug, Default)]
pub struct ToolContext {
    /// The folder attached to the session. Relative paths resolve here.
    pub workspace: Option<std::path::PathBuf>,
}

/// The tools the model can call.
#[derive(Clone, Copy, Debug, PartialEq, Eq, Structural)]
pub enum Tool {
    ReadFile,
    ListDir,
    Search,
    WriteFile,
    EditFile,
    RunCommand,
    AskUser,
}

pub const ASK_USER: &'static str = "ask_user";

/// The tool result the model gets when the user denies a call.
pub const DECLINED: &'static str =
    "The user declined this action. Ask before trying a different approach.";

/// Tool output beyond this many bytes is cut.
pub const MAX_OUTPUT: usize = 24000;

/// Search stops after this many hits.
pub const MAX_HITS: usize = 200;

/// The name a tool is called by.
pub open spec fn tool_name(t: Tool) -> Seq<char> {
    match t {
        Tool::ReadFile => "read_file"@,
        Tool::ListDir => "list_dir"@,
        Tool::Search => "search"@,
        Tool::WriteFile => "write_file"@,
        Tool::EditFile => "edit_file"@,
        Tool::RunCommand => "run_command"@,
        Tool::AskUser => ASK_USER@,
    }
}

/// The tool called `name`, if any.
pub open spec fn tool_named(name: Seq<char>) -> Option<Tool> {
    if name == "read_file"@ {
        Some(Tool::ReadFile)
    } else if name == "list_dir"@ {
        Some(Tool::ListDir)
    } else if name == "search"@ {
        Some(Tool::Search)
    } else if name == "write_file"@ {
        Some(Tool::WriteFile)
    } else if name == "edit_file"@ {
        Some(Tool::EditFile)
    } else if name == "run_command"@ {
        Some(Tool::RunCommand)
    } else if name == ASK_USER@ {
        Some(Tool::AskUser)
    } else {
        None
    }
}

/// What the provider is told a tool does.
pub open spec fn tool_description(t: Tool, windows: bool) -> Seq<char> {
    match t {
        Tool::ReadFile => "Read a text file. Paths are relative to the workspace."@,
        Tool::ListDir => "List the entries of a folder. Folders end with a slash."@,
        Tool::Search => "Case-insensitive text search across files under a folder. Returns path:line: text."@,
        Tool::WriteFile => "Create or overwrite a text file in the project folder. Parent folders are created."@,
        Tool::EditFile => "Replace one exact occurrence of `old` with `new` in a file. `old` must match exactly once."@,
        Tool::RunCommand => if windows {
            "Run a PowerShell command in the project folder and return its output. 2 minute limit; do not start servers or watchers."@
        } else {
            "Run a shell (sh) command in the project folder and return its output. 2 minute limit; do not start servers or watchers."@
        },
        Tool::AskUser => "Ask the user a question and wait for the answer. Use it when the task is ambiguous or needs a decision, such as a project name or framework."@,
    }
}

/// Tools that change the workspace, run a command, or ask the user.
pub open spec fn gated(t: Tool) -> bool {
    match t {
        Tool::WriteFile | Tool::EditFile | Tool::RunCommand | Tool::AskUser => true,
        _ => false,
    }
}

/// A string member, or the empty text.
pub open spec fn str_or_empty(v: Json, key: Seq<char>) -> Seq<char> {
    match str_value(v.field(key)) {
        Some(t) => t,
        None => Seq::empty(),
    }
}

/// Each line of `ls` after `mark`, each ending in a newline.
pub open spec fn marked(ls: Seq<Seq<char>>, mark: Seq<char>) -> Seq<char>
    decreases ls.len(),
{
    if ls.len() == 0 {
        Seq::empty()
    } else {
        marked(ls.drop_last(), mark) + mark + ls.last() + seq!['\n']
    }
}

/// What the approval card shows for a call with these arguments: the file
/// body, a line diff, the command line, or the arguments as JSON.
pub open spec fn tool_preview(t: Tool, args: Json) -> Seq<char> {
    match t {
        Tool::WriteFile => str_or_empty(args, "content"@),
        Tool::EditFile => marked(lines(str_or_empty(args, "old"@)), "- "@) + marked(
            lines(str_or_empty(args, "new"@)),
            "+ "@,
        ),
        Tool::RunCommand => str_or_empty(args, "command"@),
        _ => json::json_text(args),
    }
}

/// Whether `v` is what call arguments `args` read as: the empty object for
/// blank text, otherwise the document the text parses to.
pub open spec fn reads_as(args: Seq<char>, v: Json) -> bool {
    if trimmed(args).len() == 0 {
        v matches Json::Object(e) && e@.len() == 0
    } else {
        json_parse(args) == Ok::<Json, Seq<char>>(v)
    }
}

/// Why call arguments do not read, if they do not: blank text always reads,
/// other text must parse as JSON.
pub open spec fn args_error(args: Seq<char>) -> Option<Seq<char>> {
    if trimmed(args).len() == 0 {
        None
    } else {
        match json_parse(args) {
            Ok(_) => None,
            Err(e) => Some("Invalid arguments: "@ + e),
        }
    }
}

fn text_or_empty(v: &Json, key: &str) -> (r: String)
    ensures
        r@ == str_or_empty(*v, key@),
{
    match v.get(key) {
        Some(j) => match j.as_str() {
            Some(t) => text::owned(t),
            None => String::new(),
        },
        None => String::new(),
    }
}

fn push_marked(out: &mut String, block: &str, mark: &str)
    ensures
        final(out)@ == old(out)@ + marked(lines(block@), mark@),
{
    let chars = text::chars_of(block);
    let ls = text::split_lines(&chars);
    let ghost start = out@;
    let mut i: usize = 0;
    while i < ls.len()
        invariant
            i <= ls@.len(),
            ls@.len() == lines(block@).len(),
            forall|k: int| 0 <= k < ls@.len() ==> (#[trigger] ls@[k])@ == lines(block@)[k],
            out@ == start + marked(lines(block@).take(i as int), mark@),
        decreases ls.len() - i,
    {
        text::push_str(out, mark);
        let line = text::string_of(&ls[i]);
        text::push_str(out, line.as_str());
        text::push_char(out, '\n');
        assert(lines(block@).take(i + 1).drop_last() =~= lines(block@).take(i as int));
        assert(lines(block@).take(i + 1).last() == ls@[i as int]@);
        i += 1;
    }
    assert(lines(block@).take(ls@.len() as int) =~= lines(block@));
}

impl Tool {
    /// The name the tool is called by.
    pub fn name(&self) -> (r: &'static str)
        ensures
            r@ == tool_name(*self),
    {
        match self {
            Tool::ReadFile => "read_file",
            Tool::ListDir => "list_dir",
            Tool::Search => "search",
            Tool::WriteFile => "write_file",
            Tool::EditFile => "edit_file",
            Tool::RunCommand => "run_command",
            Tool::AskUser => ASK_USER,
        }
    }

    /// What the provider is told the tool does. The shell is PowerShell on
    /// Windows and `sh` elsewhere.
    pub fn description(&self, windows: bool) -> (r: &'static str)
        ensures
            r@ == tool_description(*self, windows),
    {
        match self {
            Tool::ReadFile => "Read a text file. Paths are relative to the workspace.",
            Tool::ListDir => "List the entries of a folder. Folders end with a slash.",
            Tool::Search => "Case-insensitive text search across files under a folder. Returns path:line: text.",
            Tool::WriteFile => "Create or overwrite a text file in the project folder. Parent folders are created.",
            Tool::EditFile => "Replace one exact occurrence of `old` with `new` in a file. `old` must match exactly once.",
            Tool::RunCommand => if windows {
                "Run a PowerShell command in the project folder and return its output. 2 minute limit; do not start servers or watchers."
            } else {
                "Run a shell (sh) command in the project folder and return its output. 2 minute limit; do not start servers or watchers."
            },
            Tool::AskUser => "Ask the user a question and wait for the answer. Use it when the task is ambiguous or needs a decision, such as a project name or framework.",
        }
    }

    /// Whether the user must approve each call before it runs.
    pub fn needs_approval(&self) -> (r: bool)
        ensures
            r == gated(*self),
    {
        match self {
            Tool::WriteFile | Tool::EditFile | Tool::RunCommand | Tool::AskUser => true,
            _ => false,
        }
    }

    /// What the approval card shows: the file body, a diff, the command line,
    /// or the arguments.
    pub fn preview(&self, args: &Json, ctx: &ToolContext) -> (r: String)
        ensures
            r@ == tool_preview(*self, *args),
    {
        let _ = ctx;
        match self {
            Tool::WriteFile => text_or_empty(args, "content"),
            Tool::EditFile => {
                let old = text_or_empty(args, "old");
                let new = text_or_empty(args, "new");
                let mut out = String::new();
                push_marked(&mut out, old.as_str(), "- ");
                push_marked(&mut out, new.as_str(), "+ ");
                out
            },
            Tool::RunCommand => text_or_empty(args, "command"),
            _ => json::render(args),
        }
    }
}

/// Every tool, in the order they are advertised.
pub open spec fn all_tools() -> Seq<Tool> {
    seq![
        Tool::ReadFile,
        Tool::ListDir,
        Tool::Search,
        Tool::WriteFile,
        Tool::EditFile,
        Tool::RunCommand,
        Tool::AskUser,
    ]
}

/// Every tool, in the order they are advertised.
pub fn all() -> (r: Vec<Tool>)
    ensures
        r@ == all_tools(),
{
    let mut v: Vec<Tool> = Vec::new();
    v.push(Tool::ReadFile);
    v.push(Tool::ListDir);
    v.push(Tool::Search);
    v.push(Tool::WriteFile);
    v.push(Tool::EditFile);
    v.push(Tool::RunCommand);
    v.push(Tool::AskUser);
    v
}

/// A JSON string holding `t`.
pub open spec fn is_str(j: Json, t: Seq<char>) -> bool {
    j matches Json::Str(s) && s@ == t
}

/// An object member `key: "value"`.
pub open spec fn str_member(m: (String, Json), key: Seq<char>, value: Seq<char>) -> bool {
    m.0@ == key && is_str(m.1, value)
}

/// `{"type": "string"}`, with a description when there is one.
pub open spec fn is_string_schema(j: Json, desc: Option<Seq<char>>) -> bool {
    &&& j matches Json::Object(e)
    &&& e@.len() == if desc is Some { 2int } else { 1int }
    &&& str_member(e@[0], "type"@, "string"@)
    &&& desc matches Some(d) ==> str_member(e@[1], "description"@, d)
}

/// The schema of `ask_user`'s optional list of choices.
pub open spec fn is_options_schema(j: Json) -> bool {
    &&& j matches Json::Object(e)
    &&& e@.len() == 3
    &&& str_member(e@[0], "type"@, "array"@)
    &&& e@[1].0@ == "items"@
    &&& is_string_schema(e@[1].1, None)
    &&& str_member(e@[2], "description"@, "Optional choices to offer."@)
}

/// A JSON array of the strings `names`, in order.
pub open spec fn is_str_array(j: Json, names: Seq<Seq<char>>) -> bool {
    &&& j matches Json::Array(a)
    &&& a@.len() == names.len()
    &&& forall|k: int| 0 <= k < names.len() ==> is_str(#[trigger] a@[k], names[k])
}

/// A tool's string arguments, each with its description if it has one.
pub open spec fn string_args(t: Tool) -> Seq<(Seq<char>, Option<Seq<char>>)> {
    match t {
        Tool::ReadFile => seq![("path"@, None)],
        Tool::ListDir => seq![("path"@, Some("Defaults to the workspace root."@))],
        Tool::Search => seq![
            ("query"@, None),
            ("path"@, Some("Folder to search. Defaults to the workspace root."@)),
        ],
        Tool::WriteFile => seq![("path"@, None), ("content"@, None)],
        Tool::EditFile => seq![("path"@, None), ("old"@, None), ("new"@, None)],
        Tool::RunCommand => seq![("command"@, None)],
        Tool::AskUser => seq![("question"@, None)],
    }
}

/// The arguments a tool cannot do without; `list_dir` has none.
pub open spec fn required_args(t: Tool) -> Option<Seq<Seq<char>>> {
    match t {
        Tool::ReadFile => Some(seq!["path"@]),
        Tool::ListDir => None,
        Tool::Search => Some(seq!["query"@]),
        Tool::WriteFile => Some(seq!["path"@, "content"@]),
        Tool::EditFile => Some(seq!["path"@, "old"@, "new"@]),
        Tool::RunCommand => Some(seq!["command"@]),
        Tool::AskUser => Some(seq!["question"@]),
    }
}

/// The `properties` object of a tool's schema: its string arguments, and
/// for `ask_user` the list of choices after them.
pub open spec fn is_properties(p: Seq<(String, Json)>, t: Tool) -> bool {
    let sa = string_args(t);
    &&& p.len() == sa.len() + if t == Tool::AskUser { 1int } else { 0int }
    &&& forall|k: int|
        0 <= k < sa.len() ==> (#[trigger] p[k]).0@ == sa[k].0 && is_string_schema(
            p[k].1,
            sa[k].1,
        )
    &&& t == Tool::AskUser ==> p[sa.len() as int].0@ == "options"@ && is_options_schema(
        p[sa.len() as int].1,
    )
}

/// The JSON schema of a tool's arguments object.
pub open spec fn is_parameters(j: Json, t: Tool) -> bool {
    &&& j matches Json::Object(e)
    &&& e@.len() == if required_args(t) is Some { 3int } else { 2int }
    &&& str_member(e@[0], "type"@, "object"@)
    &&& e@[1].0@ == "properties"@
    &&& e@[1].1 matches Json::Object(p) && is_properties(p@, t)
    &&& required_args(t) matches Some(r) ==> e@[2].0@ == "required"@ && is_str_array(e@[2].1, r)
}

/// One entry of the `tools` array of a chat-completion request.
pub open spec fn is_tool_spec(j: Json, t: Tool, windows: bool) -> bool {
    &&& j matches Json::Object(e)
    &&& e@.len() == 2
    &&& str_member(e@[0], "type"@, "function"@)
    &&& e@[1].0@ == "function"@
    &&& e@[1].1 matches Json::Object(f) && {
        &&& f@.len() == 3
        &&& str_member(f@[0], "name"@, tool_name(t))
        &&& str_member(f@[1], "description"@, tool_description(t, windows))
        &&& f@[2].0@ == "parameters"@
        &&& is_parameters(f@[2].1, t)
    }
}

fn str_entry(key: &str, value: &str) -> (m: (String, Json))
    ensures
        str_member(m, key@, value@),
{
    (text::owned(key), json::string(value))
}

fn string_schema(desc: Option<&str>) -> (j: Json)
    ensures
        is_string_schema(
            j,
            match desc {
                Some(d) => Some(d@),
                None => None,
            },
        ),
{
    let mut e: Vec<(String, Json)> = Vec::new();
    e.push(str_entry("type", "string"));
    if let Some(d) = desc {
        e.push(str_entry("description", d));
    }
    Json::Object(e)
}

fn string_arg(props: &mut Vec<(String, Json)>, name: &str, desc: Option<&str>)
    ensures
        final(props)@.len() == old(props)@.len() + 1,
        forall|k: int| 0 <= k < old(props)@.len() ==> final(props)@[k] == old(props)@[k],
        final(props)@.last().0@ == name@,
        is_string_schema(
            final(props)@.last().1,
            match desc {
                Some(d) => Some(d@),
                None => None,
            },
        ),
{
    props.push((text::owned(name), string_schema(desc)));
}

fn str_array(names: &Vec<&str>) -> (j: Json)
    ensures
        j matches Json::Array(a) && a@.len() == names@.len() && forall|k: int|
            0 <= k < names@.len() ==> is_str(#[trigger] a@[k], names@[k]@),
{
    let mut a: Vec<Json> = Vec::new();
    let mut i: usize = 0;
    while i < names.len()
        invariant
            i <= names@.len(),
            a@.len() == i,
            forall|k: int| 0 <= k < i ==> is_str(#[trigger] a@[k], names@[k]@),
        decreases names.len() - i,
    {
        a.push(json::string(names[i]));
        i += 1;
    }
    Json::Array(a)
}

impl Tool {
    /// The JSON schema of the tool's arguments object.
    pub fn parameters(&self) -> (j: Json)
        ensures
            is_parameters(j, *self),
    {
        let mut props: Vec<(String, Json)> = Vec::new();
        let mut required: Vec<&str> = Vec::new();
        match self {
            Tool::ReadFile => {
                string_arg(&mut props, "path", None);
                required.push("path");
            },
            Tool::ListDir => {
                string_arg(&mut props, "path", Some("Defaults to the workspace root."));
            },
            Tool::Search => {
                string_arg(&mut props, "query", None);
                string_arg(
                    &mut props,
                    "path",
                    Some("Folder to search. Defaults to the workspace root."),
                );
                required.push("query");
            },
            Tool::WriteFile => {
                string_arg(&mut props, "path", None);
                string_arg(&mut props, "content", None);
                required.push("path");
                required.push("content");
            },
            Tool::EditFile => {
                string_arg(&mut props, "path", None);
                string_arg(&mut props, "old", None);
                string_arg(&mut props, "new", None);
                required.push("path");
                required.push("old");
                required.push("new");
            },
            Tool::RunCommand => {
                string_arg(&mut props, "command", None);
                required.push("command");
            },
            Tool::AskUser => {
                string_arg(&mut props, "question", None);
                let mut o: Vec<(String, Json)> = Vec::new();
                o.push(str_entry("type", "array"));
                o.push((text::owned("items"), string_schema(None)));
                o.push(str_entry("description", "Optional choices to offer."));
                props.push((text::owned("options"), Json::Object(o)));
                required.push("question");
            },
        }
        let ghost p = props@;
        let mut e: Vec<(String, Json)> = Vec::new();
        e.push(str_entry("type", "object"));
        e.push((text::owned("properties"), Json::Object(props)));
        proof {
            reveal_strlit("path");
            reveal_strlit("query");
            reveal_strlit("content");
            reveal_strlit("old");
            reveal_strlit("new");
            reveal_strlit("command");
            reveal_strlit("question");
            assert(is_properties(p, *self));
        }
        if let Tool::ListDir = self {
        } else {
            e.push((text::owned("required"), str_array(&required)));
        }
        Json::Object(e)
    }
}

/// The `tools` array of a chat-completion request: one entry per tool, in
/// the order of `all`.
pub fn specs(windows: bool) -> (r: Vec<Json>)
    ensures
        r@.len() == 7,
        forall|k: int| 0 <= k < 7 ==> is_tool_spec(#[trigger] r@[k], all_tools()[k], windows),
{
    let tools = all();
    let mut r: Vec<Json> = Vec::new();
    let mut i: usize = 0;
    while i < tools.len()
        invariant
            i <= tools@.len(),
            tools@ == all_tools(),
            r@.len() == i,
            forall|k: int| 0 <= k < i ==> is_tool_spec(#[trigger] r@[k], all_tools()[k], windows),
        decreases tools.len() - i,
    {
        let t = tools[i];
        let mut f: Vec<(String, Json)> = Vec::new();
        f.push(str_entry("name", t.name()));
        f.push(str_entry("description", t.description(windows)));
        f.push((text::owned("parameters"), t.parameters()));
        let mut e: Vec<(String, Json)> = Vec::new();
        e.push(str_entry("type", "function"));
        e.push((text::owned("function"), Json::Object(f)));
        r.push(Json::Object(e));
        i += 1;
    }
    r
}

/// The tool called `name`.
pub fn find(name: &str) -> (r: Option<Tool>)
    ensures
        r == tool_named(name@),
{
    if text::same(name, "read_file") {
        Some(Tool::ReadFile)
    } else if text::same(name, "list_dir") {
        Some(Tool::ListDir)
    } else if text::same(name, "search") {
        Some(Tool::Search)
    } else if text::same(name, "write_file") {
        Some(Tool::WriteFile)
    } else if text::same(name, "edit_file") {
        Some(Tool::EditFile)
    } else if text::same(name, "run_command") {
        Some(Tool::RunCommand)
    } else if text::same(name, ASK_USER) {
        Some(Tool::AskUser)
    } else {
        None
    }
}

/// Reads call arguments: blank text is the empty object.
pub fn parse_args(args: &str) -> (r: Result<Json, String>)
    ensures
        match r {
            Ok(v) => args_error(args@) is None && reads_as(args@, v),
            Err(e) => args_error(args@) == Some(e@),
        },
{
    if text::is_blank(args) {
        return Ok(Json::Object(Vec::new()));
    }
    match json::parse(args) {
        Ok(v) => Ok(v),
        Err(e) => {
            let mut msg = text::owned("Invalid arguments: ");
            text::push_str(&mut msg, e.as_str());
            Err(msg)
        },
    }
}

/// Whether calls of the tool named `name` need the user's approval; unknown
/// names need none.
pub fn needs_approval(name: &str) -> (r: bool)
    ensures
        r == match tool_named(name@) {
            Some(t) => gated(t),
            None => false,
        },
{
    match find(name) {
        Some(t) => t.needs_approval(),
        None => false,
    }
}

/// The approval card's text for a call: the tool's own preview of the
/// arguments, or the raw arguments when the tool is unknown or its
/// arguments do not read.
pub fn preview(name: &str, args: &str, ctx: &ToolContext) -> (r: String)
    ensures
        match tool_named(name@) {
            Some(t) => if args_error(args@) is None {
                exists|v: Json| #[trigger] reads_as(args@, v) && r@ == tool_preview(t, v)
            } else {
                r@ == args@
            },
            None => r@ == args@,
        },
{
    match (find(name), parse_args(args)) {
        (Some(t), Ok(v)) => t.preview(&v, ctx),
        _ => text::owned(args),
    }
}

/// The tool and arguments a call names, or why it cannot run: the checks
/// `run` makes before the tool touches the file system or the shell.
pub fn prepare(name: &str, args: &str) -> (r: Result<(Tool, Json), String>)
    ensures
        match r {
            Ok((t, v)) => tool_named(name@) == Some(t) && args_error(args@) is None && reads_as(
                args@,
                v,
            ),
            Err(e) => match tool_named(name@) {
                None => e@ == "Unknown tool `"@ + name@ + "`."@,
                Some(_) => args_error(args@) == Some(e@),
            },
        },
{
    let tool = match find(name) {
        Some(t) => t,
        None => {
            let mut msg = text::owned("Unknown tool `");
            text::push_str(&mut msg, name);
            text::push_str(&mut msg, "`.");
            return Err(msg);
        },
    };
    let v = parse_args(args)?;
    Ok((tool, v))
}

/// `args["path"]`, or `"."` when it is missing or not a string.
pub fn path_arg(args: &Json) -> (r: &str)
    ensures
        r@ == match str_value(args.field("path"@)) {
            Some(t) => t,
            None => "."@,
        },
{
    match args.get("path") {
        Some(j) => match j.as_str() {
            Some(t) => t,
            None => ".",
        },
        None => ".",
    }
}

/// A required string argument, or the message naming it.
pub fn required(args: &Json, key: &str) -> (r: Result<String, String>)
    ensures
        match r {
            Ok(t) => str_value(args.field(key@)) == Some(t@),
            Err(e) => str_value(args.field(key@)) is None && e@ == "`"@ + key@
                + "` is required."@,
        },
{
    match args.get(key) {
        Some(j) => match j.as_str() {
            Some(t) => return Ok(text::owned(t)),
            None => {},
        },
        None => {},
    }
    let mut msg = text::owned("`");
    text::push_str(&mut msg, key);
    text::push_str(&mut msg, "` is required.");
    Err(msg)
}

// ---------------------------------------------------------------------------
// Output shaping
// ---------------------------------------------------------------------------

/// `ls` joined with newlines.
pub open spec fn joined(ls: Seq<Seq<char>>) -> Seq<char>
    decreases ls.len(),
{
    if ls.len() == 0 {
        Seq::empty()
    } else if ls.len() == 1 {
        ls[0]
    } else {
        joined(ls.drop_last()) + seq!['\n'] + ls.last()
    }
}

/// The first `max` lines of `t`, with a note counting the rest; `t` itself
/// when it has no more than `max` lines.
pub open spec fn clamped(t: Seq<char>, max: nat) -> Seq<char> {
    let ls = lines(t);
    if ls.len() <= max {
        t
    } else {
        joined(ls.take(max as int)) + "\n… "@ + decimal((ls.len() - max) as nat)
            + " more lines"@
    }
}

/// Appends `ls[from..to]` joined with newlines to `out`, after a newline
/// when `from > 0`.
fn push_joined(out: &mut String, ls: &Vec<Vec<char>>, to: usize)
    requires
        to <= ls@.len(),
    ensures
        final(out)@ == old(out)@ + joined(ls@.map_values(|v: Vec<char>| v@).take(to as int)),
{
    let ghost views = ls@.map_values(|v: Vec<char>| v@);
    let ghost start = out@;
    let mut i: usize = 0;
    while i < to
        invariant
            i <= to <= ls@.len(),
            views == ls@.map_values(|v: Vec<char>| v@),
            out@ == start + joined(views.take(i as int)),
        decreases to - i,
    {
        if i > 0 {
            text::push_char(out, '\n');
        }
        let line = text::string_of(&ls[i]);
        text::push_str(out, line.as_str());
        assert(views.take(i + 1).drop_last() =~= views.take(i as int));
        assert(views.take(i + 1).last() == ls@[i as int]@);
        if i == 0 {
            assert(views.take(1) =~= seq![ls@[0]@]);
        }
        i += 1;
    }
}

/// The first `max` lines, with a note about the rest. Keeps cards and rows
/// from needing their own scroll area inside the chat.
pub fn clamp_lines(t: &str, max: usize) -> (r: String)
    ensures
        r@ == clamped(t@, max as nat),
{
    let chars = text::chars_of(t);
    let ls = text::split_lines(&chars);
    let ghost views = ls@.map_values(|v: Vec<char>| v@);
    assert(views =~= lines(t@));
    if ls.len() <= max {
        return text::owned(t);
    }
    let mut out = String::new();
    push_joined(&mut out, &ls, max);
    text::push_str(&mut out, "\n… ");
    let rest = text::decimal_string((ls.len() - max) as u64);
    text::push_str(&mut out, rest.as_str());
    text::push_str(&mut out, " more lines");
    out
}

/// The UTF-8 length of a character.
pub open spec fn utf8_width(c: char) -> nat {
    let u = c as u32;
    if u < 0x80 {
        1
    } else if u < 0x800 {
        2
    } else if u < 0x10000 {
        3
    } else {
        4
    }
}

/// The UTF-8 length of a text (`str::len`).
pub open spec fn utf8_len(s: Seq<char>) -> nat
    decreases s.len(),
{
    if s.len() == 0 {
        0
    } else {
        utf8_len(s.drop_last()) + utf8_width(s.last())
    }
}

/// The longest prefix of `s` whose UTF-8 encoding fits in `limit` bytes
/// (`floor_char_boundary(limit)` then `truncate`).
pub open spec fn fitting(s: Seq<char>, limit: nat, i: int) -> int
    decreases s.len() - i,
{
    if 0 <= i < s.len() && utf8_len(s.take(i + 1)) <= limit {
        fitting(s, limit, i + 1)
    } else {
        i
    }
}

/// Tool output as the model receives it: cut at a character boundary to
/// `MAX_OUTPUT` bytes, with a note, when longer.
pub open spec fn limited(s: Seq<char>) -> Seq<char> {
    if utf8_len(s) > MAX_OUTPUT {
        s.take(fitting(s, MAX_OUTPUT as nat, 0)) + "\n… [truncated]"@
    } else {
        s
    }
}

fn char_width(c: char) -> (w: usize)
    ensures
        w == utf8_width(c),
{
    let u = c as u32;
    if u < 0x80 {
        1
    } else if u < 0x800 {
        2
    } else if u < 0x10000 {
        3
    } else {
        4
    }
}

proof fn lemma_utf8_len_step(s: Seq<char>, i: int)
    requires
        0 <= i < s.len(),
    ensures
        utf8_len(s.take(i + 1)) == utf8_len(s.take(i)) + utf8_width(s[i]),
{
    assert(s.take(i + 1).drop_last() =~= s.take(i));
}

proof fn lemma_utf8_len_prefix(s: Seq<char>, i: int)
    requires
        0 <= i <= s.len(),
    ensures
        utf8_len(s.take(i)) <= utf8_len(s),
    decreases s.len() - i,
{
    if i < s.len() {
        lemma_utf8_len_step(s, i);
        lemma_utf8_len_prefix(s, i + 1);
    } else {
        assert(s.take(i) =~= s);
    }
}

proof fn lemma_fitting(s: Seq<char>, limit: nat, i: int)
    requires
        0 <= i <= s.len(),
        utf8_len(s.take(i)) <= limit,
    ensures
        i <= fitting(s, limit, i) <= s.len(),
        utf8_len(s.take(fitting(s, limit, i))) <= limit,
        fitting(s, limit, i) < s.len() ==> utf8_len(s.take(fitting(s, limit, i) + 1)) > limit,
    decreases s.len() - i,
{
    if i < s.len() && utf8_len(s.take(i + 1)) <= limit {
        lemma_fitting(s, limit, i + 1);
    }
}

/// Tool output reaches the model whole when it fits in `MAX_OUTPUT` bytes;
/// otherwise as the longest prefix that fits, cut at a character boundary,
/// followed by the truncation note.
pub proof fn cut_output_fits(s: Seq<char>)
    ensures
        utf8_len(s) <= MAX_OUTPUT ==> limited(s) == s,
        utf8_len(s) > MAX_OUTPUT ==> exists|j: int|
            0 <= j < s.len() && limited(s) == s.take(j) + "\n… [truncated]"@ && utf8_len(
                s.take(j),
            ) <= MAX_OUTPUT && utf8_len(#[trigger] s.take(j + 1)) > MAX_OUTPUT,
{
    assert(s.take(0).len() == 0);
    lemma_fitting(s, MAX_OUTPUT as nat, 0);
    let j = fitting(s, MAX_OUTPUT as nat, 0);
    assert(s.take(s.len() as int) =~= s);
    if utf8_len(s) > MAX_OUTPUT {
        assert(utf8_len(s.take(j + 1)) > MAX_OUTPUT);
    }
}

/// Cuts tool output to `MAX_OUTPUT` bytes at a character boundary.
pub fn limit_output(out: String) -> (r: String)
    ensures
        r@ == limited(out@),
{
    let chars = text::chars_of(out.as_str());
    let mut total: usize = 0;
    let mut i: usize = 0;
    while i < chars.len() && char_width(chars[i]) <= MAX_OUTPUT - total
        invariant
            i <= chars@.len(),
            total <= MAX_OUTPUT,
            total == utf8_len(chars@.take(i as int)),
            fitting(chars@, MAX_OUTPUT as nat, 0) == fitting(chars@, MAX_OUTPUT as nat, i as int),
        decreases chars.len() - i,
    {
        proof {
            lemma_utf8_len_step(chars@, i as int);
        }
        total = total + char_width(chars[i]);
        i += 1;
    }
    if i == chars.len() {
        assert(chars@.take(i as int) =~= chars@);
        return out;
    }
    proof {
        lemma_utf8_len_step(chars@, i as int);
        lemma_utf8_len_prefix(chars@, i + 1);
    }
    let mut r = text::string_of_range(&chars, 0, i);
    assert(chars@.subrange(0, i as int) =~= chars@.take(i as int));
    text::push_str(&mut r, "\n… [truncated]");
    r
}

// ---------------------------------------------------------------------------
// The UI's one-line summary of a call
// ---------------------------------------------------------------------------

/// The argument the UI shows next to a tool name: the quoted query for a
/// search, the command line, the question, or the path (`"."` by default).
/// Arguments that do not parse read as no arguments.
pub open spec fn call_summary(name: Seq<char>, args: Seq<char>) -> Seq<char> {
    let v = match json_parse(args) {
        Ok(v) => Some(v),
        Err(_) => None,
    };
    let member = |key: Seq<char>| str_value(crate::backend::lookup(v, key));
    if name == "search"@ {
        match member("query"@) {
            Some(q) => seq!['"'] + q + seq!['"'],
            None => Seq::empty(),
        }
    } else if name == "run_command"@ {
        match member("command"@) {
            Some(c) => c,
            None => Seq::empty(),
        }
    } else if name == ASK_USER@ {
        match member("question"@) {
            Some(c) => c,
            None => Seq::empty(),
        }
    } else {
        match member("path"@) {
            Some(c) => c,
            None => "."@,
        }
    }
}

fn member_text(v: &Option<Json>, key: &str) -> (r: Option<String>)
    ensures
        match r {
            Some(t) => str_value(crate::backend::lookup(*v, key@)) == Some(t@),
            None => str_value(crate::backend::lookup(*v, key@)) is None,
        },
{
    match v {
        Some(j) => match j.get(key) {
            Some(m) => match m.as_str() {
                Some(t) => Some(text::owned(t)),
                None => None,
            },
            None => None,
        },
        None => None,
    }
}

/// The argument the UI shows next to a tool name.
pub fn summary(name: &str, args: &str) -> (r: String)
    ensures
        r@ == call_summary(name@, args@),
{
    let v = match json::parse(args) {
        Ok(v) => Some(v),
        Err(_) => None,
    };
    if text::same(name, "search") {
        match member_text(&v, "query") {
            Some(q) => {
                let mut out = String::new();
                text::push_char(&mut out, '"');
                text::push_str(&mut out, q.as_str());
                text::push_char(&mut out, '"');
                out
            },
            None => String::new(),
        }
    } else if text::same(name, "run_command") {
        match member_text(&v, "command") {
            Some(c) => c,
            None => String::new(),
        }
    } else if text::same(name, ASK_USER) {
        match member_text(&v, "question") {
            Some(c) => c,
            None => String::new(),
        }
    } else {
        match member_text(&v, "path") {
            Some(c) => c,
            None => text::owned("."),
        }
    }
}

// ---------------------------------------------------------------------------
// What the tools compute around the file system and the shell
// ---------------------------------------------------------------------------

/// The first occurrence of `old` replaced by `new` (`replacen(old, new, 1)`).
pub open spec fn replaced_first(t: Seq<char>, old: Seq<char>, new: Seq<char>) -> Seq<char> {
    let i = choose|i: int|
        text::occurs_at(t, old, i) && forall|k: int| 0 <= k < i ==> !text::occurs_at(t, old, k);
    t.take(i) + new + t.skip(i + old.len())
}

/// What editing a file with this text does: the new text when `old` occurs
/// exactly once, else why not.
pub open spec fn edited(t: Seq<char>, old: Seq<char>, new: Seq<char>) -> Result<
    Seq<char>,
    Seq<char>,
> {
    let n = text::match_count(t, old);
    if n == 0 {
        Err("`old` was not found in the file."@)
    } else if n == 1 {
        Ok(replaced_first(t, old, new))
    } else {
        Err("`old` matches "@ + decimal(n) + " times; include more context."@)
    }
}

/// The text of a file after `edit_file`, or why the edit is refused.
pub fn apply_edit(t: &str, old: &str, new: &str) -> (r: Result<String, String>)
    requires
        t@.len() < usize::MAX,
    ensures
        crate::backend::result_view(r) == edited(t@, old@, new@),
{
    let tc = text::chars_of(t);
    let oc = text::chars_of(old);
    let n = text::count_matches(&tc, &oc);
    if n == 0 {
        return Err(text::owned("`old` was not found in the file."));
    }
    if n > 1 {
        let mut msg = text::owned("`old` matches ");
        let count = text::decimal_string(n as u64);
        text::push_str(&mut msg, count.as_str());
        text::push_str(&mut msg, " times; include more context.");
        return Err(msg);
    }
    let i = match text::find_from(&tc, &oc, 0) {
        Some(i) => i,
        None => {
            proof {
                lemma_count_zero(tc@, oc@, 0);
            }
            return Err(text::owned("`old` was not found in the file."));
        },
    };
    proof {
        let j = choose|j: int|
            text::occurs_at(tc@, oc@, j) && forall|k: int|
                0 <= k < j ==> !text::occurs_at(tc@, oc@, k);
        if j < i {
        } else if i < j {
        }
        assert(j == i);
    }
    let mut out = text::string_of_range(&tc, 0, i);
    text::push_str(&mut out, new);
    let tail = text::string_of_range(&tc, i + oc.len(), tc.len());
    text::push_str(&mut out, tail.as_str());
    assert(tc@.subrange(0, i as int) =~= tc@.take(i as int));
    assert(tc@.subrange(i + oc@.len(), tc@.len() as int) =~= tc@.skip(i + oc@.len()));
    Ok(out)
}

proof fn lemma_count_zero(s: Seq<char>, p: Seq<char>, i: int)
    requires
        0 <= i <= s.len() + 1,
        forall|k: int| i <= k ==> !text::occurs_at(s, p, k),
    ensures
        text::count_from(s, p, i) == 0,
    decreases s.len() + 1 - i,
{
    if i <= s.len() {
        lemma_count_zero(s, p, i + 1);
    }
}

/// What `write_file` reports: the byte count written.
pub fn written(content: &str) -> (r: String)
    ensures
        r@ == "Wrote "@ + decimal(content.len() as nat) + " bytes."@,
{
    let mut out = text::owned("Wrote ");
    let n = text::decimal_string(content.len() as u64);
    text::push_str(&mut out, n.as_str());
    text::push_str(&mut out, " bytes.");
    out
}

/// An integer in decimal, with a minus sign when negative.
pub open spec fn int_text(i: int) -> Seq<char> {
    if i < 0 {
        seq!['-'] + decimal((-i) as nat)
    } else {
        decimal(i as nat)
    }
}

fn int_string(i: i32) -> (r: String)
    ensures
        r@ == int_text(i as int),
{
    if i < 0 {
        let mut out = String::new();
        text::push_char(&mut out, '-');
        let magnitude = (0i64 - i as i64) as u64;
        let digits = text::decimal_string(magnitude);
        text::push_str(&mut out, digits.as_str());
        out
    } else {
        text::decimal_string(i as u64)
    }
}

/// What `run_command` returns: the output, then the error output under a
/// marker when it is not blank, then the exit code when the command failed
/// (-1 when it has none).
pub open spec fn shell_text(stdout: Seq<char>, stderr: Seq<char>, success: bool, code: Option<
    i32,
>) -> Seq<char> {
    let with_err = if trimmed(stderr).len() > 0 {
        stdout + "\n[stderr]\n"@ + stderr
    } else {
        stdout
    };
    if success {
        with_err
    } else {
        with_err + "\n[exit code "@ + int_text(
            match code {
                Some(c) => c as int,
                None => -1,
            },
        ) + "]"@
    }
}

/// What a command wrote to its error output is never lost: when it is not
/// blank it follows the output under a `[stderr]` marker, whether the command
/// succeeded or failed. A successful command adds nothing else; a failed one
/// ends with its exit code.
pub proof fn error_output_is_kept(stdout: Seq<char>, stderr: Seq<char>, success: bool, code: Option<i32>)
    ensures
        trimmed(stderr).len() > 0 ==> text::has_prefix(
            shell_text(stdout, stderr, success, code),
            stdout + "\n[stderr]\n"@ + stderr,
        ),
        text::has_prefix(shell_text(stdout, stderr, success, code), stdout),
        success && trimmed(stderr).len() == 0 ==> shell_text(stdout, stderr, success, code)
            == stdout,
        success && trimmed(stderr).len() > 0 ==> shell_text(stdout, stderr, success, code)
            == stdout + "\n[stderr]\n"@ + stderr,
        !success ==> text::has_suffix(shell_text(stdout, stderr, success, code), "]"@),
{
    let with_err = if trimmed(stderr).len() > 0 {
        stdout + "\n[stderr]\n"@ + stderr
    } else {
        stdout
    };
    let r = shell_text(stdout, stderr, success, code);
    let marked = stdout + "\n[stderr]\n"@ + stderr;
    assert(r.subrange(0, with_err.len() as int) =~= with_err);
    assert(with_err.subrange(0, stdout.len() as int) =~= stdout);
    assert(r.subrange(0, stdout.len() as int) =~= stdout);
    if trimmed(stderr).len() > 0 {
        assert(r.subrange(0, marked.len() as int) =~= marked);
    }
    if !success {
        reveal_strlit("]");
        let head = with_err + "\n[exit code "@ + int_text(
            match code {
                Some(c) => c as int,
                None => -1,
            },
        );
        assert(r == head + "]"@);
        assert(r.subrange(r.len() - 1, r.len() as int) =~= "]"@);
    }
}

/// Puts together what a finished command printed.
pub fn shell_output(stdout: String, stderr: &str, success: bool, code: Option<i32>) -> (r: String)
    ensures
        r@ == shell_text(stdout@, stderr@, success, code),
{
    let mut out = stdout;
    if !text::is_blank(stderr) {
        text::push_str(&mut out, "\n[stderr]\n");
        text::push_str(&mut out, stderr);
    }
    if !success {
        text::push_str(&mut out, "\n[exit code ");
        let c = match code {
            Some(c) => c,
            None => -1,
        };
        let n = int_string(c);
        text::push_str(&mut out, n.as_str());
        text::push_str(&mut out, "]");
    }
    out
}

/// The message for a command that ran past the time limit.
pub const TIMED_OUT: &'static str =
    "Timed out after 120s. Long-running commands are not supported yet.";

/// What `edit_file` answers once the file is written.
pub const EDITED: &'static str = "Edited.";

/// What `ask_user` answers when asked to run: it is answered in the chat.
pub const ASK_USER_RUN: &'static str = "ask_user is answered by the user.";

/// The message when a tool needs a project folder and none is attached.
pub const NO_WORKSPACE: &'static str =
    "No project folder is attached. Ask the user to attach one first.";

// ---------------------------------------------------------------------------
// Where tools may reach
// ---------------------------------------------------------------------------

/// Path components as byte strings.
pub open spec fn parts_view(v: Seq<Vec<u8>>) -> Seq<Seq<u8>> {
    v.map_values(|c: Vec<u8>| c@)
}

/// Whether `root`'s components begin `path`'s (`Path::starts_with`).
pub open spec fn under(path: Seq<Seq<u8>>, root: Seq<Seq<u8>>) -> bool {
    root.len() <= path.len() && forall|k: int| 0 <= k < root.len() ==> path[k] == root[k]
}

fn bytes_equal(a: &Vec<u8>, b: &Vec<u8>) -> (r: bool)
    ensures
        r == (a@ == b@),
{
    if a.len() != b.len() {
        return false;
    }
    let mut i: usize = 0;
    while i < a.len()
        invariant
            i <= a@.len(),
            a@.len() == b@.len(),
            forall|k: int| 0 <= k < i ==> a@[k] == b@[k],
        decreases a.len() - i,
    {
        if a[i] != b[i] {
            return false;
        }
        i += 1;
    }
    assert(a@ =~= b@);
    true
}

/// Whether the canonical `path` lies under the canonical `root`: every
/// component of `root` begins `path`, in order.
pub fn starts_under(path: &Vec<Vec<u8>>, root: &Vec<Vec<u8>>) -> (r: bool)
    ensures
        r == under(parts_view(path@), parts_view(root@)),
{
    if root.len() > path.len() {
        return false;
    }
    let mut i: usize = 0;
    while i < root.len()
        invariant
            i <= root@.len() <= path@.len(),
            forall|k: int| 0 <= k < i ==> path@[k]@ == root@[k]@,
        decreases root.len() - i,
    {
        if !bytes_equal(&path[i], &root[i]) {
            assert(parts_view(path@)[i as int] == path@[i as int]@);
            assert(parts_view(root@)[i as int] == root@[i as int]@);
            return false;
        }
        i += 1;
    }
    true
}

/// Whether the canonical `path` lies under one of the canonical `roots`
/// (the workspace and the home folder, those that exist).
pub fn inside_any(path: &Vec<Vec<u8>>, roots: &Vec<Vec<Vec<u8>>>) -> (r: bool)
    ensures
        r == exists|k: int|
            0 <= k < roots@.len() && under(parts_view(path@), parts_view(#[trigger] roots@[k]@)),
{
    let mut i: usize = 0;
    while i < roots.len()
        invariant
            i <= roots@.len(),
            forall|k: int|
                0 <= k < i ==> !under(parts_view(path@), parts_view(#[trigger] roots@[k]@)),
        decreases roots.len() - i,
    {
        if starts_under(path, &roots[i]) {
            return true;
        }
        i += 1;
    }
    false
}

/// Why a path a tool was given cannot be read from: it does not exist, or
/// it lies outside both the workspace and the home folder.
pub open spec fn read_refusal(raw: Seq<char>, path: Option<Seq<Seq<u8>>>, roots: Seq<Seq<Seq<u8>>>) -> Option<Seq<char>> {
    match path {
        None => Some("`"@ + raw + "` does not exist."@),
        Some(p) => if exists|k: int| 0 <= k < roots.len() && under(p, #[trigger] roots[k]) {
            None
        } else {
            Some("`"@ + raw + "` is outside the workspace and home folder."@)
        },
    }
}

/// Roots as byte-string components.
pub open spec fn roots_view(roots: Seq<Vec<Vec<u8>>>) -> Seq<Seq<Seq<u8>>> {
    roots.map_values(|r: Vec<Vec<u8>>| parts_view(r@))
}

fn quoted(raw: &str, tail: &str) -> (r: String)
    ensures
        r@ == "`"@ + raw@ + tail@,
{
    let mut m = text::owned("`");
    text::push_str(&mut m, raw);
    text::push_str(&mut m, tail);
    m
}

/// Checks a path a read-only tool was given: `path` is its canonical form
/// (`None` when it could not be resolved) and `roots` the canonical
/// workspace and home folders that exist.
pub fn check_read(raw: &str, path: &Option<Vec<Vec<u8>>>, roots: &Vec<Vec<Vec<u8>>>) -> (r: Result<(), String>)
    ensures
        match r {
            Ok(()) => read_refusal(raw@, opt_parts(*path), roots_view(roots@)) is None,
            Err(e) => read_refusal(raw@, opt_parts(*path), roots_view(roots@)) == Some(e@),
        },
{
    match path {
        None => Err(quoted(raw, "` does not exist.")),
        Some(p) => {
            let inside = inside_any(p, roots);
            proof {
                let rv = roots_view(roots@);
                if inside {
                    let k = choose|k: int|
                        0 <= k < roots@.len() && under(parts_view(p@), parts_view(#[trigger] roots@[k]@));
                    assert(rv[k] == parts_view(roots@[k]@));
                } else {
                    assert forall|k: int| 0 <= k < rv.len() implies !under(parts_view(p@), #[trigger] rv[k]) by {
                        assert(rv[k] == parts_view(roots@[k]@));
                    }
                }
            }
            if inside {
                Ok(())
            } else {
                Err(quoted(raw, "` is outside the workspace and home folder."))
            }
        },
    }
}

/// Optional components as byte strings.
pub open spec fn opt_parts(p: Option<Vec<Vec<u8>>>) -> Option<Seq<Seq<u8>>> {
    match p {
        Some(v) => Some(parts_view(v@)),
        None => None,
    }
}

/// Checks where a write may land: the nearest existing ancestor of the
/// target, made canonical, must lie under the canonical project folder.
pub fn check_write(raw: &str, existing: &Vec<Vec<u8>>, root: &Vec<Vec<u8>>) -> (r: Result<(), String>)
    ensures
        r is Ok <==> under(parts_view(existing@), parts_view(root@)),
        r matches Err(e) ==> e@ == "`"@ + raw@ + "` is outside the project folder."@,
{
    if starts_under(existing, root) {
        Ok(())
    } else {
        Err(quoted(raw, "` is outside the project folder."))
    }
}

/// The message when the project folder cannot be found.
pub const MISSING_PROJECT: &'static str = "The project folder is missing.";

/// The message when a write target has no existing ancestor.
pub const BAD_PATH: &'static str = "Bad path.";

// ---------------------------------------------------------------------------
// Search and listing
// ---------------------------------------------------------------------------

/// The query a search runs with: the `query` argument, lowercased; blank
/// queries are refused.
pub fn search_query(args: &Json) -> (r: Result<String, String>)
    ensures
        match r {
            Ok(q) => q@ == text::lowercase(str_or_empty(*args, "query"@)) && q@.len() > 0,
            Err(e) => text::lowercase(str_or_empty(*args, "query"@)).len() == 0 && e@
                == "Query is empty."@,
        },
{
    let raw = text_or_empty(args, "query");
    let q = text::to_lowercase(raw.as_str());
    if text::chars_of(q.as_str()).len() == 0 {
        return Err(text::owned("Query is empty."));
    }
    Ok(q)
}

/// One search hit: `path:line: text`, line numbers from 1.
pub open spec fn hit_line(rel: Seq<char>, n: nat, line: Seq<char>) -> Seq<char> {
    rel + seq![':'] + decimal(n) + ": "@ + trimmed(line)
}

/// The hits in a file's lines: those whose lowercase form contains `q`.
pub open spec fn file_hits(rel: Seq<char>, ls: Seq<Seq<char>>, q: Seq<char>) -> Seq<Seq<char>>
    decreases ls.len(),
{
    if ls.len() == 0 {
        Seq::empty()
    } else {
        let rest = file_hits(rel, ls.drop_last(), q);
        if text::contains(text::lowercase(ls.last()), q) {
            rest.push(hit_line(rel, ls.len(), ls.last()))
        } else {
            rest
        }
    }
}

/// How many more hits a search takes before it stops.
pub open spec fn hits_wanted(have: nat) -> nat {
    if have >= MAX_HITS {
        1
    } else {
        (MAX_HITS - have) as nat
    }
}

/// Adds the hits in one file to `hits`; answers whether the search goes on,
/// which it does not once `MAX_HITS` hits are in.
pub fn collect_hits(hits: &mut Vec<String>, rel: &str, content: &str, query: &str) -> (more: bool)
    ensures
        ({
            let found = file_hits(rel@, lines(content@), query@);
            let want = hits_wanted(old(hits)@.len());
            if found.len() < want {
                &&& more
                &&& crate::backend::strings_view(final(hits)@) == crate::backend::strings_view(
                    old(hits)@,
                ) + found
            } else {
                &&& !more
                &&& crate::backend::strings_view(final(hits)@) == crate::backend::strings_view(
                    old(hits)@,
                ) + found.take(want as int)
            }
        }),
{
    let chars = text::chars_of(content);
    let ls = text::split_lines(&chars);
    let qc = text::chars_of(query);
    let ghost views = ls@.map_values(|v: Vec<char>| v@);
    let ghost start = crate::backend::strings_view(hits@);
    let ghost want = hits_wanted(hits@.len());
    assert(views =~= lines(content@));
    let mut i: usize = 0;
    while i < ls.len()
        invariant
            i <= ls@.len(),
            views == ls@.map_values(|v: Vec<char>| v@),
            views == lines(content@),
            qc@ == query@,
            want == hits_wanted(old(hits)@.len()),
            start == crate::backend::strings_view(old(hits)@),
            file_hits(rel@, views.take(i as int), query@).len() < want,
            crate::backend::strings_view(hits@) == start + file_hits(
                rel@,
                views.take(i as int),
                query@,
            ),
        decreases ls.len() - i,
    {
        let line = text::string_of(&ls[i]);
        let lower = text::to_lowercase(line.as_str());
        let lc = text::chars_of(lower.as_str());
        assert(views.take(i + 1).drop_last() =~= views.take(i as int));
        assert(views.take(i + 1).last() == line@);
        assert(views[i as int] == line@);
        if text::contains_chars(&lc, &qc) {
            let ghost before = crate::backend::strings_view(hits@);
            let mut hit = text::owned(rel);
            text::push_char(&mut hit, ':');
            let n = text::decimal_string(i as u64 + 1);
            text::push_str(&mut hit, n.as_str());
            text::push_str(&mut hit, ": ");
            let trimmed_line = text::trim(line.as_str());
            text::push_str(&mut hit, trimmed_line.as_str());
            assert(hit@ == hit_line(rel@, (i + 1) as nat, line@));
            hits.push(hit);
            assert(crate::backend::strings_view(hits@) =~= before.push(hit_line(
                rel@,
                (i + 1) as nat,
                line@,
            )));
            assert(file_hits(rel@, views.take(i + 1), query@) == file_hits(
                rel@,
                views.take(i as int),
                query@,
            ).push(hit_line(rel@, (i + 1) as nat, line@)));
            assert(crate::backend::strings_view(hits@) =~= start + file_hits(
                rel@,
                views.take(i + 1),
                query@,
            ));
            if hits.len() >= MAX_HITS {
                proof {
                    let got = file_hits(rel@, views.take(i + 1), query@);
                    let found = file_hits(rel@, lines(content@), query@);
                    assert(got.len() == want);
                    lemma_hits_prefix(rel@, views, query@, i + 1);
                    assert(found.take(want as int) == got);
                    assert(!(found.len() < want));
                    assert(crate::backend::strings_view(hits@) == start + found.take(want as int));
                }
                return false;
            }
        }
        i += 1;
    }
    assert(views.take(i as int) =~= views);
    true
}

/// Hits in an initial run of lines are the first hits of the whole file.
proof fn lemma_hits_prefix(rel: Seq<char>, ls: Seq<Seq<char>>, q: Seq<char>, n: int)
    requires
        0 <= n <= ls.len(),
    ensures
        file_hits(rel, ls.take(n), q) == file_hits(rel, ls, q).take(
            file_hits(rel, ls.take(n), q).len() as int,
        ),
        file_hits(rel, ls.take(n), q).len() <= file_hits(rel, ls, q).len(),
    decreases ls.len() - n,
{
    if n < ls.len() {
        lemma_hits_prefix(rel, ls, q, n + 1);
        assert(ls.take(n + 1).drop_last() =~= ls.take(n));
        let a = file_hits(rel, ls.take(n), q);
        let b = file_hits(rel, ls.take(n + 1), q);
        let all = file_hits(rel, ls, q);
        assert(b == all.take(b.len() as int));
        assert(a =~= b.take(a.len() as int));
        assert(a =~= all.take(a.len() as int));
    } else {
        assert(ls.take(n) =~= ls);
        let all = file_hits(rel, ls, q);
        assert(all.take(all.len() as int) =~= all);
    }
}

/// `strs` joined with newlines.
pub fn join_lines(strs: &Vec<String>) -> (r: String)
    ensures
        r@ == joined(crate::backend::strings_view(strs@)),
{
    let ghost views = crate::backend::strings_view(strs@);
    let mut out = String::new();
    let mut i: usize = 0;
    while i < strs.len()
        invariant
            i <= strs@.len(),
            views == crate::backend::strings_view(strs@),
            out@ == joined(views.take(i as int)),
        decreases strs.len() - i,
    {
        if i > 0 {
            text::push_char(&mut out, '\n');
        }
        text::push_str(&mut out, strs[i].as_str());
        assert(views.take(i + 1).drop_last() =~= views.take(i as int));
        if i == 0 {
            assert(views.take(1) =~= seq![strs@[0]@]);
        }
        i += 1;
    }
    assert(views.take(strs@.len() as int) =~= views);
    out
}

/// What a search answers: the hits, one per line, or that there were none.
pub fn search_result(hits: &Vec<String>) -> (r: String)
    ensures
        r@ == if hits@.len() == 0 {
            "No matches."@
        } else {
            joined(crate::backend::strings_view(hits@))
        },
{
    if hits.len() == 0 {
        return text::owned("No matches.");
    }
    join_lines(hits)
}

/// Texts in `String` order.
pub open spec fn sorted(v: Seq<Seq<char>>) -> bool {
    forall|i: int, j: int| 0 <= i < j < v.len() ==> text::lex_le(v[i], v[j])
}

/// Sorts names in `String` order (`Vec::sort`).
pub fn sort_names(names: Vec<String>) -> (r: Vec<String>)
    ensures
        sorted(crate::backend::strings_view(r@)),
        crate::backend::strings_view(r@).to_multiset() == crate::backend::strings_view(
            names@,
        ).to_multiset(),
{
    broadcast use vstd::seq_lib::group_to_multiset_ensures, vstd::multiset::group_multiset_axioms;

    let ghost input = crate::backend::strings_view(names@);
    let mut out: Vec<String> = Vec::new();
    let mut rest = names;
    proof {
        let e = crate::backend::strings_view(out@);
        assert(e =~= Seq::<Seq<char>>::empty());
        vstd::multiset::lemma_multiset_empty_len(e.to_multiset());
        assert(e.to_multiset().add(input.to_multiset()) =~= input.to_multiset());
    }
    while rest.len() > 0
        invariant
            sorted(crate::backend::strings_view(out@)),
            crate::backend::strings_view(out@).to_multiset().add(
                crate::backend::strings_view(rest@).to_multiset(),
            ) == input.to_multiset(),
        decreases rest.len(),
    {
        let ghost before_rest = crate::backend::strings_view(rest@);
        let x = rest.pop().unwrap();
        proof {
            assert(before_rest =~= crate::backend::strings_view(rest@).push(x@));
            vstd::seq_lib::to_multiset_build(crate::backend::strings_view(rest@), x@);
        }
        let xc = text::chars_of(x.as_str());
        let mut p: usize = 0;
        while p < out.len() && text::less_or_equal(&text::chars_of(out[p].as_str()), &xc)
            invariant
                p <= out@.len(),
                xc@ == x@,
                forall|k: int| 0 <= k < p ==> text::lex_le((#[trigger] out@[k])@, x@),
            decreases out.len() - p,
        {
            p += 1;
        }
        let ghost old_view = crate::backend::strings_view(out@);
        proof {
            if p < out@.len() {
                text::lemma_lex_total(x@, out@[p as int]@);
            }
        }
        out.insert(p, x);
        proof {
            let v = crate::backend::strings_view(out@);
            assert(v =~= old_view.insert(p as int, x@));
            vstd::seq_lib::to_multiset_insert(old_view, p as int, x@);
            assert forall|i: int, j: int| 0 <= i < j < v.len() implies text::lex_le(
                v[i],
                v[j],
            ) by {
                if j < p {
                } else if j == p {
                    assert(v[i] == old_view[i]);
                } else if i < p {
                    assert(v[i] == old_view[i]);
                    assert(v[j] == old_view[j - 1]);
                    assert(text::lex_le(old_view[i], x@));
                    text::lemma_lex_trans(old_view[i], x@, old_view[p as int]);
                    if j - 1 > p {
                        text::lemma_lex_trans(old_view[i], old_view[p as int], old_view[j - 1]);
                    }
                } else if i == p {
                    assert(v[j] == old_view[j - 1]);
                    if j - 1 > p {
                        text::lemma_lex_trans(x@, old_view[p as int], old_view[j - 1]);
                    }
                } else {
                    assert(v[i] == old_view[i - 1]);
                    assert(v[j] == old_view[j - 1]);
                }
            }
        }
    }
    proof {
        let e = crate::backend::strings_view(rest@);
        assert(e =~= Seq::<Seq<char>>::empty());
        vstd::multiset::lemma_multiset_empty_len(e.to_multiset());
        assert(crate::backend::strings_view(out@).to_multiset().add(e.to_multiset())
            =~= crate::backend::strings_view(out@).to_multiset());
    }
    out
}

/// What `list_dir` answers for a folder's entries (folders already end in
/// a slash): the names in order, one per line.
pub fn listing(names: Vec<String>) -> (r: String)
    ensures
        exists|s: Seq<Seq<char>>|
            sorted(s) && s.to_multiset() == crate::backend::strings_view(names@).to_multiset()
                && r@ == joined(s),
{
    let sorted_names = sort_names(names);
    join_lines(&sorted_names)
}

// ---------------------------------------------------------------------------
// Running a call
// ---------------------------------------------------------------------------

/// Runs a call: finds the tool, reads the arguments, has `perform` do the
/// tool's work (the file system or the shell), and cuts the output to
/// `MAX_OUTPUT` bytes. Whatever `perform` answers, the result is its error,
/// or its output as `limited` shapes it.
pub fn run<F: Fn(Tool, &Json, &ToolContext) -> Result<String, String>>(
    name: &str,
    args: &str,
    ctx: &ToolContext,
    perform: F,
) -> (r: Result<String, String>)
    requires
        forall|t: Tool, v: &Json, c: &ToolContext| perform.requires((t, v, c)),
    ensures
        match tool_named(name@) {
            None => r matches Err(e) && e@ == "Unknown tool `"@ + name@ + "`."@,
            Some(t) => match args_error(args@) {
                Some(e) => r matches Err(m) && m@ == e,
                None => exists|v: Json|
                    #[trigger] reads_as(args@, v) && exists|out: Result<String, String>|
                        perform.ensures((t, &v, ctx), out) && match (out, r) {
                            (Ok(o), Ok(x)) => x@ == limited(o@),
                            (Err(a), Err(b)) => a == b,
                            _ => false,
                        },
            },
        },
{
    let (tool, v) = prepare(name, args)?;
    let out = perform(tool, &v, ctx);
    match out {
        Ok(o) => Ok(limit_output(o)),
        Err(e) => Err(e),
    }
}

} // verus!
