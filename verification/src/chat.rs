//! What the chat window decides: the side pages, sending a prompt, the
//! session list and its operations, exporting a session, and whether a tool
//! call waits for the user. Drawing, input fields and dialogs are the
//! caller's.

use crate::backend::{AILE, FREE_PREFIX, Message, result_view};
use crate::store::{Conversation, Store, assigned_id, bucket_name, max_id, unnumbered_before};
use crate::text::{self, has_prefix, trimmed};
use vstd::prelude::*;

verus! {

broadcast use vstd::string::group_string_axioms;

pub const BRAND: &'static str = "Letronna";

/// Tool rounds per user message. Enough for a real investigation, small
/// enough that a looping model stops on its own.
pub const MAX_ROUNDS: usize = 25;

/// Prompts longer than this many characters are refused.
pub const MAX_PROMPT_CHARS: usize = 12000;

/// Session titles are the first this many characters of the first prompt.
pub const TITLE_CHARS: usize = 40;

/// The default model on first run.
pub const DEFAULT_MODEL: &'static str = "aile-free/gpt-oss-20b";

/// The side pages.
#[derive(Clone, Copy, Debug, PartialEq, Eq, Structural)]
pub enum Page {
    Chat,
    Skills,
    Messaging,
    Artifacts,
    Jobs,
}

impl Page {
    /// The page's heading.
    pub fn title(self) -> (r: &'static str)
        ensures
            r@ == match self {
                Page::Chat => "Chat"@,
                Page::Skills => "Skills"@,
                Page::Messaging => "Messaging"@,
                Page::Artifacts => "Artifacts"@,
                Page::Jobs => "Scheduled jobs"@,
            },
    {
        match self {
            Page::Chat => "Chat",
            Page::Skills => "Skills",
            Page::Messaging => "Messaging",
            Page::Artifacts => "Artifacts",
            Page::Jobs => "Scheduled jobs",
        }
    }

    /// The line under the heading; empty for the chat itself.
    pub fn blurb(self) -> (r: &'static str)
        ensures
            (self == Page::Chat) <==> r@.len() == 0,
    {
        proof {
            reveal_strlit("");
            reveal_strlit(
                "Reusable playbooks Letronna can load into a session. Nothing installed yet.",
            );
            reveal_strlit(
                "Connect Telegram, Discord, Slack or email gateways. No channel configured yet.",
            );
            reveal_strlit("Files, images and links produced in sessions will collect here.");
            reveal_strlit("Recurring tasks on a schedule. No jobs yet.");
        }
        match self {
            Page::Chat => "",
            Page::Skills => "Reusable playbooks Letronna can load into a session. Nothing installed yet.",
            Page::Messaging => "Connect Telegram, Discord, Slack or email gateways. No channel configured yet.",
            Page::Artifacts => "Files, images and links produced in sessions will collect here.",
            Page::Jobs => "Recurring tasks on a schedule. No jobs yet.",
        }
    }
}

/// Number of empty-chat greetings.
pub const GREETING_COUNT: u64 = 5;

/// Greeting `i` (taken modulo the count).
pub open spec fn greeting_text(i: int) -> Seq<char> {
    let k = i % GREETING_COUNT as int;
    if k == 0 {
        "Letronna is ready."@
    } else if k == 1 {
        "Letronna is listening."@
    } else if k == 2 {
        "What are we building today?"@
    } else if k == 3 {
        "Tell Letronna the goal."@
    } else {
        "Ready when you are."@
    }
}

/// The greeting for a window opened at `now`.
pub fn greeting(now: u64) -> (r: &'static str)
    ensures
        r@ == greeting_text(now as int),
{
    let k = now % GREETING_COUNT;
    if k == 0 {
        "Letronna is ready."
    } else if k == 1 {
        "Letronna is listening."
    } else if k == 2 {
        "What are we building today?"
    } else if k == 3 {
        "Tell Letronna the goal."
    } else {
        "Ready when you are."
    }
}

// ---------------------------------------------------------------------------
// Sending
// ---------------------------------------------------------------------------

/// What the composer holds when the user presses Enter.
#[derive(Debug)]
pub enum Prompt {
    /// Nothing but whitespace: clear the composer and do nothing.
    Empty,
    /// Too long to send: show this message.
    TooLong(String),
    /// Send this, trimmed.
    Send(String),
}

/// Reads the composer's text.
pub fn read_prompt(input: &str) -> (r: Prompt)
    ensures
        match r {
            Prompt::Empty => trimmed(input@).len() == 0,
            Prompt::TooLong(e) => trimmed(input@).len() > MAX_PROMPT_CHARS && e@
                == "Please keep each message under 12,000 characters."@,
            Prompt::Send(p) => 0 < trimmed(input@).len() <= MAX_PROMPT_CHARS && p@ == trimmed(
                input@,
            ),
        },
{
    let p = text::trim(input);
    let n = text::chars_of(p.as_str()).len();
    if n == 0 {
        Prompt::Empty
    } else if n > MAX_PROMPT_CHARS {
        Prompt::TooLong(text::owned("Please keep each message under 12,000 characters."))
    } else {
        Prompt::Send(p)
    }
}

/// The first `TITLE_CHARS` characters of `s`.
pub open spec fn title_of(s: Seq<char>) -> Seq<char> {
    if s.len() <= TITLE_CHARS {
        s
    } else {
        s.take(TITLE_CHARS as int)
    }
}

fn title_from(prompt: &str) -> (r: String)
    ensures
        r@ == title_of(prompt@),
{
    let chars = text::chars_of(prompt);
    let end = if chars.len() <= TITLE_CHARS {
        chars.len()
    } else {
        TITLE_CHARS
    };
    let r = text::string_of_range(&chars, 0, end);
    assert(chars@.len() <= TITLE_CHARS ==> chars@.subrange(0, end as int) =~= chars@);
    r
}

/// A message with no model attached.
pub open spec fn plain_message(m: Message, role: Seq<char>, content: Seq<char>) -> bool {
    m.role@ == role && m.content@ == content && m.model@.len() == 0
}

/// Store fields other than the sessions are equal.
pub open spec fn same_settings(a: Store, b: Store) -> bool {
    &&& a.active == b.active
    &&& a.endpoint == b.endpoint
    &&& a.model == b.model
    &&& a.gateway == b.gateway
    &&& a.presence == b.presence
}

impl Store {
    /// Adds a prompt to the active session, naming the session after it when
    /// it is the first message; answers the session's id, where the reply
    /// will land.
    pub fn record_prompt(&mut self, prompt: String, now: u64) -> (id: u64)
        requires
            old(self).active < old(self).conversations@.len(),
        ensures
            final(self).conversations@.len() == old(self).conversations@.len(),
            same_settings(*final(self), *old(self)),
            forall|k: int|
                0 <= k < final(self).conversations@.len() && k != old(self).active
                    ==> final(self).conversations@[k] == old(self).conversations@[k],
            ({
                let (n, o) = (
                    final(self).conversations@[old(self).active as int],
                    old(self).conversations@[old(self).active as int],
                );
                &&& id == o.id && n.id == o.id
                &&& n.updated == now
                &&& n.pinned == o.pinned
                &&& n.title@ == if o.messages@.len() == 0 {
                    title_of(prompt@)
                } else {
                    o.title@
                }
                &&& n.messages@.len() == o.messages@.len() + 1
                &&& n.messages@.take(o.messages@.len() as int) == o.messages@
                &&& plain_message(n.messages@.last(), "user"@, prompt@)
            }),
    {
        let a = self.active;
        if self.conversations[a].messages.len() == 0 {
            let t = title_from(prompt.as_str());
            self.conversations[a].title = t;
        }
        self.conversations[a].updated = now;
        let ghost before = self.conversations@[a as int].messages@;
        let m = Message { role: text::owned("user"), content: prompt, model: String::new() };
        self.conversations[a].messages.push(m);
        assert(self.conversations@[a as int].messages@.take(before.len() as int) =~= before);
        self.conversations[a].id
    }

    /// A fresh, empty session, which becomes the active one.
    pub fn new_session(&mut self, now: u64)
        requires
            max_id(old(self).conversations@) < u64::MAX,
            old(self).conversations@.len() < usize::MAX,
        ensures
            final(self).conversations@.len() == old(self).conversations@.len() + 1,
            final(self).conversations@.take(old(self).conversations@.len() as int) == old(
                self,
            ).conversations@,
            final(self).active == old(self).conversations@.len(),
            ({
                let c = final(self).conversations@.last();
                &&& c.id == max_id(old(self).conversations@) + 1
                &&& forall|k: int|
                    0 <= k < old(self).conversations@.len() ==> old(self).conversations@[k].id
                        < c.id
                &&& c.title@ == "New session"@
                &&& c.messages@.len() == 0
                &&& c.updated == now
                &&& !c.pinned
            }),
            final(self).endpoint == old(self).endpoint,
            final(self).model == old(self).model,
            final(self).gateway == old(self).gateway,
            final(self).presence == old(self).presence,
    {
        let id = self.next_id();
        self.conversations.push(
            Conversation {
                id,
                title: text::owned("New session"),
                messages: Vec::new(),
                updated: now,
                pinned: false,
            },
        );
        assert(self.conversations@.take(old(self).conversations@.len() as int) =~= old(
            self,
        ).conversations@);
        self.active = self.conversations.len() - 1;
    }

    /// Makes a loaded store usable: at least one session, every session with
    /// an id, the active index in range, and a gateway, endpoint and model
    /// (the given defaults where none was saved).
    pub fn settle(&mut self, now: u64, endpoint: String, model: String)
        requires
            max_id(old(self).conversations@) + unnumbered_before(
                old(self).conversations@,
                old(self).conversations@.len() as int,
            ) < u64::MAX,
        ensures
            final(self).conversations@.len() >= 1,
            final(self).active < final(self).conversations@.len(),
            old(self).conversations@.len() > 0 ==> final(self).conversations@.len() == old(
                self,
            ).conversations@.len(),
            final(self).active == if old(self).active < final(self).conversations@.len() {
                old(self).active
            } else {
                (final(self).conversations@.len() - 1) as usize
            },
            final(self).gateway@ == if old(self).gateway@.len() == 0 {
                "AILE Free"@
            } else {
                old(self).gateway@
            },
            final(self).endpoint@ == if old(self).endpoint@.len() == 0 {
                endpoint@
            } else {
                old(self).endpoint@
            },
            final(self).model@ == if old(self).model@.len() == 0 {
                model@
            } else {
                old(self).model@
            },
            final(self).presence == old(self).presence,
            forall|i: int|
                0 <= i < final(self).conversations@.len() ==> final(self).conversations@[i].id
                    != 0,
            old(self).conversations@.len() > 0 ==> forall|i: int|
                #![trigger final(self).conversations@[i]]
                0 <= i < final(self).conversations@.len() ==> {
                    let (n, o) = (final(self).conversations@[i], old(self).conversations@[i]);
                    &&& n.id == assigned_id(old(self).conversations@, i)
                    &&& n.title == o.title
                    &&& n.messages == o.messages
                    &&& n.updated == o.updated
                    &&& n.pinned == o.pinned
                },
            old(self).conversations@.len() == 0 ==> ({
                let c = final(self).conversations@[0];
                &&& final(self).conversations@.len() == 1
                &&& c.id == 1
                &&& c.title@ == "New session"@
                &&& c.messages@.len() == 0
                &&& c.updated == now
                &&& !c.pinned
            }),
    {
        if self.conversations.len() == 0 {
            self.conversations.push(
                Conversation {
                    id: 0,
                    title: text::owned("New session"),
                    messages: Vec::new(),
                    updated: now,
                    pinned: false,
                },
            );
            proof {
                let c = self.conversations@;
                assert(c.len() == 1);
                assert(c.last().id == 0);
                assert(c.drop_last() =~= Seq::<Conversation>::empty());
                assert(max_id(c.drop_last()) == 0);
                assert(max_id(c) == 0);
                assert(unnumbered_before(c, 0) == 0);
                assert(unnumbered_before(c, 1) == 1);
            }
        }
        let ghost c0 = self.conversations@;
        proof {
            crate::store::assigned_ids_positive(c0);
        }
        self.assign_ids();
        if self.active > self.conversations.len() - 1 {
            self.active = self.conversations.len() - 1;
        }
        if text::chars_of(self.gateway.as_str()).len() == 0 {
            self.gateway = text::owned("AILE Free");
        }
        if text::chars_of(self.endpoint.as_str()).len() == 0 {
            self.endpoint = endpoint;
        }
        if text::chars_of(self.model.as_str()).len() == 0 {
            self.model = model;
        }
    }

    /// Deletes a session, unless a reply is streaming or the index is out of
    /// range; answers whether it was deleted. The active index follows the
    /// session it pointed at (or its predecessor). When the last session
    /// goes, the caller starts a new one.
    pub fn delete_session(&mut self, index: usize, busy: bool) -> (deleted: bool)
        ensures
            deleted == (!busy && index < old(self).conversations@.len()),
            old(self).active < old(self).conversations@.len() && final(self).conversations@.len()
                > 0 ==> final(self).active < final(self).conversations@.len(),
            !deleted ==> *final(self) == *old(self),
            deleted ==> {
                &&& final(self).conversations@ == old(self).conversations@.remove(index as int)
                &&& final(self).active == if old(self).active >= index && old(self).active > 0 {
                    (old(self).active - 1) as usize
                } else {
                    old(self).active
                }
                &&& final(self).endpoint == old(self).endpoint
                &&& final(self).model == old(self).model
                &&& final(self).gateway == old(self).gateway
                &&& final(self).presence == old(self).presence
            },
    {
        if busy || self.conversations.len() <= index {
            return false;
        }
        let _removed = self.conversations.remove(index);
        if self.active >= index && self.active > 0 {
            self.active = self.active - 1;
        }
        true
    }

    /// Pins or unpins a session.
    pub fn toggle_pin(&mut self, index: usize)
        requires
            index < old(self).conversations@.len(),
        ensures
            final(self).conversations@.len() == old(self).conversations@.len(),
            same_settings(*final(self), *old(self)),
            forall|k: int|
                0 <= k < final(self).conversations@.len() && k != index
                    ==> final(self).conversations@[k] == old(self).conversations@[k],
            ({
                let (n, o) = (
                    final(self).conversations@[index as int],
                    old(self).conversations@[index as int],
                );
                n.pinned == !o.pinned && n.id == o.id && n.title == o.title && n.messages
                    == o.messages && n.updated == o.updated
            }),
    {
        let p = self.conversations[index].pinned;
        self.conversations[index].pinned = !p;
    }

    /// Renames a session to the trimmed title, unless that is empty; answers
    /// whether it was renamed.
    pub fn rename_session(&mut self, index: usize, title: &str) -> (renamed: bool)
        requires
            index < old(self).conversations@.len(),
        ensures
            renamed == (trimmed(title@).len() > 0),
            final(self).conversations@.len() == old(self).conversations@.len(),
            same_settings(*final(self), *old(self)),
            forall|k: int|
                0 <= k < final(self).conversations@.len() && (k != index || !renamed)
                    ==> final(self).conversations@[k] == old(self).conversations@[k],
            renamed ==> ({
                let (n, o) = (
                    final(self).conversations@[index as int],
                    old(self).conversations@[index as int],
                );
                n.title@ == trimmed(title@) && n.pinned == o.pinned && n.id == o.id && n.messages
                    == o.messages && n.updated == o.updated
            }),
    {
        let t = text::trim(title);
        if text::chars_of(t.as_str()).len() == 0 {
            return false;
        }
        self.conversations[index].title = t;
        true
    }

    /// Adds the assistant's finished reply to the session it was sent from,
    /// if that session still exists; answers where it landed.
    pub fn record_reply(&mut self, id: u64, content: String, model: String, now: u64) -> (at:
        Option<usize>)
        ensures
            final(self).conversations@.len() == old(self).conversations@.len(),
            same_settings(*final(self), *old(self)),
            match at {
                None => *final(self) == *old(self) && forall|k: int|
                    0 <= k < old(self).conversations@.len() ==> old(self).conversations@[k].id
                        != id,
                Some(i) => {
                    let (n, o) = (
                        final(self).conversations@[i as int],
                        old(self).conversations@[i as int],
                    );
                    &&& i < old(self).conversations@.len()
                    &&& o.id == id
                    &&& forall|k: int|
                        0 <= k < final(self).conversations@.len() && k != i
                            ==> final(self).conversations@[k] == old(self).conversations@[k]
                    &&& n.id == o.id && n.title == o.title && n.pinned == o.pinned
                    &&& n.updated == now
                    &&& n.messages@ == o.messages@.push(
                        Message { role: n.messages@.last().role, content, model },
                    )
                    &&& n.messages@.last().role@ == "assistant"@
                },
            },
    {
        let i = match self.index_of(id) {
            Some(i) => i,
            None => return None,
        };
        self.conversations[i].updated = now;
        let m = Message { role: text::owned("assistant"), content, model };
        self.conversations[i].messages.push(m);
        Some(i)
    }
}

impl Store {
    /// Older saves keep presence switched off as a mode; it is now the
    /// Discord plugin being off. Moves such a save to the detailed mode and
    /// answers whether the plugin is to be switched off.
    pub fn migrate_presence(&mut self) -> (plugin_off: bool)
        ensures
            plugin_off == (old(self).presence@ == "off"@),
            final(self).presence@ == if plugin_off {
                "detailed"@
            } else {
                old(self).presence@
            },
            final(self).conversations == old(self).conversations,
            final(self).active == old(self).active,
            final(self).endpoint == old(self).endpoint,
            final(self).model == old(self).model,
            final(self).gateway == old(self).gateway,
    {
        if text::same(self.presence.as_str(), "off") {
            self.presence = text::owned("detailed");
            true
        } else {
            false
        }
    }
}

/// The endpoint to switch to when a model is picked: the AILE base for
/// guest models.
pub fn endpoint_for_model(id: &str) -> (r: Option<&'static str>)
    ensures
        r is Some <==> has_prefix(id@, FREE_PREFIX@),
        r matches Some(e) ==> e@ == AILE@,
{
    if text::str_starts_with(id, FREE_PREFIX) {
        Some(AILE)
    } else {
        None
    }
}

// ---------------------------------------------------------------------------
// Tool approval
// ---------------------------------------------------------------------------

/// Whether a call of the tool `name` waits for the user: tools that need
/// approval do, unless approvals are skipped or the tool was allowed for
/// this run; `ask_user` always does.
pub open spec fn waits(name: Seq<char>, skip_approvals: bool, allowed_for_run: bool) -> bool {
    &&& match crate::tools::tool_named(name) {
        Some(t) => crate::tools::gated(t),
        None => false,
    }
    &&& (name == crate::tools::ASK_USER@ || !(skip_approvals || allowed_for_run))
}

/// Whether a tool call waits for the user.
pub fn awaits_user(name: &str, skip_approvals: bool, allowed_for_run: bool) -> (r: bool)
    ensures
        r == waits(name@, skip_approvals, allowed_for_run),
{
    crate::tools::needs_approval(name) && (text::same(name, crate::tools::ASK_USER) || !(
    skip_approvals || allowed_for_run))
}

/// A tool call the model asked for.
#[derive(Debug)]
pub struct ToolCall {
    pub id: String,
    pub name: String,
    pub arguments: String,
}

/// What comes next for the calls of one reply.
#[derive(Debug, PartialEq, Eq, Structural)]
pub enum Step {
    /// Every call has its result: send them and ask the model again.
    Done,
    /// The next call waits for the user's approval or answer.
    Wait,
    /// Run the next call.
    Run,
}

/// The user's verdict on the call waiting for them.
#[derive(Debug)]
pub enum Verdict {
    /// The answer to an `ask_user` call.
    Answer(String),
    /// The call is refused.
    Deny,
    /// The call may run; `remember` allows the tool for the rest of the run.
    Allow { remember: bool },
}

/// The calls of one reply and the results they have so far: results come
/// in the order of the calls, one each.
#[derive(Debug)]
pub struct Pending {
    calls: Vec<ToolCall>,
    results: Vec<Result<String, String>>,
}

impl Pending {
    /// Fewer results than calls, or as many.
    pub open spec fn wf(&self) -> bool {
        self.result_list().len() <= self.call_list().len()
    }

    /// The calls, in the order the model asked for them.
    pub closed spec fn call_list(&self) -> Seq<ToolCall> {
        self.calls@
    }

    /// The results so far, one per call from the first.
    pub closed spec fn result_list(&self) -> Seq<Result<String, String>> {
        self.results@
    }

    /// The calls of a reply, none answered yet.
    pub fn new(calls: Vec<ToolCall>) -> (p: Pending)
        ensures
            p.wf(),
            p.call_list() == calls@,
            p.result_list().len() == 0,
    {
        Pending { calls, results: Vec::new() }
    }

    /// The first call without a result.
    pub fn front(&self) -> (r: Option<&ToolCall>)
        requires
            self.wf(),
        ensures
            match r {
                Some(c) => self.result_list().len() < self.call_list().len() && *c
                    == self.call_list()[self.result_list().len() as int],
                None => self.result_list().len() == self.call_list().len(),
            },
    {
        let n = self.results.len();
        if n < self.calls.len() {
            Some(&self.calls[n])
        } else {
            None
        }
    }

    /// What to do next: nothing is left, the next call waits for the user,
    /// or it runs. `allowed_for_run` says whether the next call's tool was
    /// allowed for the rest of the run.
    pub fn step(&self, skip_approvals: bool, allowed_for_run: bool) -> (s: Step)
        requires
            self.wf(),
        ensures
            s == if self.result_list().len() == self.call_list().len() {
                Step::Done
            } else if waits(
                self.call_list()[self.result_list().len() as int].name@,
                skip_approvals,
                allowed_for_run,
            ) {
                Step::Wait
            } else {
                Step::Run
            },
    {
        match self.front() {
            None => Step::Done,
            Some(call) => if awaits_user(call.name.as_str(), skip_approvals, allowed_for_run) {
                Step::Wait
            } else {
                Step::Run
            },
        }
    }

    /// Stores the next call's result.
    pub fn record(&mut self, result: Result<String, String>)
        requires
            old(self).wf(),
            old(self).result_list().len() < old(self).call_list().len(),
        ensures
            final(self).wf(),
            final(self).call_list() == old(self).call_list(),
            final(self).result_list() == old(self).result_list().push(result),
    {
        self.results.push(result);
    }

    /// Applies the user's verdict on the waiting call: an answer or a refusal
    /// becomes its result; an approval leaves it to run, and answers whether
    /// to allow its tool for the rest of the run.
    pub fn resolve(&mut self, verdict: Verdict) -> (allow: Option<bool>)
        requires
            old(self).wf(),
            old(self).result_list().len() < old(self).call_list().len(),
        ensures
            final(self).wf(),
            final(self).call_list() == old(self).call_list(),
            match verdict {
                Verdict::Answer(text) => allow is None && final(self).result_list() == old(
                    self,
                ).result_list().push(Ok(text)),
                Verdict::Deny => allow is None && final(self).result_list().len() == old(
                    self,
                ).result_list().len() + 1 && final(self).result_list().take(
                    old(self).result_list().len() as int,
                ) == old(self).result_list() && (final(self).result_list().last() matches Err(e)
                    && e@ == crate::tools::DECLINED@),
                Verdict::Allow { remember } => allow == Some(remember) && final(self).result_list()
                    == old(self).result_list(),
            },
    {
        match verdict {
            Verdict::Answer(text) => {
                self.results.push(Ok(text));
                None
            },
            Verdict::Deny => {
                let ghost before = self.results@;
                self.results.push(Err(text::owned(crate::tools::DECLINED)));
                assert(self.results@.take(before.len() as int) =~= before);
                None
            },
            Verdict::Allow { remember } => Some(remember),
        }
    }

    /// The calls and their results, in order.
    pub fn outcome(&self) -> (r: (&Vec<ToolCall>, &Vec<Result<String, String>>))
        ensures
            r.0@ == self.call_list(),
            r.1@ == self.result_list(),
    {
        (&self.calls, &self.results)
    }
}

/// Whether another tool round may follow a reply that asked for tools.
pub fn another_round(calls: usize, rounds: usize) -> (r: bool)
    ensures
        r == (calls > 0 && rounds < MAX_ROUNDS),
{
    calls > 0 && rounds < MAX_ROUNDS
}

// ---------------------------------------------------------------------------
// Export
// ---------------------------------------------------------------------------

/// Who a message is shown as in an export.
pub open spec fn speaker(m: Message) -> Seq<char> {
    if m.role@ == "user"@ {
        "You"@
    } else if m.model@.len() == 0 {
        "Assistant"@
    } else {
        m.model@
    }
}

/// The exported messages `ms`, each as a bold speaker, its text and a rule.
pub open spec fn export_body(ms: Seq<Message>) -> Seq<char>
    decreases ms.len(),
{
    if ms.len() == 0 {
        Seq::empty()
    } else {
        export_body(ms.drop_last()) + "**"@ + speaker(ms.last()) + "**\n\n"@ + ms.last().content@
            + "\n\n---\n\n"@
    }
}

/// A session as Markdown: its title as a heading, then every message.
pub fn export_markdown(c: &Conversation) -> (r: String)
    ensures
        r@ == "# "@ + c.title@ + "\n\n"@ + export_body(c.messages@),
{
    let mut out = text::owned("# ");
    text::push_str(&mut out, c.title.as_str());
    text::push_str(&mut out, "\n\n");
    let ghost head = out@;
    let mut i: usize = 0;
    while i < c.messages.len()
        invariant
            i <= c.messages@.len(),
            out@ == head + export_body(c.messages@.take(i as int)),
        decreases c.messages.len() - i,
    {
        let m = &c.messages[i];
        text::push_str(&mut out, "**");
        if text::same(m.role.as_str(), "user") {
            text::push_str(&mut out, "You");
        } else if text::chars_of(m.model.as_str()).len() == 0 {
            text::push_str(&mut out, "Assistant");
        } else {
            text::push_str(&mut out, m.model.as_str());
        }
        text::push_str(&mut out, "**\n\n");
        text::push_str(&mut out, m.content.as_str());
        text::push_str(&mut out, "\n\n---\n\n");
        assert(c.messages@.take(i + 1).drop_last() =~= c.messages@.take(i as int));
        assert(c.messages@.take(i + 1).last() == c.messages@[i as int]);
        i += 1;
    }
    assert(c.messages@.take(c.messages@.len() as int) =~= c.messages@);
    out
}

/// Whether `char::is_alphanumeric` holds (Unicode `Alphabetic` or
/// `Numeric`).
pub uninterp spec fn alphanumeric(c: char) -> bool;

/// `char::is_alphanumeric`. The contract names the result; the Unicode
/// property tables are not restated.
#[verifier::external_body]
fn is_alphanumeric(c: char) -> (r: bool)
    ensures
        r == alphanumeric(c),
{
    c.is_alphanumeric()
}

/// A title with every character other than letters, digits and spaces
/// replaced by `-`.
pub open spec fn file_safe(t: Seq<char>) -> Seq<char> {
    Seq::new(t.len(), |i: int| if alphanumeric(t[i]) || t[i] == ' ' { t[i] } else { '-' })
}

/// The file name an export suggests, without its extension.
pub fn export_name(title: &str) -> (r: String)
    ensures
        r@ == trimmed(file_safe(title@)),
{
    let chars = text::chars_of(title);
    let mut safe: Vec<char> = Vec::new();
    let mut i: usize = 0;
    while i < chars.len()
        invariant
            i <= chars@.len(),
            chars@ == title@,
            safe@ == file_safe(title@).take(i as int),
        decreases chars.len() - i,
    {
        let ch = chars[i];
        if is_alphanumeric(ch) || ch == ' ' {
            safe.push(ch);
        } else {
            safe.push('-');
        }
        assert(safe@ =~= file_safe(title@).take(i + 1));
        i += 1;
    }
    assert(file_safe(title@).take(chars@.len() as int) =~= file_safe(title@));
    let s = text::string_of(&safe);
    text::trim(s.as_str())
}

/// The composer note for attached files: one `[attached: path]` line each.
pub open spec fn attachment_lines(paths: Seq<Seq<char>>) -> Seq<char>
    decreases paths.len(),
{
    if paths.len() == 0 {
        Seq::empty()
    } else {
        attachment_lines(paths.drop_last()) + "[attached: "@ + paths.last() + "]\n"@
    }
}

/// The text added to the composer for attached files.
pub fn attachment_note(paths: &Vec<String>) -> (r: String)
    ensures
        r@ == attachment_lines(crate::backend::strings_view(paths@)),
{
    let ghost views = crate::backend::strings_view(paths@);
    let mut out = String::new();
    let mut i: usize = 0;
    while i < paths.len()
        invariant
            i <= paths@.len(),
            views == crate::backend::strings_view(paths@),
            out@ == attachment_lines(views.take(i as int)),
        decreases paths.len() - i,
    {
        text::push_str(&mut out, "[attached: ");
        text::push_str(&mut out, paths[i].as_str());
        text::push_str(&mut out, "]\n");
        assert(views.take(i + 1).drop_last() =~= views.take(i as int));
        i += 1;
    }
    assert(views.take(paths@.len() as int) =~= views);
    out
}

// ---------------------------------------------------------------------------
// The session list
// ---------------------------------------------------------------------------

/// One row of the session list.
#[derive(Debug, Clone, Copy, PartialEq, Eq)]
pub enum Row {
    /// A date-group heading.
    Heading(&'static str),
    /// The session at this index.
    Session(usize),
}

/// Whether session `i` matches the search: any title when the query is
/// empty, else titles whose lowercase form contains the (lowercase) query.
pub open spec fn shown(c: Seq<Conversation>, q: Seq<char>, i: int) -> bool {
    q.len() == 0 || text::contains(text::lowercase(c[i].title@), q)
}

/// The sessions that match the search, newest (last) first.
pub open spec fn matching(c: Seq<Conversation>, q: Seq<char>, n: int) -> Seq<usize>
    decreases n,
{
    if n <= 0 {
        Seq::empty()
    } else if shown(c, q, n - 1) {
        seq![(n - 1) as usize] + matching(c, q, n - 1)
    } else {
        matching(c, q, n - 1)
    }
}

proof fn lemma_matching(c: Seq<Conversation>, q: Seq<char>, n: int)
    requires
        n <= c.len() <= usize::MAX,
    ensures
        forall|j: int|
            0 <= j < n ==> (#[trigger] matching(c, q, n).contains(j as usize) <==> shown(c, q, j)),
        forall|k: int| 0 <= k < matching(c, q, n).len() ==> (#[trigger] matching(c, q, n)[k]) < n,
        forall|a: int, b: int|
            0 <= a < b < matching(c, q, n).len() ==> matching(c, q, n)[a] > matching(c, q, n)[b],
    decreases n,
{
    if n > 0 {
        lemma_matching(c, q, n - 1);
        let rest = matching(c, q, n - 1);
        let top = (n - 1) as usize;
        assert(top == n - 1);
        assert forall|k: int| 0 <= k < rest.len() implies rest[k] != top by {
            assert(rest[k] < n - 1);
        }
        if shown(c, q, n - 1) {
            let m = seq![top] + rest;
            assert(matching(c, q, n) == m);
            assert forall|j: int| 0 <= j < n implies (#[trigger] m.contains(j as usize) <==> shown(
                c,
                q,
                j,
            )) by {
                let x = j as usize;
                if j == n - 1 {
                    assert(m[0] == x);
                } else {
                    assert(x != top);
                    if rest.contains(x) {
                        let k = choose|k: int| 0 <= k < rest.len() && rest[k] == x;
                        assert(m[k + 1] == x);
                    }
                    if m.contains(x) {
                        let k = choose|k: int| 0 <= k < m.len() && m[k] == x;
                        assert(k > 0);
                        assert(rest[k - 1] == x);
                        assert(rest.contains(x));
                    }
                    assert(rest.contains(x) <==> shown(c, q, j));
                }
            }
            assert forall|k: int| 0 <= k < m.len() implies (#[trigger] m[k]) < n by {
                if k > 0 {
                    assert(m[k] == rest[k - 1]);
                }
            }
            assert forall|a: int, b: int| 0 <= a < b < m.len() implies m[a] > m[b] by {
                assert(m[b] == rest[b - 1]);
                if a > 0 {
                    assert(m[a] == rest[a - 1]);
                }
            }
        } else {
            assert(matching(c, q, n) == rest);
            assert forall|j: int| 0 <= j < n implies (#[trigger] rest.contains(j as usize)
                <==> shown(c, q, j)) by {
                if j == n - 1 {
                    if rest.contains(j as usize) {
                        let k = choose|k: int| 0 <= k < rest.len() && rest[k] == j as usize;
                        assert(rest[k] != top);
                    }
                }
            }
        }
    }
}

/// The session search: with a non-empty query, a session is listed exactly
/// when its lowercased title contains the query, whatever the letter case
/// of the title; with an empty query every session is. Sessions are listed
/// once each, newest (highest index) first.
pub proof fn search_lists_matching_titles(c: Seq<Conversation>, q: Seq<char>, i: int)
    requires
        c.len() <= usize::MAX,
        0 <= i < c.len(),
    ensures
        matching(c, q, c.len() as int).contains(i as usize) <==> (q.len() == 0 || text::contains(
            text::lowercase(c[i].title@),
            q,
        )),
        forall|k: int|
            0 <= k < matching(c, q, c.len() as int).len() ==> (#[trigger] matching(
                c,
                q,
                c.len() as int,
            )[k]) < c.len(),
        forall|a: int, b: int|
            0 <= a < b < matching(c, q, c.len() as int).len() ==> matching(c, q, c.len() as int)[a]
                > matching(c, q, c.len() as int)[b],
{
    lemma_matching(c, q, c.len() as int);
    assert(matching(c, q, c.len() as int).contains(i as usize) <==> shown(c, q, i));
}

/// The sessions matching a lowercased search query, newest first.
pub fn visible_sessions(c: &Vec<Conversation>, query: &str) -> (r: Vec<usize>)
    ensures
        r@ == matching(c@, query@, c@.len() as int),
{
    let qc = text::chars_of(query);
    let mut out: Vec<usize> = Vec::new();
    let mut i: usize = c.len();
    while i > 0
        invariant
            i <= c@.len(),
            qc@ == query@,
            out@ + matching(c@, query@, i as int) == matching(c@, query@, c@.len() as int),
        decreases i,
    {
        let keep = if qc.len() == 0 {
            true
        } else {
            let lower = text::to_lowercase(c[i - 1].title.as_str());
            let lc = text::chars_of(lower.as_str());
            text::contains_chars(&lc, &qc)
        };
        let ghost before = out@;
        if keep {
            out.push(i - 1);
            assert(out@ + matching(c@, query@, i - 1) =~= before + matching(c@, query@, i as int));
        }
        i -= 1;
    }
    assert(out@ + matching(c@, query@, 0) =~= out@);
    out
}

/// A session-list row with its heading read as characters.
pub enum RowView {
    Heading(Seq<char>),
    Session(usize),
}

pub open spec fn row_view(r: Row) -> RowView {
    match r {
        Row::Heading(h) => RowView::Heading(h@),
        Row::Session(i) => RowView::Session(i),
    }
}

/// The pinned sessions among `v`, in order.
pub open spec fn pinned_rows(c: Seq<Conversation>, v: Seq<usize>) -> Seq<RowView>
    decreases v.len(),
{
    if v.len() == 0 {
        Seq::empty()
    } else {
        let rest = pinned_rows(c, v.drop_last());
        if c[v.last() as int].pinned {
            rest.push(RowView::Session(v.last()))
        } else {
            rest
        }
    }
}

/// The unpinned sessions among `v`, each preceded by its date group's
/// heading when that differs from the group before (`last`).
pub open spec fn grouped_rows(c: Seq<Conversation>, v: Seq<usize>, now: u64, last: Seq<char>) -> Seq<
    RowView,
>
    decreases v.len(),
{
    if v.len() == 0 {
        Seq::empty()
    } else {
        let i = v[0];
        if c[i as int].pinned {
            grouped_rows(c, v.drop_first(), now, last)
        } else {
            let b = bucket_name(c[i as int].updated, now);
            let head = if b != last {
                seq![RowView::Heading(b)]
            } else {
                Seq::empty()
            };
            head + seq![RowView::Session(i)] + grouped_rows(c, v.drop_first(), now, b)
        }
    }
}

/// Rows read as views.
pub open spec fn rows_view(rows: Seq<Row>) -> Seq<RowView> {
    rows.map_values(|r: Row| row_view(r))
}

/// The rows of the session list for the visible sessions `v`: pinned ones
/// first, then the others under a heading each time the date group changes.
pub fn session_rows(c: &Vec<Conversation>, v: &Vec<usize>, now: u64) -> (r: Vec<Row>)
    requires
        forall|k: int| 0 <= k < v@.len() ==> v@[k] < c@.len(),
    ensures
        rows_view(r@) == pinned_rows(c@, v@) + grouped_rows(c@, v@, now, Seq::empty()),
{
    let mut rows: Vec<Row> = Vec::new();
    let mut i: usize = 0;
    while i < v.len()
        invariant
            i <= v@.len(),
            forall|k: int| 0 <= k < v@.len() ==> v@[k] < c@.len(),
            rows_view(rows@) == pinned_rows(c@, v@.take(i as int)),
        decreases v.len() - i,
    {
        let ghost before = rows@;
        assert(v@.take(i + 1).drop_last() =~= v@.take(i as int));
        assert(v@.take(i + 1).last() == v@[i as int]);
        if c[v[i]].pinned {
            rows.push(Row::Session(v[i]));
            assert(rows_view(rows@) =~= rows_view(before).push(RowView::Session(v@[i as int])));
        }
        i += 1;
    }
    assert(v@.take(v@.len() as int) =~= v@);
    let ghost pinned = rows_view(rows@);
    let mut last: &'static str = "";
    proof {
        reveal_strlit("");
    }
    let mut j: usize = 0;
    assert(v@.skip(0) =~= v@);
    assert(last@ =~= Seq::<char>::empty());
    while j < v.len()
        invariant
            j <= v@.len(),
            forall|k: int| 0 <= k < v@.len() ==> v@[k] < c@.len(),
            rows_view(rows@) + grouped_rows(c@, v@.skip(j as int), now, last@) == pinned
                + grouped_rows(c@, v@, now, Seq::empty()),
        decreases v.len() - j,
    {
        let ghost before = rows_view(rows@);
        let ghost prev = last@;
        let idx = v[j];
        assert(v@.skip(j as int).drop_first() =~= v@.skip(j + 1));
        assert(v@.skip(j as int)[0] == idx);
        if !c[idx].pinned {
            let b = crate::store::bucket(c[idx].updated, now);
            if !text::same(b, last) {
                rows.push(Row::Heading(b));
                last = b;
            }
            rows.push(Row::Session(idx));
        }
        assert(rows_view(rows@) + grouped_rows(c@, v@.skip(j + 1), now, last@) =~= before
            + grouped_rows(c@, v@.skip(j as int), now, prev));
        j += 1;
    }
    rows
}

// ---------------------------------------------------------------------------
// Labels
// ---------------------------------------------------------------------------

/// The part of a model id after its last `/`.
pub open spec fn short_name(id: Seq<char>) -> Seq<char> {
    id.skip(last_slash_end(id, id.len() as int))
}

/// One past the last `/` in `id[..j]`, or 0.
pub open spec fn last_slash_end(id: Seq<char>, j: int) -> int
    decreases j,
{
    if j <= 0 {
        0
    } else if id[j - 1] == '/' {
        j
    } else {
        last_slash_end(id, j - 1)
    }
}

/// The model picker's button label: the model id after its last `/`.
pub fn short_model_name(id: &str) -> (r: String)
    ensures
        r@ == short_name(id@),
{
    let chars = text::chars_of(id);
    let mut j = chars.len();
    while j > 0 && chars[j - 1] != '/'
        invariant
            j <= chars@.len(),
            chars@ == id@,
            last_slash_end(id@, j as int) == last_slash_end(id@, id@.len() as int),
        decreases j,
    {
        j -= 1;
    }
    let r = text::string_of_range(&chars, j, chars.len());
    assert(chars@.subrange(j as int, chars@.len() as int) =~= chars@.skip(j as int));
    r
}

/// The models the picker lists: the current model first when the gateway
/// does not list it, then the gateway's list, keeping those whose lowercase
/// form contains the (lowercase) search.
pub open spec fn picker_ids(models: Seq<Seq<char>>, current: Seq<char>) -> Seq<Seq<char>> {
    if models.contains(current) {
        models
    } else {
        seq![current] + models
    }
}

/// Whether a model id matches the picker's search.
pub open spec fn picked(id: Seq<char>, q: Seq<char>) -> bool {
    q.len() == 0 || text::contains(text::lowercase(id), q)
}

/// `ids` that match the search, in order.
pub open spec fn filtered(ids: Seq<Seq<char>>, q: Seq<char>) -> Seq<Seq<char>>
    decreases ids.len(),
{
    if ids.len() == 0 {
        Seq::empty()
    } else {
        let rest = filtered(ids.drop_last(), q);
        if picked(ids.last(), q) {
            rest.push(ids.last())
        } else {
            rest
        }
    }
}

proof fn lemma_filtered(ids: Seq<Seq<char>>, q: Seq<char>, x: Seq<char>)
    ensures
        filtered(ids, q).contains(x) <==> (ids.contains(x) && (q.len() == 0 || text::contains(
            text::lowercase(x),
            q,
        ))),
    decreases ids.len(),
{
    if ids.len() > 0 {
        let rest = ids.drop_last();
        lemma_filtered(rest, q, x);
        let f = filtered(rest, q);
        if ids.contains(x) && x != ids.last() {
            let k = choose|k: int| 0 <= k < ids.len() && ids[k] == x;
            assert(rest[k] == x);
        }
        if rest.contains(x) {
            let k = choose|k: int| 0 <= k < rest.len() && rest[k] == x;
            assert(ids[k] == x);
        }
        if picked(ids.last(), q) {
            let g = f.push(ids.last());
            assert(g[g.len() - 1] == ids.last());
            assert(ids[ids.len() - 1] == ids.last());
            if f.contains(x) {
                let k = choose|k: int| 0 <= k < f.len() && f[k] == x;
                assert(g[k] == x);
            }
            if g.contains(x) && x != ids.last() {
                let k = choose|k: int| 0 <= k < g.len() && g[k] == x;
                assert(f[k] == x);
            }
        } else {
            if ids.contains(x) && x == ids.last() {
                assert(!picked(x, q));
            }
        }
    }
}

/// The model picker: with a non-empty search, it shows exactly the models
/// (the gateway's list, plus the current model) whose whole lowercased id
/// contains the search, wherever in the id the match falls; with an empty
/// search it shows them all. The current model is listed first when the
/// gateway does not list it, and the gateway's order is kept.
pub proof fn picker_shows_matching_models(models: Seq<Seq<char>>, current: Seq<char>, q: Seq<char>, id: Seq<char>)
    ensures
        filtered(picker_ids(models, current), q).contains(id) <==> ((models.contains(id) || id
            == current) && (q.len() == 0 || text::contains(text::lowercase(id), q))),
        picker_ids(models, current) == if models.contains(current) {
            models
        } else {
            seq![current] + models
        },
{
    lemma_filtered(picker_ids(models, current), q, id);
    let ids = picker_ids(models, current);
    if !models.contains(current) {
        assert(ids[0] == current);
        if models.contains(id) {
            let k = choose|k: int| 0 <= k < models.len() && models[k] == id;
            assert(ids[k + 1] == id);
        }
        if ids.contains(id) && id != current {
            let k = choose|k: int| 0 <= k < ids.len() && ids[k] == id;
            assert(models[k - 1] == id);
        }
    }
}

fn add_if_picked(out: &mut Vec<String>, id: &String, qc: &Vec<char>)
    ensures
        crate::backend::strings_view(final(out)@) == if picked(id@, qc@) {
            crate::backend::strings_view(old(out)@).push(id@)
        } else {
            crate::backend::strings_view(old(out)@)
        },
{
    let keep = if qc.len() == 0 {
        true
    } else {
        let lower = text::to_lowercase(id.as_str());
        let lc = text::chars_of(lower.as_str());
        text::contains_chars(&lc, qc)
    };
    if keep {
        let ghost before = out@;
        out.push(id.clone());
        assert(crate::backend::strings_view(out@) =~= crate::backend::strings_view(before).push(
            id@,
        ));
    }
}

/// The model ids the picker shows for a lowercased search.
pub fn model_choices(models: &Vec<String>, current: &String, query: &str) -> (r: Vec<String>)
    ensures
        crate::backend::strings_view(r@) == filtered(
            picker_ids(crate::backend::strings_view(models@), current@),
            query@,
        ),
{
    let ghost ms = crate::backend::strings_view(models@);
    let qc = text::chars_of(query);
    let mut listed = false;
    let mut k: usize = 0;
    while k < models.len()
        invariant
            k <= models@.len(),
            ms == crate::backend::strings_view(models@),
            listed == ms.take(k as int).contains(current@),
        decreases models.len() - k,
    {
        assert(ms.take(k + 1) =~= ms.take(k as int).push(ms[k as int]));
        let eq = text::same(models[k].as_str(), current.as_str());
        proof {
            let t = ms.take(k as int);
            if eq {
                assert(t.push(ms[k as int])[k as int] == current@);
            } else if !listed {
                assert forall|j: int|
                    0 <= j < k + 1 implies t.push(ms[k as int])[j] != current@ by {
                    if j < k {
                        assert(t.push(ms[k as int])[j] == t[j]);
                    }
                }
            } else {
                let w = choose|j: int| 0 <= j < t.len() && t[j] == current@;
                assert(t.push(ms[k as int])[w] == current@);
            }
        }
        if eq {
            listed = true;
        }
        k += 1;
    }
    assert(ms.take(models@.len() as int) =~= ms);
    let ghost ids = picker_ids(ms, current@);
    let mut out: Vec<String> = Vec::new();
    let ghost front: Seq<Seq<char>> = if listed {
        Seq::empty()
    } else {
        seq![current@]
    };
    assert(crate::backend::strings_view(out@) =~= Seq::<Seq<char>>::empty());
    if !listed {
        add_if_picked(&mut out, current, &qc);
        assert(front.take(1) =~= front);
        assert(front.take(1).drop_last() =~= Seq::<Seq<char>>::empty());
    }
    proof {
        assert(ids.take(front.len() as int) =~= front);
        assert(ids =~= front + ms);
        if !listed {
            assert(front.drop_last() =~= Seq::<Seq<char>>::empty());
            assert(front.last() == current@);
            assert(filtered(Seq::<Seq<char>>::empty(), query@) =~= Seq::<Seq<char>>::empty());
            assert(filtered(front, query@) =~= if picked(current@, query@) {
                seq![current@]
            } else {
                Seq::<Seq<char>>::empty()
            });
        }
        if listed {
            assert(crate::backend::strings_view(out@) =~= Seq::<Seq<char>>::empty());
        }
    }
    let mut i: usize = 0;
    while i < models.len()
        invariant
            i <= models@.len(),
            ms == crate::backend::strings_view(models@),
            qc@ == query@,
            ids == front + ms,
            crate::backend::strings_view(out@) == filtered(ids.take(front.len() + i), query@),
        decreases models.len() - i,
    {
        assert(ids.take(front.len() + i + 1).drop_last() =~= ids.take(front.len() + i));
        assert(ids.take(front.len() + i + 1).last() == ms[i as int]);
        add_if_picked(&mut out, &models[i], &qc);
        i += 1;
    }
    assert(ids.take((front.len() + models@.len()) as int) =~= ids);
    out
}

/// What the gateway chip's tooltip says.
pub fn gateway_status(gateway: &str, loading: bool, error: &Option<String>, models: usize) -> (r:
    String)
    ensures
        r@ == gateway@ + if loading {
            ": loading model list"@
        } else {
            match error {
                Some(e) => ": "@ + e@,
                None => ": "@ + text::decimal(models as nat) + " models"@,
            }
        },
{
    let mut out = text::owned(gateway);
    if loading {
        text::push_str(&mut out, ": loading model list");
    } else {
        match error {
            Some(e) => {
                text::push_str(&mut out, ": ");
                text::push_str(&mut out, e.as_str());
            },
            None => {
                text::push_str(&mut out, ": ");
                let n = text::decimal_string(models as u64);
                text::push_str(&mut out, n.as_str());
                text::push_str(&mut out, " models");
            },
        }
    }
    out
}

/// The status bar's count of guest replies.
pub fn free_replies_left(n: u64) -> (r: String)
    ensures
        r@ == text::decimal(n as nat) + " free replies left"@,
{
    let mut out = text::decimal_string(n);
    text::push_str(&mut out, " free replies left");
    out
}

/// Who a message row is labelled as: you, the message's model, or the
/// model currently selected when the message names none.
pub fn message_label(m: &Message, selected_model: &String) -> (r: String)
    ensures
        r@ == if m.role@ == "user"@ {
            "You"@
        } else if m.model@.len() == 0 {
            selected_model@
        } else {
            m.model@
        },
{
    if text::same(m.role.as_str(), "user") {
        text::owned("You")
    } else if text::chars_of(m.model.as_str()).len() == 0 {
        selected_model.clone()
    } else {
        m.model.clone()
    }
}

/// The approval card's heading for a call.
pub fn approval_title(name: &str, summary: &str) -> (r: String)
    ensures
        r@ == if name@ == "write_file"@ {
            "Letronna wants to write "@ + summary@
        } else if name@ == "edit_file"@ {
            "Letronna wants to edit "@ + summary@
        } else if name@ == "run_command"@ {
            "Letronna wants to run a command"@
        } else {
            "Letronna wants to use "@ + name@
        },
{
    if text::same(name, "write_file") {
        let mut out = text::owned("Letronna wants to write ");
        text::push_str(&mut out, summary);
        out
    } else if text::same(name, "edit_file") {
        let mut out = text::owned("Letronna wants to edit ");
        text::push_str(&mut out, summary);
        out
    } else if text::same(name, "run_command") {
        text::owned("Letronna wants to run a command")
    } else {
        let mut out = text::owned("Letronna wants to use ");
        text::push_str(&mut out, name);
        out
    }
}

/// The string items of a JSON array, in order.
pub open spec fn string_items(items: Seq<crate::json::Json>) -> Seq<Seq<char>>
    decreases items.len(),
{
    if items.len() == 0 {
        Seq::empty()
    } else {
        let rest = string_items(items.drop_last());
        match crate::json::str_value(Some(items.last())) {
            Some(t) => rest.push(t),
            None => rest,
        }
    }
}

/// The choices an `ask_user` call offers: the string items of its
/// `options` array, none when it has no such array.
pub fn question_options(args: &crate::json::Json) -> (r: Vec<String>)
    ensures
        crate::backend::strings_view(r@) == match args.field("options"@) {
            Some(crate::json::Json::Array(items)) => string_items(items@),
            _ => Seq::empty(),
        },
{
    let mut out: Vec<String> = Vec::new();
    let items = match args.get("options") {
        Some(o) => match o.as_array() {
            Some(items) => items,
            None => {
                assert(crate::backend::strings_view(out@) =~= Seq::<Seq<char>>::empty());
                return out;
            },
        },
        None => {
            assert(crate::backend::strings_view(out@) =~= Seq::<Seq<char>>::empty());
            return out;
        },
    };
    let mut i: usize = 0;
    while i < items.len()
        invariant
            i <= items@.len(),
            crate::backend::strings_view(out@) == string_items(items@.take(i as int)),
        decreases items.len() - i,
    {
        assert(items@.take(i + 1).drop_last() =~= items@.take(i as int));
        assert(items@.take(i + 1).last() == items@[i as int]);
        if let Some(t) = items[i].as_str() {
            let ghost before = out@;
            out.push(text::owned(t));
            assert(crate::backend::strings_view(out@) =~= crate::backend::strings_view(before).push(
                t@,
            ));
        }
        i += 1;
    }
    assert(items@.take(items@.len() as int) =~= items@);
    out
}

} // verus!
