//! The chat transport's decisions: endpoint validation, the request body with
//! its bounded context, reading provider replies and stream events, model
//! lists and the AILE guest session. The HTTP exchange itself is performed by
//! the caller, which hands the replies back as plain values.

use crate::json::{self, Json, deref_opt, str_value};
use crate::text::{self, has_prefix, has_suffix, strip_trailing, trimmed};
use vstd::prelude::*;

verus! {

broadcast use vstd::string::group_string_axioms;

/// One chat message.
#[derive(Clone, Debug)]
pub struct Message {
    pub role: String,
    pub content: String,
    pub model: String,
}

/// Where and how to reach the model.
#[derive(Clone, Debug)]
pub struct Connection {
    pub endpoint: String,
    pub model: String,
    pub key: String,
}

/// What a running reply reports to the chat.
#[derive(Debug)]
pub enum Event {
    Delta(String),
    FreeRemaining(u64),
    Finished(Result<(), String>),
}

/// The AILE API base.
pub const AILE: &'static str = "https://api.aile.sh/v1";

/// The guest chat endpoint that serves `aile-free/` models.
pub const FREE_CHAT: &'static str = "https://chat.aile.sh/api/free/chat/completions";

/// The guest model catalog.
pub const FREE_MODELS: &'static str = "https://chat.aile.sh/api/free/models";

/// The guest session endpoint.
pub const FREE_SESSION: &'static str = "https://chat.aile.sh/api/free/session";

/// Model ids with this prefix are served by the guest endpoint.
pub const FREE_PREFIX: &'static str = "aile-free/";

/// At most this many recent messages go into a request.
pub const MAX_TURNS: usize = 20;

/// At most this many characters of message text go into a request.
pub const MAX_CONTEXT_CHARS: usize = 24000;

/// The system prompt that leads every request.
pub const SYSTEM_PROMPT: &'static str = "You are Letronna, a personal assistant. Be clear, concise, and honest. You can converse but have no tools or filesystem access in this app.";

/// A `Result` of strings read as character sequences.
pub open spec fn result_view(r: Result<String, String>) -> Result<Seq<char>, Seq<char>> {
    match r {
        Ok(s) => Ok(s@),
        Err(e) => Err(e@),
    }
}

// ---------------------------------------------------------------------------
// Time
// ---------------------------------------------------------------------------

#[verifier::external_type_specification]
#[verifier::external_body]
pub struct ExSystemTime(std::time::SystemTime);

/// `SystemTime::now`. Nothing is stated of the clock.
#[verifier::external_body]
fn system_now() -> std::time::SystemTime {
    std::time::SystemTime::now()
}

/// `SystemTime::duration_since(UNIX_EPOCH)`, as whole seconds; `None` for a
/// time before the epoch. Nothing is stated of the clock.
#[verifier::external_body]
fn seconds_since_epoch(t: &std::time::SystemTime) -> Option<u64> {
    t.duration_since(std::time::UNIX_EPOCH).ok().map(|d| d.as_secs())
}

/// Seconds since the Unix epoch, or 0 when the clock is set before it.
pub fn now() -> u64 {
    match seconds_since_epoch(&system_now()) {
        Some(secs) => secs,
        None => 0,
    }
}

// ---------------------------------------------------------------------------
// Data folder
// ---------------------------------------------------------------------------

/// Where the data folder is rooted.
#[derive(Debug, Clone, Copy, PartialEq, Eq, Structural)]
pub enum DataRoot {
    /// The folder `AGENT_DATA_DIR` names, used as it is.
    AgentDataDir,
    /// The folder `LOCALAPPDATA` names.
    LocalAppData,
    /// The home folder `HOME` names.
    Home,
    /// The system's temporary folder.
    Temp,
}

/// The data folder: which root wins, and the folders joined under it.
pub open spec fn data_location(agent_dir_set: bool, local_app_data_set: bool, home_set: bool) -> (
    DataRoot,
    Seq<Seq<char>>,
) {
    if agent_dir_set {
        (DataRoot::AgentDataDir, Seq::empty())
    } else if local_app_data_set {
        (DataRoot::LocalAppData, seq!["Letronna"@])
    } else if home_set {
        (DataRoot::Home, seq![".local/share"@, "Letronna"@])
    } else {
        (DataRoot::Temp, seq!["Letronna"@])
    }
}

/// Where Letronna keeps its files, given which of `AGENT_DATA_DIR`,
/// `LOCALAPPDATA` and `HOME` are set: the root, and the folders to join.
pub fn data_root(agent_dir_set: bool, local_app_data_set: bool, home_set: bool) -> (r: (
    DataRoot,
    Vec<&'static str>,
))
    ensures
        r.0 == data_location(agent_dir_set, local_app_data_set, home_set).0,
        r.1@.len() == data_location(agent_dir_set, local_app_data_set, home_set).1.len(),
        forall|k: int|
            0 <= k < r.1@.len() ==> (#[trigger] r.1@[k])@ == data_location(
                agent_dir_set,
                local_app_data_set,
                home_set,
            ).1[k],
{
    let mut parts: Vec<&'static str> = Vec::new();
    if agent_dir_set {
        return (DataRoot::AgentDataDir, parts);
    }
    if local_app_data_set {
        parts.push("Letronna");
        return (DataRoot::LocalAppData, parts);
    }
    if home_set {
        parts.push(".local/share");
        parts.push("Letronna");
        return (DataRoot::Home, parts);
    }
    parts.push("Letronna");
    (DataRoot::Temp, parts)
}

// ---------------------------------------------------------------------------
// Endpoint validation
// ---------------------------------------------------------------------------

/// The parts of a parsed URL that validation reads.
#[derive(Debug)]
pub struct UrlParts {
    pub scheme: String,
    pub host: Option<String>,
    pub username: String,
    pub password: Option<String>,
    pub query: Option<String>,
    pub fragment: Option<String>,
}

/// What `reqwest::Url::parse` makes of `text`: `None` where it refuses it.
pub uninterp spec fn url_parse(text: Seq<char>) -> Option<UrlParts>;

/// `reqwest::Url::parse`, with the accessors `scheme`, `host_str`,
/// `username`, `password`, `query` and `fragment` copied out. The contract
/// names the outcome; the WHATWG parsing rules are not restated.
#[verifier::external_body]
fn parse_url(text: &str) -> (r: Option<UrlParts>)
    ensures
        r == url_parse(text@),
{
    reqwest::Url::parse(text).ok().map(
        |u| UrlParts {
            scheme: u.scheme().to_owned(),
            host: u.host_str().map(str::to_owned),
            username: u.username().to_owned(),
            password: u.password().map(str::to_owned),
            query: u.query().map(str::to_owned),
            fragment: u.fragment().map(str::to_owned),
        },
    )
}

pub open spec fn msg_invalid_url() -> Seq<char> {
    "Enter a valid endpoint, such as http://localhost:11434/v1"@
}

pub open spec fn msg_bad_scheme() -> Seq<char> {
    "Endpoint must be an HTTP or HTTPS URL."@
}

pub open spec fn msg_extra_parts() -> Seq<char> {
    "Use a base URL without credentials, query parameters, or fragments."@
}

pub open spec fn msg_remote_http() -> Seq<char> {
    "Use HTTPS for remote providers, or HTTP on localhost."@
}

pub open spec fn msg_no_model() -> Seq<char> {
    "Enter the model ID served by your provider in Connection settings."@
}

pub open spec fn msg_free_base() -> Seq<char> {
    "Aile Free models use the AILE connection: https://api.aile.sh/v1"@
}

/// Hosts that may be reached over plain HTTP.
pub open spec fn is_loopback(host: Option<String>) -> bool {
    match host {
        Some(h) => h@ == "localhost"@ || h@ == "127.0.0.1"@ || h@ == "[::1]"@,
        None => false,
    }
}

/// The endpoint without surrounding whitespace and trailing slashes.
pub open spec fn endpoint_base(endpoint: Seq<char>) -> Seq<char> {
    strip_trailing(trimmed(endpoint), '/')
}

/// The chat-completions URL for a base URL.
pub open spec fn completions_url(base: Seq<char>) -> Seq<char> {
    if has_suffix(base, "/chat/completions"@) {
        base
    } else {
        base + "/chat/completions"@
    }
}

/// What validation answers for an endpoint, a model id and the parse of the
/// trimmed endpoint: the URL to post to, or the message for the user.
pub open spec fn endpoint_check(
    endpoint: Seq<char>,
    model: Seq<char>,
    url: Option<UrlParts>,
) -> Result<Seq<char>, Seq<char>> {
    match url {
        None => Err(msg_invalid_url()),
        Some(u) => if !(u.scheme@ == "http"@ || u.scheme@ == "https"@) || u.host is None {
            Err(msg_bad_scheme())
        } else if u.username@.len() != 0 || u.password is Some || u.query is Some
            || u.fragment is Some {
            Err(msg_extra_parts())
        } else if u.scheme@ == "http"@ && !is_loopback(u.host) {
            Err(msg_remote_http())
        } else if trimmed(model).len() == 0 {
            Err(msg_no_model())
        } else if has_prefix(model, FREE_PREFIX@) {
            if endpoint_base(endpoint) == AILE@ {
                Ok(FREE_CHAT@)
            } else {
                Err(msg_free_base())
            }
        } else {
            Ok(completions_url(endpoint_base(endpoint)))
        },
    }
}

fn is_loopback_host(host: &Option<String>) -> (r: bool)
    ensures
        r == is_loopback(*host),
{
    match host {
        Some(h) => text::same(h.as_str(), "localhost") || text::same(h.as_str(), "127.0.0.1")
            || text::same(h.as_str(), "[::1]"),
        None => false,
    }
}

/// `endpoint_base`.
pub fn base_url(endpoint: &str) -> (r: Vec<char>)
    ensures
        r@ == endpoint_base(endpoint@),
{
    let t = text::trim(endpoint);
    let chars = text::chars_of(t.as_str());
    text::strip_trailing_chars(&chars, '/')
}

/// Everything validation decides once the trimmed endpoint has been parsed.
pub fn check_endpoint(connection: &Connection, url: &Option<UrlParts>) -> (r: Result<
    String,
    String,
>)
    ensures
        result_view(r) == endpoint_check(connection.endpoint@, connection.model@, *url),
{
    let u = match url {
        None => {
            return Err(text::owned("Enter a valid endpoint, such as http://localhost:11434/v1"));
        },
        Some(u) => u,
    };
    let http = text::same(u.scheme.as_str(), "http");
    let https = text::same(u.scheme.as_str(), "https");
    if !(http || https) || u.host.is_none() {
        return Err(text::owned("Endpoint must be an HTTP or HTTPS URL."));
    }
    if text::chars_of(u.username.as_str()).len() != 0 || u.password.is_some() || u.query.is_some()
        || u.fragment.is_some() {
        return Err(
            text::owned("Use a base URL without credentials, query parameters, or fragments."),
        );
    }
    if http && !is_loopback_host(&u.host) {
        return Err(text::owned("Use HTTPS for remote providers, or HTTP on localhost."));
    }
    if text::is_blank(connection.model.as_str()) {
        return Err(
            text::owned("Enter the model ID served by your provider in Connection settings."),
        );
    }
    let base = base_url(connection.endpoint.as_str());
    if text::str_starts_with(connection.model.as_str(), FREE_PREFIX) {
        let aile = text::chars_of(AILE);
        if !text::seq_equal(&base, &aile) {
            return Err(text::owned("Aile Free models use the AILE connection: https://api.aile.sh/v1"));
        }
        return Ok(text::owned(FREE_CHAT));
    }
    let suffix = text::chars_of("/chat/completions");
    let mut out = text::string_of(&base);
    if !text::ends_with(&base, &suffix) {
        text::push_str(&mut out, "/chat/completions");
    }
    Ok(out)
}

/// The URL to post chat requests to, or why the connection is unusable.
pub fn validate(connection: &Connection) -> (r: Result<String, String>)
    ensures
        result_view(r) == endpoint_check(
            connection.endpoint@,
            connection.model@,
            url_parse(trimmed(connection.endpoint@)),
        ),
{
    let endpoint = text::trim(connection.endpoint.as_str());
    let url = parse_url(endpoint.as_str());
    check_endpoint(connection, &url)
}

/// Whatever the endpoint, the model and the parse of the URL, a connection
/// that validates posts to a chat-completions URL.
pub proof fn validated_url_is_chat_endpoint(endpoint: Seq<char>, model: Seq<char>, url: Option<
    UrlParts,
>)
    ensures
        endpoint_check(endpoint, model, url) matches Ok(u) ==> has_suffix(
            u,
            "/chat/completions"@,
        ),
{
    reveal_strlit("/chat/completions");
    reveal_strlit("https://chat.aile.sh/api/free/chat/completions");
    let base = endpoint_base(endpoint);
    let suffix = "/chat/completions"@;
    if !has_suffix(base, suffix) {
        let u = base + suffix;
        assert(u.subrange(u.len() - suffix.len(), u.len() as int) =~= suffix);
    }
    let free = FREE_CHAT@;
    assert(free.subrange(free.len() - suffix.len(), free.len() as int) =~= suffix);
}

/// Whether validation accepts a parsed URL: HTTP or HTTPS with a host, no
/// credentials, query or fragment, and plain HTTP only to this machine.
pub open spec fn acceptable(url: Option<UrlParts>) -> bool {
    match url {
        None => false,
        Some(u) => {
            &&& u.scheme@ == "http"@ || u.scheme@ == "https"@
            &&& u.host is Some
            &&& u.username@.len() == 0
            &&& u.password is None
            &&& u.query is None
            &&& u.fragment is None
            &&& !(u.scheme@ == "http"@ && !is_loopback(u.host))
        },
    }
}

proof fn lemma_trimmed_first(s: Seq<char>)
    ensures
        trimmed(s).len() > 0 ==> !text::is_white(trimmed(s)[0]),
{
    text::lemma_skip_white_bounds(s, 0);
    let a = text::skip_white(s, 0);
    text::lemma_back_white_bounds(s, a, s.len() as int);
}

proof fn lemma_trimmed_unchanged(s: Seq<char>)
    requires
        s.len() > 0,
        !text::is_white(s[0]),
        !text::is_white(s.last()),
    ensures
        trimmed(s) == s,
{
    assert(text::skip_white(s, 0) == 0);
    assert(text::back_white(s, 0, s.len() as int) == s.len());
    assert(s.subrange(0, s.len() as int) =~= s);
}

proof fn lemma_strip_trailing_prefix(s: Seq<char>, c: char)
    ensures
        strip_trailing(s, c).len() <= s.len(),
        strip_trailing(s, c) == s.take(strip_trailing(s, c).len() as int),
    decreases s.len(),
{
    if s.len() > 0 && s.last() == c {
        lemma_strip_trailing_prefix(s.drop_last(), c);
        let t = strip_trailing(s.drop_last(), c);
        assert(s.drop_last().take(t.len() as int) =~= s.take(t.len() as int));
    } else {
        assert(s.take(s.len() as int) =~= s);
    }
}

/// A URL that validation produced for a model other than the AILE guest
/// models validates again to itself, whenever the URL parser accepts it
/// (`again` stands for what the parser makes of it; that is not stated
/// here). It ends with `/chat/completions`, never with a slash.
pub proof fn validated_url_validates_again(
    endpoint: Seq<char>,
    model: Seq<char>,
    url: Option<UrlParts>,
    again: Option<UrlParts>,
)
    requires
        !has_prefix(model, FREE_PREFIX@),
        acceptable(again),
    ensures
        match endpoint_check(endpoint, model, url) {
            Ok(u) => {
                &&& u.len() > 0 && u.last() != '/'
                &&& endpoint_check(u, model, again) == Ok::<Seq<char>, Seq<char>>(u)
            },
            Err(_) => true,
        },
{
    reveal_strlit("/chat/completions");
    if let Ok(u) = endpoint_check(endpoint, model, url) {
        validated_url_is_chat_endpoint(endpoint, model, url);
        let suffix = "/chat/completions"@;
        let t = trimmed(endpoint);
        let b = endpoint_base(endpoint);
        assert(u == completions_url(b));
        assert(u[u.len() - 1] == suffix[suffix.len() - 1]);
        assert(u.last() == 's');
        lemma_trimmed_first(endpoint);
        lemma_strip_trailing_prefix(t, '/');
        if b.len() > 0 {
            assert(b[0] == t[0]);
            assert(u[0] == b[0]);
        } else {
            assert(u =~= suffix);
        }
        assert(!text::is_white(u[0]));
        lemma_trimmed_unchanged(u);
        assert(strip_trailing(u, '/') == u);
        assert(endpoint_base(u) == u);
        assert(completions_url(u) == u);
    }
}

// ---------------------------------------------------------------------------
// Request body
// ---------------------------------------------------------------------------

/// Walking back from `start`, the first message kept: older messages are
/// added while fewer than `MAX_TURNS` are kept and their text, with `used`
/// characters already kept, stays within `MAX_CONTEXT_CHARS`.
pub open spec fn window_start(m: Seq<Message>, start: int, used: int) -> int
    decreases start,
{
    if start > 0 && m.len() - start < MAX_TURNS && used + m[start - 1].content@.len()
        <= MAX_CONTEXT_CHARS {
        window_start(m, start - 1, used + m[start - 1].content@.len())
    } else {
        start
    }
}

/// The first index at or after `i` that holds a user message, or `m.len()`.
pub open spec fn first_user(m: Seq<Message>, i: int) -> int
    decreases m.len() - i,
{
    if 0 <= i < m.len() && m[i].role@ != "user"@ {
        first_user(m, i + 1)
    } else {
        i
    }
}

/// Where the context sent with a request begins: the recent window, cut
/// forward to its first user message so that only complete turns are sent.
pub open spec fn context_start(m: Seq<Message>) -> int {
    first_user(m, window_start(m, m.len() as int, 0))
}

/// Total characters of message text in `m[from..to]`.
pub open spec fn text_chars(m: Seq<Message>, from: int, to: int) -> int
    decreases to - from,
{
    if from < to {
        m[to - 1].content@.len() + text_chars(m, from, to - 1)
    } else {
        0
    }
}

pub proof fn lemma_window_start(m: Seq<Message>, start: int, used: int)
    requires
        0 <= start <= m.len(),
        m.len() - start <= MAX_TURNS,
        used == text_chars(m, start, m.len() as int),
        used <= MAX_CONTEXT_CHARS,
    ensures
        0 <= window_start(m, start, used) <= start,
        m.len() - window_start(m, start, used) <= MAX_TURNS,
        text_chars(m, window_start(m, start, used), m.len() as int) <= MAX_CONTEXT_CHARS,
    decreases start,
{
    if start > 0 && m.len() - start < MAX_TURNS && used + m[start - 1].content@.len()
        <= MAX_CONTEXT_CHARS {
        lemma_text_chars_front(m, start - 1, m.len() as int);
        lemma_window_start(m, start - 1, used + m[start - 1].content@.len());
    }
}

/// Adding the message at the front of a range adds its characters.
pub proof fn lemma_text_chars_front(m: Seq<Message>, from: int, to: int)
    requires
        0 <= from < to <= m.len(),
    ensures
        text_chars(m, from, to) == m[from].content@.len() + text_chars(m, from + 1, to),
    decreases to - from,
{
    if from + 1 < to {
        lemma_text_chars_front(m, from, to - 1);
        assert(text_chars(m, from + 1, to) == m[to - 1].content@.len() + text_chars(
            m,
            from + 1,
            to - 1,
        ));
    } else {
        assert(text_chars(m, from, from) == 0);
        assert(text_chars(m, to, to) == 0);
    }
}

pub proof fn lemma_first_user(m: Seq<Message>, i: int)
    requires
        0 <= i <= m.len(),
    ensures
        i <= first_user(m, i) <= m.len(),
        first_user(m, i) < m.len() ==> m[first_user(m, i)].role@ == "user"@,
        forall|k: int| i <= k < first_user(m, i) ==> m[k].role@ != "user"@,
    decreases m.len() - i,
{
    if i < m.len() && m[i].role@ != "user"@ {
        lemma_first_user(m, i + 1);
    }
}

/// Index of the first message sent as context.
pub fn context_from(messages: &Vec<Message>) -> (start: usize)
    ensures
        start == context_start(messages@),
{
    let mut start = messages.len();
    let mut used: usize = 0;
    while start > 0 && messages.len() - start < MAX_TURNS
        invariant
            start <= messages.len(),
            used <= MAX_CONTEXT_CHARS,
            window_start(messages@, start as int, used as int) == window_start(
                messages@,
                messages@.len() as int,
                0,
            ),
        ensures
            start <= messages.len(),
            start == window_start(messages@, messages@.len() as int, 0),
        decreases start,
    {
        let size = text::chars_of(messages[start - 1].content.as_str()).len();
        if size > MAX_CONTEXT_CHARS - used {
            break;
        }
        used += size;
        start -= 1;
    }
    while start < messages.len() && !text::same(messages[start].role.as_str(), "user")
        invariant
            start <= messages.len(),
            first_user(messages@, start as int) == context_start(messages@),
        decreases messages.len() - start,
    {
        start += 1;
    }
    start
}

/// A `{"role": .., "content": ..}` object.
pub open spec fn is_message_object(j: Json, role: Seq<char>, content: Seq<char>) -> bool {
    &&& j matches Json::Object(e)
    &&& e@.len() == 2
    &&& e@[0].0@ == "role"@
    &&& e@[0].1 matches Json::Str(r) && r@ == role
    &&& e@[1].0@ == "content"@
    &&& e@[1].1 matches Json::Str(c) && c@ == content
}

/// The `messages` array: the system prompt, then `m[start..]`.
pub open spec fn is_context(items: Seq<Json>, m: Seq<Message>, start: int) -> bool {
    &&& items.len() == 1 + m.len() - start
    &&& is_message_object(items[0], "system"@, SYSTEM_PROMPT@)
    &&& forall|k: int|
        1 <= k < items.len() ==> is_message_object(
            #[trigger] items[k],
            m[start + k - 1].role@,
            m[start + k - 1].content@,
        )
}

/// The request body: the trimmed model id, the system prompt followed by the
/// messages from `context_start`, streaming on, and a cap of 1024 tokens.
pub open spec fn is_request_body(j: Json, connection: Connection, m: Seq<Message>) -> bool {
    let start = context_start(m);
    &&& j matches Json::Object(e)
    &&& e@.len() == 4
    &&& e@[0].0@ == "model"@
    &&& e@[0].1 matches Json::Str(s) && s@ == trimmed(connection.model@)
    &&& e@[1].0@ == "messages"@
    &&& e@[1].1 matches Json::Array(items) && is_context(items@, m, start)
    &&& e@[2].0@ == "stream"@
    &&& e@[2].1 == Json::Bool(true)
    &&& e@[3].0@ == "max_tokens"@
    &&& e@[3].1 matches Json::Number(n) && n@ == "1024"@
}

fn message_object(role: &str, content: &str) -> (j: Json)
    ensures
        is_message_object(j, role@, content@),
{
    let mut e: Vec<(String, Json)> = Vec::new();
    e.push((text::owned("role"), json::string(role)));
    e.push((text::owned("content"), json::string(content)));
    Json::Object(e)
}

/// The JSON body of a streaming chat-completion request.
pub fn body(connection: &Connection, messages: &Vec<Message>) -> (j: Json)
    ensures
        is_request_body(j, *connection, messages@),
{
    let start = context_from(messages);
    proof {
        lemma_window_start(messages@, messages@.len() as int, 0);
        lemma_first_user(messages@, window_start(messages@, messages@.len() as int, 0));
    }
    let mut items: Vec<Json> = Vec::new();
    items.push(message_object("system", SYSTEM_PROMPT));
    let mut i = start;
    while i < messages.len()
        invariant
            start <= i <= messages.len(),
            start == context_start(messages@),
            items@.len() == 1 + i - start,
            is_message_object(items@[0], "system"@, SYSTEM_PROMPT@),
            forall|k: int|
                1 <= k < items@.len() ==> is_message_object(
                    #[trigger] items@[k],
                    messages@[start + k - 1].role@,
                    messages@[start + k - 1].content@,
                ),
        decreases messages.len() - i,
    {
        let m = &messages[i];
        items.push(message_object(m.role.as_str(), m.content.as_str()));
        i += 1;
    }
    let mut e: Vec<(String, Json)> = Vec::new();
    e.push((text::owned("model"), Json::Str(text::trim(connection.model.as_str()))));
    e.push((text::owned("messages"), Json::Array(items)));
    e.push((text::owned("stream"), Json::Bool(true)));
    e.push((text::owned("max_tokens"), Json::Number(text::owned("1024"))));
    Json::Object(e)
}

/// The context keeps at most `MAX_TURNS` messages and `MAX_CONTEXT_CHARS`
/// characters of text, and it begins with a user message whenever it is not
/// empty.
pub proof fn context_is_bounded(m: Seq<Message>)
    ensures
        0 <= context_start(m) <= m.len(),
        m.len() - context_start(m) <= MAX_TURNS,
        text_chars(m, context_start(m), m.len() as int) <= MAX_CONTEXT_CHARS,
        context_start(m) < m.len() ==> m[context_start(m)].role@ == "user"@,
{
    lemma_window_start(m, m.len() as int, 0);
    let w = window_start(m, m.len() as int, 0);
    lemma_first_user(m, w);
    lemma_text_chars_suffix(m, w, context_start(m));
}

/// Dropping messages from the front of a range never adds characters.
pub proof fn lemma_text_chars_suffix(m: Seq<Message>, a: int, b: int)
    requires
        0 <= a <= b <= m.len(),
    ensures
        text_chars(m, b, m.len() as int) <= text_chars(m, a, m.len() as int),
    decreases b - a,
{
    if a < b {
        lemma_text_chars_front(m, a, m.len() as int);
        lemma_text_chars_suffix(m, a + 1, b);
    }
}

/// The latest message is always sent when it is the user's and fits the
/// character budget on its own.
pub proof fn latest_prompt_is_kept(m: Seq<Message>)
    requires
        m.len() > 0,
        m.last().role@ == "user"@,
        m.last().content@.len() <= MAX_CONTEXT_CHARS,
    ensures
        context_start(m) <= m.len() - 1,
{
    let n = m.len() as int;
    assert(window_start(m, n, 0) == window_start(m, n - 1, m[n - 1].content@.len() as int));
    lemma_text_chars_front(m, n - 1, n);
    lemma_window_start(m, n - 1, m[n - 1].content@.len() as int);
    let w = window_start(m, n - 1, m[n - 1].content@.len() as int);
    lemma_first_user(m, w);
}

// ---------------------------------------------------------------------------
// Provider replies
// ---------------------------------------------------------------------------

/// The message shown when a provider fails without saying why.
pub const DEFAULT_FAILURE: &'static str = "The provider could not finish this response.";

/// The member `key` of an optional value.
pub open spec fn lookup(v: Option<Json>, key: Seq<char>) -> Option<Json> {
    match v {
        Some(j) => j.field(key),
        None => None,
    }
}

/// What the JSON pointer token `0` reaches in an optional value: element 0
/// of an array, the member named `"0"` of an object, nothing otherwise.
pub open spec fn token_zero(v: Option<Json>) -> Option<Json> {
    match v {
        Some(Json::Object(_)) => lookup(v, "0"@),
        Some(j) => j.item(0),
        None => None,
    }
}

/// The first `n` characters of `s`, or all of it.
pub open spec fn take_chars(s: Seq<char>, n: int) -> Seq<char> {
    if s.len() <= n {
        s
    } else {
        s.take(n)
    }
}

/// The reply reports a failure: it has an `error` member, or a `success`
/// member other than `true`.
pub open spec fn reports_failure(v: Json) -> bool {
    ||| v.field("error"@) is Some
    ||| v.field("success"@) matches Some(flag) && flag != Json::Bool(true)
}

/// The message of a failed reply: `error.message` if the reply has one, else
/// `message`, used only when it is a string, and cut to 400 characters.
pub open spec fn failure_text(v: Json) -> Seq<char> {
    let found = match lookup(v.field("error"@), "message"@) {
        Some(j) => Some(j),
        None => v.field("message"@),
    };
    let msg = match str_value(found) {
        Some(t) => t,
        None => DEFAULT_FAILURE@,
    };
    take_chars(msg, 400)
}

/// The useful part of a successful reply: `data` when `success` is `true`,
/// the whole reply otherwise. `None` stands for a missing `data`.
pub open spec fn reply_payload(v: Json) -> Option<Json> {
    if v.field("success"@) == Some(Json::Bool(true)) {
        v.field("data"@)
    } else {
        Some(v)
    }
}

/// What `unwrap_response` answers.
pub open spec fn unwrapped(v: Json) -> Result<Option<Json>, Seq<char>> {
    if reports_failure(v) {
        Err(failure_text(v))
    } else {
        Ok(reply_payload(v))
    }
}

/// The first `n` characters of `s`.
fn prefix_chars(s: &str, n: usize) -> (out: String)
    ensures
        out@ == take_chars(s@, n as int),
{
    let chars = text::chars_of(s);
    let end = if chars.len() <= n {
        chars.len()
    } else {
        n
    };
    let out = text::string_of_range(&chars, 0, end);
    assert(chars@.len() <= n ==> chars@.subrange(0, end as int) =~= chars@);
    out
}

/// Separates a provider's failure from its payload.
pub fn unwrap_response(value: &Json) -> (r: Result<Option<&Json>, String>)
    ensures
        match r {
            Ok(p) => unwrapped(*value) == Ok::<Option<Json>, Seq<char>>(deref_opt(p)),
            Err(e) => unwrapped(*value) == Err::<Option<Json>, Seq<char>>(e@),
        },
{
    let success = value.get("success");
    let failed_flag = match success {
        Some(Json::Bool(b)) => !*b,
        Some(_) => true,
        None => false,
    };
    let error = value.get("error");
    if error.is_some() || failed_flag {
        let found = match error {
            Some(e) => match e.get("message") {
                Some(m) => Some(m),
                None => value.get("message"),
            },
            None => value.get("message"),
        };
        let msg = match found {
            Some(m) => match m.as_str() {
                Some(t) => t,
                None => DEFAULT_FAILURE,
            },
            None => DEFAULT_FAILURE,
        };
        return Err(prefix_chars(msg, 400));
    }
    match success {
        Some(Json::Bool(true)) => Ok(value.get("data")),
        _ => Ok(Some(value)),
    }
}

/// The text at the JSON pointer `/choices/0/<part>/content` of the payload.
pub open spec fn choice_content(payload: Option<Json>, part: Seq<char>) -> Option<Seq<char>> {
    str_value(lookup(lookup(token_zero(lookup(payload, "choices"@)), part), "content"@))
}

fn choice_content_of<'a>(payload: Option<&'a Json>, part: &str) -> (r: Option<&'a str>)
    ensures
        match r {
            Some(t) => choice_content(deref_opt(payload), part@) == Some(t@),
            None => choice_content(deref_opt(payload), part@) is None,
        },
{
    let p = match payload {
        Some(p) => p,
        None => return None,
    };
    let choices = match p.get("choices") {
        Some(c) => c,
        None => return None,
    };
    let zero = match choices {
        Json::Object(_) => choices.get("0"),
        _ => choices.at(0),
    };
    let first = match zero {
        Some(f) => f,
        None => return None,
    };
    let inner = match first.get(part) {
        Some(d) => d,
        None => return None,
    };
    match inner.get("content") {
        Some(c) => c.as_str(),
        None => None,
    }
}

/// Optional text read as characters.
pub open spec fn opt_view(o: Option<String>) -> Option<Seq<char>> {
    match o {
        Some(s) => Some(s@),
        None => None,
    }
}

/// What one streamed chunk carries: the text of its delta, if any.
pub open spec fn event_of(v: Json) -> Result<Option<Seq<char>>, Seq<char>> {
    match unwrapped(v) {
        Err(e) => Err(e),
        Ok(p) => Ok(choice_content(p, "delta"@)),
    }
}

/// The text a streamed chunk adds, or the provider's failure.
pub fn event_delta(value: &Json) -> (r: Result<Option<String>, String>)
    ensures
        match r {
            Ok(t) => event_of(*value) == Ok::<Option<Seq<char>>, Seq<char>>(opt_view(t)),
            Err(e) => event_of(*value) == Err::<Option<Seq<char>>, Seq<char>>(e@),
        },
{
    let payload = unwrap_response(value)?;
    match choice_content_of(payload, "delta") {
        Some(t) => Ok(Some(text::owned(t))),
        None => Ok(None),
    }
}

pub open spec fn msg_invalid_event() -> Seq<char> {
    "Provider returned an invalid stream event."@
}

/// What one `data:` payload of the stream means.
pub open spec fn parsed_event(data: Seq<char>) -> Result<Option<Seq<char>>, Seq<char>> {
    match json::json_parse(data) {
        Err(_) => Err(msg_invalid_event()),
        Ok(v) => event_of(v),
    }
}

/// Reads one stream event: its text, nothing, or the provider's failure.
pub fn parse_event(data: &str) -> (r: Result<Option<String>, String>)
    ensures
        match r {
            Ok(t) => parsed_event(data@) == Ok::<Option<Seq<char>>, Seq<char>>(opt_view(t)),
            Err(e) => parsed_event(data@) == Err::<Option<Seq<char>>, Seq<char>>(e@),
        },
{
    match json::parse(data) {
        Err(_) => Err(text::owned("Provider returned an invalid stream event.")),
        Ok(v) => event_delta(&v),
    }
}

/// What a whole (non-streamed) JSON reply yields: its non-empty message text.
pub open spec fn reply_of(v: Json) -> Result<Seq<char>, Seq<char>> {
    match unwrapped(v) {
        Err(e) => Err(e),
        Ok(p) => match choice_content(p, "message"@) {
            Some(t) => if t.len() > 0 {
                Ok(t)
            } else {
                Err("Model returned no text."@)
            },
            None => Err("Model returned no text."@),
        },
    }
}

/// The text of a whole JSON reply.
pub fn reply_text(value: &Json) -> (r: Result<String, String>)
    ensures
        result_view(r) == reply_of(*value),
{
    let payload = unwrap_response(value)?;
    match choice_content_of(payload, "message") {
        Some(t) => {
            if text::chars_of(t).len() > 0 {
                Ok(text::owned(t))
            } else {
                Err(text::owned("Model returned no text."))
            }
        },
        None => Err(text::owned("Model returned no text.")),
    }
}

/// The message for a reply with a failing HTTP status: the provider's own
/// failure message when its body says one, else the status code.
pub open spec fn status_failure(body: Option<Json>, status: u16) -> Seq<char> {
    match body {
        Some(v) if reports_failure(v) => failure_text(v),
        _ => "Provider returned HTTP "@ + text::decimal(status as nat)
            + ". Check connection settings and quota."@,
    }
}

/// The message for a reply whose HTTP status is not a success; `body` is
/// the reply parsed as JSON, if it parsed.
pub fn status_message(body: &Option<Json>, status: u16) -> (r: String)
    ensures
        r@ == status_failure(*body, status),
{
    if let Some(v) = body {
        if let Err(e) = unwrap_response(v) {
            return e;
        }
    }
    let mut out = text::owned("Provider returned HTTP ");
    let code = text::decimal_string(status as u64);
    text::push_str(&mut out, code.as_str());
    text::push_str(&mut out, ". Check connection settings and quota.");
    out
}

// ---------------------------------------------------------------------------
// Streaming
// ---------------------------------------------------------------------------

/// What to do with one line of a server-sent event stream.
#[derive(Debug)]
pub enum StreamStep {
    /// Not a data line, or a chunk without text.
    Skip,
    /// The `[DONE]` marker.
    Done,
    /// Text to append to the reply.
    Delta(String),
    /// The stream failed with this message.
    Fail(String),
}

/// `StreamStep` with its text read as characters.
pub enum StepView {
    Skip,
    Done,
    Delta(Seq<char>),
    Fail(Seq<char>),
}

pub open spec fn step_view(s: StreamStep) -> StepView {
    match s {
        StreamStep::Skip => StepView::Skip,
        StreamStep::Done => StepView::Done,
        StreamStep::Delta(t) => StepView::Delta(t@),
        StreamStep::Fail(e) => StepView::Fail(e@),
    }
}

/// The payload of a `data:` line, trimmed.
pub open spec fn data_of(line: Seq<char>) -> Option<Seq<char>> {
    if has_prefix(line, "data:"@) {
        Some(trimmed(line.subrange(5, line.len() as int)))
    } else {
        None
    }
}

/// The meaning of one stream line.
pub open spec fn line_step(line: Seq<char>) -> StepView {
    match data_of(line) {
        None => StepView::Skip,
        Some(d) => if d == "[DONE]"@ {
            StepView::Done
        } else {
            match parsed_event(d) {
                Err(e) => StepView::Fail(e),
                Ok(None) => StepView::Skip,
                Ok(Some(t)) => StepView::Delta(t),
            }
        },
    }
}

/// A stream line made of `data:` and a payload means what the trimmed
/// payload says, whether or not spaces follow the colon: `[DONE]` ends the
/// stream, and a JSON chunk without `error` or `success` members whose
/// `choices[0].delta.content` is the string `t` adds `t` to the reply. A
/// line that does not start with `data:` carries nothing.
pub proof fn data_lines_carry_their_payload(p: Seq<char>, line: Seq<char>, v: Json, t: Seq<char>)
    ensures
        trimmed(p) == "[DONE]"@ ==> line_step("data:"@ + p) == StepView::Done,
        ({
            &&& trimmed(p) != "[DONE]"@
            &&& json::json_parse(trimmed(p)) == Ok::<Json, Seq<char>>(v)
            &&& v.field("error"@) is None
            &&& v.field("success"@) is None
            &&& v.field("choices"@) matches Some(Json::Array(items))
            &&& items@.len() > 0
            &&& items@[0].field("delta"@) matches Some(d)
            &&& d.field("content"@) matches Some(Json::Str(s))
            &&& s@ == t
        }) ==> line_step("data:"@ + p) == StepView::Delta(t),
        !has_prefix(line, "data:"@) ==> line_step(line) == StepView::Skip,
{
    reveal_strlit("data:");
    let l = "data:"@ + p;
    assert(l.subrange(0, 5) =~= "data:"@);
    assert(l.subrange(5, l.len() as int) =~= p);
    assert(data_of(l) == Some(trimmed(p)));
}

/// Interprets one line of the event stream.
pub fn stream_line(line: &str) -> (r: StreamStep)
    ensures
        step_view(r) == line_step(line@),
{
    let chars = text::chars_of(line);
    let prefix = text::chars_of("data:");
    proof {
        reveal_strlit("data:");
    }
    if !text::starts_with(&chars, &prefix) {
        return StreamStep::Skip;
    }
    let rest = text::string_of_range(&chars, 5, chars.len());
    let data = text::trim(rest.as_str());
    if text::same(data.as_str(), "[DONE]") {
        return StreamStep::Done;
    }
    match parse_event(data.as_str()) {
        Err(e) => StreamStep::Fail(e),
        Ok(None) => StreamStep::Skip,
        Ok(Some(t)) => StreamStep::Delta(t),
    }
}

/// What the stream has shown so far.
#[derive(Debug)]
pub struct StreamState {
    /// Some non-empty text arrived.
    pub received: bool,
    /// The `[DONE]` marker arrived.
    pub complete: bool,
}

pub open spec fn msg_cut_short() -> Seq<char> {
    "The provider closed the stream early or does not support SSE chat completions."@
}

pub open spec fn msg_no_text() -> Seq<char> {
    "The model returned no text. Check model compatibility."@
}

impl StreamState {
    /// Nothing seen yet.
    pub fn new() -> (s: StreamState)
        ensures
            !s.received && !s.complete,
    {
        StreamState { received: false, complete: false }
    }

    /// Takes one step into account.
    pub fn record(&mut self, step: &StreamStep)
        ensures
            final(self).complete == (old(self).complete || *step is Done),
            final(self).received == (old(self).received || (*step matches StreamStep::Delta(t)
                && t@.len() > 0)),
    {
        match step {
            StreamStep::Done => {
                self.complete = true;
            },
            StreamStep::Delta(t) => {
                if text::chars_of(t.as_str()).len() > 0 {
                    self.received = true;
                }
            },
            _ => {},
        }
    }

    /// How the stream ended once it closed: it must have finished with
    /// `[DONE]` and carried some text.
    pub fn outcome(&self) -> (r: Result<(), String>)
        ensures
            r is Ok <==> (self.complete && self.received),
            r matches Err(e) ==> e@ == if !self.complete {
                msg_cut_short()
            } else {
                msg_no_text()
            },
    {
        if !self.complete {
            return Err(
                text::owned(
                    "The provider closed the stream early or does not support SSE chat completions.",
                ),
            );
        }
        if !self.received {
            return Err(text::owned("The model returned no text. Check model compatibility."));
        }
        Ok(())
    }
}

/// Whether a reply's `Content-Type` marks a whole JSON document rather than
/// an event stream.
pub fn is_json_reply(content_type: &str) -> (r: bool)
    ensures
        r == text::contains(content_type@, "application/json"@),
{
    let c = text::chars_of(content_type);
    let p = text::chars_of("application/json");
    text::contains_chars(&c, &p)
}

// ---------------------------------------------------------------------------
// Model lists
// ---------------------------------------------------------------------------

/// Strings read as character sequences.
pub open spec fn strings_view(v: Seq<String>) -> Seq<Seq<char>> {
    v.map_values(|s: String| s@)
}

/// The id a model-list entry names: its `id`, else its `key`.
pub open spec fn entry_id(m: Json) -> Option<Seq<char>> {
    match str_value(m.field("id"@)) {
        Some(t) => Some(t),
        None => str_value(m.field("key"@)),
    }
}

/// The ids of the entries that name one, in order.
pub open spec fn entry_ids(items: Seq<Json>) -> Seq<Seq<char>>
    decreases items.len(),
{
    if items.len() == 0 {
        Seq::empty()
    } else {
        let rest = entry_ids(items.drop_last());
        match entry_id(items.last()) {
            Some(t) => rest.push(t),
            None => rest,
        }
    }
}

pub open spec fn msg_invalid_list() -> Seq<char> {
    "Invalid model list."@
}

/// What a gateway's `/models` reply lists: the ids under `data`.
pub open spec fn listed_models(v: Json) -> Result<Seq<Seq<char>>, Seq<char>> {
    match unwrapped(v) {
        Err(e) => Err(e),
        Ok(p) => match lookup(p, "data"@) {
            Some(Json::Array(items)) => Ok(entry_ids(items@)),
            _ => Err(msg_invalid_list()),
        },
    }
}

/// A `Result` of a string list read as character sequences.
pub open spec fn list_view(r: Result<Vec<String>, String>) -> Result<Seq<Seq<char>>, Seq<char>> {
    match r {
        Ok(v) => Ok(strings_view(v@)),
        Err(e) => Err(e@),
    }
}

/// The model ids in a gateway's `/models` reply.
pub fn model_ids(value: &Json) -> (r: Result<Vec<String>, String>)
    ensures
        list_view(r) == listed_models(*value),
{
    let payload = unwrap_response(value)?;
    let items = match payload {
        Some(p) => match p.get("data") {
            Some(d) => match d.as_array() {
                Some(items) => items,
                None => return Err(text::owned("Invalid model list.")),
            },
            None => return Err(text::owned("Invalid model list.")),
        },
        None => return Err(text::owned("Invalid model list.")),
    };
    let mut out: Vec<String> = Vec::new();
    let mut i: usize = 0;
    while i < items.len()
        invariant
            i <= items@.len(),
            strings_view(out@) == entry_ids(items@.take(i as int)),
        decreases items.len() - i,
    {
        let m = &items[i];
        let id = match m.get("id") {
            Some(j) => j.as_str(),
            None => None,
        };
        let id = match id {
            Some(t) => Some(t),
            None => match m.get("key") {
                Some(j) => j.as_str(),
                None => None,
            },
        };
        assert(items@.take(i + 1).drop_last() =~= items@.take(i as int));
        assert(items@.take(i + 1).last() == items@[i as int]);
        if let Some(t) = id {
            out.push(text::owned(t));
            assert(strings_view(out@) =~= entry_ids(items@.take(i as int)).push(t@));
        }
        i += 1;
    }
    assert(items@.take(items@.len() as int) =~= items@);
    Ok(out)
}

/// The guest catalog's ids: entry `key`s that carry the `aile-free/` prefix.
pub open spec fn free_ids(items: Seq<Json>) -> Seq<Seq<char>>
    decreases items.len(),
{
    if items.len() == 0 {
        Seq::empty()
    } else {
        let rest = free_ids(items.drop_last());
        match str_value(items.last().field("key"@)) {
            Some(t) => if has_prefix(t, FREE_PREFIX@) {
                rest.push(t)
            } else {
                rest
            },
            None => rest,
        }
    }
}

/// What the guest catalog lists: the free model ids under `data`.
pub open spec fn listed_free_models(v: Json) -> Result<Seq<Seq<char>>, Seq<char>> {
    match v.field("data"@) {
        Some(Json::Array(items)) => Ok(free_ids(items@)),
        _ => Err("Invalid model catalog."@),
    }
}

/// The model ids in the AILE guest catalog.
pub fn free_model_ids(value: &Json) -> (r: Result<Vec<String>, String>)
    ensures
        list_view(r) == listed_free_models(*value),
{
    let items = match value.get("data") {
        Some(d) => match d.as_array() {
            Some(items) => items,
            None => return Err(text::owned("Invalid model catalog.")),
        },
        None => return Err(text::owned("Invalid model catalog.")),
    };
    let mut out: Vec<String> = Vec::new();
    let mut i: usize = 0;
    while i < items.len()
        invariant
            i <= items@.len(),
            strings_view(out@) == free_ids(items@.take(i as int)),
        decreases items.len() - i,
    {
        let m = &items[i];
        assert(items@.take(i + 1).drop_last() =~= items@.take(i as int));
        assert(items@.take(i + 1).last() == items@[i as int]);
        if let Some(k) = m.get("key") {
            if let Some(t) = k.as_str() {
                if text::str_starts_with(t, FREE_PREFIX) {
                    out.push(text::owned(t));
                    assert(strings_view(out@) =~= free_ids(items@.take(i as int)).push(t@));
                }
            }
        }
        i += 1;
    }
    assert(items@.take(items@.len() as int) =~= items@);
    Ok(out)
}

/// The `/models` URL under a gateway base.
pub fn models_url(base: &str) -> (r: String)
    ensures
        r@ == endpoint_base(base@) + "/models"@,
{
    let b = base_url(base);
    let mut out = text::string_of(&b);
    text::push_str(&mut out, "/models");
    out
}

/// The bearer token to send: the trimmed key, unless it is empty.
pub fn bearer_token(key: &str) -> (r: Option<String>)
    ensures
        match r {
            Some(t) => trimmed(key@).len() > 0 && t@ == trimmed(key@),
            None => trimmed(key@).len() == 0,
        },
{
    let t = text::trim(key);
    if text::chars_of(t.as_str()).len() == 0 {
        None
    } else {
        Some(t)
    }
}

/// The message for a model list that could not be fetched, by HTTP status.
pub fn list_failure(status: Option<u16>) -> (r: String)
    ensures
        r@ == match status {
            Some(s) if s == 401 || s == 403 => "The gateway rejected the API key."@,
            _ => "Cannot load the model list from this gateway."@,
        },
{
    match status {
        Some(s) if s == 401 || s == 403 => text::owned("The gateway rejected the API key."),
        _ => text::owned("Cannot load the model list from this gateway."),
    }
}

// ---------------------------------------------------------------------------
// AILE guest session
// ---------------------------------------------------------------------------

/// The cookie name that carries the guest session.
pub const GUEST_COOKIE: &'static str = "aile_private_guest=";

/// `s` up to its first `';'` (`s.split(';').next()`).
pub open spec fn before_semicolon(s: Seq<char>) -> Seq<char> {
    s.take(text::find_char(s, ';', 0))
}

/// The guest cookie among `Set-Cookie` values `h[i..]`, or `stored`.
pub open spec fn guest_cookie_from(h: Seq<Seq<char>>, stored: Seq<char>, i: int) -> Seq<char>
    decreases h.len() - i,
{
    if 0 <= i < h.len() {
        if has_prefix(before_semicolon(h[i]), GUEST_COOKIE@) {
            before_semicolon(h[i])
        } else {
            guest_cookie_from(h, stored, i + 1)
        }
    } else {
        stored
    }
}

/// The session cookie to keep: the first `aile_private_guest=` pair among
/// the `Set-Cookie` values, or the one already stored.
pub fn guest_cookie(set_cookies: &Vec<String>, stored: String) -> (r: String)
    ensures
        r@ == guest_cookie_from(strings_view(set_cookies@), stored@, 0),
{
    let mut i: usize = 0;
    while i < set_cookies.len()
        invariant
            i <= set_cookies@.len(),
            guest_cookie_from(strings_view(set_cookies@), stored@, i as int) == guest_cookie_from(
                strings_view(set_cookies@),
                stored@,
                0,
            ),
        decreases set_cookies.len() - i,
    {
        let chars = text::chars_of(set_cookies[i].as_str());
        let end = text::index_of_char(&chars, ';', 0);
        let pair = text::string_of_range(&chars, 0, end);
        assert(chars@.subrange(0, end as int) =~= chars@.take(end as int));
        if text::str_starts_with(pair.as_str(), GUEST_COOKIE) {
            return pair;
        }
        i += 1;
    }
    stored
}

pub open spec fn msg_no_allowance() -> Seq<char> {
    "AILE returned no guest allowance."@
}

pub open spec fn msg_no_session() -> Seq<char> {
    "AILE did not issue a guest session."@
}

pub open spec fn msg_used_up() -> Seq<char> {
    "Your AILE guest allowance is used up. Sign in at chat.aile.sh to continue there; native account sign-in is not implemented yet. No paid fallback was used."@
}

/// What a guest session reply allows: its `remaining` count, provided the
/// count is there and a cookie was issued.
pub open spec fn session_check(reply: Json, cookie: Seq<char>) -> Result<u64, Seq<char>> {
    match reply.field("remaining"@) {
        Some(Json::Number(t)) => match json::number_u64(t@) {
            Some(n) => if cookie.len() == 0 {
                Err(msg_no_session())
            } else {
                Ok(n)
            },
            None => Err(msg_no_allowance()),
        },
        _ => Err(msg_no_allowance()),
    }
}

/// Checks a guest session reply before the cookie is saved.
pub fn check_guest_session(reply: &Json, cookie: &str) -> (r: Result<u64, String>)
    ensures
        match r {
            Ok(n) => session_check(*reply, cookie@) == Ok::<u64, Seq<char>>(n),
            Err(e) => session_check(*reply, cookie@) == Err::<u64, Seq<char>>(e@),
        },
{
    let remaining = match reply.get("remaining") {
        Some(v) => v.as_u64(),
        None => None,
    };
    let n = match remaining {
        Some(n) => n,
        None => return Err(text::owned("AILE returned no guest allowance.")),
    };
    if text::chars_of(cookie).len() == 0 {
        return Err(text::owned("AILE did not issue a guest session."));
    }
    Ok(n)
}

/// Refuses a used-up guest allowance; the allowance is checked after the
/// cookie has been saved.
pub fn guest_allowance(remaining: u64) -> (r: Result<u64, String>)
    ensures
        remaining > 0 ==> r == Ok::<u64, String>(remaining),
        remaining == 0 ==> (r matches Err(e) && e@ == msg_used_up()),
{
    if remaining == 0 {
        return Err(
            text::owned(
                "Your AILE guest allowance is used up. Sign in at chat.aile.sh to continue there; native account sign-in is not implemented yet. No paid fallback was used.",
            ),
        );
    }
    Ok(remaining)
}

} // verus!
