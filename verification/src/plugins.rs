//! Plugins react to `AppEvent`s. This module holds what they decide: the
//! saved on/off choices, the Discord presence a state shows, and the example
//! plugin's reply counter. Threads, channels and the Discord IPC client are
//! the caller's.

use crate::text;
use vstd::prelude::*;

verus! {

broadcast use vstd::string::group_string_axioms;

/// Stable id of the Discord presence plugin.
pub const DISCORD: &'static str = "discord-presence";

/// How much of the activity to share on Discord.
#[derive(Clone, Copy, Debug, PartialEq, Eq, Structural)]
pub enum PresenceMode {
    /// Show the conversation and model.
    Detailed,
    /// Show only that Letronna is open, with a vague status.
    Minimal,
    /// No presence at all.
    Off,
}

/// The saved form of a mode.
pub open spec fn mode_name(m: PresenceMode) -> Seq<char> {
    match m {
        PresenceMode::Detailed => "detailed"@,
        PresenceMode::Minimal => "minimal"@,
        PresenceMode::Off => "off"@,
    }
}

/// The mode a saved string names; anything unknown is `Detailed`.
pub open spec fn mode_named(s: Seq<char>) -> PresenceMode {
    if s == "minimal"@ {
        PresenceMode::Minimal
    } else if s == "off"@ {
        PresenceMode::Off
    } else {
        PresenceMode::Detailed
    }
}

impl PresenceMode {
    /// Reads a saved mode.
    pub fn from_str(s: &str) -> (m: PresenceMode)
        ensures
            m == mode_named(s@),
    {
        if text::same(s, "minimal") {
            PresenceMode::Minimal
        } else if text::same(s, "off") {
            PresenceMode::Off
        } else {
            PresenceMode::Detailed
        }
    }

    /// What the privacy page's menu shows for the mode.
    pub fn share_label(self) -> (r: &'static str)
        ensures
            r@ == if self == PresenceMode::Minimal {
                "Hide activity details"@
            } else {
                "Show what I am doing"@
            },
    {
        if self == PresenceMode::Minimal {
            "Hide activity details"
        } else {
            "Show what I am doing"
        }
    }

    /// The form a mode is saved in.
    pub fn as_str(self) -> (r: &'static str)
        ensures
            r@ == mode_name(self),
    {
        match self {
            PresenceMode::Detailed => "detailed",
            PresenceMode::Minimal => "minimal",
            PresenceMode::Off => "off",
        }
    }
}

/// A mode survives being saved and read back.
pub proof fn mode_round_trip(m: PresenceMode)
    ensures
        mode_named(mode_name(m)) == m,
{
    reveal_strlit("detailed");
    reveal_strlit("minimal");
    reveal_strlit("off");
    assert("minimal"@.len() != "off"@.len());
    assert("detailed"@.len() != "off"@.len());
    assert("detailed"@.len() != "minimal"@.len());
}

/// Things the app announces that a plugin may care about.
#[derive(Clone, Debug)]
pub enum AppEvent {
    /// A reply is being generated in the given session.
    ChatStarted { model: String, title: String },
    /// The current reply finished (or failed).
    ChatIdle,
    /// The user changed the Discord presence mode.
    PresenceMode(PresenceMode),
}

/// A snapshot of a plugin for the Settings list.
#[derive(Clone, Copy, Debug)]
pub struct PluginInfo {
    pub id: &'static str,
    pub name: &'static str,
    pub description: &'static str,
    pub enabled: bool,
    pub builtin: bool,
}

// ---------------------------------------------------------------------------
// Saved on/off choices
// ---------------------------------------------------------------------------

/// Saved choices as a map; a later entry for the same id wins, as repeated
/// `HashMap::insert`s do.
pub open spec fn choice_map(v: Seq<(String, bool)>) -> Map<Seq<char>, bool>
    decreases v.len(),
{
    if v.len() == 0 {
        Map::empty()
    } else {
        choice_map(v.drop_last()).insert(v.last().0@, v.last().1)
    }
}

/// Whether a plugin starts enabled: its saved choice, on by default.
pub fn initially_enabled(saved: &Vec<(String, bool)>, id: &str) -> (r: bool)
    ensures
        r == if choice_map(saved@).contains_key(id@) {
            choice_map(saved@)[id@]
        } else {
            true
        },
{
    let mut i = saved.len();
    assert(saved@.take(saved@.len() as int) =~= saved@);
    while i > 0
        invariant
            i <= saved@.len(),
            forall|k: int| i <= k < saved@.len() ==> saved@[k].0@ != id@,
            choice_map(saved@.take(i as int)).contains_key(id@) == choice_map(
                saved@,
            ).contains_key(id@),
            choice_map(saved@.take(i as int)).contains_key(id@) ==> choice_map(saved@.take(
                i as int,
            ))[id@] == choice_map(saved@)[id@],
        decreases i,
    {
        let entry = &saved[i - 1];
        assert(saved@.take(i as int).drop_last() =~= saved@.take(i - 1));
        assert(saved@.take(i as int).last() == saved@[i - 1]);
        if text::same(entry.0.as_str(), id) {
            return entry.1;
        }
        i -= 1;
    }
    assert(saved@.take(0) =~= Seq::<(String, bool)>::empty());
    assert(saved@.take(saved@.len() as int) =~= saved@);
    true
}

/// Installed plugins as `(id, enabled)` after one is toggled.
pub open spec fn toggled(plugins: Seq<(String, bool)>, id: Seq<char>, on: bool) -> Seq<(Seq<char>, bool)>
    decreases plugins.len(),
{
    if plugins.len() == 0 {
        Seq::empty()
    } else {
        let p = plugins.last();
        toggled(plugins.drop_last(), id, on).push(
            (p.0@, if p.0@ == id {
                on
            } else {
                p.1
            }),
        )
    }
}

/// `m` after inserting each pair of `v` in order.
pub open spec fn insert_all(m: Map<Seq<char>, bool>, v: Seq<(Seq<char>, bool)>) -> Map<Seq<char>, bool>
    decreases v.len(),
{
    if v.len() == 0 {
        m
    } else {
        insert_all(m, v.drop_last()).insert(v.last().0, v.last().1)
    }
}

proof fn lemma_toggled(plugins: Seq<(String, bool)>, id: Seq<char>, on: bool)
    ensures
        toggled(plugins, id, on).len() == plugins.len(),
        forall|k: int|
            0 <= k < plugins.len() ==> (#[trigger] toggled(plugins, id, on)[k]).0 == plugins[k].0@
                && toggled(plugins, id, on)[k].1 == if plugins[k].0@ == id {
                on
            } else {
                plugins[k].1
            },
    decreases plugins.len(),
{
    if plugins.len() > 0 {
        let rest = plugins.drop_last();
        lemma_toggled(rest, id, on);
        assert forall|k: int| 0 <= k < plugins.len() - 1 implies plugins[k] == rest[k] by {}
    }
}

proof fn lemma_insert_all_key(m: Map<Seq<char>, bool>, v: Seq<(Seq<char>, bool)>, id: Seq<char>, on: bool)
    requires
        forall|k: int| 0 <= k < v.len() && (#[trigger] v[k]).0 == id ==> v[k].1 == on,
        exists|k: int| 0 <= k < v.len() && (#[trigger] v[k]).0 == id,
    ensures
        insert_all(m, v).contains_key(id),
        insert_all(m, v)[id] == on,
    decreases v.len(),
{
    if v.last().0 != id {
        let rest = v.drop_last();
        let w = choose|k: int| 0 <= k < v.len() && (#[trigger] v[k]).0 == id;
        assert(rest[w] == v[w]);
        assert forall|k: int| 0 <= k < rest.len() && (#[trigger] rest[k]).0 == id implies rest[k].1
            == on by {
            assert(rest[k] == v[k]);
        }
        lemma_insert_all_key(m, rest, id, on);
    }
}

/// Once a plugin has been switched on or off, the choices saved for the
/// next start give it that state, which is what `initially_enabled` reads
/// back.
pub proof fn saved_toggle_is_read_back(
    saved: Seq<(String, bool)>,
    plugins: Seq<(String, bool)>,
    id: Seq<char>,
    on: bool,
)
    requires
        exists|k: int| 0 <= k < plugins.len() && (#[trigger] plugins[k]).0@ == id,
    ensures
        insert_all(choice_map(saved), toggled(plugins, id, on)).contains_key(id),
        insert_all(choice_map(saved), toggled(plugins, id, on))[id] == on,
{
    lemma_toggled(plugins, id, on);
    let t = toggled(plugins, id, on);
    let w = choose|k: int| 0 <= k < plugins.len() && (#[trigger] plugins[k]).0@ == id;
    assert(t[w].0 == id);
    lemma_insert_all_key(choice_map(saved), t, id, on);
}

/// The choices to save after the plugin `id` is switched on or off: the
/// saved ones, then every installed plugin's state, with the new state for
/// `id`.
pub fn choices_after_toggle(
    saved: Vec<(String, bool)>,
    plugins: &Vec<(String, bool)>,
    id: &str,
    on: bool,
) -> (r: Vec<(String, bool)>)
    ensures
        choice_map(r@) == insert_all(choice_map(saved@), toggled(plugins@, id@, on)),
{
    let mut out = saved;
    let ghost base = choice_map(out@);
    let mut i: usize = 0;
    while i < plugins.len()
        invariant
            i <= plugins@.len(),
            choice_map(out@) == insert_all(base, toggled(plugins@.take(i as int), id@, on)),
        decreases plugins.len() - i,
    {
        let p = &plugins[i];
        let state = if text::same(p.0.as_str(), id) {
            on
        } else {
            p.1
        };
        let ghost before = out@;
        let key = p.0.clone();
        assert(key@ == plugins@[i as int].0@);
        out.push((key, state));
        assert(out@.drop_last() =~= before);
        assert(choice_map(out@) == choice_map(before).insert(plugins@[i as int].0@, state));
        assert(plugins@.take(i + 1).drop_last() =~= plugins@.take(i as int));
        assert(plugins@.take(i + 1).last() == plugins@[i as int]);
        assert(toggled(plugins@.take(i + 1), id@, on) == toggled(plugins@.take(i as int), id@, on).push(
            (plugins@[i as int].0@, state),
        ));
        let ghost t = toggled(plugins@.take(i as int), id@, on);
        assert(t.push((plugins@[i as int].0@, state)).drop_last() =~= t);
        i += 1;
    }
    assert(plugins@.take(plugins@.len() as int) =~= plugins@);
    out
}

// ---------------------------------------------------------------------------
// Discord presence
// ---------------------------------------------------------------------------

/// Discord application id, unless `LETRONNA_DISCORD_APP_ID` overrides it.
pub const APP_ID: &'static str = "1550477901332484147";

/// The site linked from the presence.
pub const SITE: &'static str = "https://letronna.gadl.us";

/// Number of status phrases.
pub const PHRASE_COUNT: u32 = 12;

/// Status phrase `i` (taken modulo the count).
pub open spec fn phrase(i: int) -> Seq<char> {
    let k = i % PHRASE_COUNT as int;
    if k == 0 {
        "Cooking something…"@
    } else if k == 1 {
        "Tinkering away…"@
    } else if k == 2 {
        "Deep in thought…"@
    } else if k == 3 {
        "Making things…"@
    } else if k == 4 {
        "In the zone…"@
    } else if k == 5 {
        "Poking at ideas…"@
    } else if k == 6 {
        "Heads down…"@
    } else if k == 7 {
        "Somewhere in a chat…"@
    } else if k == 8 {
        "Doing something…"@
    } else if k == 9 {
        "Chasing a thought…"@
    } else if k == 10 {
        "Building quietly…"@
    } else {
        "Lost in a prompt…"@
    }
}

/// The phrase shown while activity is hidden, picked by `seed` (the caller
/// uses the clock's sub-second nanoseconds).
pub fn pick_phrase(seed: u32) -> (r: &'static str)
    ensures
        r@ == phrase(seed as int),
{
    let k = seed % PHRASE_COUNT;
    if k == 0 {
        "Cooking something…"
    } else if k == 1 {
        "Tinkering away…"
    } else if k == 2 {
        "Deep in thought…"
    } else if k == 3 {
        "Making things…"
    } else if k == 4 {
        "In the zone…"
    } else if k == 5 {
        "Poking at ideas…"
    } else if k == 6 {
        "Heads down…"
    } else if k == 7 {
        "Somewhere in a chat…"
    } else if k == 8 {
        "Doing something…"
    } else if k == 9 {
        "Chasing a thought…"
    } else if k == 10 {
        "Building quietly…"
    } else {
        "Lost in a prompt…"
    }
}

/// Messages to the presence worker.
#[derive(Debug)]
pub enum Update {
    Idle,
    Active { model: String, title: String },
    Mode(PresenceMode),
}

/// The message the presence plugin sends its worker for an app event.
pub fn update_for(event: &AppEvent) -> (u: Update)
    ensures
        match (*event, u) {
            (AppEvent::ChatStarted { model, title }, Update::Active { model: m, title: t }) => m
                == model && t == title,
            (AppEvent::ChatIdle, Update::Idle) => true,
            (AppEvent::PresenceMode(a), Update::Mode(b)) => a == b,
            _ => false,
        },
{
    match event {
        AppEvent::ChatStarted { model, title } => Update::Active {
            model: model.clone(),
            title: title.clone(),
        },
        AppEvent::ChatIdle => Update::Idle,
        AppEvent::PresenceMode(mode) => Update::Mode(*mode),
    }
}

/// What the presence worker knows.
#[derive(Debug)]
pub struct PresenceState {
    pub mode: PresenceMode,
    pub busy: bool,
    pub model: String,
    pub title: String,
    pub phrase: &'static str,
}

/// The activity to show on Discord.
#[derive(Debug)]
pub struct Activity {
    pub details: String,
    pub state: String,
    pub small_image: String,
    pub small_text: String,
    /// Whether to show the elapsed time since start.
    pub timed: bool,
}

impl PresenceState {
    /// Idle, in `mode`, with the phrase picked by `seed`.
    pub fn new(mode: PresenceMode, seed: u32) -> (s: PresenceState)
        ensures
            s.mode == mode,
            !s.busy,
            s.model@.len() == 0,
            s.title@.len() == 0,
            s.phrase@ == phrase(seed as int),
    {
        PresenceState {
            mode,
            busy: false,
            model: String::new(),
            title: String::new(),
            phrase: pick_phrase(seed),
        }
    }

    /// Takes in one message; a new mode or going idle picks a new phrase.
    pub fn apply(&mut self, update: Update, seed: u32)
        ensures
            match update {
                Update::Mode(m) => final(self).mode == m && final(self).phrase@ == phrase(
                    seed as int,
                ) && final(self).busy == old(self).busy && final(self).model == old(self).model
                    && final(self).title == old(self).title,
                Update::Active { model, title } => final(self).busy && final(self).model == model
                    && final(self).title == title && final(self).mode == old(self).mode
                    && final(self).phrase == old(self).phrase,
                Update::Idle => !final(self).busy && final(self).phrase@ == phrase(seed as int)
                    && final(self).mode == old(self).mode && final(self).model == old(self).model
                    && final(self).title == old(self).title,
            },
    {
        match update {
            Update::Mode(m) => {
                self.mode = m;
                self.phrase = pick_phrase(seed);
            },
            Update::Active { model, title } => {
                self.busy = true;
                self.model = model;
                self.title = title;
            },
            Update::Idle => {
                self.busy = false;
                self.phrase = pick_phrase(seed);
            },
        }
    }

    /// The activity to show, or `None` when presence is off (the caller then
    /// clears any activity it showed).
    pub fn activity(&self) -> (r: Option<Activity>)
        ensures
            match r {
                None => self.mode == PresenceMode::Off,
                Some(a) => self.mode != PresenceMode::Off && a.timed == self.busy && if self.mode
                    == PresenceMode::Minimal {
                    &&& a.details@ == "In Letronna"@
                    &&& a.state@ == self.phrase@
                    &&& a.small_image@ == if self.busy {
                        "generating"@
                    } else {
                        "idle"@
                    }
                    &&& a.small_text@ == if self.busy {
                        "Working"@
                    } else {
                        "Open"@
                    }
                } else {
                    &&& a.details@ == if self.title@.len() == 0 {
                        "New session"@
                    } else {
                        self.title@
                    }
                    &&& a.state@ == if self.model@.len() == 0 {
                        "No model selected"@
                    } else {
                        self.model@
                    }
                    &&& a.small_image@ == if self.busy {
                        "generating"@
                    } else {
                        "idle"@
                    }
                    &&& a.small_text@ == if self.busy {
                        "Generating"@
                    } else {
                        "Idle"@
                    }
                },
            },
    {
        if self.mode == PresenceMode::Off {
            return None;
        }
        let small_image = text::owned(
            if self.busy {
                "generating"
            } else {
                "idle"
            },
        );
        if self.mode == PresenceMode::Minimal {
            return Some(
                Activity {
                    details: text::owned("In Letronna"),
                    state: text::owned(self.phrase),
                    small_image,
                    small_text: text::owned(
                        if self.busy {
                            "Working"
                        } else {
                            "Open"
                        },
                    ),
                    timed: self.busy,
                },
            );
        }
        let details = if text::chars_of(self.title.as_str()).len() == 0 {
            text::owned("New session")
        } else {
            self.title.clone()
        };
        let state = if text::chars_of(self.model.as_str()).len() == 0 {
            text::owned("No model selected")
        } else {
            self.model.clone()
        };
        Some(
            Activity {
                details,
                state,
                small_image,
                small_text: text::owned(
                    if self.busy {
                        "Generating"
                    } else {
                        "Idle"
                    },
                ),
                timed: self.busy,
            },
        )
    }
}

// ---------------------------------------------------------------------------
// The example plugin
// ---------------------------------------------------------------------------

/// The example plugin's state: replies seen, and whether to log them.
#[derive(Debug)]
pub struct HelloState {
    pub enabled: bool,
    pub log: bool,
    pub replies: u64,
}

impl HelloState {
    /// Enabled, logging, nothing seen.
    pub fn new() -> (s: HelloState)
        ensures
            s.enabled && s.log && s.replies == 0,
    {
        HelloState { enabled: true, log: true, replies: 0 }
    }

    /// Counts a started reply; answers the line to log, if logging is on.
    pub fn handle(&mut self, event: &AppEvent) -> (line: Option<String>)
        requires
            old(self).replies < u64::MAX,
        ensures
            final(self).enabled == old(self).enabled,
            final(self).log == old(self).log,
            match *event {
                AppEvent::ChatStarted { model, .. } => {
                    &&& final(self).replies == old(self).replies + 1
                    &&& match line {
                        Some(l) => old(self).log && l@ == "[hello] reply #"@ + text::decimal(
                            final(self).replies as nat,
                        ) + " with "@ + model@,
                        None => !old(self).log,
                    }
                },
                _ => final(self).replies == old(self).replies && line is None,
            },
    {
        match event {
            AppEvent::ChatStarted { model, .. } => {
                self.replies = self.replies + 1;
                if self.log {
                    let mut l = text::owned("[hello] reply #");
                    let n = text::decimal_string(self.replies);
                    text::push_str(&mut l, n.as_str());
                    text::push_str(&mut l, " with ");
                    text::push_str(&mut l, model.as_str());
                    Some(l)
                } else {
                    None
                }
            },
            _ => None,
        }
    }

    /// The line the plugin's settings show.
    pub fn seen(&self) -> (r: String)
        ensures
            r@ == "Seen "@ + text::decimal(self.replies as nat) + " replies this session."@,
    {
        let mut l = text::owned("Seen ");
        let n = text::decimal_string(self.replies);
        text::push_str(&mut l, n.as_str());
        text::push_str(&mut l, " replies this session.");
        l
    }
}

} // verus!
