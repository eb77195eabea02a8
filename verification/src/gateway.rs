//! Gateway presets: the OpenAI-compatible services the settings offer.

use crate::backend::AILE;
use crate::text;
use vstd::prelude::*;

verus! {

broadcast use vstd::string::group_string_axioms;

/// A gateway preset.
#[derive(Clone, Copy, Debug)]
pub struct Gateway {
    pub name: &'static str,
    pub base: &'static str,
    pub needs_key: bool,
    pub blurb: &'static str,
}

/// Number of presets.
pub const GATEWAY_COUNT: usize = 6;

/// The name of preset `i`.
pub open spec fn preset_name(i: int) -> Seq<char> {
    if i == 0 {
        "AILE Free"@
    } else if i == 1 {
        "AILE"@
    } else if i == 2 {
        "OpenAI"@
    } else if i == 3 {
        "OpenRouter"@
    } else if i == 4 {
        "Ollama"@
    } else {
        "Custom"@
    }
}

/// The one-line description of preset `i`.
pub open spec fn preset_blurb(i: int) -> Seq<char> {
    if i == 0 {
        "Guest access to the AILE catalog. No key, a few replies per session."@
    } else if i == 1 {
        "Your AILE account with an API key. Full catalog and quota."@
    } else if i == 2 {
        "OpenAI directly. Needs an OpenAI API key."@
    } else if i == 3 {
        "Hundreds of models behind one key."@
    } else if i == 4 {
        "Local models on this machine. Works offline."@
    } else {
        "Any OpenAI-compatible server. Paste the base URL."@
    }
}

/// Preset `i` in full.
pub open spec fn is_preset(g: Gateway, i: int) -> bool {
    &&& g.name@ == preset_name(i)
    &&& g.base@ == if i <= 1 {
        AILE@
    } else if i == 2 {
        "https://api.openai.com/v1"@
    } else if i == 3 {
        "https://openrouter.ai/api/v1"@
    } else if i == 4 {
        "http://localhost:11434/v1"@
    } else {
        ""@
    }
    &&& g.needs_key == (1 <= i <= 3)
    &&& g.blurb@ == preset_blurb(i)
}

/// The preset picked by name: the first preset of that name, else the first
/// preset (AILE Free).
pub open spec fn preset_index(name: Seq<char>) -> int {
    if name == preset_name(0) {
        0
    } else if name == preset_name(1) {
        1
    } else if name == preset_name(2) {
        2
    } else if name == preset_name(3) {
        3
    } else if name == preset_name(4) {
        4
    } else if name == preset_name(5) {
        5
    } else {
        0
    }
}

/// Preset `i`, `i < GATEWAY_COUNT`.
pub fn preset(i: usize) -> (g: Gateway)
    requires
        i < GATEWAY_COUNT,
    ensures
        is_preset(g, i as int),
{
    if i == 0 {
        Gateway {
            name: "AILE Free",
            base: AILE,
            needs_key: false,
            blurb: "Guest access to the AILE catalog. No key, a few replies per session.",
        }
    } else if i == 1 {
        Gateway {
            name: "AILE",
            base: AILE,
            needs_key: true,
            blurb: "Your AILE account with an API key. Full catalog and quota.",
        }
    } else if i == 2 {
        Gateway {
            name: "OpenAI",
            base: "https://api.openai.com/v1",
            needs_key: true,
            blurb: "OpenAI directly. Needs an OpenAI API key.",
        }
    } else if i == 3 {
        Gateway {
            name: "OpenRouter",
            base: "https://openrouter.ai/api/v1",
            needs_key: true,
            blurb: "Hundreds of models behind one key.",
        }
    } else if i == 4 {
        Gateway {
            name: "Ollama",
            base: "http://localhost:11434/v1",
            needs_key: false,
            blurb: "Local models on this machine. Works offline.",
        }
    } else {
        Gateway {
            name: "Custom",
            base: "",
            needs_key: false,
            blurb: "Any OpenAI-compatible server. Paste the base URL.",
        }
    }
}

/// Every preset, in the order the settings list them.
pub fn gateways() -> (r: Vec<Gateway>)
    ensures
        r@.len() == GATEWAY_COUNT,
        forall|i: int| 0 <= i < GATEWAY_COUNT ==> is_preset(#[trigger] r@[i], i),
{
    let mut r: Vec<Gateway> = Vec::new();
    let mut i: usize = 0;
    while i < GATEWAY_COUNT
        invariant
            i <= GATEWAY_COUNT,
            r@.len() == i,
            forall|k: int| 0 <= k < i ==> is_preset(#[trigger] r@[k], k),
        decreases GATEWAY_COUNT - i,
    {
        r.push(preset(i));
        i += 1;
    }
    r
}

/// The preset called `name`, or the first preset for an unknown name.
pub fn gateway(name: &str) -> (g: Gateway)
    ensures
        is_preset(g, preset_index(name@)),
{
    let mut i: usize = 0;
    while i < GATEWAY_COUNT
        invariant
            i <= GATEWAY_COUNT,
            forall|k: int| 0 <= k < i ==> preset_name(k) != name@,
        decreases GATEWAY_COUNT - i,
    {
        let g = preset(i);
        if text::same(g.name, name) {
            return g;
        }
        i += 1;
    }
    preset(0)
}

/// Picking a preset by its own name gives that preset back.
pub proof fn preset_names_round_trip(i: int)
    requires
        0 <= i < GATEWAY_COUNT,
    ensures
        preset_index(preset_name(i)) == i,
{
    reveal_strlit("AILE Free");
    reveal_strlit("AILE");
    reveal_strlit("OpenAI");
    reveal_strlit("OpenRouter");
    reveal_strlit("Ollama");
    reveal_strlit("Custom");
    assert(preset_name(0).len() == 9 && preset_name(1).len() == 4 && preset_name(2).len() == 6
        && preset_name(3).len() == 10 && preset_name(4).len() == 6 && preset_name(5).len() == 6);
    assert(preset_name(2)[1] != preset_name(4)[1] && preset_name(2)[1] != preset_name(5)[1]
        && preset_name(4)[1] != preset_name(5)[1]);
}

/// Every preset but Custom points at an OpenAI-compatible API root: an
/// HTTPS URL ending in `/v1` (Ollama's on this machine, over HTTP), so its
/// chat endpoint is that root followed by `/chat/completions`. Custom has no
/// base; the user gives one.
pub proof fn presets_are_api_roots(g: Gateway, i: int)
    requires
        0 <= i < GATEWAY_COUNT,
        is_preset(g, i),
    ensures
        i < 5 ==> text::has_suffix(g.base@, "/v1"@),
        i < 5 && i != 4 ==> text::has_prefix(g.base@, "https://"@),
        i == 4 ==> text::has_prefix(g.base@, "http://localhost:"@),
        i == 5 ==> g.base@.len() == 0,
{
    reveal_strlit("/v1");
    reveal_strlit("https://");
    reveal_strlit("http://localhost:");
    reveal_strlit("https://api.aile.sh/v1");
    reveal_strlit("https://api.openai.com/v1");
    reveal_strlit("https://openrouter.ai/api/v1");
    reveal_strlit("http://localhost:11434/v1");
    reveal_strlit("");
    let b = g.base@;
    if i < 5 {
        assert(b.subrange(b.len() - 3, b.len() as int) =~= "/v1"@);
        if i != 4 {
            assert(b.subrange(0, 8) =~= "https://"@);
        } else {
            assert(b.subrange(0, 17) =~= "http://localhost:"@);
        }
    }
}

} // verus!
