use letronna::backdrop::{box_blur, frost, shrink};
use letronna::gateway::{gateway, gateways};
use letronna::install::{registry_key, registry_units, wide};
use letronna::json::{parse, render, Json};
use letronna::plugins::{
    choices_after_toggle, initially_enabled, pick_phrase, update_for, AppEvent, HelloState,
    PresenceMode, PresenceState, Update,
};
use letronna::text::{decimal_string, trim};
use letronna::tools::search_query;

#[test]
fn gateways_by_name() {
    assert_eq!(gateways().len(), 6);
    assert_eq!(gateway("OpenRouter").base, "https://openrouter.ai/api/v1");
    assert!(gateway("OpenAI").needs_key);
    assert_eq!(gateway("nope").name, "AILE Free");
    assert_eq!(gateway("Custom").base, "");
}

#[test]
fn presence_modes_round_trip() {
    for m in [PresenceMode::Detailed, PresenceMode::Minimal, PresenceMode::Off] {
        assert_eq!(PresenceMode::from_str(m.as_str()), m);
    }
    assert_eq!(PresenceMode::from_str("weird"), PresenceMode::Detailed);
}

#[test]
fn presence_activity() {
    let mut s = PresenceState::new(PresenceMode::Detailed, 3);
    assert_eq!(s.phrase, "Making things…");
    let a = s.activity().unwrap();
    assert_eq!(a.details, "New session");
    assert_eq!(a.state, "No model selected");
    assert_eq!(a.small_text, "Idle");
    assert!(!a.timed);
    s.apply(update_for(&AppEvent::ChatStarted { model: "m".into(), title: "t".into() }), 0);
    let a = s.activity().unwrap();
    assert_eq!((a.details.as_str(), a.state.as_str(), a.small_image.as_str()), ("t", "m", "generating"));
    assert!(a.timed);
    s.apply(Update::Mode(PresenceMode::Minimal), 13);
    let a = s.activity().unwrap();
    assert_eq!(a.details, "In Letronna");
    assert_eq!(a.state, "Tinkering away…");
    assert_eq!(a.small_text, "Working");
    s.apply(update_for(&AppEvent::PresenceMode(PresenceMode::Off)), 0);
    assert!(s.activity().is_none());
    assert_eq!(pick_phrase(11), "Lost in a prompt…");
    assert!(matches!(update_for(&AppEvent::ChatIdle), Update::Idle));
}

#[test]
fn plugin_choices() {
    let saved = vec![("hello".to_string(), false), ("hello".to_string(), true)];
    assert!(initially_enabled(&saved, "hello"));
    assert!(initially_enabled(&saved, "other"));
    assert!(!initially_enabled(&vec![("x".to_string(), false)], "x"));
    let plugins = vec![("a".to_string(), true), ("b".to_string(), true)];
    let out = choices_after_toggle(vec![("c".to_string(), false)], &plugins, "b", false);
    assert_eq!(
        out,
        vec![("c".to_string(), false), ("a".to_string(), true), ("b".to_string(), false)]
    );
    let mut h = HelloState::new();
    let line = h.handle(&AppEvent::ChatStarted { model: "m".into(), title: String::new() });
    assert_eq!(line.as_deref(), Some("[hello] reply #1 with m"));
    assert!(h.handle(&AppEvent::ChatIdle).is_none());
    h.log = false;
    assert!(h.handle(&AppEvent::ChatStarted { model: "m".into(), title: String::new() }).is_none());
    assert_eq!(h.seen(), "Seen 2 replies this session.");
}

#[test]
fn backdrop_averages() {
    let (w, h, px) = shrink(20, 10, &vec![100u8; 20 * 10 * 4]);
    assert_eq!((w, h, px.len()), (2, 1, 8));
    assert!(px.iter().all(|&b| b == 100));
    let mut img = vec![0u8; 3 * 1 * 4];
    img[4] = 30;
    let (w, h, px) = shrink(3, 1, &img);
    assert_eq!((w, h), (1, 1));
    assert_eq!(px[0], 10);
    let blurred = box_blur(3, 1, &img);
    assert_eq!(blurred.len(), 12);
    assert_eq!(blurred[0], 10);
    assert_eq!(blurred[4], 10);
    let (w, h, px) = shrink(0, 0, &[]);
    assert_eq!((w, h, px), (1, 1, vec![0, 0, 0, 0]));
    let longer = box_blur(1, 1, &[9, 9, 9, 9, 7]);
    assert_eq!(longer, vec![9, 9, 9, 9, 0]);
}

#[test]
fn wide_strings() {
    assert_eq!(wide("a"), vec![97, 0]);
    assert_eq!(wide("😀"), vec![0xD83D, 0xDE00, 0]);
    assert_eq!(*registry_key().last().unwrap(), 0);
    assert_eq!(registry_key().len(), "Software\\Microsoft\\Windows\\CurrentVersion\\Uninstall\\Letronna".len() + 1);
    assert_eq!(registry_units(10), 4);
    assert_eq!(registry_units(1), 0);
}

#[test]
fn json_and_text() {
    let v = parse(r#"{"b":[1,2.5,"x",null,true]}"#).unwrap();
    assert_eq!(render(&v), r#"{"b":[1,2.5,"x",null,true]}"#);
    assert_eq!(v.get("b").unwrap().at(0).unwrap().as_u64(), Some(1));
    assert_eq!(v.get("b").unwrap().at(1).unwrap().as_u64(), None);
    assert!(matches!(v.get("b").unwrap().at(3), Some(Json::Null)));
    assert!(parse("{").is_err());
    assert_eq!(trim("\t x \u{3000}"), "x");
    assert_eq!(search_query(&parse(r#"{"query":"ÀB"}"#).unwrap()).unwrap(), "àb");
    assert_eq!(decimal_string(0), "0");
    assert_eq!(decimal_string(18446744073709551615), "18446744073709551615");
}

#[test]
fn frosted_backdrop() {
    let mut img = vec![0u8; 30 * 10 * 4];
    for x in 0..10 {
        for y in 0..10 {
            for c in 0..4 {
                img[(y * 30 + x) * 4 + c] = 200;
            }
        }
    }
    let (w, h, px) = frost(30, 10, &img);
    assert_eq!((w, h, px.len()), (3, 1, 12));
    let (sw, sh, small) = shrink(30, 10, &img);
    let once = box_blur(sw, sh, &small);
    let twice = box_blur(sw, sh, &once);
    assert_eq!(px, box_blur(sw, sh, &twice));
    assert_eq!(&small[..4], &[200, 200, 200, 200]);
    assert_eq!(px[0], 66);
}
