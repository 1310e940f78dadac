use tasknav::chord::{Key, KeyChord, Mods};

#[test]
fn test_parse_simple_key() {
    let chord = KeyChord::parse("j").unwrap();
    assert_eq!(chord.key, Key::Char('j'));
    assert_eq!(chord.mods, Mods::none());
}

#[test]
fn test_parse_ctrl_key() {
    let chord = KeyChord::parse("ctrl+f").unwrap();
    assert_eq!(chord.key, Key::Char('f'));
    assert!(chord.mods.ctrl);
}

#[test]
fn test_parse_platform_key() {
    let chord = KeyChord::parse("cmd+r").unwrap();
    assert_eq!(chord.key, Key::Char('r'));
    assert!(chord.mods.platform);
}

#[test]
fn test_parse_special_key() {
    let chord = KeyChord::parse("enter").unwrap();
    assert_eq!(chord.key, Key::Enter);
}

#[test]
fn test_to_string() {
    let chord = KeyChord::new(Key::Char('f'), Mods::ctrl());
    assert_eq!(chord.display_string(), "Ctrl+f");
}

#[test]
fn test_display_round_trip_named_keys() {
    let keys = [
        Key::Enter,
        Key::Escape,
        Key::Backspace,
        Key::Delete,
        Key::Tab,
        Key::Space,
        Key::ArrowUp,
        Key::ArrowDown,
        Key::ArrowLeft,
        Key::ArrowRight,
        Key::PageUp,
        Key::PageDown,
        Key::Home,
        Key::End,
        Key::F1,
        Key::F5,
        Key::F9,
        Key::F10,
        Key::F11,
        Key::F12,
        Key::Char('a'),
        Key::Char('j'),
        Key::Char('z'),
        Key::Char('5'),
    ];
    let mods = [
        Mods::none(),
        Mods::ctrl(),
        Mods::alt(),
        Mods::shift(),
        Mods::platform(),
        Mods {
            ctrl: true,
            alt: true,
            shift: true,
            platform: true,
        },
    ];
    for key in keys {
        for m in mods {
            let chord = KeyChord::new(key, m);
            let printed = chord.display_string();
            assert_eq!(KeyChord::parse(&printed), Some(chord), "failed on {}", printed);
        }
    }
}

#[test]
fn test_alias_equivalence() {
    assert_eq!(Key::from_str("return"), Key::from_str("enter"));
    assert_eq!(Key::from_str("arrowup"), Key::from_str("up"));
    assert_eq!(Key::from_str("esc"), Key::from_str("escape"));
    assert_eq!(Key::from_str("del"), Key::from_str("delete"));
    assert_eq!(Key::from_str("arrowdown"), Key::from_str("down"));
    assert_eq!(Key::from_str("arrowleft"), Key::from_str("left"));
    assert_eq!(Key::from_str("arrowright"), Key::from_str("right"));
}

#[test]
fn test_from_str_cases() {
    assert_eq!(Key::from_str("ENTER"), Some(Key::Enter));
    assert_eq!(Key::from_str("J"), Some(Key::Char('j')));
    assert_eq!(Key::from_str("7"), Some(Key::Char('7')));
    assert_eq!(Key::from_str("f5"), Some(Key::F5));
    assert_eq!(Key::from_str("bogus"), None);
    assert_eq!(Key::from_str(""), None);
}

#[test]
fn test_parse_rejects_bad_modifiers() {
    assert_eq!(KeyChord::parse("meta+j"), None);
    assert_eq!(KeyChord::parse("ctrl+"), None);
    assert_eq!(KeyChord::parse(""), None);
    assert_eq!(KeyChord::parse("+j"), None);
}

#[test]
fn test_parse_modifier_spellings() {
    let a = KeyChord::parse("super+k").unwrap();
    let b = KeyChord::parse("platform+k").unwrap();
    let c = KeyChord::parse("cmd+k").unwrap();
    assert_eq!(a, b);
    assert_eq!(b, c);
    assert!(a.mods.platform);
    let d = KeyChord::parse("CTRL+SHIFT+x").unwrap();
    assert!(d.mods.ctrl && d.mods.shift);
    assert_eq!(d.key, Key::Char('x'));
}

#[test]
fn test_from_live_event() {
    assert_eq!(KeyChord::key_from_gpui(" "), Some(Key::Space));
    assert_eq!(Key::from_str(" "), Some(Key::Char(' ')));
    assert_eq!(KeyChord::key_from_gpui("up"), Some(Key::ArrowUp));
    assert_eq!(KeyChord::key_from_gpui("arrowup"), Some(Key::ArrowUp));
    let chord = KeyChord::from_live_event("escape", Mods::none()).unwrap();
    assert_eq!(chord.key, Key::Escape);
    let chord = KeyChord::from_live_event("F", Mods::ctrl()).unwrap();
    assert_eq!(chord.key, Key::Char('f'));
    assert!(chord.mods.ctrl);
    assert_eq!(KeyChord::from_live_event("widget", Mods::none()), None);
}

#[test]
fn test_display_forms() {
    assert_eq!(
        KeyChord::new(Key::Enter, Mods::none()).display_string(),
        "Enter"
    );
    assert_eq!(
        KeyChord::new(Key::Escape, Mods::none()).display_string(),
        "Esc"
    );
    let all = Mods {
        ctrl: true,
        alt: true,
        shift: true,
        platform: true,
    };
    assert_eq!(
        KeyChord::new(Key::Char('x'), all).display_string(),
        "Cmd+Ctrl+Alt+Shift+x"
    );
}
