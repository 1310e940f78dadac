//! The key-chord model: symbolic keys, modifier flags, and chords.
//!
//! A chord is the atomic unit of key-binding lookup.  Chords can be parsed
//! from human-authored strings such as `"ctrl+f"` and from live platform key
//! events, and printed back in a canonical `Mods+Key` form.

use vstd::prelude::*;
use crate::text::{chars_of, chars_eq_str, chars_to_string, lower_chars, lower_seq};

verus! {

/// A closed set of symbolic keys: a printable character or a named control key.
#[derive(Debug, Clone, Copy, PartialEq, Eq, Hash, Structural)]
pub enum Key {
    Char(char),
    Enter,
    Escape,
    Backspace,
    Delete,
    Tab,
    Space,
    ArrowUp,
    ArrowDown,
    ArrowLeft,
    ArrowRight,
    PageUp,
    PageDown,
    Home,
    End,
    F1,
    F2,
    F3,
    F4,
    F5,
    F6,
    F7,
    F8,
    F9,
    F10,
    F11,
    F12,
}

/// The named key that a lowercase name or alias denotes, if any.
pub open spec fn named_key_of(s: Seq<char>) -> Option<Key> {
    if s == "enter"@ || s == "return"@ {
        Some(Key::Enter)
    } else if s == "esc"@ || s == "escape"@ {
        Some(Key::Escape)
    } else if s == "backspace"@ {
        Some(Key::Backspace)
    } else if s == "delete"@ || s == "del"@ {
        Some(Key::Delete)
    } else if s == "tab"@ {
        Some(Key::Tab)
    } else if s == "space"@ {
        Some(Key::Space)
    } else if s == "up"@ || s == "arrowup"@ {
        Some(Key::ArrowUp)
    } else if s == "down"@ || s == "arrowdown"@ {
        Some(Key::ArrowDown)
    } else if s == "left"@ || s == "arrowleft"@ {
        Some(Key::ArrowLeft)
    } else if s == "right"@ || s == "arrowright"@ {
        Some(Key::ArrowRight)
    } else if s == "pageup"@ {
        Some(Key::PageUp)
    } else if s == "pagedown"@ {
        Some(Key::PageDown)
    } else if s == "home"@ {
        Some(Key::Home)
    } else if s == "end"@ {
        Some(Key::End)
    } else if s == "f1"@ {
        Some(Key::F1)
    } else if s == "f2"@ {
        Some(Key::F2)
    } else if s == "f3"@ {
        Some(Key::F3)
    } else if s == "f4"@ {
        Some(Key::F4)
    } else if s == "f5"@ {
        Some(Key::F5)
    } else if s == "f6"@ {
        Some(Key::F6)
    } else if s == "f7"@ {
        Some(Key::F7)
    } else if s == "f8"@ {
        Some(Key::F8)
    } else if s == "f9"@ {
        Some(Key::F9)
    } else if s == "f10"@ {
        Some(Key::F10)
    } else if s == "f11"@ {
        Some(Key::F11)
    } else if s == "f12"@ {
        Some(Key::F12)
    } else {
        None
    }
}

/// What parsing an already-lowercased key name yields: a named key, else a
/// single ASCII character, else nothing.
pub open spec fn key_of_lower(l: Seq<char>) -> Option<Key> {
    if named_key_of(l) is Some {
        named_key_of(l)
    } else if l.len() == 1 && (l[0] as u32) < 128 {
        Some(Key::Char(l[0]))
    } else {
        None
    }
}

/// What `Key::from_str` yields on a string with the given characters.
pub open spec fn key_from_str_spec(s: Seq<char>) -> Option<Key> {
    key_of_lower(lower_seq(s))
}

/// What key a live platform event's key string denotes.  Identical to
/// [`key_from_str_spec`] except that a bare `" "` also names the space key.
pub open spec fn live_key_of(s: Seq<char>) -> Option<Key> {
    let l = lower_seq(s);
    if l == " "@ {
        Some(Key::Space)
    } else {
        key_of_lower(l)
    }
}

/// The canonical display name of a key.
pub open spec fn key_display_seq(k: Key) -> Seq<char> {
    match k {
        Key::Char(c) => seq![c],
        Key::Enter => "Enter"@,
        Key::Escape => "Esc"@,
        Key::Backspace => "Backspace"@,
        Key::Delete => "Del"@,
        Key::Tab => "Tab"@,
        Key::Space => "Space"@,
        Key::ArrowUp => "Up"@,
        Key::ArrowDown => "Down"@,
        Key::ArrowLeft => "Left"@,
        Key::ArrowRight => "Right"@,
        Key::PageUp => "PageUp"@,
        Key::PageDown => "PageDown"@,
        Key::Home => "Home"@,
        Key::End => "End"@,
        Key::F1 => "F1"@,
        Key::F2 => "F2"@,
        Key::F3 => "F3"@,
        Key::F4 => "F4"@,
        Key::F5 => "F5"@,
        Key::F6 => "F6"@,
        Key::F7 => "F7"@,
        Key::F8 => "F8"@,
        Key::F9 => "F9"@,
        Key::F10 => "F10"@,
        Key::F11 => "F11"@,
        Key::F12 => "F12"@,
    }
}

impl Key {
    /// Parses a canonical or alias key name, case-insensitively; a single
    /// ASCII character parses as `Key::Char`.
    pub fn from_str(s: &str) -> (r: Option<Key>)
        ensures
            r == key_from_str_spec(s@),
    {
        let lowered = lower_chars(chars_of(s));
        Key::from_lower_chars(&lowered)
    }

    /// Matches an already-lowercased name against the key table.
    fn from_lower_chars(l: &Vec<char>) -> (r: Option<Key>)
        ensures
            r == key_of_lower(l@),
    {
        if chars_eq_str(l, "enter") || chars_eq_str(l, "return") {
            Some(Key::Enter)
        } else if chars_eq_str(l, "esc") || chars_eq_str(l, "escape") {
            Some(Key::Escape)
        } else if chars_eq_str(l, "backspace") {
            Some(Key::Backspace)
        } else if chars_eq_str(l, "delete") || chars_eq_str(l, "del") {
            Some(Key::Delete)
        } else if chars_eq_str(l, "tab") {
            Some(Key::Tab)
        } else if chars_eq_str(l, "space") {
            Some(Key::Space)
        } else if chars_eq_str(l, "up") || chars_eq_str(l, "arrowup") {
            Some(Key::ArrowUp)
        } else if chars_eq_str(l, "down") || chars_eq_str(l, "arrowdown") {
            Some(Key::ArrowDown)
        } else if chars_eq_str(l, "left") || chars_eq_str(l, "arrowleft") {
            Some(Key::ArrowLeft)
        } else if chars_eq_str(l, "right") || chars_eq_str(l, "arrowright") {
            Some(Key::ArrowRight)
        } else if chars_eq_str(l, "pageup") {
            Some(Key::PageUp)
        } else if chars_eq_str(l, "pagedown") {
            Some(Key::PageDown)
        } else if chars_eq_str(l, "home") {
            Some(Key::Home)
        } else if chars_eq_str(l, "end") {
            Some(Key::End)
        } else if chars_eq_str(l, "f1") {
            Some(Key::F1)
        } else if chars_eq_str(l, "f2") {
            Some(Key::F2)
        } else if chars_eq_str(l, "f3") {
            Some(Key::F3)
        } else if chars_eq_str(l, "f4") {
            Some(Key::F4)
        } else if chars_eq_str(l, "f5") {
            Some(Key::F5)
        } else if chars_eq_str(l, "f6") {
            Some(Key::F6)
        } else if chars_eq_str(l, "f7") {
            Some(Key::F7)
        } else if chars_eq_str(l, "f8") {
            Some(Key::F8)
        } else if chars_eq_str(l, "f9") {
            Some(Key::F9)
        } else if chars_eq_str(l, "f10") {
            Some(Key::F10)
        } else if chars_eq_str(l, "f11") {
            Some(Key::F11)
        } else if chars_eq_str(l, "f12") {
            Some(Key::F12)
        } else if l.len() == 1 && (l[0] as u32) < 128 {
            Some(Key::Char(l[0]))
        } else {
            None
        }
    }

    /// Parses a key name given as a character vector.
    fn from_str_chars(v: &Vec<char>) -> (r: Option<Key>)
        ensures
            r == key_of_lower(lower_seq(v@)),
    {
        let lowered = lower_chars(v.clone());
        Key::from_lower_chars(&lowered)
    }

    /// The canonical display name of the key, e.g. `"Enter"` or `"f"`.
    pub fn display_string(&self) -> (r: String)
        ensures
            r@ == key_display_seq(*self),
    {
        match self {
            Key::Char(c) => {
                let v: Vec<char> = vec![*c];
                proof {
                    assert(v@ =~= seq![*c]);
                }
                chars_to_string(&v)
            },
            Key::Enter => String::from_str("Enter"),
            Key::Escape => String::from_str("Esc"),
            Key::Backspace => String::from_str("Backspace"),
            Key::Delete => String::from_str("Del"),
            Key::Tab => String::from_str("Tab"),
            Key::Space => String::from_str("Space"),
            Key::ArrowUp => String::from_str("Up"),
            Key::ArrowDown => String::from_str("Down"),
            Key::ArrowLeft => String::from_str("Left"),
            Key::ArrowRight => String::from_str("Right"),
            Key::PageUp => String::from_str("PageUp"),
            Key::PageDown => String::from_str("PageDown"),
            Key::Home => String::from_str("Home"),
            Key::End => String::from_str("End"),
            Key::F1 => String::from_str("F1"),
            Key::F2 => String::from_str("F2"),
            Key::F3 => String::from_str("F3"),
            Key::F4 => String::from_str("F4"),
            Key::F5 => String::from_str("F5"),
            Key::F6 => String::from_str("F6"),
            Key::F7 => String::from_str("F7"),
            Key::F8 => String::from_str("F8"),
            Key::F9 => String::from_str("F9"),
            Key::F10 => String::from_str("F10"),
            Key::F11 => String::from_str("F11"),
            Key::F12 => String::from_str("F12"),
        }
    }
}

/// Four independent modifier flags.
#[derive(Debug, Clone, Copy, PartialEq, Eq, Hash, Structural)]
pub struct Mods {
    pub ctrl: bool,
    pub alt: bool,
    pub shift: bool,
    pub platform: bool,
}

impl Mods {
    /// No modifier held.
    pub fn none() -> (r: Self)
        ensures
            r == (Mods { ctrl: false, alt: false, shift: false, platform: false }),
    {
        Mods { ctrl: false, alt: false, shift: false, platform: false }
    }

    /// Control alone.
    pub fn ctrl() -> (r: Self)
        ensures
            r == (Mods { ctrl: true, alt: false, shift: false, platform: false }),
    {
        Mods { ctrl: true, alt: false, shift: false, platform: false }
    }

    /// Alt alone.
    pub fn alt() -> (r: Self)
        ensures
            r == (Mods { ctrl: false, alt: true, shift: false, platform: false }),
    {
        Mods { ctrl: false, alt: true, shift: false, platform: false }
    }

    /// Shift alone.
    pub fn shift() -> (r: Self)
        ensures
            r == (Mods { ctrl: false, alt: false, shift: true, platform: false }),
    {
        Mods { ctrl: false, alt: false, shift: true, platform: false }
    }

    /// The OS "super"/"cmd" key alone.
    pub fn platform() -> (r: Self)
        ensures
            r == (Mods { ctrl: false, alt: false, shift: false, platform: true }),
    {
        Mods { ctrl: false, alt: false, shift: false, platform: true }
    }

    /// Whether any flag is set.
    pub fn any(&self) -> (r: bool)
        ensures
            r == has_any_mod(*self),
    {
        self.ctrl || self.alt || self.shift || self.platform
    }
}

impl Default for Mods {
    /// All flags clear.
    fn default() -> (r: Self)
        ensures
            r == (Mods { ctrl: false, alt: false, shift: false, platform: false }),
    {
        Mods { ctrl: false, alt: false, shift: false, platform: false }
    }
}

/// Whether any modifier flag is set.
pub open spec fn has_any_mod(m: Mods) -> bool {
    m.ctrl || m.alt || m.shift || m.platform
}

/// The display tokens of a modifier set, in the fixed order
/// platform, control, alt, shift.
pub open spec fn mods_tokens(m: Mods) -> Seq<Seq<char>> {
    let t0: Seq<Seq<char>> = if m.platform { seq!["Cmd"@] } else { Seq::empty() };
    let t1: Seq<Seq<char>> = if m.ctrl { seq!["Ctrl"@] } else { Seq::empty() };
    let t2: Seq<Seq<char>> = if m.alt { seq!["Alt"@] } else { Seq::empty() };
    let t3: Seq<Seq<char>> = if m.shift { seq!["Shift"@] } else { Seq::empty() };
    t0 + t1 + t2 + t3
}

/// Tokens joined by `'+'`.
pub open spec fn join_plus(ts: Seq<Seq<char>>) -> Seq<char>
    decreases ts.len(),
{
    if ts.len() == 0 {
        Seq::empty()
    } else if ts.len() == 1 {
        ts[0]
    } else {
        ts[0] + seq!['+'] + join_plus(ts.drop_first())
    }
}

/// The display form of a modifier set, e.g. `"Ctrl+Shift"` or `""`.
pub open spec fn mods_display_seq(m: Mods) -> Seq<char> {
    join_plus(mods_tokens(m))
}

/// A key plus a modifier combination: the unit of key-binding lookup.
#[derive(Debug, Clone, Copy, PartialEq, Eq, Hash, Structural)]
pub struct KeyChord {
    pub key: Key,
    pub mods: Mods,
}

/// The display form of a chord: `Mods+Key` if any modifier is set, else the
/// bare key name.
pub open spec fn chord_display_seq(c: KeyChord) -> Seq<char> {
    if has_any_mod(c.mods) {
        mods_display_seq(c.mods) + seq!['+'] + key_display_seq(c.key)
    } else {
        key_display_seq(c.key)
    }
}

impl KeyChord {
    /// Pairs a key with a modifier set.
    pub fn new(key: Key, mods: Mods) -> (r: Self)
        ensures
            r == (KeyChord { key, mods }),
    {
        KeyChord { key, mods }
    }

    /// Builds a chord from a live platform key event: the event's key string
    /// plus the four modifier booleans it reported.
    pub fn from_live_event(key_str: &str, mods: Mods) -> (r: Option<Self>)
        ensures
            r == (match live_key_of(key_str@) {
                Some(k) => Some(KeyChord { key: k, mods }),
                None => None::<KeyChord>,
            }),
    {
        match Self::key_from_gpui(key_str) {
            Some(key) => Some(KeyChord { key, mods }),
            None => None,
        }
    }

    /// Resolves a platform event's key string, tolerating both `"up"` and
    /// `"arrowup"` styles as well as a bare `" "` for the space key.
    pub fn key_from_gpui(key_str: &str) -> (r: Option<Key>)
        ensures
            r == live_key_of(key_str@),
    {
        let lowered = lower_chars(chars_of(key_str));
        if chars_eq_str(&lowered, " ") {
            Some(Key::Space)
        } else {
            Key::from_lower_chars(&lowered)
        }
    }

    /// The canonical display form, e.g. `"Ctrl+f"` or `"Enter"`.
    pub fn display_string(&self) -> (r: String)
        ensures
            r@ == chord_display_seq(*self),
    {
        let key_part = self.key.display_string();
        if self.mods.any() {
            let mut out = mods_display_string(&self.mods);
            out.append("+");
            proof {
                reveal_strlit("+");
                assert("+"@ =~= seq!['+']);
            }
            out.append(key_part.as_str());
            out
        } else {
            key_part
        }
    }
}

/// The display form of a modifier set as a string.
pub fn mods_display_string(m: &Mods) -> (r: String)
    ensures
        r@ == mods_display_seq(*m),
{
    let mut parts: Vec<&str> = Vec::new();
    if m.platform {
        parts.push("Cmd");
    }
    if m.ctrl {
        parts.push("Ctrl");
    }
    if m.alt {
        parts.push("Alt");
    }
    if m.shift {
        parts.push("Shift");
    }
    proof {
        assert(parts@.map_values(|p: &str| p@) =~= mods_tokens(*m));
    }
    join_plus_exec(&parts)
}

/// Joins string tokens with `'+'` separators.
fn join_plus_exec(parts: &Vec<&str>) -> (r: String)
    ensures
        r@ == join_plus(parts@.map_values(|p: &str| p@)),
{
    let ghost toks = parts@.map_values(|p: &str| p@);
    let mut out = String::new();
    if parts.len() == 0 {
        return out;
    }
    out.append(parts[0]);
    let mut i: usize = 1;
    while i < parts.len()
        invariant
            1 <= i <= parts@.len(),
            toks == parts@.map_values(|p: &str| p@),
            toks.len() == parts@.len(),
            out@ == join_plus(toks.take(i as int)),
        decreases parts@.len() - i,
    {
        out.append("+");
        out.append(parts[i]);
        proof {
            reveal_strlit("+");
            assert("+"@ =~= seq!['+']);
            lemma_join_plus_push(toks.take(i as int), toks[i as int]);
            assert(toks.take(i as int).push(toks[i as int]) =~= toks.take(i + 1));
        }
        i = i + 1;
    }
    proof {
        assert(toks.take(toks.len() as int) =~= toks);
    }
    out
}

/// Splitting a character sequence on `'+'`, as `str::split('+')` does: the
/// empty sequence yields one empty token, and every separator starts a new
/// token.
pub open spec fn split_plus(s: Seq<char>) -> Seq<Seq<char>>
    decreases s.len(),
{
    if s.len() == 0 {
        seq![Seq::<char>::empty()]
    } else if s[0] == '+' {
        seq![Seq::<char>::empty()] + split_plus(s.drop_first())
    } else {
        let rest = split_plus(s.drop_first());
        seq![seq![s[0]] + rest[0]] + rest.drop_first()
    }
}

/// A split always yields at least one token.
pub proof fn lemma_split_plus_nonempty(s: Seq<char>)
    ensures
        split_plus(s).len() >= 1,
    decreases s.len(),
{
    if s.len() != 0 {
        lemma_split_plus_nonempty(s.drop_first());
    }
}

/// One modifier token folded into a modifier set; an unrecognized token
/// invalidates the whole parse.
pub open spec fn apply_mod_token(m: Mods, t: Seq<char>) -> Option<Mods> {
    let l = lower_seq(t);
    if l == "ctrl"@ {
        Some(Mods { ctrl: true, ..m })
    } else if l == "alt"@ {
        Some(Mods { alt: true, ..m })
    } else if l == "shift"@ {
        Some(Mods { shift: true, ..m })
    } else if l == "cmd"@ || l == "super"@ || l == "platform"@ {
        Some(Mods { platform: true, ..m })
    } else {
        None
    }
}

/// All modifier tokens folded left-to-right onto a starting modifier set.
pub open spec fn mods_fold(m: Mods, ts: Seq<Seq<char>>) -> Option<Mods>
    decreases ts.len(),
{
    if ts.len() == 0 {
        Some(m)
    } else {
        match apply_mod_token(m, ts[0]) {
            Some(m2) => mods_fold(m2, ts.drop_first()),
            None => None,
        }
    }
}

/// What `KeyChord::parse` yields: every token before the last must be a
/// recognized modifier name, and the last token must parse as a key.
pub open spec fn chord_parse_spec(s: Seq<char>) -> Option<KeyChord> {
    let parts = split_plus(s);
    match mods_fold(Mods { ctrl: false, alt: false, shift: false, platform: false },
        parts.drop_last()) {
        Some(m) => match key_from_str_spec(parts.last()) {
            Some(k) => Some(KeyChord { key: k, mods: m }),
            None => None,
        },
        None => None,
    }
}

impl KeyChord {
    /// Parses a human-authored chord string such as `"ctrl+f"`.  Every token
    /// before the last must be a recognized modifier name (`ctrl`, `alt`,
    /// `shift`, `cmd`/`super`/`platform`); the last must parse as a key.  Any
    /// unrecognized modifier token fails the whole parse.
    pub fn parse(s: &str) -> (r: Option<Self>)
        ensures
            r == chord_parse_spec(s@),
    {
        let chars = chars_of(s);
        let parts = split_plus_exec(&chars);
        let ghost toks = split_plus(s@);
        proof {
            lemma_split_plus_nonempty(s@);
            assert(toks.drop_last().skip(0) =~= toks.drop_last());
        }
        let n = parts.len();
        let mut mods = Mods::none();
        let mut i: usize = 0;
        while i < n - 1
            invariant
                toks == split_plus(s@),
                parts@.len() == n,
                n == toks.len(),
                n >= 1,
                i <= n - 1,
                forall|j: int| 0 <= j < n ==> parts@[j]@ == toks[j],
                mods_fold(Mods { ctrl: false, alt: false, shift: false, platform: false },
                    toks.drop_last()) == mods_fold(mods, toks.drop_last().skip(i as int)),
            decreases n - i,
        {
            let ghost rest = toks.drop_last().skip(i as int);
            proof {
                assert(rest.len() > 0);
                assert(rest[0] == toks[i as int]);
                assert(rest.drop_first() =~= toks.drop_last().skip(i + 1));
            }
            let token = lower_chars(parts[i].clone());
            if chars_eq_str(&token, "ctrl") {
                mods.ctrl = true;
            } else if chars_eq_str(&token, "alt") {
                mods.alt = true;
            } else if chars_eq_str(&token, "shift") {
                mods.shift = true;
            } else if chars_eq_str(&token, "cmd") || chars_eq_str(&token, "super")
                || chars_eq_str(&token, "platform") {
                mods.platform = true;
            } else {
                proof {
                    assert(apply_mod_token(mods, rest[0]) is None);
                    assert(mods_fold(mods, rest) is None);
                }
                return None;
            }
            i = i + 1;
        }
        proof {
            assert(toks.drop_last().skip((n - 1) as int) =~= Seq::<Seq<char>>::empty());
            assert(toks.last() == toks[n - 1]);
        }
        let key = match Key::from_str_chars(&parts[n - 1]) {
            Some(k) => k,
            None => {
                return None;
            },
        };
        Some(KeyChord { key, mods })
    }
}

/// Splits a character vector on `'+'`.
fn split_plus_exec(chars: &Vec<char>) -> (parts: Vec<Vec<char>>)
    ensures
        parts@.len() == split_plus(chars@).len(),
        forall|j: int| 0 <= j < parts@.len() ==> parts@[j]@ == split_plus(chars@)[j],
{
    let ghost full = chars@;
    let ghost result = split_plus(full);
    proof {
        lemma_split_plus_nonempty(full);
        assert(full.skip(0) =~= full);
        assert(Seq::<char>::empty() + result[0] =~= result[0]);
    }
    let mut done: Vec<Vec<char>> = Vec::new();
    let mut cur: Vec<char> = Vec::new();
    let mut i: usize = 0;
    while i < chars.len()
        invariant
            chars@ == full,
            result == split_plus(full),
            i <= full.len(),
            result.len() == done@.len() + split_plus(full.skip(i as int)).len(),
            forall|j: int| 0 <= j < done@.len() ==> result[j] == done@[j]@,
            result[done@.len() as int] == cur@ + split_plus(full.skip(i as int))[0],
            forall|j: int|
                done@.len() < j < result.len() ==> result[j] == split_plus(
                    full.skip(i as int),
                )[j - done@.len()],
        decreases full.len() - i,
    {
        let ghost rest = full.skip(i as int);
        let ghost rest2 = full.skip(i + 1);
        proof {
            lemma_split_plus_nonempty(rest2);
            assert(rest.len() > 0);
            assert(rest[0] == full[i as int]);
            assert(rest.drop_first() =~= rest2);
        }
        let c = chars[i];
        if c == '+' {
            proof {
                assert(split_plus(rest) =~= seq![Seq::<char>::empty()] + split_plus(rest2));
                assert(split_plus(rest)[0] =~= Seq::<char>::empty());
                assert(cur@ + split_plus(rest)[0] =~= cur@);
            }
            done.push(cur);
            cur = Vec::new();
            proof {
                assert(forall|j: int|
                    0 <= j < split_plus(rest2).len() ==> split_plus(rest)[j + 1] == split_plus(
                        rest2,
                    )[j]);
                assert(cur@ + split_plus(rest2)[0] =~= split_plus(rest2)[0]);
            }
        } else {
            proof {
                let r2 = split_plus(rest2);
                assert(split_plus(rest) =~= seq![seq![full[i as int]] + r2[0]] + r2.drop_first());
                assert(cur@ + split_plus(rest)[0] =~= (cur@ + seq![full[i as int]]) + r2[0]);
                assert(cur@.push(full[i as int]) =~= cur@ + seq![full[i as int]]);
                assert(forall|j: int|
                    1 <= j < split_plus(rest).len() ==> split_plus(rest)[j] == r2[j]);
            }
            cur.push(c);
        }
        i = i + 1;
    }
    proof {
        assert(full.skip(full.len() as int) =~= Seq::<char>::empty());
        assert(cur@ + split_plus(full.skip(full.len() as int))[0] =~= cur@);
    }
    done.push(cur);
    done
}

/// A character sequence that contains no `'+'`.
pub open spec fn plus_free(s: Seq<char>) -> bool {
    forall|i: int| 0 <= i < s.len() ==> s[i] != '+'
}

/// Splitting a separator-free sequence yields that sequence as the only token.
proof fn lemma_split_plus_noplus(s: Seq<char>)
    requires
        plus_free(s),
    ensures
        split_plus(s) == seq![s],
    decreases s.len(),
{
    if s.len() == 0 {
        assert(split_plus(s) =~~= seq![s]);
    } else {
        assert(s[0] != '+');
        lemma_split_plus_noplus(s.drop_first());
        assert(seq![s[0]] + s.drop_first() =~= s);
        assert(split_plus(s) =~~= seq![s]);
    }
}

/// Splitting around one separator: the separator-free part before it becomes
/// one token, and the rest splits on its own.
proof fn lemma_split_plus_sep(a: Seq<char>, b: Seq<char>)
    requires
        plus_free(a),
    ensures
        split_plus(a + seq!['+'] + b) == seq![a] + split_plus(b),
    decreases a.len(),
{
    let s = a + seq!['+'] + b;
    if a.len() == 0 {
        assert(s[0] == '+');
        assert(s.drop_first() =~= b);
        assert(a =~= Seq::<char>::empty());
        assert(split_plus(s) =~~= seq![a] + split_plus(b));
    } else {
        assert(s[0] == a[0]);
        assert(s[0] != '+');
        assert(s.drop_first() =~= a.drop_first() + seq!['+'] + b);
        lemma_split_plus_sep(a.drop_first(), b);
        let rest = split_plus(s.drop_first());
        lemma_split_plus_nonempty(b);
        assert(rest == seq![a.drop_first()] + split_plus(b));
        assert(rest[0] == a.drop_first());
        assert(seq![s[0]] + rest[0] =~= a);
        assert(rest.drop_first() =~~= split_plus(b));
        assert(split_plus(s) =~~= seq![a] + split_plus(b));
    }
}

/// Splitting undoes joining, for any nonempty list of separator-free tokens.
proof fn lemma_split_join(ts: Seq<Seq<char>>)
    requires
        ts.len() >= 1,
        forall|j: int| 0 <= j < ts.len() ==> plus_free(#[trigger] ts[j]),
    ensures
        split_plus(join_plus(ts)) == ts,
    decreases ts.len(),
{
    if ts.len() == 1 {
        lemma_split_plus_noplus(ts[0]);
        assert(split_plus(join_plus(ts)) =~~= ts);
    } else {
        lemma_split_join(ts.drop_first());
        lemma_split_plus_sep(ts[0], join_plus(ts.drop_first()));
        assert(split_plus(join_plus(ts)) =~~= seq![ts[0]] + ts.drop_first());
        assert(seq![ts[0]] + ts.drop_first() =~~= ts);
    }
}

/// Appending a token to a nonempty token list appends `'+'` and the token to
/// the joined form.
proof fn lemma_join_plus_push(ts: Seq<Seq<char>>, t: Seq<char>)
    requires
        ts.len() >= 1,
    ensures
        join_plus(ts.push(t)) == join_plus(ts) + seq!['+'] + t,
    decreases ts.len(),
{
    if ts.len() == 1 {
        assert(ts.push(t)[0] == ts[0]);
        assert(ts.push(t).drop_first() =~= seq![t]);
        assert(join_plus(seq![t]) == t);
    } else {
        lemma_join_plus_push(ts.drop_first(), t);
        assert(ts.push(t).drop_first() =~= ts.drop_first().push(t));
        assert(ts.push(t)[0] == ts[0]);
        assert(ts[0] + seq!['+'] + (join_plus(ts.drop_first()) + seq!['+'] + t) =~= (ts[0]
            + seq!['+'] + join_plus(ts.drop_first())) + seq!['+'] + t);
    }
}

/// A chord whose display form parses back to itself: any chord on a named
/// key, or on an ASCII character key other than an uppercase letter or the
/// `'+'` separator itself.
pub open spec fn chord_round_trippable(c: KeyChord) -> bool {
    match c.key {
        Key::Char(ch) => (ch as u32) < 128 && !('A' <= ch && ch <= 'Z') && ch != '+',
        _ => true,
    }
}

/// Folding modifier tokens distributes over concatenation of token lists.
proof fn lemma_mods_fold_concat(m: Mods, a: Seq<Seq<char>>, b: Seq<Seq<char>>)
    ensures
        mods_fold(m, a + b) == (match mods_fold(m, a) {
            Some(m2) => mods_fold(m2, b),
            None => None::<Mods>,
        }),
    decreases a.len(),
{
    if a.len() == 0 {
        assert(a + b =~~= b);
    } else {
        assert((a + b)[0] == a[0]);
        assert((a + b).drop_first() =~~= a.drop_first() + b);
        match apply_mod_token(m, a[0]) {
            Some(m2) => lemma_mods_fold_concat(m2, a.drop_first(), b),
            None => {},
        }
    }
}

/// The display tokens of the four modifier names, lowercased, are exactly the
/// recognized modifier tokens, and none of them contains a separator.
proof fn lemma_mod_token_facts()
    ensures
        forall|m: Mods| apply_mod_token(m, "Cmd"@) == Some(Mods { platform: true, ..m }),
        forall|m: Mods| apply_mod_token(m, "Ctrl"@) == Some(Mods { ctrl: true, ..m }),
        forall|m: Mods| apply_mod_token(m, "Alt"@) == Some(Mods { alt: true, ..m }),
        forall|m: Mods| apply_mod_token(m, "Shift"@) == Some(Mods { shift: true, ..m }),
        plus_free("Cmd"@),
        plus_free("Ctrl"@),
        plus_free("Alt"@),
        plus_free("Shift"@),
{
    reveal_strlit("Cmd");
    reveal_strlit("Ctrl");
    reveal_strlit("Alt");
    reveal_strlit("Shift");
    reveal_strlit("cmd");
    reveal_strlit("ctrl");
    reveal_strlit("alt");
    reveal_strlit("shift");
    reveal_strlit("super");
    reveal_strlit("platform");
    assert(lower_seq("Cmd"@) =~= "cmd"@);
    assert(lower_seq("Ctrl"@) =~= "ctrl"@);
    assert(lower_seq("Alt"@) =~= "alt"@);
    assert(lower_seq("Shift"@) =~= "shift"@);
    assert("cmd"@[0] != "alt"@[0]);
}

/// Folding a single modifier token is one application of that token.
proof fn lemma_mods_fold_single(m: Mods, t: Seq<char>)
    ensures
        mods_fold(m, seq![t]) == (match apply_mod_token(m, t) {
            Some(m2) => Some(m2),
            None => None::<Mods>,
        }),
{
    assert(seq![t][0] == t);
    assert(seq![t].drop_first() =~~= Seq::<Seq<char>>::empty());
    match apply_mod_token(m, t) {
        Some(m2) => {
            assert(mods_fold(m2, Seq::<Seq<char>>::empty()) == Some(m2));
        },
        None => {},
    }
}

/// The modifier display tokens fold back to the modifier set they came from.
proof fn lemma_mods_tokens_facts(m: Mods)
    ensures
        mods_fold(Mods { ctrl: false, alt: false, shift: false, platform: false },
            mods_tokens(m)) == Some(m),
        forall|j: int| 0 <= j < mods_tokens(m).len() ==> plus_free(#[trigger] mods_tokens(m)[j]),
        has_any_mod(m) ==> mods_tokens(m).len() >= 1,
{
    lemma_mod_token_facts();
    let m0 = Mods { ctrl: false, alt: false, shift: false, platform: false };
    let t0: Seq<Seq<char>> = if m.platform { seq!["Cmd"@] } else { Seq::empty() };
    let t1: Seq<Seq<char>> = if m.ctrl { seq!["Ctrl"@] } else { Seq::empty() };
    let t2: Seq<Seq<char>> = if m.alt { seq!["Alt"@] } else { Seq::empty() };
    let t3: Seq<Seq<char>> = if m.shift { seq!["Shift"@] } else { Seq::empty() };
    let m1 = if m.platform { Mods { platform: true, ..m0 } } else { m0 };
    let m2 = if m.ctrl { Mods { ctrl: true, ..m1 } } else { m1 };
    let m3 = if m.alt { Mods { alt: true, ..m2 } } else { m2 };
    let m4 = if m.shift { Mods { shift: true, ..m3 } } else { m3 };
    if m.platform {
        lemma_mods_fold_single(m0, "Cmd"@);
    }
    if m.ctrl {
        lemma_mods_fold_single(m1, "Ctrl"@);
    }
    if m.alt {
        lemma_mods_fold_single(m2, "Alt"@);
    }
    if m.shift {
        lemma_mods_fold_single(m3, "Shift"@);
    }
    assert(mods_fold(m0, t0) == Some(m1));
    assert(mods_fold(m1, t1) == Some(m2));
    assert(mods_fold(m2, t2) == Some(m3));
    assert(mods_fold(m3, t3) == Some(m4));
    lemma_mods_fold_concat(m0, t0, t1);
    lemma_mods_fold_concat(m0, t0 + t1, t2);
    lemma_mods_fold_concat(m0, t0 + t1 + t2, t3);
    assert(mods_tokens(m) == t0 + t1 + t2 + t3);
    assert(m4 == m);
}

/// The display name of a round-trippable key parses back to that key, and
/// contains no separator.
proof fn lemma_key_name_round_trip(k: Key)
    requires
        chord_round_trippable(KeyChord { key: k, mods: Mods { ctrl: false, alt: false, shift: false, platform: false } }),
    ensures
        key_from_str_spec(key_display_seq(k)) == Some(k),
        plus_free(key_display_seq(k)),
{
    reveal_strlit("enter");
    reveal_strlit("return");
    reveal_strlit("esc");
    reveal_strlit("escape");
    reveal_strlit("backspace");
    reveal_strlit("delete");
    reveal_strlit("del");
    reveal_strlit("tab");
    reveal_strlit("space");
    reveal_strlit("up");
    reveal_strlit("arrowup");
    reveal_strlit("down");
    reveal_strlit("arrowdown");
    reveal_strlit("left");
    reveal_strlit("arrowleft");
    reveal_strlit("right");
    reveal_strlit("arrowright");
    reveal_strlit("pageup");
    reveal_strlit("pagedown");
    reveal_strlit("home");
    reveal_strlit("end");
    reveal_strlit("f1");
    reveal_strlit("f2");
    reveal_strlit("f3");
    reveal_strlit("f4");
    reveal_strlit("f5");
    reveal_strlit("f6");
    reveal_strlit("f7");
    reveal_strlit("f8");
    reveal_strlit("f9");
    reveal_strlit("f10");
    reveal_strlit("f11");
    reveal_strlit("f12");
    reveal_strlit("Enter");
    reveal_strlit("Esc");
    reveal_strlit("Backspace");
    reveal_strlit("Del");
    reveal_strlit("Tab");
    reveal_strlit("Space");
    reveal_strlit("Up");
    reveal_strlit("Down");
    reveal_strlit("Left");
    reveal_strlit("Right");
    reveal_strlit("PageUp");
    reveal_strlit("PageDown");
    reveal_strlit("Home");
    reveal_strlit("End");
    reveal_strlit("F1");
    reveal_strlit("F2");
    reveal_strlit("F3");
    reveal_strlit("F4");
    reveal_strlit("F5");
    reveal_strlit("F6");
    reveal_strlit("F7");
    reveal_strlit("F8");
    reveal_strlit("F9");
    reveal_strlit("F10");
    reveal_strlit("F11");
    reveal_strlit("F12");
    match k {
        Key::Char(ch) => {
            assert(lower_seq(seq![ch]) =~= seq![ch]);
        },
        Key::Enter => {
            assert(lower_seq("Enter"@) =~= "enter"@);
        },
        Key::Escape => {
            assert(lower_seq("Esc"@) =~= "esc"@);
        },
        Key::Backspace => {
            assert(lower_seq("Backspace"@) =~= "backspace"@);
        },
        Key::Delete => {
            assert(lower_seq("Del"@) =~= "del"@);
            assert("del"@[0] != "esc"@[0]);
            assert("del"@[0] != "tab"@[0]);
        },
        Key::Tab => {
            assert(lower_seq("Tab"@) =~= "tab"@);
            assert("tab"@[0] != "esc"@[0]);
            assert("tab"@[0] != "del"@[0]);
        },
        Key::Space => {
            assert(lower_seq("Space"@) =~= "space"@);
            assert("space"@[0] != "enter"@[0]);
        },
        Key::ArrowUp => {
            assert(lower_seq("Up"@) =~= "up"@);
        },
        Key::ArrowDown => {
            assert(lower_seq("Down"@) =~= "down"@);
        },
        Key::ArrowLeft => {
            assert(lower_seq("Left"@) =~= "left"@);
            assert("left"@[0] != "down"@[0]);
        },
        Key::ArrowRight => {
            assert(lower_seq("Right"@) =~= "right"@);
            assert("right"@[0] != "enter"@[0]);
            assert("right"@[0] != "space"@[0]);
        },
        Key::PageUp => {
            assert(lower_seq("PageUp"@) =~= "pageup"@);
            assert("pageup"@[0] != "return"@[0]);
            assert("pageup"@[0] != "escape"@[0]);
            assert("pageup"@[0] != "delete"@[0]);
        },
        Key::PageDown => {
            assert(lower_seq("PageDown"@) =~= "pagedown"@);
        },
        Key::Home => {
            assert(lower_seq("Home"@) =~= "home"@);
            assert("home"@[0] != "down"@[0]);
            assert("home"@[0] != "left"@[0]);
        },
        Key::End => {
            assert(lower_seq("End"@) =~= "end"@);
            assert("end"@[1] != "esc"@[1]);
            assert("end"@[0] != "del"@[0]);
            assert("end"@[0] != "tab"@[0]);
        },
        Key::F1 => {
            assert(lower_seq("F1"@) =~= "f1"@);
            assert("f1"@[0] != "up"@[0]);
        },
        Key::F2 => {
            assert(lower_seq("F2"@) =~= "f2"@);
            assert("f2"@[0] != "up"@[0]);
            assert("f2"@[1] != "f1"@[1]);
        },
        Key::F3 => {
            assert(lower_seq("F3"@) =~= "f3"@);
            assert("f3"@[0] != "up"@[0]);
            assert("f3"@[1] != "f1"@[1]);
            assert("f3"@[1] != "f2"@[1]);
        },
        Key::F4 => {
            assert(lower_seq("F4"@) =~= "f4"@);
            assert("f4"@[0] != "up"@[0]);
            assert("f4"@[1] != "f1"@[1]);
            assert("f4"@[1] != "f2"@[1]);
            assert("f4"@[1] != "f3"@[1]);
        },
        Key::F5 => {
            assert(lower_seq("F5"@) =~= "f5"@);
            assert("f5"@[0] != "up"@[0]);
            assert("f5"@[1] != "f1"@[1]);
            assert("f5"@[1] != "f2"@[1]);
            assert("f5"@[1] != "f3"@[1]);
            assert("f5"@[1] != "f4"@[1]);
        },
        Key::F6 => {
            assert(lower_seq("F6"@) =~= "f6"@);
            assert("f6"@[0] != "up"@[0]);
            assert("f6"@[1] != "f1"@[1]);
            assert("f6"@[1] != "f2"@[1]);
            assert("f6"@[1] != "f3"@[1]);
            assert("f6"@[1] != "f4"@[1]);
            assert("f6"@[1] != "f5"@[1]);
        },
        Key::F7 => {
            assert(lower_seq("F7"@) =~= "f7"@);
            assert("f7"@[0] != "up"@[0]);
            assert("f7"@[1] != "f1"@[1]);
            assert("f7"@[1] != "f2"@[1]);
            assert("f7"@[1] != "f3"@[1]);
            assert("f7"@[1] != "f4"@[1]);
            assert("f7"@[1] != "f5"@[1]);
            assert("f7"@[1] != "f6"@[1]);
        },
        Key::F8 => {
            assert(lower_seq("F8"@) =~= "f8"@);
            assert("f8"@[0] != "up"@[0]);
            assert("f8"@[1] != "f1"@[1]);
            assert("f8"@[1] != "f2"@[1]);
            assert("f8"@[1] != "f3"@[1]);
            assert("f8"@[1] != "f4"@[1]);
            assert("f8"@[1] != "f5"@[1]);
            assert("f8"@[1] != "f6"@[1]);
            assert("f8"@[1] != "f7"@[1]);
        },
        Key::F9 => {
            assert(lower_seq("F9"@) =~= "f9"@);
            assert("f9"@[0] != "up"@[0]);
            assert("f9"@[1] != "f1"@[1]);
            assert("f9"@[1] != "f2"@[1]);
            assert("f9"@[1] != "f3"@[1]);
            assert("f9"@[1] != "f4"@[1]);
            assert("f9"@[1] != "f5"@[1]);
            assert("f9"@[1] != "f6"@[1]);
            assert("f9"@[1] != "f7"@[1]);
            assert("f9"@[1] != "f8"@[1]);
        },
        Key::F10 => {
            assert(lower_seq("F10"@) =~= "f10"@);
            assert("f10"@[0] != "esc"@[0]);
            assert("f10"@[0] != "del"@[0]);
            assert("f10"@[0] != "tab"@[0]);
            assert("f10"@[0] != "end"@[0]);
        },
        Key::F11 => {
            assert(lower_seq("F11"@) =~= "f11"@);
            assert("f11"@[0] != "esc"@[0]);
            assert("f11"@[0] != "del"@[0]);
            assert("f11"@[0] != "tab"@[0]);
            assert("f11"@[0] != "end"@[0]);
            assert("f11"@[2] != "f10"@[2]);
        },
        Key::F12 => {
            assert(lower_seq("F12"@) =~= "f12"@);
            assert("f12"@[0] != "esc"@[0]);
            assert("f12"@[0] != "del"@[0]);
            assert("f12"@[0] != "tab"@[0]);
            assert("f12"@[0] != "end"@[0]);
            assert("f12"@[2] != "f10"@[2]);
            assert("f12"@[2] != "f11"@[2]);
        },
    }
}

/// Chord round-trip: parsing the display form of a chord yields the chord
/// back, for every chord on a named key or on an ASCII character key other
/// than an uppercase letter or `'+'`.
pub proof fn lemma_chord_round_trip(c: KeyChord)
    requires
        chord_round_trippable(c),
    ensures
        chord_parse_spec(chord_display_seq(c)) == Some(c),
{
    let m0 = Mods { ctrl: false, alt: false, shift: false, platform: false };
    lemma_key_name_round_trip(c.key);
    lemma_mods_tokens_facts(c.mods);
    let kd = key_display_seq(c.key);
    if has_any_mod(c.mods) {
        let ts = mods_tokens(c.mods);
        lemma_join_plus_push(ts, kd);
        assert(chord_display_seq(c) == join_plus(ts.push(kd)));
        assert(forall|j: int|
            0 <= j < ts.push(kd).len() ==> plus_free(#[trigger] ts.push(kd)[j]));
        lemma_split_join(ts.push(kd));
        assert(ts.push(kd).drop_last() =~~= ts);
        assert(ts.push(kd).last() == kd);
    } else {
        assert(chord_display_seq(c) == join_plus(seq![kd]));
        assert(plus_free(seq![kd][0]));
        lemma_split_join(seq![kd]);
        assert(seq![kd].drop_last() =~~= Seq::<Seq<char>>::empty());
        assert(seq![kd].last() == kd);
        assert(mods_fold(m0, Seq::<Seq<char>>::empty()) == Some(m0));
        assert(c.mods == m0);
    }
}

} // verus!
