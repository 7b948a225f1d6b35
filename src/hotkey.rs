//! Hotkey strings such as `Cmd+Semicolon`: modifier names, then a key name,
//! separated by `+`.
use vstd::prelude::*;

use crate::ipc::{trim_of, trim_text};
use crate::json::str_eq;

verus! {

/// The modifiers of a hotkey.
#[derive(Debug, Clone, Copy, PartialEq, Eq, Structural)]
pub struct Modifiers {
    pub super_key: bool,
    pub control: bool,
    pub alt: bool,
    pub shift: bool,
}

/// The key of a hotkey.
#[derive(Debug, Clone, Copy, PartialEq, Eq, Structural)]
pub enum KeyCode {
    Semicolon,
    Quote,
    Space,
    Enter,
    Tab,
    /// A letter key, by its lower-case letter.
    Letter(char),
    /// A digit key, by its digit.
    Digit(char),
}

/// What `str::to_lowercase` makes of a text.
pub uninterp spec fn lower_of(s: Seq<char>) -> Seq<char>;

/// Relies on `str::to_lowercase`: the lower-case form, which depends on the
/// text alone.
#[verifier::external_body]
fn lowercase(s: &str) -> (r: String)
    ensures
        r@ == lower_of(s@),
{
    s.to_lowercase()
}

/// The parts of `s` between the `+` signs; there is always at least one.
pub open spec fn split_plus(s: Seq<char>) -> Seq<Seq<char>>
    decreases s.len(),
{
    if s.len() == 0 {
        seq![Seq::empty()]
    } else {
        let r = split_plus(s.drop_last());
        if s.last() == '+' {
            r.push(Seq::empty())
        } else {
            r.update(r.len() - 1, r.last().push(s.last()))
        }
    }
}

proof fn lemma_split_nonempty(s: Seq<char>)
    ensures
        split_plus(s).len() >= 1,
    decreases s.len(),
{
    if s.len() > 0 {
        lemma_split_nonempty(s.drop_last());
    }
}

pub open spec fn is_super(w: Seq<char>) -> bool {
    w == "cmd"@ || w == "super"@ || w == "command"@ || w == "meta"@
}

pub open spec fn is_control(w: Seq<char>) -> bool {
    w == "ctrl"@ || w == "control"@
}

pub open spec fn is_alt(w: Seq<char>) -> bool {
    w == "alt"@ || w == "option"@
}

pub open spec fn is_shift(w: Seq<char>) -> bool {
    w == "shift"@
}

/// The name of a modifier part, as it is compared.
pub open spec fn word_of(part: Seq<char>) -> Seq<char> {
    lower_of(trim_of(part))
}

/// The key that a lower-case key name stands for; unknown names give the
/// semicolon key.
pub open spec fn code_of(w: Seq<char>) -> KeyCode {
    if w == "semicolon"@ || w == ";"@ {
        KeyCode::Semicolon
    } else if w == "quote"@ || w == "'"@ {
        KeyCode::Quote
    } else if w == "space"@ || w == " "@ {
        KeyCode::Space
    } else if w == "enter"@ || w == "return"@ {
        KeyCode::Enter
    } else if w == "tab"@ {
        KeyCode::Tab
    } else if w.len() == 1 && 'a' <= w[0] && w[0] <= 'z' {
        KeyCode::Letter(w[0])
    } else if w.len() == 1 && '0' <= w[0] && w[0] <= '9' {
        KeyCode::Digit(w[0])
    } else {
        KeyCode::Semicolon
    }
}

/// Whether one of the modifier parts (all parts but the last) is named by `f`.
pub open spec fn some_modifier(parts: Seq<Seq<char>>, f: spec_fn(Seq<char>) -> bool) -> bool {
    exists|i: int| 0 <= i < parts.len() - 1 && f(word_of(#[trigger] parts[i]))
}

/// The key named by a key part.
pub fn parse_code(s: &str) -> (r: KeyCode)
    ensures
        r == code_of(lower_of(s@)),
{
    let w = lowercase(s);
    let ws = w.as_str();
    if str_eq(ws, "semicolon") || str_eq(ws, ";") {
        KeyCode::Semicolon
    } else if str_eq(ws, "quote") || str_eq(ws, "'") {
        KeyCode::Quote
    } else if str_eq(ws, "space") || str_eq(ws, " ") {
        KeyCode::Space
    } else if str_eq(ws, "enter") || str_eq(ws, "return") {
        KeyCode::Enter
    } else if str_eq(ws, "tab") {
        KeyCode::Tab
    } else if ws.unicode_len() == 1 {
        let c = ws.get_char(0);
        if 'a' <= c && c <= 'z' {
            KeyCode::Letter(c)
        } else if '0' <= c && c <= '9' {
            KeyCode::Digit(c)
        } else {
            KeyCode::Semicolon
        }
    } else {
        KeyCode::Semicolon
    }
}

/// The parts of a hotkey string between its `+` signs.
fn split_parts(s: &str) -> (r: Vec<String>)
    ensures
        r@.map_values(|p: String| p@) == split_plus(s@),
{
    let n = s.unicode_len();
    let mut parts: Vec<String> = Vec::new();
    let mut start: usize = 0;
    let mut i: usize = 0;
    assert(s@.subrange(0, 0) =~= Seq::<char>::empty());
    assert(parts@.map_values(|p: String| p@).push(s@.subrange(0, 0)) =~= seq![Seq::<char>::empty()]);
    while i < n
        invariant
            n == s@.len(),
            start <= i <= n,
            parts@.map_values(|p: String| p@).push(s@.subrange(start as int, i as int)) == split_plus(
                s@.subrange(0, i as int),
            ),
        decreases n - i,
    {
        let ghost before = parts@.map_values(|p: String| p@);
        assert(s@.subrange(0, i + 1).drop_last() =~= s@.subrange(0, i as int));
        assert(s@.subrange(0, i + 1).last() == s@[i as int]);
        proof {
            lemma_split_nonempty(s@.subrange(0, i as int));
        }
        let ghost prev = split_plus(s@.subrange(0, i as int));
        assert(prev == before.push(s@.subrange(start as int, i as int)));
        if s.get_char(i) == '+' {
            assert(s@.subrange(i + 1, i + 1) =~= Seq::<char>::empty());
            parts.push(s.substring_char(start, i).to_owned());
            assert(parts@.map_values(|p: String| p@) =~= before.push(s@.subrange(start as int, i as int)));
            assert(parts@.map_values(|p: String| p@).push(s@.subrange(i + 1, i + 1)) =~= split_plus(
                s@.subrange(0, i + 1),
            ));
            start = i + 1;
        } else {
            assert(s@.subrange(start as int, i + 1) =~= s@.subrange(start as int, i as int).push(
                s@[i as int],
            ));
            assert(prev.update(prev.len() - 1, prev.last().push(s@[i as int])) =~= before.push(
                s@.subrange(start as int, i + 1),
            ));
            assert(before.push(s@.subrange(start as int, i + 1)) =~= split_plus(
                s@.subrange(0, i + 1),
            ));
        }
        i = i + 1;
    }
    let ghost before = parts@.map_values(|p: String| p@);
    parts.push(s.substring_char(start, n).to_owned());
    assert(s@.subrange(0, n as int) =~= s@);
    assert(parts@.map_values(|p: String| p@) =~= before.push(s@.subrange(start as int, n as int)));
    parts
}

/// Reads a hotkey string: the last part names the key, each part before it
/// a modifier (unknown modifier names are ignored).
pub fn parse_hotkey_str(s: &str) -> (r: (Modifiers, KeyCode))
    ensures
        ({
            let parts = split_plus(s@);
            &&& r.1 == code_of(lower_of(trim_of(parts.last())))
            &&& r.0.super_key == some_modifier(parts, |w: Seq<char>| is_super(w))
            &&& r.0.control == some_modifier(parts, |w: Seq<char>| is_control(w))
            &&& r.0.alt == some_modifier(parts, |w: Seq<char>| is_alt(w))
            &&& r.0.shift == some_modifier(parts, |w: Seq<char>| is_shift(w))
        }),
{
    let parts = split_parts(s);
    let ghost ps = split_plus(s@);
    proof {
        lemma_split_nonempty(s@);
    }
    let last = parts.len() - 1;
    let mut mods = Modifiers { super_key: false, control: false, alt: false, shift: false };
    let mut i: usize = 0;
    while i < last
        invariant
            last + 1 == parts@.len(),
            parts@.map_values(|p: String| p@) == ps,
            i <= last,
            mods.super_key == exists|j: int| 0 <= j < i && is_super(word_of(#[trigger] ps[j])),
            mods.control == exists|j: int| 0 <= j < i && is_control(word_of(#[trigger] ps[j])),
            mods.alt == exists|j: int| 0 <= j < i && is_alt(word_of(#[trigger] ps[j])),
            mods.shift == exists|j: int| 0 <= j < i && is_shift(word_of(#[trigger] ps[j])),
        decreases last - i,
    {
        let w = lowercase(trim_text(parts[i].as_str()));
        let ws = w.as_str();
        assert(ps[i as int] == parts@[i as int]@);
        if str_eq(ws, "cmd") || str_eq(ws, "super") || str_eq(ws, "command") || str_eq(ws, "meta") {
            mods.super_key = true;
        }
        if str_eq(ws, "ctrl") || str_eq(ws, "control") {
            mods.control = true;
        }
        if str_eq(ws, "alt") || str_eq(ws, "option") {
            mods.alt = true;
        }
        if str_eq(ws, "shift") {
            mods.shift = true;
        }
        i = i + 1;
    }
    assert(ps.last() == parts@[last as int]@);
    let code = parse_code(trim_text(parts[last].as_str()));
    (mods, code)
}

} // verus!
