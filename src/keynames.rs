//! Key names as configurations write them, and chords such as `ctrl+f1`,
//! turned into virtual-key codes.

use vstd::prelude::*;
use vstd::string::StrSliceExecFns;
use crate::flags::str_eq;
use crate::key::KeyState;

verus! {

/// The virtual-key code of a single character: a digit or an ASCII letter
/// in either case.
pub open spec fn char_code(c: char) -> Option<u32> {
    if '0' <= c && c <= '9' {
        Some((c as u32 - '0' as u32 + 0x30) as u32)
    } else if 'a' <= c && c <= 'z' {
        Some((c as u32 - 'a' as u32 + 0x41) as u32)
    } else if 'A' <= c && c <= 'Z' {
        Some((c as u32 - 'A' as u32 + 0x41) as u32)
    } else {
        None
    }
}

/// The virtual-key code of a named key.
pub open spec fn named_code(s: Seq<char>) -> Option<u32> {
    if s == "space"@ {
        Some(0x20)
    } else if s == "tab"@ {
        Some(0x9)
    } else if s == "enter"@ {
        Some(0xD)
    } else if s == "return"@ {
        Some(0xD)
    } else if s == "escape"@ {
        Some(0x1B)
    } else if s == "esc"@ {
        Some(0x1B)
    } else if s == "backspace"@ {
        Some(0x8)
    } else if s == "shift"@ {
        Some(0x10)
    } else if s == "ctrl"@ {
        Some(0x11)
    } else if s == "control"@ {
        Some(0x11)
    } else if s == "alt"@ {
        Some(0x12)
    } else if s == "left"@ {
        Some(0x25)
    } else if s == "up"@ {
        Some(0x26)
    } else if s == "right"@ {
        Some(0x27)
    } else if s == "down"@ {
        Some(0x28)
    } else if s == "pageup"@ {
        Some(0x21)
    } else if s == "pagedown"@ {
        Some(0x22)
    } else if s == "end"@ {
        Some(0x23)
    } else if s == "home"@ {
        Some(0x24)
    } else if s == "insert"@ {
        Some(0x2D)
    } else if s == "delete"@ {
        Some(0x2E)
    } else if s == "f1"@ {
        Some(0x70)
    } else if s == "f2"@ {
        Some(0x71)
    } else if s == "f3"@ {
        Some(0x72)
    } else if s == "f4"@ {
        Some(0x73)
    } else if s == "f5"@ {
        Some(0x74)
    } else if s == "f6"@ {
        Some(0x75)
    } else if s == "f7"@ {
        Some(0x76)
    } else if s == "f8"@ {
        Some(0x77)
    } else if s == "f9"@ {
        Some(0x78)
    } else if s == "f10"@ {
        Some(0x79)
    } else if s == "f11"@ {
        Some(0x7A)
    } else if s == "f12"@ {
        Some(0x7B)
    } else if s == "numpad0"@ {
        Some(0x60)
    } else if s == "numpad1"@ {
        Some(0x61)
    } else if s == "numpad2"@ {
        Some(0x62)
    } else if s == "numpad3"@ {
        Some(0x63)
    } else if s == "numpad4"@ {
        Some(0x64)
    } else if s == "numpad5"@ {
        Some(0x65)
    } else if s == "numpad6"@ {
        Some(0x66)
    } else if s == "numpad7"@ {
        Some(0x67)
    } else if s == "numpad8"@ {
        Some(0x68)
    } else if s == "numpad9"@ {
        Some(0x69)
    } else {
        None
    }
}

/// The virtual-key code of the key called `s`.
pub open spec fn key_code_of(s: Seq<char>) -> Option<u32> {
    if s.len() == 1 {
        char_code(s[0])
    } else {
        named_code(s)
    }
}

/// The virtual-key code of the key called `name`, if it is known.
pub fn get_key_code(name: &str) -> (r: Option<u32>)
    ensures
        r == key_code_of(name@),
{
    let n = name.unicode_len();
    if n == 1 {
        let c = name.get_char(0);
        if '0' <= c && c <= '9' {
            return Some(c as u32 - '0' as u32 + 0x30);
        } else if 'a' <= c && c <= 'z' {
            return Some(c as u32 - 'a' as u32 + 0x41);
        } else if 'A' <= c && c <= 'Z' {
            return Some(c as u32 - 'A' as u32 + 0x41);
        } else {
            return None;
        }
    }
    if str_eq(name, "space") {
        Some(0x20)
    } else if str_eq(name, "tab") {
        Some(0x9)
    } else if str_eq(name, "enter") {
        Some(0xD)
    } else if str_eq(name, "return") {
        Some(0xD)
    } else if str_eq(name, "escape") {
        Some(0x1B)
    } else if str_eq(name, "esc") {
        Some(0x1B)
    } else if str_eq(name, "backspace") {
        Some(0x8)
    } else if str_eq(name, "shift") {
        Some(0x10)
    } else if str_eq(name, "ctrl") {
        Some(0x11)
    } else if str_eq(name, "control") {
        Some(0x11)
    } else if str_eq(name, "alt") {
        Some(0x12)
    } else if str_eq(name, "left") {
        Some(0x25)
    } else if str_eq(name, "up") {
        Some(0x26)
    } else if str_eq(name, "right") {
        Some(0x27)
    } else if str_eq(name, "down") {
        Some(0x28)
    } else if str_eq(name, "pageup") {
        Some(0x21)
    } else if str_eq(name, "pagedown") {
        Some(0x22)
    } else if str_eq(name, "end") {
        Some(0x23)
    } else if str_eq(name, "home") {
        Some(0x24)
    } else if str_eq(name, "insert") {
        Some(0x2D)
    } else if str_eq(name, "delete") {
        Some(0x2E)
    } else if str_eq(name, "f1") {
        Some(0x70)
    } else if str_eq(name, "f2") {
        Some(0x71)
    } else if str_eq(name, "f3") {
        Some(0x72)
    } else if str_eq(name, "f4") {
        Some(0x73)
    } else if str_eq(name, "f5") {
        Some(0x74)
    } else if str_eq(name, "f6") {
        Some(0x75)
    } else if str_eq(name, "f7") {
        Some(0x76)
    } else if str_eq(name, "f8") {
        Some(0x77)
    } else if str_eq(name, "f9") {
        Some(0x78)
    } else if str_eq(name, "f10") {
        Some(0x79)
    } else if str_eq(name, "f11") {
        Some(0x7A)
    } else if str_eq(name, "f12") {
        Some(0x7B)
    } else if str_eq(name, "numpad0") {
        Some(0x60)
    } else if str_eq(name, "numpad1") {
        Some(0x61)
    } else if str_eq(name, "numpad2") {
        Some(0x62)
    } else if str_eq(name, "numpad3") {
        Some(0x63)
    } else if str_eq(name, "numpad4") {
        Some(0x64)
    } else if str_eq(name, "numpad5") {
        Some(0x65)
    } else if str_eq(name, "numpad6") {
        Some(0x66)
    } else if str_eq(name, "numpad7") {
        Some(0x67)
    } else if str_eq(name, "numpad8") {
        Some(0x68)
    } else if str_eq(name, "numpad9") {
        Some(0x69)
    } else {
        None
    }
}

/// The parts of `s` between the `+` signs.
pub open spec fn split_plus(s: Seq<char>) -> Seq<Seq<char>>
    decreases s.len(),
{
    if s.len() == 0 {
        seq![Seq::empty()]
    } else {
        let r = split_plus(s.drop_last());
        if s.last() == '+' {
            r.push(Seq::empty())
        } else {
            r.update(r.len() - 1, r.last().push(s.last()))
        }
    }
}

pub proof fn lemma_split_plus_len(s: Seq<char>)
    ensures
        split_plus(s).len() >= 1,
    decreases s.len(),
{
    if s.len() > 0 {
        lemma_split_plus_len(s.drop_last());
    }
}

/// The codes of the keys named by `parts`, if all are known.
pub open spec fn codes_of(parts: Seq<Seq<char>>) -> Option<Seq<u32>>
    decreases parts.len(),
{
    if parts.len() == 0 {
        Some(Seq::empty())
    } else {
        match (codes_of(parts.drop_last()), key_code_of(parts.last())) {
            (Some(c), Some(k)) => Some(c.push(k)),
            _ => None,
        }
    }
}

/// The chord that `s` writes, as its key and modifiers: names joined by
/// `+`, the key last.
pub open spec fn chord_of(s: Seq<char>) -> Option<(u32, Seq<u32>)> {
    match codes_of(split_plus(s)) {
        Some(c) => if c.len() > 0 {
            Some((c.last(), c.drop_last()))
        } else {
            None
        },
        None => None,
    }
}

/// The hotkey that `s` writes, such as `f1` or `ctrl+shift+f1`; `None`
/// where a name is unknown.
pub fn parse_chord(s: &str) -> (r: Option<KeyState>)
    ensures
        match chord_of(s@) {
            Some(c) => r.is_some() && r.unwrap()@ == (c.0, c.1, false),
            None => r.is_none(),
        },
{
    let n = s.unicode_len();
    let mut codes: Vec<u32> = Vec::new();
    let mut known = true;
    let mut start: usize = 0;
    let mut i: usize = 0;
    proof {
        assert(s@.take(0) =~= Seq::<char>::empty());
        assert(split_plus(s@.take(0)).drop_last() =~= Seq::<Seq<char>>::empty());
        assert(s@.subrange(0, 0) =~= Seq::<char>::empty());
    }
    while i < n
        invariant
            n == s@.len(),
            start <= i <= n,
            split_plus(s@.take(i as int)).len() >= 1,
            known ==> codes_of(split_plus(s@.take(i as int)).drop_last()) == Some(codes@),
            !known ==> codes_of(split_plus(s@.take(i as int)).drop_last()).is_none(),
            split_plus(s@.take(i as int)).last() == s@.subrange(start as int, i as int),
        decreases n - i,
    {
        let c = s.get_char(i);
        let ghost r = split_plus(s@.take(i as int));
        proof {
            assert(s@.take(i + 1).drop_last() =~= s@.take(i as int));
            assert(s@.take(i + 1).last() == c);
            assert(r.drop_last().push(r.last()) =~= r);
        }
        if c == '+' {
            proof {
                let r2 = split_plus(s@.take(i + 1));
                assert(r2 == r.push(Seq::<char>::empty()));
                assert(r2.drop_last() =~= r);
            }
            if known {
                let part = s.substring_char(start, i);
                match get_key_code(part) {
                    Some(k) => codes.push(k),
                    None => known = false,
                }
            }
            start = i + 1;
            proof {
                assert(s@.subrange(start as int, start as int) =~= Seq::<char>::empty());
            }
        } else {
            proof {
                let r2 = split_plus(s@.take(i + 1));
                assert(r2.drop_last() =~= r.drop_last());
                assert(s@.subrange(start as int, i + 1) =~= s@.subrange(start as int, i as int).push(c));
            }
        }
        i = i + 1;
    }
    assert(s@.take(n as int) =~= s@);
    proof {
        let r = split_plus(s@);
        assert(r.drop_last().push(r.last()) =~= r);
    }
    if !known {
        return None;
    }
    let part = s.substring_char(start, n);
    match get_key_code(part) {
        Some(k) => {
            codes.push(k);
            let key = codes.pop().unwrap();
            Some(KeyState::with_modifiers(key, codes))
        },
        None => None,
    }
}

} // verus!
