//! Key-combination parsing for synthesized keyboard input: `+`-joined names
//! such as `ctrl+shift+s` become virtual-key codes and a press/release order.

use vstd::prelude::*;
use crate::text::{chars_eq_str, chars_of, lowercase_chars, lower_of};

verus! {

pub const VK_SHIFT: u16 = 0x10;
pub const VK_CONTROL: u16 = 0x11;
pub const VK_MENU: u16 = 0x12;
pub const VK_LWIN: u16 = 0x5B;

/// The virtual-key code of a modifier name (already lowercased).
pub open spec fn modifier_spec(s: Seq<char>) -> Option<u16> {
    if s == "ctrl"@ || s == "control"@ {
        Some(VK_CONTROL)
    } else if s == "alt"@ {
        Some(VK_MENU)
    } else if s == "shift"@ {
        Some(VK_SHIFT)
    } else if s == "win"@ || s == "windows"@ {
        Some(VK_LWIN)
    } else {
        None
    }
}

/// The virtual-key code of an editing or navigation key name.
pub open spec fn named_key_spec(s: Seq<char>) -> Option<u16> {
    if s == "enter"@ || s == "return"@ {
        Some(0x0Du16)
    } else if s == "escape"@ || s == "esc"@ {
        Some(0x1Bu16)
    } else if s == "tab"@ {
        Some(0x09u16)
    } else if s == "space"@ {
        Some(0x20u16)
    } else if s == "backspace"@ {
        Some(0x08u16)
    } else if s == "delete"@ || s == "del"@ {
        Some(0x2Eu16)
    } else if s == "home"@ {
        Some(0x24u16)
    } else if s == "end"@ {
        Some(0x23u16)
    } else if s == "pageup"@ {
        Some(0x21u16)
    } else if s == "pagedown"@ {
        Some(0x22u16)
    } else if s == "up"@ {
        Some(0x26u16)
    } else if s == "down"@ {
        Some(0x28u16)
    } else if s == "left"@ {
        Some(0x25u16)
    } else if s == "right"@ {
        Some(0x27u16)
    } else {
        None
    }
}

/// The virtual-key code of a terminal key name (already lowercased): a
/// letter, a digit, a named key, or a function key `f1` to `f12`.
pub open spec fn key_spec(s: Seq<char>) -> Option<u16> {
    if s.len() == 1 && 'a' as u32 <= s[0] as u32 <= 'z' as u32 {
        Some((0x41 + (s[0] as u32 - 'a' as u32)) as u16)
    } else if s.len() == 1 && '0' as u32 <= s[0] as u32 <= '9' as u32 {
        Some((0x30 + (s[0] as u32 - '0' as u32)) as u16)
    } else if s.len() == 2 && s[0] == 'f' && '1' as u32 <= s[1] as u32 <= '9' as u32 {
        Some((0x70 + (s[1] as u32 - '1' as u32)) as u16)
    } else if s.len() == 3 && s[0] == 'f' && s[1] == '1' && '0' as u32 <= s[2] as u32
        <= '2' as u32 {
        Some((0x79 + (s[2] as u32 - '0' as u32)) as u16)
    } else {
        named_key_spec(s)
    }
}

/// `s` cut at every `+`, as `str::split('+')` does: `k` separators give
/// `k + 1` parts, empty ones included.
pub open spec fn split_plus(s: Seq<char>) -> Seq<Seq<char>>
    decreases s.len(),
{
    if s.len() == 0 {
        seq![Seq::<char>::empty()]
    } else {
        let prev = split_plus(s.drop_last());
        if s.last() == '+' {
            prev.push(Seq::<char>::empty())
        } else {
            prev.update(prev.len() - 1, prev.last().push(s.last()))
        }
    }
}

/// The modifiers among the parts, in the order listed.
pub open spec fn combo_modifiers(parts: Seq<Seq<char>>) -> Seq<u16>
    decreases parts.len(),
{
    if parts.len() == 0 {
        Seq::<u16>::empty()
    } else {
        let prev = combo_modifiers(parts.drop_last());
        match modifier_spec(lower_of(parts.last())) {
            Some(m) => prev.push(m),
            None => prev,
        }
    }
}

/// The key named by the last part that is not a modifier, if it names one.
pub open spec fn combo_key(parts: Seq<Seq<char>>) -> Option<u16>
    decreases parts.len(),
{
    if parts.len() == 0 {
        None
    } else if modifier_spec(lower_of(parts.last())) is Some {
        combo_key(parts.drop_last())
    } else {
        key_spec(lower_of(parts.last()))
    }
}

#[derive(Debug, Clone, Copy, PartialEq, Eq, Structural)]
pub struct KeyStroke {
    pub vk: u16,
    pub key_up: bool,
}

#[derive(Debug, Clone)]
pub struct KeyCombo {
    pub modifiers: Vec<u16>,
    pub key: u16,
}

/// Press every modifier in order, press and release the key, then release
/// the modifiers in reverse order.
pub open spec fn stroke_plan(mods: Seq<u16>, key: u16) -> Seq<KeyStroke> {
    Seq::new(mods.len(), |i: int| KeyStroke { vk: mods[i], key_up: false })
        + seq![KeyStroke { vk: key, key_up: false }, KeyStroke { vk: key, key_up: true }]
        + Seq::new(mods.len(), |i: int| KeyStroke { vk: mods[mods.len() - 1 - i], key_up: true })
}

/// The modifier code of a lowercased name, if it is one.
pub fn modifier_code(s: &Vec<char>) -> (r: Option<u16>)
    ensures
        r == modifier_spec(s@),
{
    if chars_eq_str(s, "ctrl") || chars_eq_str(s, "control") {
        Some(VK_CONTROL)
    } else if chars_eq_str(s, "alt") {
        Some(VK_MENU)
    } else if chars_eq_str(s, "shift") {
        Some(VK_SHIFT)
    } else if chars_eq_str(s, "win") || chars_eq_str(s, "windows") {
        Some(VK_LWIN)
    } else {
        None
    }
}

fn named_key_code(s: &Vec<char>) -> (r: Option<u16>)
    ensures
        r == named_key_spec(s@),
{
    if chars_eq_str(s, "enter") || chars_eq_str(s, "return") {
        Some(0x0D)
    } else if chars_eq_str(s, "escape") || chars_eq_str(s, "esc") {
        Some(0x1B)
    } else if chars_eq_str(s, "tab") {
        Some(0x09)
    } else if chars_eq_str(s, "space") {
        Some(0x20)
    } else if chars_eq_str(s, "backspace") {
        Some(0x08)
    } else if chars_eq_str(s, "delete") || chars_eq_str(s, "del") {
        Some(0x2E)
    } else if chars_eq_str(s, "home") {
        Some(0x24)
    } else if chars_eq_str(s, "end") {
        Some(0x23)
    } else if chars_eq_str(s, "pageup") {
        Some(0x21)
    } else if chars_eq_str(s, "pagedown") {
        Some(0x22)
    } else if chars_eq_str(s, "up") {
        Some(0x26)
    } else if chars_eq_str(s, "down") {
        Some(0x28)
    } else if chars_eq_str(s, "left") {
        Some(0x25)
    } else if chars_eq_str(s, "right") {
        Some(0x27)
    } else {
        None
    }
}

/// The virtual-key code of a lowercased terminal key name.
pub fn key_code(s: &Vec<char>) -> (r: Option<u16>)
    ensures
        r == key_spec(s@),
{
    let n = s.len();
    if n == 1 && 'a' as u32 <= s[0] as u32 && s[0] as u32 <= 'z' as u32 {
        Some((0x41 + (s[0] as u32 - 'a' as u32)) as u16)
    } else if n == 1 && '0' as u32 <= s[0] as u32 && s[0] as u32 <= '9' as u32 {
        Some((0x30 + (s[0] as u32 - '0' as u32)) as u16)
    } else if n == 2 && s[0] == 'f' && '1' as u32 <= s[1] as u32 && s[1] as u32 <= '9' as u32 {
        Some((0x70 + (s[1] as u32 - '1' as u32)) as u16)
    } else if n == 3 && s[0] == 'f' && s[1] == '1' && '0' as u32 <= s[2] as u32 && s[2] as u32
        <= '2' as u32 {
        Some((0x79 + (s[2] as u32 - '0' as u32)) as u16)
    } else {
        named_key_code(s)
    }
}

/// The virtual-key code of a key name in any letter case.
pub fn parse_vk(key: &str) -> (r: Option<u16>)
    ensures
        r == key_spec(lower_of(key@)),
{
    let lowered = lowercase_chars(&chars_of(key));
    key_code(&lowered)
}

pub open spec fn views_of(parts: Seq<Vec<char>>) -> Seq<Seq<char>> {
    parts.map_values(|p: Vec<char>| p@)
}

/// `s` cut at every `+`.
pub fn split_on_plus(s: &str) -> (r: Vec<Vec<char>>)
    ensures
        views_of(r@) == split_plus(s@),
{
    let cs = chars_of(s);
    let mut parts: Vec<Vec<char>> = Vec::new();
    let mut cur: Vec<char> = Vec::new();
    let mut i: usize = 0;
    assert(cs@.subrange(0, 0) =~= Seq::<char>::empty());
    assert(views_of(parts@).push(cur@) =~= split_plus(cs@.subrange(0, 0)));
    while i < cs.len()
        invariant
            i <= cs@.len(),
            views_of(parts@).push(cur@) == split_plus(cs@.subrange(0, i as int)),
        decreases cs@.len() - i,
    {
        let c = cs[i];
        let ghost pre = cs@.subrange(0, i as int);
        assert(cs@.subrange(0, i + 1).drop_last() =~= pre);
        if c == '+' {
            let done = cur;
            parts.push(done);
            cur = Vec::new();
            assert(views_of(parts@).push(cur@) =~= split_plus(pre).push(Seq::<char>::empty()));
        } else {
            let ghost old_cur = cur@;
            cur.push(c);
            assert(views_of(parts@).push(cur@) =~= split_plus(pre).update(
                split_plus(pre).len() - 1,
                old_cur.push(c),
            ));
        }
        i = i + 1;
    }
    assert(cs@.subrange(0, cs@.len() as int) =~= cs@);
    parts.push(cur);
    assert(views_of(parts@) =~= split_plus(s@));
    parts
}

/// Reads a `+`-joined key combination: the modifiers in the order listed,
/// and the key named by the last part that is not a modifier. `None` when
/// that part names no known key, or every part is a modifier.
pub fn parse_key_combo(keys: &str) -> (r: Option<KeyCombo>)
    ensures
        match r {
            Some(c) => combo_key(split_plus(keys@)) == Some(c.key) && c.modifiers@
                == combo_modifiers(split_plus(keys@)),
            None => combo_key(split_plus(keys@)) is None,
        },
{
    let parts = split_on_plus(keys);
    let ghost ps = split_plus(keys@);
    let mut modifiers: Vec<u16> = Vec::new();
    let mut key: Option<u16> = None;
    let mut i: usize = 0;
    assert(ps.subrange(0, 0) =~= Seq::<Seq<char>>::empty());
    while i < parts.len()
        invariant
            views_of(parts@) == ps,
            i <= parts@.len(),
            modifiers@ == combo_modifiers(ps.subrange(0, i as int)),
            key == combo_key(ps.subrange(0, i as int)),
        decreases parts@.len() - i,
    {
        let lowered = lowercase_chars(&parts[i]);
        assert(ps.subrange(0, i + 1).drop_last() =~= ps.subrange(0, i as int));
        assert(ps.subrange(0, i + 1).last() == parts@[i as int]@);
        match modifier_code(&lowered) {
            Some(m) => {
                modifiers.push(m);
            },
            None => {
                key = key_code(&lowered);
            },
        }
        i = i + 1;
    }
    assert(ps.subrange(0, parts@.len() as int) =~= ps);
    match key {
        Some(k) => Some(KeyCombo { modifiers, key: k }),
        None => None,
    }
}

/// The press/release order of a combination.
pub fn key_strokes(combo: &KeyCombo) -> (r: Vec<KeyStroke>)
    ensures
        r@ == stroke_plan(combo.modifiers@, combo.key),
{
    let mods = &combo.modifiers;
    let n = mods.len();
    let mut out: Vec<KeyStroke> = Vec::new();
    let mut i: usize = 0;
    while i < n
        invariant
            n == mods@.len(),
            i <= n,
            out@ =~= Seq::new(i as nat, |j: int| KeyStroke { vk: mods@[j], key_up: false }),
        decreases n - i,
    {
        out.push(KeyStroke { vk: mods[i], key_up: false });
        i = i + 1;
    }
    out.push(KeyStroke { vk: combo.key, key_up: false });
    out.push(KeyStroke { vk: combo.key, key_up: true });
    let ghost head = out@;
    let mut j: usize = 0;
    while j < n
        invariant
            n == mods@.len(),
            j <= n,
            head.len() == n + 2,
            out@ =~= head + Seq::new(
                j as nat,
                |k: int| KeyStroke { vk: mods@[n - 1 - k], key_up: true },
            ),
        decreases n - j,
    {
        out.push(KeyStroke { vk: mods[n - 1 - j], key_up: true });
        j = j + 1;
    }
    assert(out@ =~= stroke_plan(combo.modifiers@, combo.key));
    out
}

} // verus!
