//! The records sent to the backend: window and activity events, and the
//! accessibility snapshot that may ride along with them.

use vstd::prelude::*;
use vstd::string::*;
use crate::text::{chars_of, push_char, string_from_chars};

verus! {

/// One node of the accessibility tree. `bounding_rect` is `[x, y, width,
/// height]`; `children` keep enumeration order.
#[derive(Debug)]
pub struct UiaElement {
    pub automation_id: String,
    pub name: String,
    pub control_type: String,
    pub class_name: String,
    pub bounding_rect: Option<[i32; 4]>,
    pub is_enabled: bool,
    pub is_offscreen: bool,
    pub patterns: Vec<String>,
    pub value: Option<String>,
    pub toggle_state: Option<String>,
    pub children: Vec<UiaElement>,
}

impl UiaElement {
    pub open spec fn is_blank(&self) -> bool {
        &&& self.automation_id@.len() == 0
        &&& self.name@.len() == 0
        &&& self.control_type@.len() == 0
        &&& self.class_name@.len() == 0
        &&& self.bounding_rect is None
        &&& !self.is_enabled
        &&& !self.is_offscreen
        &&& self.patterns@.len() == 0
        &&& self.value is None
        &&& self.toggle_state is None
        &&& self.children@.len() == 0
    }
}

/// A copy of `e` and of its whole subtree.
pub fn clone_element(e: &UiaElement) -> (r: UiaElement)
    ensures
        r.name@ == e.name@,
        r.automation_id@ == e.automation_id@,
        r.children@.len() == e.children@.len(),
    decreases e,
{
    let mut children: Vec<UiaElement> = Vec::new();
    let mut i: usize = 0;
    while i < e.children.len()
        invariant
            i <= e.children@.len(),
            children@.len() == i,
        decreases e.children@.len() - i,
    {
        assert(decreases_to!(e => e.children));
        assert(decreases_to!(e.children => e.children@));
        assert(decreases_to!(e.children@ => e.children@[i as int]));
        children.push(clone_element(&e.children[i]));
        i = i + 1;
    }
    UiaElement {
        automation_id: e.automation_id.clone(),
        name: e.name.clone(),
        control_type: e.control_type.clone(),
        class_name: e.class_name.clone(),
        bounding_rect: e.bounding_rect,
        is_enabled: e.is_enabled,
        is_offscreen: e.is_offscreen,
        patterns: e.patterns.clone(),
        value: e.value.clone(),
        toggle_state: e.toggle_state.clone(),
        children,
    }
}

impl Clone for UiaElement {
    fn clone(&self) -> (r: Self)
        ensures
            r.name@ == self.name@,
            r.automation_id@ == self.automation_id@,
    {
        clone_element(self)
    }
}

impl Default for UiaElement {
    fn default() -> (r: Self)
        ensures
            r.is_blank(),
    {
        UiaElement {
            automation_id: String::new(),
            name: String::new(),
            control_type: String::new(),
            class_name: String::new(),
            bounding_rect: None,
            is_enabled: false,
            is_offscreen: false,
            patterns: Vec::new(),
            value: None,
            toggle_state: None,
            children: Vec::new(),
        }
    }
}

/// What one accessibility pass observed around the focused element.
#[derive(Debug, Clone)]
pub struct UiaSnapshot {
    pub focused_name: String,
    pub control_type: String,
    pub document_text: String,
    pub focused_element: Option<UiaElement>,
    pub window_tree: Vec<UiaElement>,
}

impl UiaSnapshot {
    /// Every field is empty or absent.
    pub open spec fn is_empty(&self) -> bool {
        &&& self.focused_name@.len() == 0
        &&& self.control_type@.len() == 0
        &&& self.document_text@.len() == 0
        &&& self.focused_element is None
        &&& self.window_tree@.len() == 0
    }
}

impl Default for UiaSnapshot {
    fn default() -> (r: Self)
        ensures
            r.is_empty(),
    {
        UiaSnapshot {
            focused_name: String::new(),
            control_type: String::new(),
            document_text: String::new(),
            focused_element: None,
            window_tree: Vec::new(),
        }
    }
}

/// A window-change or activity event in the envelope sent to the backend.
#[derive(Debug, Clone)]
pub struct WindowEvent {
    pub event_type: String,
    pub hwnd: String,
    pub title: String,
    pub process_exe: String,
    pub pid: u32,
    pub timestamp: String,
    pub source: String,
    pub idle_ms: Option<u64>,
    pub uia: Option<UiaSnapshot>,
    pub screenshot_b64: Option<String>,
}

/// The lowercase hexadecimal digits of `n`, without leading zeros.
pub open spec fn hex_digits(n: nat) -> Seq<char>
    decreases n,
{
    if n < 16 {
        seq![hex_digit(n)]
    } else {
        hex_digits(n / 16).push(hex_digit(n % 16))
    }
}

pub open spec fn hex_digit(d: nat) -> char {
    if d < 10 {
        ((d + 48) as u8) as char
    } else {
        ((d + 87) as u8) as char
    }
}

fn hex_digit_char(d: usize) -> (r: char)
    requires
        d < 16,
    ensures
        r == hex_digit(d as nat),
{
    if d < 10 {
        ((d + 48) as u8) as char
    } else {
        ((d + 87) as u8) as char
    }
}

/// A window handle as text: `0x` and its lowercase hexadecimal digits.
pub fn hwnd_to_hex(hwnd: usize) -> (r: String)
    ensures
        r@ == seq!['0', 'x'] + hex_digits(hwnd as nat),
{
    let mut v = hwnd;
    let mut acc: Vec<char> = Vec::new();
    assert(hex_digits(hwnd as nat) =~= hex_digits(v as nat) + acc@);
    loop
        invariant_except_break
            hex_digits(hwnd as nat) == hex_digits(v as nat) + acc@,
        ensures
            hex_digits(hwnd as nat) == acc@,
        decreases v,
    {
        let c = hex_digit_char(v % 16);
        acc.insert(0, c);
        if v < 16 {
            assert(hex_digits(hwnd as nat) =~= acc@);
            break;
        }
        assert(hex_digits(v as nat) == hex_digits((v / 16) as nat).push(hex_digit((v % 16) as nat)));
        v = v / 16;
        assert(hex_digits(hwnd as nat) =~= hex_digits(v as nat) + acc@);
    }
    let mut out = String::new();
    push_char(&mut out, '0');
    push_char(&mut out, 'x');
    let digits = string_from_chars(&acc);
    let r = out.concat(digits.as_str());
    assert(r@ =~= seq!['0', 'x'] + hex_digits(hwnd as nat));
    r
}

pub open spec fn is_high_surrogate(u: u16) -> bool {
    0xD800 <= u <= 0xDBFF
}

pub open spec fn is_low_surrogate(u: u16) -> bool {
    0xDC00 <= u <= 0xDFFF
}

/// The code points of UTF-16 text, an unpaired surrogate decoding to the
/// replacement character U+FFFD.
pub open spec fn utf16_decode(s: Seq<u16>) -> Seq<u32>
    decreases s.len(),
{
    if s.len() == 0 {
        Seq::<u32>::empty()
    } else if is_high_surrogate(s[0]) && s.len() >= 2 && is_low_surrogate(s[1]) {
        seq![(0x10000 + (s[0] - 0xD800) * 0x400 + (s[1] - 0xDC00)) as u32] + utf16_decode(s.skip(2))
    } else if 0xD800 <= s[0] <= 0xDFFF {
        seq![0xFFFDu32] + utf16_decode(s.skip(1))
    } else {
        seq![s[0] as u32] + utf16_decode(s.skip(1))
    }
}

/// Relies on `char::from_u32`: `Some` exactly for Unicode scalar values,
/// holding the character with that value.
#[verifier::external_body]
fn char_from_u32(v: u32) -> (r: Option<char>)
    ensures
        r is Some <==> (v <= 0x10FFFF && !(0xD800 <= v <= 0xDFFF)),
        r matches Some(c) ==> c as u32 == v,
{
    char::from_u32(v)
}

/// Decodes UTF-16 text as reported by the accessibility interface; unpaired
/// surrogates become U+FFFD.
pub fn bstr_to_string(units: &Vec<u16>) -> (r: String)
    ensures
        r@.len() == utf16_decode(units@).len(),
        forall|i: int| 0 <= i < r@.len() ==> #[trigger] r@[i] as u32 == utf16_decode(units@)[i],
{
    let n = units.len();
    let mut out: Vec<char> = Vec::new();
    let ghost mut codes: Seq<u32> = Seq::empty();
    let mut i: usize = 0;
    assert(units@.skip(0) =~= units@);
    while i < n
        invariant
            n == units@.len(),
            i <= n,
            utf16_decode(units@) == codes + utf16_decode(units@.skip(i as int)),
            out@.len() == codes.len(),
            forall|j: int| 0 <= j < out@.len() ==> #[trigger] out@[j] as u32 == codes[j],
        decreases n - i,
    {
        let u = units[i];
        let ghost rest = units@.skip(i as int);
        assert(rest[0] == u);
        if 0xD800 <= u && u <= 0xDBFF && i + 1 < n && 0xDC00 <= units[i + 1] && units[i + 1] <= 0xDFFF {
            let v: u32 = 0x10000 + (u as u32 - 0xD800) * 0x400 + (units[i + 1] as u32 - 0xDC00);
            assert(rest[1] == units@[i + 1]);
            assert(rest.skip(2) =~= units@.skip(i + 2));
            match char_from_u32(v) {
                Some(c) => out.push(c),
                None => out.push('\u{FFFD}'),
            }
            proof {
                codes = codes.push(v);
                assert(utf16_decode(units@) =~= codes + utf16_decode(units@.skip(i + 2)));
            }
            i = i + 2;
        } else if 0xD800 <= u && u <= 0xDFFF {
            assert(rest.skip(1) =~= units@.skip(i + 1));
            out.push('\u{FFFD}');
            proof {
                codes = codes.push(0xFFFDu32);
                assert(utf16_decode(units@) =~= codes + utf16_decode(units@.skip(i + 1)));
            }
            i = i + 1;
        } else {
            assert(rest.skip(1) =~= units@.skip(i + 1));
            match char_from_u32(u as u32) {
                Some(c) => out.push(c),
                None => out.push('\u{FFFD}'),
            }
            proof {
                codes = codes.push(u as u32);
                assert(utf16_decode(units@) =~= codes + utf16_decode(units@.skip(i + 1)));
            }
            i = i + 1;
        }
    }
    assert(units@.skip(n as int) =~= Seq::<u16>::empty());
    assert(utf16_decode(units@) =~= codes);
    string_from_chars(&out)
}

/// The UTF-16 code units of one character: one unit below U+10000, else a
/// surrogate pair.
pub open spec fn utf16_of_char(v: u32) -> Seq<u16> {
    if v < 0x10000 {
        seq![v as u16]
    } else {
        seq![(0xD800 + (v - 0x10000) / 0x400) as u16, (0xDC00 + (v - 0x10000) % 0x400) as u16]
    }
}

/// The UTF-16 code units of a text.
pub open spec fn utf16_encode(s: Seq<char>) -> Seq<u16>
    decreases s.len(),
{
    if s.len() == 0 {
        Seq::<u16>::empty()
    } else {
        utf16_of_char(s[0] as u32) + utf16_encode(s.skip(1))
    }
}

pub open spec fn is_scalar_value(v: u32) -> bool {
    v <= 0x10FFFF && !(0xD800 <= v <= 0xDFFF)
}

proof fn lemma_encode_append(s: Seq<char>, c: char)
    ensures
        utf16_encode(s.push(c)) == utf16_encode(s) + utf16_of_char(c as u32),
    decreases s.len(),
{
    if s.len() == 0 {
        assert(s.push(c).skip(1) =~= Seq::<char>::empty());
        assert(s.push(c)[0] == c);
        assert(utf16_encode(Seq::<char>::empty()) =~= Seq::<u16>::empty());
        assert(utf16_encode(s) =~= Seq::<u16>::empty());
        assert(utf16_encode(s.push(c)) =~= utf16_of_char(c as u32) + utf16_encode(Seq::<char>::empty()));
    } else {
        lemma_encode_append(s.skip(1), c);
        assert(s.push(c).skip(1) =~= s.skip(1).push(c));
        assert(utf16_encode(s.push(c)) =~= utf16_encode(s) + utf16_of_char(c as u32));
    }
}

/// The code units typed for a text, one character after another.
pub fn utf16_units(text: &str) -> (r: Vec<u16>)
    ensures
        r@ == utf16_encode(text@),
{
    let cs = chars_of(text);
    let mut out: Vec<u16> = Vec::new();
    let mut i: usize = 0;
    assert(cs@.take(0) =~= Seq::<char>::empty());
    while i < cs.len()
        invariant
            i <= cs@.len(),
            out@ == utf16_encode(cs@.take(i as int)),
        decreases cs@.len() - i,
    {
        let v = cs[i] as u32;
        proof {
            lemma_encode_append(cs@.take(i as int), cs@[i as int]);
            assert(cs@.take(i + 1) =~= cs@.take(i as int).push(cs@[i as int]));
        }
        if v < 0x10000 {
            out.push(v as u16);
            assert(out@ =~= utf16_encode(cs@.take(i as int)) + utf16_of_char(v));
        } else {
            assert(v - 0x10000 <= 0xFFFF_FFFF);
            let hi = 0xD800 + (v - 0x10000) / 0x400;
            let lo = 0xDC00 + (v - 0x10000) % 0x400;
            out.push(hi as u16);
            out.push(lo as u16);
            assert(out@ =~= utf16_encode(cs@.take(i as int)) + utf16_of_char(v));
        }
        i = i + 1;
    }
    assert(cs@.take(cs@.len() as int) =~= text@);
    out
}

/// Decoding the UTF-16 units of a text gives back its characters.
pub proof fn lemma_utf16_round_trip(s: Seq<char>)
    requires
        forall|i: int| 0 <= i < s.len() ==> is_scalar_value(#[trigger] s[i] as u32),
    ensures
        utf16_decode(utf16_encode(s)) == s.map_values(|c: char| c as u32),
    decreases s.len(),
{
    if s.len() > 0 {
        let rest = s.skip(1);
        assert forall|i: int| 0 <= i < rest.len() implies is_scalar_value(#[trigger] rest[i] as u32) by {
            assert(rest[i] == s[i + 1]);
        }
        lemma_utf16_round_trip(rest);
        let v = s[0] as u32;
        assert(is_scalar_value(s[0] as u32));
        let units = utf16_of_char(v);
        let all = units + utf16_encode(rest);
        assert(utf16_encode(s) == all);
        if v < 0x10000 {
            assert(all[0] == v as u16);
            assert(all.skip(1) =~= utf16_encode(rest));
        } else {
            let hi = (0xD800 + (v - 0x10000) / 0x400) as u16;
            let lo = (0xDC00 + (v - 0x10000) % 0x400) as u16;
            assert(0xD800 <= hi <= 0xDBFF);
            assert(0xDC00 <= lo <= 0xDFFF);
            assert(all[0] == hi && all[1] == lo);
            assert(all.skip(2) =~= utf16_encode(rest));
            assert((0x10000 + (hi - 0xD800) * 0x400 + (lo - 0xDC00)) == v);
        }
        assert(s.map_values(|c: char| c as u32) =~= seq![v] + rest.map_values(|c: char| c as u32));
    }
}

/// An idle or active event: no window identity (handle `0x0`, empty title
/// and process, pid 0), the idle time, from the collector.
pub fn build_activity_event(event_type: &str, idle_ms: u64, timestamp: String) -> (r: WindowEvent)
    ensures
        r.event_type@ == event_type@,
        r.hwnd@ == "0x0"@,
        r.title@.len() == 0,
        r.process_exe@.len() == 0,
        r.pid == 0,
        r.timestamp == timestamp,
        r.source@ == "collector"@,
        r.idle_ms == Some(idle_ms),
        r.uia is None,
        r.screenshot_b64 is None,
{
    WindowEvent {
        event_type: String::from_str(event_type),
        hwnd: String::from_str("0x0"),
        title: String::new(),
        process_exe: String::new(),
        pid: 0,
        timestamp,
        source: String::from_str("collector"),
        idle_ms: Some(idle_ms),
        uia: None,
        screenshot_b64: None,
    }
}

/// A foreground-window event, or `None` for the null handle. It carries the
/// window's identity and never an idle time; the process path is left empty
/// when the owning process is unknown (pid 0).
pub fn build_event(
    hwnd: usize,
    title: String,
    pid: u32,
    process_exe: String,
    timestamp: String,
    uia: Option<UiaSnapshot>,
    screenshot_b64: Option<String>,
) -> (r: Option<WindowEvent>)
    ensures
        hwnd == 0 ==> r is None,
        hwnd != 0 ==> (r matches Some(e) && {
            &&& e.event_type@ == "foreground"@
            &&& e.hwnd@ == seq!['0', 'x'] + hex_digits(hwnd as nat)
            &&& e.title == title
            &&& e.pid == pid
            &&& (pid == 0 ==> e.process_exe@.len() == 0)
            &&& (pid != 0 ==> e.process_exe == process_exe)
            &&& e.timestamp == timestamp
            &&& e.source@ == "collector"@
            &&& e.idle_ms is None
            &&& e.uia == uia
            &&& e.screenshot_b64 == screenshot_b64
        }),
{
    if hwnd == 0 {
        return None;
    }
    Some(WindowEvent {
        event_type: String::from_str("foreground"),
        hwnd: hwnd_to_hex(hwnd),
        title,
        process_exe: if pid == 0 { String::new() } else { process_exe },
        pid,
        timestamp,
        source: String::from_str("collector"),
        idle_ms: None,
        uia,
        screenshot_b64,
    })
}

} // verus!
