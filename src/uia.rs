//! Accessibility snapshots: the throttle in front of the tree walk, text
//! clean-up, defensive construction of tree nodes, and the final collapse of
//! a snapshot that observed nothing.

use vstd::prelude::*;
use vstd::string::*;
use crate::config::Config;
use crate::event::{UiaElement, UiaSnapshot};
use crate::text::{chars_of, string_from_chars};

verus! {

/// Children materialized under one node, at most.
pub const MAX_CHILDREN: usize = 20;

/// When the last snapshot was let through, on a monotonic clock in
/// milliseconds; `None` before the first one.
#[derive(Debug, Clone, Copy, PartialEq, Eq, Structural)]
pub struct ThrottleGate {
    pub last_ms: Option<u64>,
}

/// Milliseconds from `last` to `now`; zero if the clock reads earlier.
pub open spec fn elapsed(now: u64, last: u64) -> int {
    if now >= last { now - last } else { 0 }
}

pub open spec fn throttle_allows(gate: ThrottleGate, now_ms: u64, throttle_ms: u64) -> bool {
    match gate.last_ms {
        None => true,
        Some(last) => elapsed(now_ms, last) >= throttle_ms,
    }
}

impl ThrottleGate {
    pub fn new() -> (r: ThrottleGate)
        ensures
            r.last_ms is None,
    {
        ThrottleGate { last_ms: None }
    }
}

/// Lets a snapshot through when none has been let through yet, or the last
/// one is at least `throttle_ms` old; a pass records `now_ms`.
pub fn allow_uia_snapshot(gate: &mut ThrottleGate, now_ms: u64, throttle_ms: u64) -> (r: bool)
    ensures
        r == throttle_allows(*old(gate), now_ms, throttle_ms),
        r ==> final(gate).last_ms == Some(now_ms),
        !r ==> *final(gate) == *old(gate),
{
    let ok = match gate.last_ms {
        None => true,
        Some(last) => {
            let e = if now_ms >= last { now_ms - last } else { 0 };
            e >= throttle_ms
        },
    };
    if ok {
        gate.last_ms = Some(now_ms);
    }
    ok
}

/// Whether a snapshot is taken now: the feature is on and the throttle lets
/// it through. When the feature is off the throttle is left untouched.
pub fn snapshot_due(config: &Config, gate: &mut ThrottleGate, now_ms: u64) -> (r: bool)
    ensures
        r == (config.uia_enabled && throttle_allows(*old(gate), now_ms, config.uia_throttle_ms)),
        r ==> final(gate).last_ms == Some(now_ms),
        !r ==> *final(gate) == *old(gate),
{
    if !config.uia_enabled {
        return false;
    }
    allow_uia_snapshot(gate, now_ms, config.uia_throttle_ms)
}

/// Unicode white space, as `char::is_whitespace` classifies it.
pub open spec fn is_ws(c: char) -> bool {
    let v = c as u32;
    (0x09 <= v <= 0x0D) || v == 0x20 || v == 0x85 || v == 0xA0 || v == 0x1680 || (0x2000 <= v
        <= 0x200A) || v == 0x2028 || v == 0x2029 || v == 0x202F || v == 0x205F || v == 0x3000
}

/// Reads `s` left to right: runs of white space become one space between
/// words, and none is kept at either end. The flag says whether white space
/// has been seen since the last word.
pub open spec fn squeeze_state(s: Seq<char>) -> (Seq<char>, bool)
    decreases s.len(),
{
    if s.len() == 0 {
        (Seq::<char>::empty(), false)
    } else {
        let prev = squeeze_state(s.drop_last());
        let c = s.last();
        if is_ws(c) {
            (prev.0, true)
        } else if prev.1 && prev.0.len() > 0 {
            (prev.0.push(' ').push(c), false)
        } else {
            (prev.0.push(c), false)
        }
    }
}

pub open spec fn squeeze(s: Seq<char>) -> Seq<char> {
    squeeze_state(s).0
}

pub fn is_whitespace_char(c: char) -> (r: bool)
    ensures
        r == is_ws(c),
{
    let v = c as u32;
    (0x09 <= v && v <= 0x0D) || v == 0x20 || v == 0x85 || v == 0xA0 || v == 0x1680 || (0x2000
        <= v && v <= 0x200A) || v == 0x2028 || v == 0x2029 || v == 0x202F || v == 0x205F || v
        == 0x3000
}

/// The text of a document range as reported: white space collapsed to single
/// spaces, nothing at either end, cut to `max_len` characters. `None` when
/// no word is left.
pub fn extract_document_text(raw: &str, max_len: usize) -> (r: Option<String>)
    ensures
        squeeze(raw@).len() == 0 ==> r is None,
        squeeze(raw@).len() > 0 ==> (r matches Some(t) && t@ == squeeze(raw@).take(
            if squeeze(raw@).len() <= max_len { squeeze(raw@).len() as int } else { max_len as int },
        )),
{
    let cs = chars_of(raw);
    let mut out: Vec<char> = Vec::new();
    let mut pending = false;
    let mut i: usize = 0;
    assert(cs@.subrange(0, 0) =~= Seq::<char>::empty());
    while i < cs.len()
        invariant
            i <= cs@.len(),
            squeeze_state(cs@.subrange(0, i as int)) == (out@, pending),
        decreases cs@.len() - i,
    {
        let c = cs[i];
        assert(cs@.subrange(0, i + 1).drop_last() =~= cs@.subrange(0, i as int));
        if is_whitespace_char(c) {
            pending = true;
        } else {
            if pending && out.len() > 0 {
                out.push(' ');
            }
            out.push(c);
            pending = false;
        }
        i = i + 1;
    }
    assert(cs@.subrange(0, cs@.len() as int) =~= raw@);
    if out.len() == 0 {
        return None;
    }
    let keep = if out.len() <= max_len { out.len() } else { max_len };
    let mut kept: Vec<char> = Vec::new();
    let mut j: usize = 0;
    while j < keep
        invariant
            keep <= out@.len(),
            j <= keep,
            kept@ =~= out@.take(j as int),
        decreases keep - j,
    {
        kept.push(out[j]);
        j = j + 1;
    }
    Some(string_from_chars(&kept))
}

/// The cleaned text of a raw range: collapsed and cut as
/// `extract_document_text` does, empty when nothing is left.
pub open spec fn cleaned(raw: Option<Seq<char>>, max_len: int) -> Seq<char> {
    match raw {
        Some(t) => if squeeze(t).len() == 0 {
            Seq::<char>::empty()
        } else {
            squeeze(t).take(if squeeze(t).len() <= max_len { squeeze(t).len() as int } else { max_len })
        },
        None => Seq::<char>::empty(),
    }
}

pub open spec fn str_opt_view(s: Option<&str>) -> Option<Seq<char>> {
    match s {
        Some(t) => Some(t@),
        None => None,
    }
}

/// The document text of a snapshot: the focused element's text when it has
/// any, else the window root's, else empty.
pub fn document_text(focused_raw: Option<&str>, root_raw: Option<&str>, max_len: usize) -> (r: String)
    ensures
        r@ == if cleaned(str_opt_view(focused_raw), max_len as int).len() > 0 {
            cleaned(str_opt_view(focused_raw), max_len as int)
        } else {
            cleaned(str_opt_view(root_raw), max_len as int)
        },
{
    let first = match focused_raw {
        Some(f) => extract_document_text(f, max_len),
        None => None,
    };
    match first {
        Some(t) => {
            if t.unicode_len() > 0 {
                return t;
            }
        },
        None => {},
    }
    match root_raw {
        Some(r) => match extract_document_text(r, max_len) {
            Some(t) => t,
            None => String::new(),
        },
        None => String::new(),
    }
}

/// What the accessibility interface reported for one element. `None` marks a
/// read that failed. A supported pattern is `Some`, holding the value it
/// reported when that read succeeded.
#[derive(Debug, Clone)]
pub struct ElementProbe {
    pub automation_id: Option<String>,
    pub name: Option<String>,
    pub control_type: Option<String>,
    pub class_name: Option<String>,
    /// left, top, right, bottom
    pub rect: Option<(i32, i32, i32, i32)>,
    pub is_enabled: Option<bool>,
    pub is_offscreen: Option<bool>,
    pub value_pattern: Option<Option<String>>,
    pub toggle_pattern: Option<Option<i32>>,
    pub invoke_pattern: bool,
}

pub open spec fn text_or_empty(s: Option<String>) -> Seq<char> {
    match s {
        Some(t) => t@,
        None => Seq::<char>::empty(),
    }
}

/// `[x, y, width, height]` of a rectangle, when width and height fit.
pub open spec fn rect_spec(rect: Option<(i32, i32, i32, i32)>) -> Option<[i32; 4]> {
    match rect {
        Some((l, t, r, b)) => if i32::MIN <= r - l <= i32::MAX && i32::MIN <= b - t <= i32::MAX {
            Some([l, t, (r - l) as i32, (b - t) as i32])
        } else {
            None
        },
        None => None,
    }
}

pub open spec fn toggle_name(code: i32) -> Seq<char> {
    if code == 0 {
        "Off"@
    } else if code == 1 {
        "On"@
    } else if code == 2 {
        "Indeterminate"@
    } else {
        "Unknown"@
    }
}

pub open spec fn pattern_names(p: ElementProbe) -> Seq<Seq<char>> {
    (if p.value_pattern is Some { seq!["Value"@] } else { Seq::<Seq<char>>::empty() }) + (
    if p.toggle_pattern is Some {
        seq!["Toggle"@]
    } else {
        Seq::<Seq<char>>::empty()
    }) + (if p.invoke_pattern { seq!["Invoke"@] } else { Seq::<Seq<char>>::empty() })
}

pub open spec fn strings_view(v: Seq<String>) -> Seq<Seq<char>> {
    v.map_values(|s: String| s@)
}

fn text_or_default(s: &Option<String>) -> (r: String)
    ensures
        r@ == text_or_empty(*s),
{
    match s {
        Some(t) => t.clone(),
        None => String::new(),
    }
}

/// The `[x, y, width, height]` form of a reported rectangle.
pub fn rect_to_xywh(rect: Option<(i32, i32, i32, i32)>) -> (r: Option<[i32; 4]>)
    ensures
        r == rect_spec(rect),
{
    match rect {
        Some((l, t, rr, b)) => {
            let w = rr as i64 - l as i64;
            let h = b as i64 - t as i64;
            if i32::MIN as i64 <= w && w <= i32::MAX as i64 && i32::MIN as i64 <= h && h
                <= i32::MAX as i64 {
                Some([l, t, w as i32, h as i32])
            } else {
                None
            }
        },
        None => None,
    }
}

/// The name of a toggle state code.
pub fn toggle_state_name(code: i32) -> (r: String)
    ensures
        r@ == toggle_name(code),
{
    if code == 0 {
        String::from_str("Off")
    } else if code == 1 {
        String::from_str("On")
    } else if code == 2 {
        String::from_str("Indeterminate")
    } else {
        String::from_str("Unknown")
    }
}

/// How many children a node at `depth` keeps of `n` built: none at the
/// depth limit, else at most `MAX_CHILDREN`, first ones first.
pub open spec fn kept_children(depth: int, max_depth: int, n: int) -> int {
    if depth >= max_depth {
        0
    } else if n <= MAX_CHILDREN {
        n
    } else {
        MAX_CHILDREN as int
    }
}

/// The tree under `e` is at most `levels` deep, and no node in it has more
/// than `MAX_CHILDREN` children.
pub open spec fn tree_within(e: UiaElement, levels: nat) -> bool
    decreases levels,
{
    if levels == 0 {
        e.children@.len() == 0
    } else {
        &&& e.children@.len() <= MAX_CHILDREN
        &&& forall|i: int| 0 <= i < e.children@.len() ==> tree_within(#[trigger] e.children@[i], (levels - 1) as nat)
    }
}

/// A tree node from what was read of an element, with its children already
/// built. Failed reads fall back to defaults: empty text, no rectangle,
/// enabled, on screen.
pub fn build_uia_element(probe: &ElementProbe, depth: usize, max_depth: usize, children: Vec<UiaElement>) -> (r: UiaElement)
    ensures
        r.automation_id@ == text_or_empty(probe.automation_id),
        r.name@ == text_or_empty(probe.name),
        r.control_type@ == text_or_empty(probe.control_type),
        r.class_name@ == text_or_empty(probe.class_name),
        r.bounding_rect == rect_spec(probe.rect),
        r.is_enabled == match probe.is_enabled {
            Some(b) => b,
            None => true,
        },
        r.is_offscreen == match probe.is_offscreen {
            Some(b) => b,
            None => false,
        },
        strings_view(r.patterns@) == pattern_names(*probe),
        match probe.value_pattern {
            Some(Some(v)) => r.value matches Some(s) && s@ == v@,
            _ => r.value is None,
        },
        match probe.toggle_pattern {
            Some(Some(code)) => r.toggle_state matches Some(s) && s@ == toggle_name(code),
            _ => r.toggle_state is None,
        },
        r.children@ == children@.take(kept_children(depth as int, max_depth as int, children@.len() as int)),
        r.children@.len() <= MAX_CHILDREN,
        depth >= max_depth ==> r.children@.len() == 0,
        depth <= max_depth && (depth < max_depth ==> forall|i: int|
            0 <= i < children@.len() ==> tree_within(#[trigger] children@[i], (max_depth - depth - 1) as nat))
            ==> tree_within(r, (max_depth - depth) as nat),
{
    let mut children = children;
    let keep: usize = if depth >= max_depth {
        0
    } else if children.len() <= MAX_CHILDREN {
        children.len()
    } else {
        MAX_CHILDREN
    };
    let ghost given = children@;
    children.truncate(keep);
    assert(children@ =~= given.take(keep as int));
    let mut patterns: Vec<String> = Vec::new();
    let mut value: Option<String> = None;
    let mut toggle_state: Option<String> = None;
    match &probe.value_pattern {
        Some(v) => {
            patterns.push(String::from_str("Value"));
            value = match v {
                Some(s) => Some(s.clone()),
                None => None,
            };
        },
        None => {},
    }
    let ghost after_value = patterns@;
    match &probe.toggle_pattern {
        Some(t) => {
            patterns.push(String::from_str("Toggle"));
            toggle_state = match t {
                Some(code) => Some(toggle_state_name(*code)),
                None => None,
            };
        },
        None => {},
    }
    if probe.invoke_pattern {
        patterns.push(String::from_str("Invoke"));
    }
    assert(strings_view(patterns@) =~= pattern_names(*probe));
    UiaElement {
        automation_id: text_or_default(&probe.automation_id),
        name: text_or_default(&probe.name),
        control_type: text_or_default(&probe.control_type),
        class_name: text_or_default(&probe.class_name),
        bounding_rect: rect_to_xywh(probe.rect),
        is_enabled: match probe.is_enabled {
            Some(b) => b,
            None => true,
        },
        is_offscreen: match probe.is_offscreen {
            Some(b) => b,
            None => false,
        },
        patterns,
        value,
        toggle_state,
        children,
    }
}

/// How many of `available` children to walk under a node at `depth`: none
/// at the depth limit, else at most `MAX_CHILDREN`.
pub fn child_budget(depth: usize, max_depth: usize, available: i32) -> (r: usize)
    ensures
        depth >= max_depth ==> r == 0,
        depth < max_depth ==> r as int == if available <= 0 {
            0
        } else if available >= MAX_CHILDREN {
            MAX_CHILDREN as int
        } else {
            available as int
        },
{
    if depth >= max_depth || available <= 0 {
        0
    } else if available as i64 >= MAX_CHILDREN as i64 {
        MAX_CHILDREN
    } else {
        available as usize
    }
}

/// The snapshot itself, or `None` when every field is empty or absent.
pub fn finish_snapshot(snapshot: UiaSnapshot) -> (r: Option<UiaSnapshot>)
    ensures
        snapshot.is_empty() ==> r is None,
        !snapshot.is_empty() ==> r == Some(snapshot),
{
    if snapshot.focused_name.unicode_len() == 0 && snapshot.control_type.unicode_len() == 0
        && snapshot.document_text.unicode_len() == 0 && snapshot.focused_element.is_none()
        && snapshot.window_tree.len() == 0 {
        None
    } else {
        Some(snapshot)
    }
}

/// Puts a snapshot together from what the walk produced: failed reads give
/// empty text, the window root (if built) is the one tree of `window_tree`,
/// and a snapshot that observed nothing collapses to `None`.
pub fn assemble_snapshot(
    focused_name: Option<String>,
    control_type: Option<String>,
    document_text: String,
    focused_element: Option<UiaElement>,
    window_root: Option<UiaElement>,
) -> (r: Option<UiaSnapshot>)
    ensures
        r is None <==> (text_or_empty(focused_name).len() == 0 && text_or_empty(control_type).len()
            == 0 && document_text@.len() == 0 && focused_element is None && window_root is None),
        r matches Some(s) ==> {
            &&& s.focused_name@ == text_or_empty(focused_name)
            &&& s.control_type@ == text_or_empty(control_type)
            &&& s.document_text@ == document_text@
            &&& s.focused_element == focused_element
            &&& s.window_tree@ == match window_root {
                Some(w) => seq![w],
                None => Seq::<UiaElement>::empty(),
            }
        },
{
    let mut window_tree: Vec<UiaElement> = Vec::new();
    match window_root {
        Some(w) => window_tree.push(w),
        None => {},
    }
    let snapshot = UiaSnapshot {
        focused_name: text_or_default(&focused_name),
        control_type: text_or_default(&control_type),
        document_text,
        focused_element,
        window_tree,
    };
    finish_snapshot(snapshot)
}

} // verus!
