//! Process-wide tunables, read once at startup and then only shared.

use vstd::prelude::*;
use crate::text::{chars_eq_str, chars_of, lower_of, lowercase_chars};
use crate::uia::{is_whitespace_char, is_ws};

verus! {

/// Durations are in milliseconds. `detection_confidence` is in millionths.
#[derive(Debug, Clone)]
pub struct Config {
    pub ws_url: String,
    pub http_url: String,
    pub ws_retry_ms: u64,
    pub idle_enabled: bool,
    pub idle_threshold_ms: u64,
    pub idle_poll_ms: u64,
    pub uia_enabled: bool,
    pub uia_throttle_ms: u64,
    pub uia_text_max: usize,
    pub uia_max_depth: usize,
    pub enable_screenshot: bool,
    pub screenshot_max_width: u32,
    pub screenshot_max_height: u32,
    pub screenshot_quality: u8,
    pub command_enabled: bool,
    pub screenshot_format: String,
    pub uia_cache_ttl_ms: u64,
    pub ws_reconnect_max_ms: u64,
    pub detection_enabled: bool,
    pub detection_model_path: String,
    pub detection_confidence: u32,
}

/// `s` without white space at its start.
pub open spec fn trim_start(s: Seq<char>) -> Seq<char>
    decreases s.len(),
{
    if s.len() > 0 && is_ws(s[0]) {
        trim_start(s.drop_first())
    } else {
        s
    }
}

/// `s` without white space at its end.
pub open spec fn trim_end(s: Seq<char>) -> Seq<char>
    decreases s.len(),
{
    if s.len() > 0 && is_ws(s.last()) {
        trim_end(s.drop_last())
    } else {
        s
    }
}

pub open spec fn trim(s: Seq<char>) -> Seq<char> {
    trim_end(trim_start(s))
}

/// The value of a switch setting: `1`, `true`, `yes`, `on` turn it on,
/// `0`, `false`, `no`, `off` turn it off, in any letter case and with white
/// space around; anything else, or no value, leaves `default`.
pub open spec fn flag_spec(raw: Option<Seq<char>>, default: bool) -> bool {
    match raw {
        None => default,
        Some(v) => {
            let t = lower_of(trim(v));
            if t == "1"@ || t == "true"@ || t == "yes"@ || t == "on"@ {
                true
            } else if t == "0"@ || t == "false"@ || t == "no"@ || t == "off"@ {
                false
            } else {
                default
            }
        },
    }
}

/// The characters of `s` without white space at either end.
pub fn trim_chars(s: &Vec<char>) -> (r: Vec<char>)
    ensures
        r@ == trim(s@),
{
    let n = s.len();
    let mut a: usize = 0;
    assert(s@.subrange(0, n as int) =~= s@);
    while a < n && is_whitespace_char(s[a])
        invariant
            a <= n,
            n == s@.len(),
            trim_start(s@) == trim_start(s@.subrange(a as int, n as int)),
        decreases n - a,
    {
        assert(s@.subrange(a as int, n as int).drop_first() =~= s@.subrange(a + 1, n as int));
        a = a + 1;
    }
    let mut b: usize = n;
    assert(trim_start(s@) =~= s@.subrange(a as int, b as int));
    while b > a && is_whitespace_char(s[b - 1])
        invariant
            a <= b <= n,
            n == s@.len(),
            trim(s@) == trim_end(s@.subrange(a as int, b as int)),
        decreases b,
    {
        assert(s@.subrange(a as int, b as int).drop_last() =~= s@.subrange(a as int, b - 1));
        b = b - 1;
    }
    let mut out: Vec<char> = Vec::new();
    let mut i: usize = a;
    while i < b
        invariant
            a <= i <= b,
            b <= n,
            n == s@.len(),
            out@ =~= s@.subrange(a as int, i as int),
        decreases b - i,
    {
        out.push(s[i]);
        i = i + 1;
    }
    out
}

/// Reads a switch setting; see `flag_spec`.
pub fn parse_flag(raw: Option<&str>, default: bool) -> (r: bool)
    ensures
        r == flag_spec(
            match raw {
                Some(v) => Some(v@),
                None => None,
            },
            default,
        ),
{
    match raw {
        None => default,
        Some(v) => {
            let t = lowercase_chars(&trim_chars(&chars_of(v)));
            if chars_eq_str(&t, "1") || chars_eq_str(&t, "true") || chars_eq_str(&t, "yes")
                || chars_eq_str(&t, "on") {
                true
            } else if chars_eq_str(&t, "0") || chars_eq_str(&t, "false") || chars_eq_str(&t, "no")
                || chars_eq_str(&t, "off") {
                false
            } else {
                default
            }
        },
    }
}

pub open spec fn is_digit(c: char) -> bool {
    '0' as u32 <= c as u32 <= '9' as u32
}

/// The number written by decimal digits.
pub open spec fn digits_value(s: Seq<char>) -> int
    decreases s.len(),
{
    if s.len() == 0 {
        0
    } else {
        10 * digits_value(s.drop_last()) + (s.last() as u32 - '0' as u32)
    }
}

pub open spec fn all_digits(s: Seq<char>) -> bool {
    forall|i: int| 0 <= i < s.len() ==> is_digit(#[trigger] s[i])
}

/// An unsigned decimal number as the standard integer parsers read it: an
/// optional `+`, then one or more digits, of value at most `max`.
pub open spec fn unsigned_spec(s: Seq<char>, max: int) -> Option<int> {
    let body = if s.len() > 0 && s[0] == '+' { s.drop_first() } else { s };
    if body.len() > 0 && all_digits(body) && digits_value(body) <= max {
        Some(digits_value(body))
    } else {
        None
    }
}

proof fn lemma_digits_nonneg(s: Seq<char>)
    requires
        all_digits(s),
    ensures
        digits_value(s) >= 0,
    decreases s.len(),
{
    if s.len() > 0 {
        assert(all_digits(s.drop_last()));
        lemma_digits_nonneg(s.drop_last());
        assert(is_digit(s[s.len() - 1]));
    }
}

proof fn lemma_digits_grow(s: Seq<char>, i: int)
    requires
        all_digits(s),
        0 <= i <= s.len(),
    ensures
        digits_value(s.subrange(0, i)) <= digits_value(s),
    decreases s.len() - i,
{
    if i < s.len() {
        lemma_digits_grow(s, i + 1);
        let p = s.subrange(0, i + 1);
        assert(p.drop_last() =~= s.subrange(0, i));
        assert(is_digit(s[i]));
        assert(all_digits(s.subrange(0, i)));
        lemma_digits_nonneg(s.subrange(0, i));
    } else {
        assert(s.subrange(0, i) =~= s);
    }
}

/// Reads an unsigned decimal setting no larger than `max`; `None` when the
/// text is not such a number.
pub fn parse_unsigned(raw: &str, max: u64) -> (r: Option<u64>)
    ensures
        match unsigned_spec(raw@, max as int) {
            Some(v) => r matches Some(x) && x as int == v && x <= max,
            None => r is None,
        },
{
    let cs = chars_of(raw);
    let start: usize = if cs.len() > 0 && cs[0] == '+' { 1 } else { 0 };
    let ghost body = if raw@.len() > 0 && raw@[0] == '+' { raw@.drop_first() } else { raw@ };
    assert(body =~= cs@.subrange(start as int, cs@.len() as int));
    assert(unsigned_spec(raw@, max as int) == (if body.len() > 0 && all_digits(body) && digits_value(body) <= max {
        Some(digits_value(body))
    } else {
        None
    }));
    if cs.len() == start {
        return None;
    }
    let mut v: u64 = 0;
    let mut i: usize = start;
    while i < cs.len()
        invariant
            start <= i <= cs@.len(),
            body == cs@.subrange(start as int, cs@.len() as int),
            body.len() > 0,
            unsigned_spec(raw@, max as int) == (if body.len() > 0 && all_digits(body) && digits_value(body) <= max {
                Some(digits_value(body))
            } else {
                None
            }),
            all_digits(cs@.subrange(start as int, i as int)),
            v as int == digits_value(cs@.subrange(start as int, i as int)),
            v <= max,
        decreases cs@.len() - i,
    {
        let c = cs[i];
        assert(cs@.subrange(start as int, i + 1).drop_last() =~= cs@.subrange(start as int, i as int));
        if !('0' as u32 <= c as u32 && c as u32 <= '9' as u32) {
            assert(body[i - start] == c);
            assert(!is_digit(body[i - start]));
            assert(!all_digits(body));
            return None;
        }
        let d = (c as u32 - '0' as u32) as u64;
        if d > max || v > (max - d) / 10 {
            proof {
                assert(v * 10 + d > max) by (nonlinear_arith)
                    requires
                        d > max || v > (max - d) / 10,
                ;
                let pre = cs@.subrange(start as int, i + 1);
                assert(pre.last() == c);
                assert(digits_value(pre) == 10 * v + d);
                if all_digits(body) {
                    lemma_digits_grow(body, i + 1 - start);
                    assert(body.subrange(0, i + 1 - start) =~= pre);
                }
            }
            return None;
        }
        assert(v * 10 + d <= max) by (nonlinear_arith)
            requires
                d <= max,
                v <= (max - d) / 10,
        ;
        v = v * 10 + d;
        proof {
            let pre = cs@.subrange(start as int, i + 1);
            assert(pre.last() == c);
            assert forall|k: int| 0 <= k < pre.len() implies is_digit(#[trigger] pre[k]) by {
                if k < pre.len() - 1 {
                    assert(pre[k] == cs@.subrange(start as int, i as int)[k]);
                }
            }
        }
        i = i + 1;
    }
    assert(cs@.subrange(start as int, cs@.len() as int) == body);
    Some(v)
}

/// The raw text of each setting as the environment gave it; `None` where
/// it is unset.
#[derive(Debug, Clone)]
pub struct RawSettings {
    pub ws_url: Option<String>,
    pub http_url: Option<String>,
    pub ws_retry_seconds: Option<String>,
    pub idle_enabled: Option<String>,
    pub idle_threshold_ms: Option<String>,
    pub idle_poll_ms: Option<String>,
    pub uia_enabled: Option<String>,
    pub uia_throttle_ms: Option<String>,
    pub uia_text_max_chars: Option<String>,
    pub uia_max_depth: Option<String>,
    pub enable_screenshot: Option<String>,
    pub screenshot_max_width: Option<String>,
    pub screenshot_max_height: Option<String>,
    pub screenshot_quality: Option<String>,
    pub command_enabled: Option<String>,
    pub screenshot_format: Option<String>,
    pub uia_cache_ttl_ms: Option<String>,
    pub ws_reconnect_max_ms: Option<String>,
    pub detection_enabled: Option<String>,
    pub detection_model_path: Option<String>,
}

impl RawSettings {
    /// Nothing set.
    pub fn empty() -> (r: RawSettings)
        ensures
            r.ws_url is None && r.http_url is None && r.ws_retry_seconds is None && r.idle_enabled is None
                && r.idle_threshold_ms is None && r.idle_poll_ms is None && r.uia_enabled is None
                && r.uia_throttle_ms is None && r.uia_text_max_chars is None && r.uia_max_depth is None
                && r.enable_screenshot is None && r.screenshot_max_width is None
                && r.screenshot_max_height is None && r.screenshot_quality is None
                && r.command_enabled is None && r.screenshot_format is None && r.uia_cache_ttl_ms is None
                && r.ws_reconnect_max_ms is None && r.detection_enabled is None
                && r.detection_model_path is None,
    {
        RawSettings {
            ws_url: None,
            http_url: None,
            ws_retry_seconds: None,
            idle_enabled: None,
            idle_threshold_ms: None,
            idle_poll_ms: None,
            uia_enabled: None,
            uia_throttle_ms: None,
            uia_text_max_chars: None,
            uia_max_depth: None,
            enable_screenshot: None,
            screenshot_max_width: None,
            screenshot_max_height: None,
            screenshot_quality: None,
            command_enabled: None,
            screenshot_format: None,
            uia_cache_ttl_ms: None,
            ws_reconnect_max_ms: None,
            detection_enabled: None,
            detection_model_path: None,
        }
    }
}

pub open spec fn opt_view(s: Option<String>) -> Option<Seq<char>> {
    match s {
        Some(t) => Some(t@),
        None => None,
    }
}

/// A number setting: the value when it reads as a number no larger than
/// `max`, else `default`.
pub open spec fn number_setting(raw: Option<String>, max: int, default: int) -> int {
    match raw {
        Some(t) => match unsigned_spec(t@, max) {
            Some(v) => v,
            None => default,
        },
        None => default,
    }
}

pub open spec fn text_setting(raw: Option<String>, default: Seq<char>) -> Seq<char> {
    match raw {
        Some(t) => t@,
        None => default,
    }
}

fn flag_setting(raw: &Option<String>, default: bool) -> (r: bool)
    ensures
        r == flag_spec(opt_view(*raw), default),
{
    match raw {
        Some(t) => parse_flag(Some(t.as_str()), default),
        None => parse_flag(None, default),
    }
}

fn u64_setting(raw: &Option<String>, max: u64, default: u64) -> (r: u64)
    requires
        default <= max,
    ensures
        r as int == number_setting(*raw, max as int, default as int),
        r <= max,
{
    match raw {
        Some(t) => match parse_unsigned(t.as_str(), max) {
            Some(v) => v,
            None => default,
        },
        None => default,
    }
}

fn text_or(raw: &Option<String>, default: &str) -> (r: String)
    ensures
        r@ == text_setting(*raw, default@),
{
    match raw {
        Some(t) => t.clone(),
        None => String::from_str(default),
    }
}

pub const MILLIS_PER_SECOND: u64 = 1000;

impl Config {
    /// The configuration from raw setting text: each setting that is unset or
    /// unreadable takes its default.
    pub fn from_settings(raw: &RawSettings) -> (r: Config)
        ensures
            r.ws_url@ == text_setting(raw.ws_url, "ws://localhost:8000/ingest"@),
            r.http_url@ == text_setting(raw.http_url, "http://localhost:8000/api/events"@),
            r.ws_retry_ms == MILLIS_PER_SECOND * number_setting(raw.ws_retry_seconds, u32::MAX as int, 5),
            r.idle_enabled == flag_spec(opt_view(raw.idle_enabled), true),
            r.idle_threshold_ms == number_setting(raw.idle_threshold_ms, u64::MAX as int, 60_000),
            r.idle_poll_ms == number_setting(raw.idle_poll_ms, u64::MAX as int, 1000),
            r.uia_enabled == flag_spec(opt_view(raw.uia_enabled), false),
            r.uia_throttle_ms == number_setting(raw.uia_throttle_ms, u64::MAX as int, 1000),
            r.uia_text_max == number_setting(raw.uia_text_max_chars, usize::MAX as int, 240),
            r.uia_max_depth == number_setting(raw.uia_max_depth, usize::MAX as int, 3),
            r.enable_screenshot == flag_spec(opt_view(raw.enable_screenshot), false),
            r.screenshot_max_width == number_setting(raw.screenshot_max_width, u32::MAX as int, 1024),
            r.screenshot_max_height == number_setting(raw.screenshot_max_height, u32::MAX as int, 768),
            r.screenshot_quality == number_setting(raw.screenshot_quality, u8::MAX as int, 85),
            r.command_enabled == flag_spec(opt_view(raw.command_enabled), true),
            r.screenshot_format@ == text_setting(raw.screenshot_format, "jpeg"@),
            r.uia_cache_ttl_ms == number_setting(raw.uia_cache_ttl_ms, u64::MAX as int, 2000),
            r.ws_reconnect_max_ms == number_setting(raw.ws_reconnect_max_ms, u64::MAX as int, 30_000),
            r.detection_enabled == flag_spec(opt_view(raw.detection_enabled), false),
            r.detection_model_path@ == text_setting(raw.detection_model_path, ""@),
            r.detection_confidence == 300_000,
    {
        let retry = u64_setting(&raw.ws_retry_seconds, u32::MAX as u64, 5);
        Config {
            ws_url: text_or(&raw.ws_url, "ws://localhost:8000/ingest"),
            http_url: text_or(&raw.http_url, "http://localhost:8000/api/events"),
            ws_retry_ms: retry * MILLIS_PER_SECOND,
            idle_enabled: flag_setting(&raw.idle_enabled, true),
            idle_threshold_ms: u64_setting(&raw.idle_threshold_ms, u64::MAX, 60_000),
            idle_poll_ms: u64_setting(&raw.idle_poll_ms, u64::MAX, 1000),
            uia_enabled: flag_setting(&raw.uia_enabled, false),
            uia_throttle_ms: u64_setting(&raw.uia_throttle_ms, u64::MAX, 1000),
            uia_text_max: u64_setting(&raw.uia_text_max_chars, usize::MAX as u64, 240) as usize,
            uia_max_depth: u64_setting(&raw.uia_max_depth, usize::MAX as u64, 3) as usize,
            enable_screenshot: flag_setting(&raw.enable_screenshot, false),
            screenshot_max_width: u64_setting(&raw.screenshot_max_width, u32::MAX as u64, 1024) as u32,
            screenshot_max_height: u64_setting(&raw.screenshot_max_height, u32::MAX as u64, 768) as u32,
            screenshot_quality: u64_setting(&raw.screenshot_quality, u8::MAX as u64, 85) as u8,
            command_enabled: flag_setting(&raw.command_enabled, true),
            screenshot_format: text_or(&raw.screenshot_format, "jpeg"),
            uia_cache_ttl_ms: u64_setting(&raw.uia_cache_ttl_ms, u64::MAX, 2000),
            ws_reconnect_max_ms: u64_setting(&raw.ws_reconnect_max_ms, u64::MAX, 30_000),
            detection_enabled: flag_setting(&raw.detection_enabled, false),
            detection_model_path: text_or(&raw.detection_model_path, ""),
            detection_confidence: 300_000,
        }
    }
}

} // verus!
