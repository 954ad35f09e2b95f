//! Connection lifecycle of the backend stream: reconnect backoff, delivery
//! routing with request fallback, and classification of inbound frames.

use vstd::prelude::*;
use vstd::string::*;
use crate::text::str_eq;

verus! {

/// Backoff applied before the first reconnect attempt and after every
/// successful connect.
pub const BASE_BACKOFF_MS: u64 = 1000;

/// The next reconnect delay: double the current one, never above `max_ms`.
pub open spec fn next_backoff(current_ms: int, max_ms: int) -> int {
    if 2 * current_ms <= max_ms { 2 * current_ms } else { max_ms }
}

/// Doubles `current_ms` (saturating) and caps the result at `max_ms`.
pub fn calculate_backoff(current_ms: u64, max_ms: u64) -> (r: u64)
    ensures
        r == next_backoff(current_ms as int, max_ms as int),
{
    if current_ms <= max_ms / 2 {
        current_ms * 2
    } else {
        max_ms
    }
}

/// The stream connection as the delivery loop sees it. Times are on a
/// monotonic clock in milliseconds.
#[derive(Debug, Clone, Copy, PartialEq, Eq, Structural)]
pub struct Link {
    pub connected: bool,
    pub backoff_ms: u64,
    /// When the last connect attempt started; `None` before the first.
    pub last_attempt_ms: Option<u64>,
}

/// Where an outbound event goes.
#[derive(Debug, Clone, Copy, PartialEq, Eq, Structural)]
pub enum Route {
    /// Over the live stream connection.
    Stream,
    /// As one request, because no connection is up.
    Fallback,
}

/// What to do with an inbound text frame, by its `type` field.
#[derive(Debug, Clone, Copy, PartialEq, Eq, Structural)]
pub enum FrameKind {
    /// A heartbeat: answer at once with the pong frame.
    Ping,
    /// A command: parse it, execute it, send the result back.
    Command,
    /// Anything else: ignore it.
    Ignore,
}

pub open spec fn attempt_due(link: Link, now_ms: u64) -> bool {
    !link.connected && match link.last_attempt_ms {
        None => true,
        Some(t) => now_ms >= t && now_ms - t >= link.backoff_ms,
    }
}

impl Link {
    /// Disconnected, with the base backoff, and no attempt made yet.
    pub fn new() -> (r: Link)
        ensures
            !r.connected,
            r.backoff_ms == BASE_BACKOFF_MS,
            r.last_attempt_ms is None,
    {
        Link { connected: false, backoff_ms: BASE_BACKOFF_MS, last_attempt_ms: None }
    }

    /// Whether to try to connect now: no connection is up, and either no
    /// attempt was made yet or the last one is at least the backoff old.
    pub fn should_connect(&self, now_ms: u64) -> (r: bool)
        ensures
            r == attempt_due(*self, now_ms),
    {
        if self.connected {
            return false;
        }
        match self.last_attempt_ms {
            None => true,
            Some(t) => now_ms >= t && now_ms - t >= self.backoff_ms,
        }
    }

    /// Records a connect attempt started at `now_ms`. Success resets the
    /// backoff to the base; failure doubles it, capped at `max_backoff_ms`.
    pub fn record_attempt(&mut self, now_ms: u64, success: bool, max_backoff_ms: u64)
        ensures
            final(self).last_attempt_ms == Some(now_ms),
            final(self).connected == success,
            success ==> final(self).backoff_ms == BASE_BACKOFF_MS,
            !success ==> final(self).backoff_ms == next_backoff(
                old(self).backoff_ms as int,
                max_backoff_ms as int,
            ),
    {
        self.last_attempt_ms = Some(now_ms);
        if success {
            self.connected = true;
            self.backoff_ms = BASE_BACKOFF_MS;
        } else {
            self.connected = false;
            self.backoff_ms = calculate_backoff(self.backoff_ms, max_backoff_ms);
        }
    }

    /// Where the next outbound event goes.
    pub fn route(&self) -> (r: Route)
        ensures
            r == (if self.connected { Route::Stream } else { Route::Fallback }),
    {
        if self.connected { Route::Stream } else { Route::Fallback }
    }

    /// A send or read on the stream failed for real: the connection is
    /// dropped, and the next loop turn may reconnect.
    pub fn record_transport_error(&mut self)
        ensures
            !final(self).connected,
            final(self).backoff_ms == old(self).backoff_ms,
            final(self).last_attempt_ms == old(self).last_attempt_ms,
    {
        self.connected = false;
    }
}

/// Classifies an inbound frame by its `type` field.
pub fn classify_frame(msg_type: &str) -> (r: FrameKind)
    ensures
        msg_type@ == "ping"@ ==> r == FrameKind::Ping,
        msg_type@ == "command"@ ==> r == FrameKind::Command,
        msg_type@ != "ping"@ && msg_type@ != "command"@ ==> r == FrameKind::Ignore,
{
    proof {
        reveal_strlit("ping");
        reveal_strlit("command");
        assert("ping"@.len() == 4 && "command"@.len() == 7);
    }
    if str_eq(msg_type, "ping") {
        FrameKind::Ping
    } else if str_eq(msg_type, "command") {
        FrameKind::Command
    } else {
        FrameKind::Ignore
    }
}

/// The fixed answer to a heartbeat.
pub fn pong_frame() -> (r: String)
    ensures
        r@ == "{\"type\":\"pong\"}"@,
{
    String::from_str("{\"type\":\"pong\"}")
}

} // verus!
