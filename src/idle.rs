//! Idle monitoring: classifying each poll of the input-idle time and
//! reporting only changes of state.

use vstd::prelude::*;
use vstd::string::*;

verus! {

/// An idle time at or past the threshold counts as idle.
pub open spec fn is_idle(idle_ms: u64, threshold_ms: u64) -> bool {
    idle_ms >= threshold_ms
}

/// Whether an observation is reported: always the first one, afterwards
/// only a change of state.
pub open spec fn is_transition(last: Option<bool>, now_idle: bool) -> bool {
    match last {
        None => true,
        Some(s) => s != now_idle,
    }
}

/// The last state seen by the monitor; `None` before the first poll that
/// read an idle time.
#[derive(Debug, Clone, Copy, PartialEq, Eq, Structural)]
pub struct IdleTracker {
    pub last_state: Option<bool>,
}

impl IdleTracker {
    pub fn new() -> (r: IdleTracker)
        ensures
            r.last_state is None,
    {
        IdleTracker { last_state: None }
    }

    /// Classifies one poll. Returns the new state (`true` for idle) when it
    /// is to be reported, which also becomes the last state seen.
    pub fn observe(&mut self, idle_ms: u64, threshold_ms: u64) -> (r: Option<bool>)
        ensures
            is_transition(old(self).last_state, is_idle(idle_ms, threshold_ms)) ==> r == Some(
                is_idle(idle_ms, threshold_ms),
            ),
            !is_transition(old(self).last_state, is_idle(idle_ms, threshold_ms)) ==> r is None,
            final(self).last_state == Some(is_idle(idle_ms, threshold_ms)),
    {
        let now_idle = idle_ms >= threshold_ms;
        let changed = match self.last_state {
            None => true,
            Some(s) => s != now_idle,
        };
        self.last_state = Some(now_idle);
        if changed { Some(now_idle) } else { None }
    }
}

/// The event type of a state: `idle` or `active`.
pub fn event_type_for(now_idle: bool) -> (r: &'static str)
    ensures
        now_idle ==> r@ == "idle"@,
        !now_idle ==> r@ == "active"@,
{
    if now_idle { "idle" } else { "active" }
}

/// A monitor started in `last` and fed `obs` (`true` for idle), one poll
/// at a time: its final state and the states it reported, in order. Each
/// step is what `observe` does.
pub open spec fn run_monitor(last: Option<bool>, obs: Seq<bool>) -> (Option<bool>, Seq<bool>)
    decreases obs.len(),
{
    if obs.len() == 0 {
        (last, Seq::<bool>::empty())
    } else {
        let prev = run_monitor(last, obs.drop_last());
        let o = obs.last();
        (Some(o), if is_transition(prev.0, o) { prev.1.push(o) } else { prev.1 })
    }
}

/// The observations at which the state differs from the one before, the
/// first observation always counting.
pub open spec fn transitions(obs: Seq<bool>) -> Seq<bool>
    decreases obs.len(),
{
    if obs.len() == 0 {
        Seq::<bool>::empty()
    } else if obs.len() == 1 || obs[obs.len() - 1] != obs[obs.len() - 2] {
        transitions(obs.drop_last()).push(obs.last())
    } else {
        transitions(obs.drop_last())
    }
}

/// A fresh monitor reports exactly one event per change of state, none
/// while the state holds, and always one for the first observation.
pub proof fn lemma_reports_transitions(obs: Seq<bool>)
    ensures
        run_monitor(None, obs).1 == transitions(obs),
        obs.len() > 0 ==> run_monitor(None, obs).0 == Some(obs.last()),
        obs.len() > 0 ==> (run_monitor(None, obs).1.len() > 0 && run_monitor(None, obs).1[0] == obs[0]),
    decreases obs.len(),
{
    if obs.len() > 0 {
        lemma_reports_transitions(obs.drop_last());
        if obs.len() > 1 {
            assert(obs.drop_last().last() == obs[obs.len() - 2]);
            assert(obs.drop_last()[0] == obs[0]);
        }
    }
}

} // verus!
