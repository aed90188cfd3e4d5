//! Decisions of the synthesis update loop. Each cycle the loop waits for a parameter
//! change from the user interface (or a timeout), takes any new partials, checks its
//! timer, and decides whether to send an update and with which partials: the latest
//! received, else the last sent, else (for a gain or frequency-scale change) none at
//! all. After more than five failed sends in a row it stops sending for good.
//! The loop keeps the parameter values the caller delivers (`SynthParams`); waiting,
//! timing, telling whether a value differs, and the partials themselves are the caller's.

use vstd::prelude::*;

verus! {

/// What the parameter channel delivered this cycle (`changed`: the value differs from the current one).
#[derive(Clone, Copy, Debug, PartialEq, Eq, Structural)]
pub enum ParamEvent {
    Timeout,
    Disconnected,
    Gain { changed: bool },
    FreqScale { changed: bool },
    UpdateRate { changed: bool },
}

/// Which partials go into an update.
#[derive(Clone, Copy, Debug, PartialEq, Eq, Structural)]
pub enum PartialsSource {
    /// The latest partials received.
    Latest,
    /// The partials of the last update sent.
    LastSent,
    /// No partials (a parameter change sent without any).
    Empty,
}

/// The decision of one cycle.
#[derive(Clone, Copy, Debug, PartialEq, Eq, Structural)]
pub enum CycleDecision {
    /// The parameter channel is gone: leave the loop.
    Stop,
    /// Nothing to send this cycle.
    Idle,
    /// Send an update with these partials, then report the outcome.
    Send(PartialsSource),
    /// An update is due but there are no partials: try again next cycle.
    Defer,
}

/// The loop's memory between cycles.
#[derive(Clone, Copy, Debug, PartialEq, Eq, Structural)]
pub struct UpdateLoop {
    pub has_latest: bool,
    pub has_last_sent: bool,
    pub force_next: bool,
    pub output_available: bool,
    pub consecutive_failures: u32,
}

/// The greatest number of failed sends in a row that is tolerated.
pub const MAX_SEND_FAILURES: u32 = 5;

/// The decision of a cycle and the loop's memory after it.
pub open spec fn decide_spec(s: UpdateLoop, event: ParamEvent, new_partials: bool, timer_elapsed: bool) -> (UpdateLoop, CycleDecision) {
    match event {
        ParamEvent::Disconnected => (s, CycleDecision::Stop),
        _ => {
            let gui = match event {
                ParamEvent::Gain { changed } => changed,
                ParamEvent::FreqScale { changed } => changed,
                _ => false,
            };
            let immediate = gui || (event matches ParamEvent::UpdateRate { changed } && changed) || new_partials;
            let has_latest = s.has_latest || new_partials;
            let t = UpdateLoop { has_latest, ..s };
            if !(s.output_available && (immediate || timer_elapsed || s.force_next)) {
                (t, CycleDecision::Idle)
            } else if has_latest {
                (t, CycleDecision::Send(PartialsSource::Latest))
            } else if s.has_last_sent {
                (t, CycleDecision::Send(PartialsSource::LastSent))
            } else if gui {
                (t, CycleDecision::Send(PartialsSource::Empty))
            } else {
                (UpdateLoop { force_next: true, ..t }, CycleDecision::Defer)
            }
        },
    }
}

/// The loop's memory after a send, and whether the timer restarts.
pub open spec fn record_spec(s: UpdateLoop, ok: bool) -> (UpdateLoop, bool) {
    if ok {
        (UpdateLoop { consecutive_failures: 0, force_next: false, has_last_sent: true, ..s }, true)
    } else if s.consecutive_failures + 1 > MAX_SEND_FAILURES {
        (UpdateLoop { consecutive_failures: 0, force_next: true, output_available: false, ..s }, true)
    } else {
        (UpdateLoop { consecutive_failures: (s.consecutive_failures + 1) as u32, force_next: true, ..s }, false)
    }
}

impl UpdateLoop {
    /// The failure count stays within the tolerated number.
    pub open spec fn wf(&self) -> bool {
        self.consecutive_failures <= MAX_SEND_FAILURES
    }

    /// A loop that has received and sent nothing, with its output available.
    pub fn new() -> (r: Self)
        ensures
            r == (UpdateLoop { has_latest: false, has_last_sent: false, force_next: false, output_available: true, consecutive_failures: 0 }),
            r.wf(),
    {
        UpdateLoop { has_latest: false, has_last_sent: false, force_next: false, output_available: true, consecutive_failures: 0 }
    }

    /// Decides a cycle from the parameter event, whether new partials arrived and whether the timer ran out.
    pub fn decide(&mut self, event: ParamEvent, new_partials: bool, timer_elapsed: bool) -> (d: CycleDecision)
        ensures
            (*final(self), d) == decide_spec(*old(self), event, new_partials, timer_elapsed),
    {
        if event == ParamEvent::Disconnected {
            return CycleDecision::Stop;
        }
        let gui = match event {
            ParamEvent::Gain { changed } => changed,
            ParamEvent::FreqScale { changed } => changed,
            _ => false,
        };
        let rate = match event {
            ParamEvent::UpdateRate { changed } => changed,
            _ => false,
        };
        let immediate = gui || rate || new_partials;
        if new_partials {
            self.has_latest = true;
        }
        if !(self.output_available && (immediate || timer_elapsed || self.force_next)) {
            CycleDecision::Idle
        } else if self.has_latest {
            CycleDecision::Send(PartialsSource::Latest)
        } else if self.has_last_sent {
            CycleDecision::Send(PartialsSource::LastSent)
        } else if gui {
            CycleDecision::Send(PartialsSource::Empty)
        } else {
            self.force_next = true;
            CycleDecision::Defer
        }
    }

    /// Records the outcome of a send; returns whether the timer restarts.
    pub fn record_send(&mut self, ok: bool) -> (restart_timer: bool)
        requires
            old(self).wf(),
        ensures
            (*final(self), restart_timer) == record_spec(*old(self), ok),
            final(self).wf(),
    {
        if ok {
            self.consecutive_failures = 0;
            self.force_next = false;
            self.has_last_sent = true;
            true
        } else {
            self.consecutive_failures = self.consecutive_failures + 1;
            self.force_next = true;
            if self.consecutive_failures > MAX_SEND_FAILURES {
                self.output_available = false;
                self.consecutive_failures = 0;
                true
            } else {
                false
            }
        }
    }
}

/// Once sending has been given up, no cycle sends and no outcome brings it back.
pub proof fn lemma_output_stays_off(s: UpdateLoop, event: ParamEvent, new_partials: bool, timer_elapsed: bool, ok: bool)
    requires
        !s.output_available,
    ensures
        !(decide_spec(s, event, new_partials, timer_elapsed).1 is Send),
        !decide_spec(s, event, new_partials, timer_elapsed).0.output_available,
        !record_spec(s, ok).0.output_available,
{
}

/// A gain or frequency-scale change is sent at once while the output is available: with
/// the latest partials, else the last sent, else with none.
pub proof fn lemma_parameter_change_sent(s: UpdateLoop, gain: bool, new_partials: bool, timer_elapsed: bool)
    requires
        s.output_available,
    ensures
        ({
            let event = if gain { ParamEvent::Gain { changed: true } } else { ParamEvent::FreqScale { changed: true } };
            decide_spec(s, event, new_partials, timer_elapsed).1 == CycleDecision::Send(
                if s.has_latest || new_partials { PartialsSource::Latest }
                else if s.has_last_sent { PartialsSource::LastSent }
                else { PartialsSource::Empty })
        }),
{
}

/// Six failed sends in a row, with no success between them, give up the output.
pub proof fn lemma_gives_up_after_six_failures(s: UpdateLoop)
    requires
        s.consecutive_failures == 0,
        s.output_available,
    ensures
        ({
            let s1 = record_spec(s, false).0;
            let s2 = record_spec(s1, false).0;
            let s3 = record_spec(s2, false).0;
            let s4 = record_spec(s3, false).0;
            let s5 = record_spec(s4, false).0;
            let s6 = record_spec(s5, false).0;
            &&& s5.output_available
            &&& !s6.output_available
        }),
{
}

/// Once partials have arrived, every update carries the latest partials.
pub proof fn lemma_latest_preferred(s: UpdateLoop, event: ParamEvent, new_partials: bool, timer_elapsed: bool)
    requires
        s.has_latest || new_partials,
    ensures
        decide_spec(s, event, new_partials, timer_elapsed).1 is Send ==>
            decide_spec(s, event, new_partials, timer_elapsed).1 == CycleDecision::Send(PartialsSource::Latest),
        decide_spec(s, event, new_partials, timer_elapsed).1 != CycleDecision::Defer,
{
}

/// The values an update carries besides its partials, as the caller's values: the loop
/// keeps them and hands them back, and never computes on them.
#[derive(Clone, Copy, Debug)]
pub struct SynthParams<T> {
    pub gain: T,
    pub freq_scale: T,
    pub update_rate: T,
}

/// The values after one delivered value: a gain, frequency scale or update rate marked as
/// changed replaces the current one; anything else leaves the values as they are.
pub open spec fn params_after<T>(p: SynthParams<T>, event: ParamEvent, value: T) -> SynthParams<T> {
    match event {
        ParamEvent::Gain { changed: true } => SynthParams { gain: value, ..p },
        ParamEvent::FreqScale { changed: true } => SynthParams { freq_scale: value, ..p },
        ParamEvent::UpdateRate { changed: true } => SynthParams { update_rate: value, ..p },
        _ => p,
    }
}

/// The values after a run of delivered values, in order.
pub open spec fn params_after_all<T>(p: SynthParams<T>, events: Seq<(ParamEvent, T)>) -> SynthParams<T>
    decreases events.len(),
{
    if events.len() == 0 {
        p
    } else {
        params_after(params_after_all(p, events.drop_last()), events.last().0, events.last().1)
    }
}

/// The value of the last event that `pick` selects, or `start` when there is none.
pub open spec fn last_value<T>(start: T, events: Seq<(ParamEvent, T)>, pick: spec_fn(ParamEvent) -> bool) -> T
    decreases events.len(),
{
    if events.len() == 0 {
        start
    } else if pick(events.last().0) {
        events.last().1
    } else {
        last_value(start, events.drop_last(), pick)
    }
}

impl<T: Copy> SynthParams<T> {
    /// Takes a delivered value (see `params_after`).
    pub fn take_value(&mut self, event: ParamEvent, value: T)
        ensures
            *final(self) == params_after(*old(self), event, value),
    {
        match event {
            ParamEvent::Gain { changed: true } => { self.gain = value; },
            ParamEvent::FreqScale { changed: true } => { self.freq_scale = value; },
            ParamEvent::UpdateRate { changed: true } => { self.update_rate = value; },
            _ => {},
        }
    }
}

/// Every update carries, for each parameter, the last delivered value that was marked as
/// changed (the starting value while there has been none).
pub proof fn lemma_params_are_last_changes<T>(p: SynthParams<T>, events: Seq<(ParamEvent, T)>)
    ensures
        params_after_all(p, events).gain == last_value(p.gain, events, |e: ParamEvent| e == ParamEvent::Gain { changed: true }),
        params_after_all(p, events).freq_scale == last_value(p.freq_scale, events, |e: ParamEvent| e == ParamEvent::FreqScale { changed: true }),
        params_after_all(p, events).update_rate == last_value(p.update_rate, events, |e: ParamEvent| e == ParamEvent::UpdateRate { changed: true }),
    decreases events.len(),
{
    if events.len() > 0 {
        lemma_params_are_last_changes(p, events.drop_last());
    }
}

} // verus!
