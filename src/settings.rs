use vstd::prelude::*;

verus! {

/// Nanoseconds in a millisecond.
pub const NANOS_PER_MILLI: u64 = 1_000_000;

/// The default longest delay between the two clicks of a double click, in milliseconds.
pub const DEFAULT_DOUBLE_CLICK_TIMING: u64 = 500;

/// A cool-down after each accepted press, during which all input reads as released.
/// Durations are in nanoseconds.
#[derive(Debug, Clone, PartialEq, Eq, Structural)]
pub struct PostAcceptanceDelay {
    /// How long input stays blocked.
    pub delay: u64,
    /// Set when a press was detected: the delay starts with the next tick.
    pub should_activate: bool,
    /// While input is blocked, the time it has been blocked so far.
    pub timer: Option<u64>,
}

impl PostAcceptanceDelay {
    pub open spec fn spec_is_blocking_input(&self) -> bool {
        self.timer.is_some()
    }

    /// The state after a press was reported.
    pub open spec fn spec_input_detected(self) -> Self {
        PostAcceptanceDelay { should_activate: true, ..self }
    }

    /// The state after a tick that took `delta` nanoseconds: an armed delay
    /// starts, a running one advances and ends once it has run its course.
    pub open spec fn spec_tick(self, delta: u64) -> Self {
        if self.should_activate {
            PostAcceptanceDelay { should_activate: false, timer: Some(0), ..self }
        } else {
            match self.timer {
                Some(elapsed) => {
                    if elapsed + delta >= self.delay {
                        PostAcceptanceDelay { timer: None, ..self }
                    } else {
                        PostAcceptanceDelay { timer: Some((elapsed + delta) as u64), ..self }
                    }
                },
                None => self,
            }
        }
    }

    pub open spec fn wf(&self) -> bool {
        &&& self.delay > 0
        &&& match self.timer {
            Some(elapsed) => elapsed < self.delay,
            None => true,
        }
    }

    /// An idle delay of `delay` nanoseconds.
    pub fn new(delay: u64) -> (r: Self)
        requires
            delay > 0,
        ensures
            r == (PostAcceptanceDelay { delay, should_activate: false, timer: None }),
            r.wf(),
    {
        PostAcceptanceDelay { delay, should_activate: false, timer: None }
    }

    /// Reports a fresh press: the delay starts with the next tick.
    pub fn input_detected(&mut self)
        ensures
            *final(self) == old(self).spec_input_detected(),
    {
        self.should_activate = true;
    }

    pub fn is_blocking_input(&self) -> (r: bool)
        ensures
            r == self.spec_is_blocking_input(),
    {
        self.timer.is_some()
    }

    pub fn tick(&mut self, delta: u64)
        requires
            old(self).wf(),
        ensures
            *final(self) == old(self).spec_tick(delta),
            final(self).wf(),
    {
        if self.should_activate {
            self.timer = Some(0);
            self.should_activate = false;
        } else if let Some(elapsed) = self.timer {
            if delta >= self.delay - elapsed {
                self.timer = None;
            } else {
                self.timer = Some(elapsed + delta);
            }
        }
    }
}

/// Settings that every binding reads. Durations are in nanoseconds.
#[derive(Debug, Clone, PartialEq, Eq, Structural)]
pub struct IneffableSettings {
    /// The longest delay between the first and second clicks of a double click.
    pub double_click_timing: u64,
    /// An accessibility setting: a cool-down after each accepted press.
    pub post_acceptance_delay: Option<PostAcceptanceDelay>,
}

impl IneffableSettings {
    pub open spec fn wf(&self) -> bool {
        match self.post_acceptance_delay {
            Some(pad) => pad.wf(),
            None => true,
        }
    }

    pub open spec fn spec_input_blocked_by_pad(&self) -> bool {
        match self.post_acceptance_delay {
            Some(pad) => pad.spec_is_blocking_input(),
            None => false,
        }
    }

    /// The settings after a fresh press was reported.
    pub open spec fn spec_input_detected(self) -> Self {
        match self.post_acceptance_delay {
            Some(pad) => IneffableSettings { post_acceptance_delay: Some(pad.spec_input_detected()), ..self },
            None => self,
        }
    }

    /// The settings after a tick of `delta` nanoseconds.
    pub open spec fn spec_tick(self, delta: u64) -> Self {
        match self.post_acceptance_delay {
            Some(pad) => IneffableSettings { post_acceptance_delay: Some(pad.spec_tick(delta)), ..self },
            None => self,
        }
    }

    pub open spec fn spec_new() -> Self {
        IneffableSettings {
            double_click_timing: (DEFAULT_DOUBLE_CLICK_TIMING * NANOS_PER_MILLI) as u64,
            post_acceptance_delay: None,
        }
    }

    /// Double clicks within half a second, and no post-acceptance delay.
    pub fn new() -> (r: Self)
        ensures
            r == Self::spec_new(),
            r.wf(),
    {
        IneffableSettings {
            double_click_timing: DEFAULT_DOUBLE_CLICK_TIMING * NANOS_PER_MILLI,
            post_acceptance_delay: None,
        }
    }

    /// Settings from a configuration's timings, in milliseconds: the double-click
    /// timing falls back to its default, and a delay of zero means none.
    pub fn from_timings(double_click_timing: Option<u64>, post_acceptance_delay: Option<u64>) -> (r: Self)
        ensures
            r == settings_from_timings(double_click_timing, post_acceptance_delay),
            r.wf(),
    {
        let timing = match double_click_timing {
            Some(m) => m,
            None => DEFAULT_DOUBLE_CLICK_TIMING,
        };
        let pad = match post_acceptance_delay {
            Some(m) => if m > 0 {
                Some(PostAcceptanceDelay::new(to_nanos(m)))
            } else {
                None
            },
            None => None,
        };
        IneffableSettings { double_click_timing: to_nanos(timing), post_acceptance_delay: pad }
    }

    /// Takes the timings of `config`.
    pub fn set(&mut self, config: &crate::config::InputConfig)
        ensures
            *final(self) == settings_from_timings(config.double_click_timing, config.post_acceptance_delay),
            final(self).wf(),
    {
        *self = IneffableSettings::from_timings(config.double_click_timing, config.post_acceptance_delay);
    }

    /// Whether the post-acceptance delay is blocking all input this tick.
    pub fn input_blocked_by_pad(&self) -> (r: bool)
        ensures
            r == self.spec_input_blocked_by_pad(),
    {
        match &self.post_acceptance_delay {
            Some(pad) => pad.is_blocking_input(),
            None => false,
        }
    }

    /// Reports a fresh press to the post-acceptance delay, if there is one.
    pub fn input_detected(&mut self)
        ensures
            *final(self) == old(self).spec_input_detected(),
    {
        if let Some(pad) = &mut self.post_acceptance_delay {
            pad.input_detected();
        }
    }

    /// Advances the post-acceptance delay by one tick of `delta` nanoseconds.
    pub fn tick(&mut self, delta: u64)
        requires
            old(self).wf(),
        ensures
            *final(self) == old(self).spec_tick(delta),
            final(self).wf(),
    {
        if let Some(pad) = &mut self.post_acceptance_delay {
            pad.tick(delta);
        }
    }
}

/// The settings for a configuration's timings, in milliseconds.
pub open spec fn settings_from_timings(double_click_timing: Option<u64>, post_acceptance_delay: Option<u64>) -> IneffableSettings {
    IneffableSettings {
        double_click_timing: millis_to_nanos(
            match double_click_timing {
                Some(m) => m,
                None => DEFAULT_DOUBLE_CLICK_TIMING,
            },
        ),
        post_acceptance_delay: match post_acceptance_delay {
            Some(m) => if m > 0 {
                Some(PostAcceptanceDelay { delay: millis_to_nanos(m), should_activate: false, timer: None })
            } else {
                None
            },
            None => None,
        },
    }
}

/// A duration in milliseconds as nanoseconds, saturating at the largest `u64`.
pub open spec fn millis_to_nanos(millis: u64) -> u64 {
    if millis * NANOS_PER_MILLI > u64::MAX {
        u64::MAX
    } else {
        (millis * NANOS_PER_MILLI) as u64
    }
}

pub fn to_nanos(millis: u64) -> (r: u64)
    ensures
        r == millis_to_nanos(millis),
        millis > 0 ==> r > 0,
{
    if millis > u64::MAX / NANOS_PER_MILLI {
        assert(millis * NANOS_PER_MILLI > u64::MAX) by (nonlinear_arith)
            requires millis > u64::MAX / NANOS_PER_MILLI, NANOS_PER_MILLI == 1_000_000u64;
        u64::MAX
    } else {
        assert(millis * NANOS_PER_MILLI <= u64::MAX) by (nonlinear_arith)
            requires millis <= u64::MAX / NANOS_PER_MILLI, NANOS_PER_MILLI == 1_000_000u64;
        millis * NANOS_PER_MILLI
    }
}

/// A press reported in one tick blocks input from the next tick on; the
/// blocking lasts while the time since then is short of the delay, and ends
/// with the tick in which it reaches it.
pub proof fn lemma_post_acceptance_delay(pad: PostAcceptanceDelay, delta: u64)
    requires
        pad.wf(),
    ensures
        pad.spec_input_detected().spec_tick(delta).spec_is_blocking_input(),
        pad.spec_input_detected().spec_tick(delta).timer == Some(0u64),
        !pad.should_activate && pad.timer is Some ==> (pad.spec_tick(delta).spec_is_blocking_input() <==> pad.timer->0
            + delta < pad.delay),
        !pad.should_activate && pad.timer is None ==> !pad.spec_tick(delta).spec_is_blocking_input(),
{
}

} // verus!
