use vstd::prelude::*;

use crate::binary::{chord_views, StatefulBinaryInput};
use crate::bindings::{ContinuousBinding, InputBinding};
use crate::input::{BinaryInput, Chord, InputSources};
use crate::prefix::{lemma_some_before_step, some_before};
use crate::pulse::{input_built_from, sat_add, saturating_add, StatefulPulseBinding};
use crate::settings::IneffableSettings;

verus! {

/// One variant of a continuous binding, with its state.
#[derive(Debug, Clone)]
pub enum StatefulContinuousBindingVariant {
    Dummy,
    Held(StatefulBinaryInput),
    Toggle(StatefulPulseBinding),
}

impl StatefulContinuousBindingVariant {
    pub open spec fn wf(&self) -> bool {
        match self {
            StatefulContinuousBindingVariant::Toggle(p) => p.wf(),
            _ => true,
        }
    }

    pub open spec fn steps_to(&self, next: Self, sources: InputSources, settings: IneffableSettings) -> bool {
        match self {
            StatefulContinuousBindingVariant::Dummy => next is Dummy,
            StatefulContinuousBindingVariant::Held(i) => match next {
                StatefulContinuousBindingVariant::Held(j) => i.steps_to(
                    j,
                    sources.pressed@,
                    settings.spec_input_blocked_by_pad(),
                ),
                _ => false,
            },
            StatefulContinuousBindingVariant::Toggle(p) => match next {
                StatefulContinuousBindingVariant::Toggle(q) => p.steps_to(q, sources, settings),
                _ => false,
            },
        }
    }

    /// This variant is the fresh state of `binding`, with blockers from `all`.
    pub open spec fn built_from(&self, binding: ContinuousBinding, all: Seq<Seq<BinaryInput>>) -> bool {
        match binding {
            ContinuousBinding::Dummy => *self is Dummy,
            ContinuousBinding::Hold(c) => match self {
                StatefulContinuousBindingVariant::Held(i) => input_built_from(*i, c@, all),
                _ => false,
            },
            ContinuousBinding::Toggle(p) => match self {
                StatefulContinuousBindingVariant::Toggle(q) => q.built_from(seq![p], all),
                _ => false,
            },
        }
    }
}

/// A held variant whose chord is active.
pub open spec fn holds(v: StatefulContinuousBindingVariant) -> bool {
    match v {
        StatefulContinuousBindingVariant::Held(i) => i.spec_is_active(),
        _ => false,
    }
}

pub open spec fn holds_pred() -> spec_fn(StatefulContinuousBindingVariant) -> bool {
    |v: StatefulContinuousBindingVariant| holds(v)
}

/// A held variant whose chord was just pressed.
pub open spec fn newly_held(v: StatefulContinuousBindingVariant) -> bool {
    match v {
        StatefulContinuousBindingVariant::Held(i) => i.spec_just_pressed(),
        _ => false,
    }
}

pub open spec fn newly_held_pred() -> spec_fn(StatefulContinuousBindingVariant) -> bool {
    |v: StatefulContinuousBindingVariant| newly_held(v)
}

/// A toggle variant whose pulse fired.
pub open spec fn toggles(v: StatefulContinuousBindingVariant) -> bool {
    match v {
        StatefulContinuousBindingVariant::Toggle(p) => p.just_pulsed,
        _ => false,
    }
}

pub open spec fn toggles_pred() -> spec_fn(StatefulContinuousBindingVariant) -> bool {
    |v: StatefulContinuousBindingVariant| toggles(v)
}

/// Some chord of the variant was just pressed.
pub open spec fn continuous_fresh_press(v: StatefulContinuousBindingVariant) -> bool {
    match v {
        StatefulContinuousBindingVariant::Dummy => false,
        StatefulContinuousBindingVariant::Held(i) => i.spec_just_pressed(),
        StatefulContinuousBindingVariant::Toggle(p) => p.fresh_press(),
    }
}

pub open spec fn continuous_fresh_press_pred() -> spec_fn(StatefulContinuousBindingVariant) -> bool {
    |v: StatefulContinuousBindingVariant| continuous_fresh_press(v)
}

/// The toggle after a tick: a fired toggle flips it, else a freshly held chord clears it.
pub open spec fn next_toggled_on(toggled_on: bool, toggle: bool, newly_held: bool) -> bool {
    if toggle {
        !toggled_on
    } else if newly_held {
        false
    } else {
        toggled_on
    }
}

/// A continuous binding: active while a held chord is active or the toggle is on.
/// `time_active` is the time it has been active, in nanoseconds, and zero while inactive.
#[derive(Debug, Clone)]
pub struct StatefulContinuousBinding {
    pub bindings: Vec<StatefulContinuousBindingVariant>,
    pub toggled_on: bool,
    pub active: bool,
    pub active_previous_tick: bool,
    pub time_active: u64,
}

impl StatefulContinuousBinding {
    pub open spec fn wf(&self) -> bool {
        forall|k: int| 0 <= k < self.bindings@.len() ==> #[trigger] self.bindings@[k].wf()
    }

    /// `next` is what one tick makes of `self`.
    pub open spec fn steps_to(&self, next: Self, sources: InputSources, settings: IneffableSettings) -> bool {
        let vs = next.bindings@;
        let n = vs.len() as int;
        let on = next_toggled_on(
            self.toggled_on,
            some_before(vs, n, toggles_pred()),
            some_before(vs, n, newly_held_pred()),
        );
        let active = some_before(vs, n, holds_pred()) || on;
        &&& vs.len() == self.bindings@.len()
        &&& forall|k: int|
            0 <= k < self.bindings@.len() ==> #[trigger] self.bindings@[k].steps_to(vs[k], sources, settings)
        &&& next.active_previous_tick == self.active
        &&& next.toggled_on == on
        &&& next.active == active
        &&& next.time_active == if active {
            sat_add(self.time_active, sources.delta)
        } else {
            0
        }
    }

    /// Some chord of the binding was just pressed.
    pub open spec fn fresh_press(&self) -> bool {
        some_before(self.bindings@, self.bindings@.len() as int, continuous_fresh_press_pred())
    }

    /// This binding is the fresh state of `bindings`, with blockers from `all`.
    pub open spec fn built_from(&self, bindings: Seq<ContinuousBinding>, all: Seq<Seq<BinaryInput>>) -> bool {
        &&& self.bindings@.len() == bindings.len()
        &&& forall|k: int| 0 <= k < bindings.len() ==> #[trigger] self.bindings@[k].built_from(bindings[k], all)
        &&& !self.toggled_on
        &&& !self.active
        &&& !self.active_previous_tick
        &&& self.time_active == 0
    }

    /// A fresh binding from the continuous bindings among `data`; bindings of another kind are left out.
    pub fn new(data: &Vec<InputBinding>, all: &Vec<Chord>) -> (r: StatefulContinuousBinding)
        ensures
            r.built_from(continuous_bindings(data@), chord_views(all@)),
            r.wf(),
    {
        let mut bindings: Vec<StatefulContinuousBindingVariant> = Vec::new();
        let mut i: usize = 0;
        while i < data.len()
            invariant
                i <= data@.len(),
                bindings@.len() == continuous_bindings(data@.take(i as int)).len(),
                forall|k: int|
                    0 <= k < bindings@.len() ==> #[trigger] bindings@[k].built_from(
                        continuous_bindings(data@.take(i as int))[k],
                        chord_views(all@),
                    ),
                forall|k: int| 0 <= k < bindings@.len() ==> #[trigger] bindings@[k].wf(),
            decreases data@.len() - i,
        {
            assert(data@.take(i + 1).drop_last() =~= data@.take(i as int));
            assert(data@.take(i + 1).last() == data@[i as int]);
            if let InputBinding::Continuous(c) = &data[i] {
                let v = match c {
                    ContinuousBinding::Dummy => StatefulContinuousBindingVariant::Dummy,
                    ContinuousBinding::Hold(chord) => StatefulContinuousBindingVariant::Held(
                        StatefulBinaryInput::new(chord, all),
                    ),
                    ContinuousBinding::Toggle(pulse) => StatefulContinuousBindingVariant::Toggle(
                        StatefulPulseBinding::new_from_single(pulse, all),
                    ),
                };
                bindings.push(v);
            }
            i = i + 1;
        }
        assert(data@.take(data@.len() as int) =~= data@);
        StatefulContinuousBinding {
            bindings,
            toggled_on: false,
            active: false,
            active_previous_tick: false,
            time_active: 0,
        }
    }

    /// Reads one tick. Returns whether a chord of the binding was freshly pressed.
    pub fn update(&mut self, sources: &InputSources, settings: &IneffableSettings) -> (fresh: bool)
        requires
            old(self).wf(),
        ensures
            old(self).steps_to(*final(self), *sources, *settings),
            final(self).wf(),
            fresh == final(self).fresh_press(),
    {
        let ghost start = self.bindings@;
        self.active_previous_tick = self.active;
        let blocking = settings.input_blocked_by_pad();
        let mut held = false;
        let mut just_pressed = false;
        let mut toggle = false;
        let mut fresh = false;
        let mut i: usize = 0;
        while i < self.bindings.len()
            invariant
                i <= self.bindings@.len(),
                self.bindings@.len() == start.len(),
                blocking == settings.spec_input_blocked_by_pad(),
                self.toggled_on == old(self).toggled_on,
                self.active_previous_tick == old(self).active,
                self.time_active == old(self).time_active,
                forall|k: int| 0 <= k < self.bindings@.len() ==> #[trigger] self.bindings@[k].wf(),
                forall|k: int| 0 <= k < i ==> #[trigger] start[k].steps_to(self.bindings@[k], *sources, *settings),
                forall|k: int| i <= k < self.bindings@.len() ==> #[trigger] self.bindings@[k] == start[k],
                held == some_before(self.bindings@, i as int, holds_pred()),
                just_pressed == some_before(self.bindings@, i as int, newly_held_pred()),
                toggle == some_before(self.bindings@, i as int, toggles_pred()),
                fresh == some_before(self.bindings@, i as int, continuous_fresh_press_pred()),
            decreases self.bindings@.len() - i,
        {
            let ghost prev = self.bindings@;
            assert(prev[i as int].wf());
            match &mut self.bindings[i] {
                StatefulContinuousBindingVariant::Dummy => {},
                StatefulContinuousBindingVariant::Held(input) => {
                    let f = input.update(sources, blocking);
                    held = held || input.is_active();
                    just_pressed = just_pressed || f;
                    fresh = fresh || f;
                },
                StatefulContinuousBindingVariant::Toggle(control) => {
                    let f = control.update(sources, settings);
                    toggle = toggle || control.just_pulsed;
                    fresh = fresh || f;
                },
            }
            proof {
                let next = self.bindings@;
                lemma_some_before_step(prev, next, i as int, holds_pred());
                lemma_some_before_step(prev, next, i as int, newly_held_pred());
                lemma_some_before_step(prev, next, i as int, toggles_pred());
                lemma_some_before_step(prev, next, i as int, continuous_fresh_press_pred());
            }
            i = i + 1;
        }
        if toggle {
            self.toggled_on = !self.toggled_on;
        } else if just_pressed {
            // Holding a chord down breaks a toggle, so that letting go stops the action.
            self.toggled_on = false;
        }
        self.active = held || self.toggled_on;
        if self.active {
            self.time_active = saturating_add(self.time_active, sources.delta);
        } else {
            self.time_active = 0;
        }
        fresh
    }

    /// How long the binding has been active, in nanoseconds; `None` when that is zero.
    pub fn charging_duration(&self) -> (r: Option<u64>)
        ensures
            r == if self.time_active == 0 {
                None
            } else {
                Some(self.time_active)
            },
    {
        if self.time_active == 0 {
            None
        } else {
            Some(self.time_active)
        }
    }
}

/// The continuous bindings among `data`, in order.
pub open spec fn continuous_bindings(data: Seq<InputBinding>) -> Seq<ContinuousBinding>
    decreases data.len(),
{
    if data.len() == 0 {
        Seq::empty()
    } else {
        let rest = continuous_bindings(data.drop_last());
        match data.last() {
            InputBinding::Continuous(c) => rest.push(c),
            _ => rest,
        }
    }
}

/// Holding a chord breaks a toggle: when no toggle fires in a tick, a toggle
/// that was on turns off as soon as a held chord is freshly pressed, and from
/// then on the binding is active exactly while a held chord is.
pub proof fn lemma_hold_breaks_toggle(
    b: StatefulContinuousBinding,
    next: StatefulContinuousBinding,
    sources: InputSources,
    settings: IneffableSettings,
)
    requires
        b.steps_to(next, sources, settings),
        !some_before(next.bindings@, next.bindings@.len() as int, toggles_pred()),
        b.toggled_on ==> some_before(next.bindings@, next.bindings@.len() as int, newly_held_pred()),
    ensures
        !next.toggled_on,
        next.active == some_before(next.bindings@, next.bindings@.len() as int, holds_pred()),
{
}

} // verus!
