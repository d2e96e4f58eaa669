use vstd::prelude::*;

use crate::binary::{blockers_of, chord_views, StatefulBinaryInput};
use crate::bindings::{InputBinding, PulseBinding};
use crate::input::{BinaryInput, Chord, InputSources};
use crate::settings::{IneffableSettings, NANOS_PER_MILLI};

verus! {

/// `a + b`, or the largest `u64` where the sum does not fit.
pub open spec fn sat_add(a: u64, b: u64) -> u64 {
    if a + b > u64::MAX {
        u64::MAX
    } else {
        (a + b) as u64
    }
}

pub fn saturating_add(a: u64, b: u64) -> (r: u64)
    ensures
        r == sat_add(a, b),
{
    if b > u64::MAX - a {
        u64::MAX
    } else {
        a + b
    }
}

/// One tick of a double click: from the timer (nanoseconds since the last
/// click) and the number of clicks so far, whether the chord was just pressed,
/// the timing and the tick's length, the new timer, click count, and whether
/// the double click fired. A timer past the timing starts over before the
/// press is counted.
pub open spec fn double_click_step(timer: u64, index: usize, advance: bool, timing: u64, delta: u64) -> (
    u64,
    usize,
    bool,
) {
    if timer > timing {
        (0, 0, false)
    } else if advance && index + 1 >= 2 {
        (0, 0, true)
    } else if advance {
        (0, (index + 1) as usize, false)
    } else if index > 0 {
        (sat_add(timer, delta), index, false)
    } else {
        (timer, index, false)
    }
}

/// One tick of a sequence of `len` chords with a total timeout in milliseconds:
/// the same as a double click, except that the timer runs from the first
/// chord on, through the steps that follow.
pub open spec fn sequence_step(timer: u64, index: usize, len: nat, advance: bool, timeout: u64, delta: u64) -> (
    u64,
    usize,
    bool,
) {
    if timer / NANOS_PER_MILLI > timeout {
        (0, 0, false)
    } else if advance && len <= index + 1 {
        (0, 0, true)
    } else if advance && index == 0 {
        (0, 1, false)
    } else if advance {
        (sat_add(timer, delta), (index + 1) as usize, false)
    } else if index > 0 {
        (sat_add(timer, delta), index, false)
    } else {
        (timer, index, false)
    }
}

/// `next` is one tick of every input of `inputs`, in place.
pub open spec fn inputs_step(
    inputs: Seq<StatefulBinaryInput>,
    next: Seq<StatefulBinaryInput>,
    pressed: Seq<BinaryInput>,
    pad_blocking: bool,
) -> bool {
    &&& next.len() == inputs.len()
    &&& forall|k: int| 0 <= k < inputs.len() ==> #[trigger] inputs[k].steps_to(next[k], pressed, pad_blocking)
}

/// Some input of `inputs` was just pressed.
pub open spec fn any_just_pressed(inputs: Seq<StatefulBinaryInput>) -> bool {
    exists|k: int| 0 <= k < inputs.len() && #[trigger] inputs[k].spec_just_pressed()
}

/// A stateful input built from `chord` with the blockers from `all`, fresh.
pub open spec fn input_built_from(
    input: StatefulBinaryInput,
    chord: Seq<BinaryInput>,
    all: Seq<Seq<BinaryInput>>,
) -> bool {
    &&& input.binary_input.members() == chord
    &&& chord_views(input.blockers@) == blockers_of(chord, all)
    &&& input.is_fresh()
}

/// One variant of a pulse binding, with its state. Timers are in nanoseconds,
/// the sequence timeout in milliseconds.
#[derive(Debug, Clone)]
pub enum StatefulPulseBindingVariant {
    Dummy,
    JustPressed(StatefulBinaryInput),
    JustReleased(StatefulBinaryInput),
    DoubleClick { input: StatefulBinaryInput, timer: u64, index: usize },
    Sequence { inputs: Vec<StatefulBinaryInput>, timeout: u64, timer: u64, index: usize },
}

impl StatefulPulseBindingVariant {
    pub open spec fn wf(&self) -> bool {
        match self {
            StatefulPulseBindingVariant::DoubleClick { index, .. } => *index <= 1,
            StatefulPulseBindingVariant::Sequence { inputs, index, .. } => *index == 0 || *index < inputs@.len(),
            _ => true,
        }
    }

    /// `next` is what one tick makes of `self`.
    pub open spec fn steps_to(&self, next: Self, sources: InputSources, settings: IneffableSettings) -> bool {
        let pressed = sources.pressed@;
        let blocking = settings.spec_input_blocked_by_pad();
        match self {
            StatefulPulseBindingVariant::Dummy => next is Dummy,
            StatefulPulseBindingVariant::JustPressed(i) => match next {
                StatefulPulseBindingVariant::JustPressed(j) => i.steps_to(j, pressed, blocking),
                _ => false,
            },
            StatefulPulseBindingVariant::JustReleased(i) => match next {
                StatefulPulseBindingVariant::JustReleased(j) => i.steps_to(j, pressed, blocking),
                _ => false,
            },
            StatefulPulseBindingVariant::DoubleClick { input, timer, index } => match next {
                StatefulPulseBindingVariant::DoubleClick { input: i2, timer: t2, index: x2 } => {
                    let s = double_click_step(
                        *timer,
                        *index,
                        i2.spec_just_pressed(),
                        settings.double_click_timing,
                        sources.delta,
                    );
                    &&& input.steps_to(i2, pressed, blocking)
                    &&& t2 == s.0
                    &&& x2 == s.1
                },
                _ => false,
            },
            StatefulPulseBindingVariant::Sequence { inputs, timeout, timer, index } => match next {
                StatefulPulseBindingVariant::Sequence { inputs: n2, timeout: o2, timer: t2, index: x2 } => {
                    let s = sequence_step(
                        *timer,
                        *index,
                        inputs@.len(),
                        sequence_advances(n2@, *index),
                        *timeout,
                        sources.delta,
                    );
                    &&& inputs_step(inputs@, n2@, pressed, blocking)
                    &&& o2 == *timeout
                    &&& t2 == s.0
                    &&& x2 == s.1
                },
                _ => false,
            },
        }
    }

    /// Whether the tick from `self` to `next` fires this variant.
    pub open spec fn fires(&self, next: Self, sources: InputSources, settings: IneffableSettings) -> bool {
        match self {
            StatefulPulseBindingVariant::Dummy => false,
            StatefulPulseBindingVariant::JustPressed(_) => match next {
                StatefulPulseBindingVariant::JustPressed(j) => j.spec_just_pressed(),
                _ => false,
            },
            StatefulPulseBindingVariant::JustReleased(_) => match next {
                StatefulPulseBindingVariant::JustReleased(j) => j.spec_just_released(),
                _ => false,
            },
            StatefulPulseBindingVariant::DoubleClick { timer, index, .. } => match next {
                StatefulPulseBindingVariant::DoubleClick { input: i2, .. } => double_click_step(
                    *timer,
                    *index,
                    i2.spec_just_pressed(),
                    settings.double_click_timing,
                    sources.delta,
                ).2,
                _ => false,
            },
            StatefulPulseBindingVariant::Sequence { inputs, timeout, timer, index } => match next {
                StatefulPulseBindingVariant::Sequence { inputs: n2, .. } => sequence_step(
                    *timer,
                    *index,
                    inputs@.len(),
                    sequence_advances(n2@, *index),
                    *timeout,
                    sources.delta,
                ).2,
                _ => false,
            },
        }
    }

    /// Some chord of this variant was just pressed.
    pub open spec fn fresh_press(&self) -> bool {
        match self {
            StatefulPulseBindingVariant::Dummy => false,
            StatefulPulseBindingVariant::JustPressed(i) => i.spec_just_pressed(),
            StatefulPulseBindingVariant::JustReleased(i) => i.spec_just_pressed(),
            StatefulPulseBindingVariant::DoubleClick { input, .. } => input.spec_just_pressed(),
            StatefulPulseBindingVariant::Sequence { inputs, .. } => any_just_pressed(inputs@),
        }
    }

    /// This variant is the fresh state of `binding`, with blockers from `all`.
    pub open spec fn built_from(&self, binding: PulseBinding, all: Seq<Seq<BinaryInput>>) -> bool {
        match binding {
            PulseBinding::Dummy => *self is Dummy,
            PulseBinding::JustPressed(c) => match self {
                StatefulPulseBindingVariant::JustPressed(i) => input_built_from(*i, c@, all),
                _ => false,
            },
            PulseBinding::JustReleased(c) => match self {
                StatefulPulseBindingVariant::JustReleased(i) => input_built_from(*i, c@, all),
                _ => false,
            },
            PulseBinding::DoubleClick(c) => match self {
                StatefulPulseBindingVariant::DoubleClick { input, timer, index } => {
                    &&& input_built_from(*input, c@, all)
                    &&& *timer == 0
                    &&& *index == 0
                },
                _ => false,
            },
            PulseBinding::Sequence(millis, chords) => match self {
                StatefulPulseBindingVariant::Sequence { inputs, timeout, timer, index } => {
                    &&& inputs@.len() == chords@.len()
                    &&& forall|k: int|
                        0 <= k < chords@.len() ==> input_built_from(#[trigger] inputs@[k], chords@[k]@, all)
                    &&& *timeout == millis
                    &&& *timer == 0
                    &&& *index == 0
                },
                _ => false,
            },
        }
    }
}

/// The chord at the sequence's current position was just pressed.
pub open spec fn sequence_advances(inputs: Seq<StatefulBinaryInput>, index: usize) -> bool {
    index < inputs.len() && inputs[index as int].spec_just_pressed()
}

/// Updates every input of `inputs` for one tick; returns whether one of them was just pressed.
pub fn update_inputs(inputs: &mut Vec<StatefulBinaryInput>, sources: &InputSources, pad_blocking: bool) -> (fresh: bool)
    ensures
        inputs_step(old(inputs)@, final(inputs)@, sources.pressed@, pad_blocking),
        fresh == any_just_pressed(final(inputs)@),
{
    let ghost start = inputs@;
    let mut fresh = false;
    let mut i: usize = 0;
    while i < inputs.len()
        invariant
            i <= inputs@.len(),
            inputs@.len() == start.len(),
            forall|k: int| 0 <= k < i ==> #[trigger] start[k].steps_to(inputs@[k], sources.pressed@, pad_blocking),
            forall|k: int| i <= k < inputs@.len() ==> #[trigger] inputs@[k] == start[k],
            fresh == exists|k: int| 0 <= k < i && #[trigger] inputs@[k].spec_just_pressed(),
        decreases inputs@.len() - i,
    {
        let ghost prev = inputs@;
        let pressed_now = inputs[i].update(sources, pad_blocking);
        proof {
            assert(forall|k: int| 0 <= k < i ==> inputs@[k] == prev[k]);
            if fresh {
                let w = choose|k: int| 0 <= k < i && #[trigger] prev[k].spec_just_pressed();
                assert(inputs@[w].spec_just_pressed());
            }
            if !fresh && !pressed_now {
                assert forall|k: int| 0 <= k < i + 1 implies !(#[trigger] inputs@[k].spec_just_pressed()) by {
                    if k < i {
                        assert(inputs@[k] == prev[k]);
                    }
                }
            }
        }
        fresh = fresh || pressed_now;
        i = i + 1;
    }
    fresh
}

/// A pulse binding: true for the one tick in which any of its variants fires.
#[derive(Debug, Clone)]
pub struct StatefulPulseBinding {
    pub bindings: Vec<StatefulPulseBindingVariant>,
    pub just_pulsed: bool,
}

/// Every variant of `vs` is well formed.
pub open spec fn variants_wf(vs: Seq<StatefulPulseBindingVariant>) -> bool {
    forall|k: int| 0 <= k < vs.len() ==> #[trigger] vs[k].wf()
}

impl StatefulPulseBinding {
    pub open spec fn wf(&self) -> bool {
        variants_wf(self.bindings@)
    }

    /// `next` is what one tick makes of `self`.
    pub open spec fn steps_to(&self, next: Self, sources: InputSources, settings: IneffableSettings) -> bool {
        &&& next.bindings@.len() == self.bindings@.len()
        &&& forall|k: int|
            0 <= k < self.bindings@.len() ==> #[trigger] self.bindings@[k].steps_to(
                next.bindings@[k],
                sources,
                settings,
            )
        &&& next.just_pulsed == exists|k: int|
            0 <= k < self.bindings@.len() && #[trigger] self.bindings@[k].fires(next.bindings@[k], sources, settings)
    }

    /// Some chord of the binding was just pressed.
    pub open spec fn fresh_press(&self) -> bool {
        exists|k: int| 0 <= k < self.bindings@.len() && #[trigger] self.bindings@[k].fresh_press()
    }

    /// This binding is the fresh state of `bindings`, with blockers from `all`.
    pub open spec fn built_from(&self, bindings: Seq<PulseBinding>, all: Seq<Seq<BinaryInput>>) -> bool {
        &&& self.bindings@.len() == bindings.len()
        &&& forall|k: int| 0 <= k < bindings.len() ==> #[trigger] self.bindings@[k].built_from(bindings[k], all)
        &&& !self.just_pulsed
    }

    /// A fresh binding from the pulse bindings among `data`; bindings of another kind are left out.
    pub fn new_from_vec(data: &Vec<InputBinding>, all: &Vec<Chord>) -> (r: StatefulPulseBinding)
        ensures
            r.built_from(pulse_bindings(data@), chord_views(all@)),
            r.wf(),
    {
        let mut bindings: Vec<StatefulPulseBindingVariant> = Vec::new();
        let mut i: usize = 0;
        while i < data.len()
            invariant
                i <= data@.len(),
                bindings@.len() == pulse_bindings(data@.take(i as int)).len(),
                forall|k: int|
                    0 <= k < bindings@.len() ==> #[trigger] bindings@[k].built_from(
                        pulse_bindings(data@.take(i as int))[k],
                        chord_views(all@),
                    ),
                variants_wf(bindings@),
            decreases data@.len() - i,
        {
            assert(data@.take(i + 1).drop_last() =~= data@.take(i as int));
            assert(data@.take(i + 1).last() == data@[i as int]);
            if let InputBinding::Pulse(pulse) = &data[i] {
                let v = Self::process(pulse, all);
                bindings.push(v);
            }
            i = i + 1;
        }
        assert(data@.take(data@.len() as int) =~= data@);
        StatefulPulseBinding { bindings, just_pulsed: false }
    }

    /// A fresh binding with the one variant `value`.
    pub fn new_from_single(value: &PulseBinding, all: &Vec<Chord>) -> (r: StatefulPulseBinding)
        ensures
            r.built_from(seq![*value], chord_views(all@)),
            r.wf(),
    {
        let v = Self::process(value, all);
        let bindings = vec![v];
        StatefulPulseBinding { bindings, just_pulsed: false }
    }

    /// The fresh variant for `binding`.
    pub fn process(binding: &PulseBinding, all: &Vec<Chord>) -> (r: StatefulPulseBindingVariant)
        ensures
            r.built_from(*binding, chord_views(all@)),
            r.wf(),
    {
        match binding {
            PulseBinding::Dummy => StatefulPulseBindingVariant::Dummy,
            PulseBinding::JustPressed(input) => StatefulPulseBindingVariant::JustPressed(
                StatefulBinaryInput::new(input, all),
            ),
            PulseBinding::JustReleased(input) => StatefulPulseBindingVariant::JustReleased(
                StatefulBinaryInput::new(input, all),
            ),
            PulseBinding::DoubleClick(input) => StatefulPulseBindingVariant::DoubleClick {
                input: StatefulBinaryInput::new(input, all),
                timer: 0,
                index: 0,
            },
            PulseBinding::Sequence(timeout, chords) => {
                let mut inputs: Vec<StatefulBinaryInput> = Vec::new();
                let mut i: usize = 0;
                while i < chords.len()
                    invariant
                        i <= chords@.len(),
                        inputs@.len() == i,
                        forall|k: int|
                            0 <= k < i ==> input_built_from(#[trigger] inputs@[k], chords@[k]@, chord_views(all@)),
                    decreases chords@.len() - i,
                {
                    inputs.push(StatefulBinaryInput::new(&chords[i], all));
                    i = i + 1;
                }
                StatefulPulseBindingVariant::Sequence { inputs, timeout: *timeout, timer: 0, index: 0 }
            },
        }
    }

    /// Reads one tick. Returns whether a chord of the binding was freshly pressed.
    pub fn update(&mut self, sources: &InputSources, settings: &IneffableSettings) -> (fresh: bool)
        requires
            old(self).wf(),
        ensures
            old(self).steps_to(*final(self), *sources, *settings),
            final(self).wf(),
            fresh == final(self).fresh_press(),
    {
        let ghost start = self.bindings@;
        let mut pulsed = false;
        let mut fresh = false;
        let mut i: usize = 0;
        while i < self.bindings.len()
            invariant
                i <= self.bindings@.len(),
                self.bindings@.len() == start.len(),
                variants_wf(self.bindings@),
                forall|k: int| 0 <= k < i ==> #[trigger] start[k].steps_to(self.bindings@[k], *sources, *settings),
                forall|k: int| i <= k < self.bindings@.len() ==> #[trigger] self.bindings@[k] == start[k],
                pulsed == exists|k: int|
                    0 <= k < i && #[trigger] start[k].fires(self.bindings@[k], *sources, *settings),
                fresh == exists|k: int| 0 <= k < i && #[trigger] self.bindings@[k].fresh_press(),
            decreases self.bindings@.len() - i,
        {
            let ghost prev = self.bindings@;
            let (fired, pressed) = update_variant(&mut self.bindings[i], sources, settings);
            proof {
                assert(forall|k: int| 0 <= k < i ==> self.bindings@[k] == prev[k]);
                if pulsed {
                    let w = choose|k: int| 0 <= k < i && #[trigger] start[k].fires(prev[k], *sources, *settings);
                    assert(start[w].fires(self.bindings@[w], *sources, *settings));
                }
                if !pulsed && !fired {
                    assert forall|k: int| 0 <= k < i + 1 implies !(#[trigger] start[k].fires(
                        self.bindings@[k],
                        *sources,
                        *settings,
                    )) by {
                        if k < i {
                            assert(self.bindings@[k] == prev[k]);
                        }
                    }
                }
                if fresh {
                    let w = choose|k: int| 0 <= k < i && #[trigger] prev[k].fresh_press();
                    assert(self.bindings@[w].fresh_press());
                }
                if !fresh && !pressed {
                    assert forall|k: int| 0 <= k < i + 1 implies !(#[trigger] self.bindings@[k].fresh_press()) by {
                        if k < i {
                            assert(self.bindings@[k] == prev[k]);
                        }
                    }
                }
            }
            pulsed = pulsed || fired;
            fresh = fresh || pressed;
            i = i + 1;
        }
        self.just_pulsed = pulsed;
        fresh
    }
}

/// The pulse bindings among `data`, in order.
pub open spec fn pulse_bindings(data: Seq<InputBinding>) -> Seq<PulseBinding>
    decreases data.len(),
{
    if data.len() == 0 {
        Seq::empty()
    } else {
        let rest = pulse_bindings(data.drop_last());
        match data.last() {
            InputBinding::Pulse(p) => rest.push(p),
            _ => rest,
        }
    }
}

/// Reads one tick into one variant. Returns whether it fired, and whether one
/// of its chords was freshly pressed.
pub fn update_variant(v: &mut StatefulPulseBindingVariant, sources: &InputSources, settings: &IneffableSettings) -> (r: (
    bool,
    bool,
))
    requires
        old(v).wf(),
    ensures
        old(v).steps_to(*final(v), *sources, *settings),
        final(v).wf(),
        r.0 == old(v).fires(*final(v), *sources, *settings),
        r.1 == final(v).fresh_press(),
{
    let blocking = settings.input_blocked_by_pad();
    match v {
        StatefulPulseBindingVariant::Dummy => (false, false),
        StatefulPulseBindingVariant::JustPressed(input) => {
            let fresh = input.update(sources, blocking);
            (input.just_pressed(), fresh)
        },
        StatefulPulseBindingVariant::JustReleased(input) => {
            let fresh = input.update(sources, blocking);
            (input.just_released(), fresh)
        },
        StatefulPulseBindingVariant::DoubleClick { input, timer, index } => {
            let fresh = input.update(sources, blocking);
            let advance = input.just_pressed();
            let mut fired = false;
            if *timer > settings.double_click_timing {
                *timer = 0;
                *index = 0;
            } else if advance && *index + 1 >= 2 {
                *timer = 0;
                *index = 0;
                fired = true;
            } else if advance {
                *timer = 0;
                *index = *index + 1;
            } else if *index > 0 {
                *timer = saturating_add(*timer, sources.delta);
            }
            (fired, fresh)
        },
        StatefulPulseBindingVariant::Sequence { inputs, timeout, timer, index } => {
            let ghost old_len = inputs@.len();
            let fresh = update_inputs(inputs, sources, blocking);
            let advance = *index < inputs.len() && inputs[*index].just_pressed();
            let mut fired = false;
            if *timer / NANOS_PER_MILLI > *timeout {
                *timer = 0;
                *index = 0;
            } else if advance && inputs.len() <= *index + 1 {
                *timer = 0;
                *index = 0;
                fired = true;
            } else if advance && *index == 0 {
                *timer = 0;
                *index = 1;
            } else if advance {
                // The timeout counts from the first chord: later steps keep the timer running.
                *timer = saturating_add(*timer, sources.delta);
                *index = *index + 1;
            } else if *index > 0 {
                *timer = saturating_add(*timer, sources.delta);
            }
            (fired, fresh)
        },
    }
}

/// A binding that pulses on a just-pressed chord fires exactly in the tick in
/// which the chord turns from released to pressed (and no chord blocks it, and
/// the post-acceptance delay does not): never while the chord stays held.
pub proof fn lemma_just_pressed_fires_on_transition(
    b: StatefulPulseBinding,
    next: StatefulPulseBinding,
    sources: InputSources,
    settings: IneffableSettings,
)
    requires
        b.bindings@.len() == 1,
        b.bindings@[0] is JustPressed,
        b.steps_to(next, sources, settings),
    ensures
        ({
            let input = b.bindings@[0]->JustPressed_0;
            next.just_pulsed == (!settings.spec_input_blocked_by_pad() && crate::input::chord_pressed(
                input.binary_input.members(),
                sources.pressed@,
            ) && !crate::binary::some_blocker_pressed(chord_views(input.blockers@), sources.pressed@) && !input.active)
        }),
{
    assert(b.bindings@[0].steps_to(next.bindings@[0], sources, settings));
    let input = b.bindings@[0]->JustPressed_0;
    let j = next.bindings@[0]->JustPressed_0;
    assert(input.steps_to(j, sources.pressed@, settings.spec_input_blocked_by_pad()));
    if next.just_pulsed {
        let k = choose|k: int| 0 <= k < b.bindings@.len() && #[trigger] b.bindings@[k].fires(next.bindings@[k], sources, settings);
        assert(k == 0);
    } else {
        assert(!b.bindings@[0].fires(next.bindings@[0], sources, settings));
    }
}

} // verus!
