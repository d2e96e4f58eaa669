use vstd::prelude::*;

use crate::binary::{chord_views, StatefulBinaryInput};
use crate::bindings::{InputBinding, SingleAxisBinding};
use crate::direction::{direction_of, direction_value, toggled, Direction1D};
use crate::input::{BinaryInput, Chord, InputSources};
use crate::prefix::{lemma_some_before_step, some_before};
use crate::pulse::{input_built_from, StatefulPulseBinding};
use crate::settings::IneffableSettings;

verus! {

/// One variant of a single-axis binding, with its state.
#[derive(Debug, Clone)]
#[allow(inconsistent_fields)]
pub enum StatefulSingleAxisBindingVariant {
    Dummy,
    Held { negative: StatefulBinaryInput, positive: StatefulBinaryInput },
    Toggle { negative: StatefulPulseBinding, positive: StatefulPulseBinding },
}

impl StatefulSingleAxisBindingVariant {
    pub open spec fn wf(&self) -> bool {
        match self {
            StatefulSingleAxisBindingVariant::Toggle { negative, positive } => negative.wf() && positive.wf(),
            _ => true,
        }
    }

    pub open spec fn steps_to(&self, next: Self, sources: InputSources, settings: IneffableSettings) -> bool {
        let pressed = sources.pressed@;
        let blocking = settings.spec_input_blocked_by_pad();
        match self {
            StatefulSingleAxisBindingVariant::Dummy => next is Dummy,
            StatefulSingleAxisBindingVariant::Held { negative, positive } => match next {
                StatefulSingleAxisBindingVariant::Held { negative: next_negative, positive: next_positive } => {
                    negative.steps_to(next_negative, pressed, blocking) && positive.steps_to(next_positive, pressed, blocking)
                },
                _ => false,
            },
            StatefulSingleAxisBindingVariant::Toggle { negative, positive } => match next {
                StatefulSingleAxisBindingVariant::Toggle { negative: next_negative, positive: next_positive } => {
                    negative.steps_to(next_negative, sources, settings) && positive.steps_to(next_positive, sources, settings)
                },
                _ => false,
            },
        }
    }

    /// This variant is the fresh state of `binding`, with blockers from `all`.
    pub open spec fn built_from(&self, binding: SingleAxisBinding, all: Seq<Seq<BinaryInput>>) -> bool {
        match binding {
            SingleAxisBinding::Dummy => *self is Dummy,
            SingleAxisBinding::Hold(n, p) => match self {
                StatefulSingleAxisBindingVariant::Held { negative, positive } => {
                    input_built_from(*negative, n@, all) && input_built_from(*positive, p@, all)
                },
                _ => false,
            },
            SingleAxisBinding::Toggle(n, p) => match self {
                StatefulSingleAxisBindingVariant::Toggle { negative, positive } => {
                    negative.built_from(seq![n], all) && positive.built_from(seq![p], all)
                },
                _ => false,
            },
        }
    }
}

/// The negative chord of a held variant is active.
pub open spec fn holds_negative(v: StatefulSingleAxisBindingVariant) -> bool {
    match v {
        StatefulSingleAxisBindingVariant::Held { negative, .. } => negative.spec_is_active(),
        _ => false,
    }
}

/// The positive chord of a held variant is active.
pub open spec fn holds_positive(v: StatefulSingleAxisBindingVariant) -> bool {
    match v {
        StatefulSingleAxisBindingVariant::Held { positive, .. } => positive.spec_is_active(),
        _ => false,
    }
}

/// A chord of a held variant was just pressed.
pub open spec fn newly_held(v: StatefulSingleAxisBindingVariant) -> bool {
    match v {
        StatefulSingleAxisBindingVariant::Held { negative, positive } => {
            negative.spec_just_pressed() || positive.spec_just_pressed()
        },
        _ => false,
    }
}

/// The negative pulse of a toggle variant fired.
pub open spec fn toggles_negative(v: StatefulSingleAxisBindingVariant) -> bool {
    match v {
        StatefulSingleAxisBindingVariant::Toggle { negative, .. } => negative.just_pulsed,
        _ => false,
    }
}

/// The positive pulse of a toggle variant fired.
pub open spec fn toggles_positive(v: StatefulSingleAxisBindingVariant) -> bool {
    match v {
        StatefulSingleAxisBindingVariant::Toggle { positive, .. } => positive.just_pulsed,
        _ => false,
    }
}

/// Some chord of the variant was just pressed.
pub open spec fn axis_fresh_press(v: StatefulSingleAxisBindingVariant) -> bool {
    match v {
        StatefulSingleAxisBindingVariant::Dummy => false,
        StatefulSingleAxisBindingVariant::Held { negative, positive } => {
            negative.spec_just_pressed() || positive.spec_just_pressed()
        },
        StatefulSingleAxisBindingVariant::Toggle { negative, positive } => {
            negative.fresh_press() || positive.fresh_press()
        },
    }
}

pub open spec fn holds_negative_pred() -> spec_fn(StatefulSingleAxisBindingVariant) -> bool {
    |v: StatefulSingleAxisBindingVariant| holds_negative(v)
}

pub open spec fn holds_positive_pred() -> spec_fn(StatefulSingleAxisBindingVariant) -> bool {
    |v: StatefulSingleAxisBindingVariant| holds_positive(v)
}

pub open spec fn toggles_negative_pred() -> spec_fn(StatefulSingleAxisBindingVariant) -> bool {
    |v: StatefulSingleAxisBindingVariant| toggles_negative(v)
}

pub open spec fn toggles_positive_pred() -> spec_fn(StatefulSingleAxisBindingVariant) -> bool {
    |v: StatefulSingleAxisBindingVariant| toggles_positive(v)
}

pub open spec fn newly_held_pred() -> spec_fn(StatefulSingleAxisBindingVariant) -> bool {
    |v: StatefulSingleAxisBindingVariant| newly_held(v)
}

pub open spec fn axis_fresh_press_pred() -> spec_fn(StatefulSingleAxisBindingVariant) -> bool {
    |v: StatefulSingleAxisBindingVariant| axis_fresh_press(v)
}

/// The toggled direction after a tick: a toggle that fired toggles it; else a
/// freshly held chord clears it.
pub open spec fn next_toggled(d: Direction1D, toggle_negative: bool, toggle_positive: bool, held: bool) -> Direction1D {
    let t = direction_of(toggle_negative, toggle_positive);
    if t != Direction1D::Neutral {
        toggled(d, t)
    } else if held {
        Direction1D::Neutral
    } else {
        d
    }
}

/// The value of an axis: a toggled direction wins; else opposing holds cancel,
/// and a single hold gives its sign.
pub open spec fn axis_value(d: Direction1D, negative: bool, positive: bool) -> int {
    if d != Direction1D::Neutral {
        direction_value(d)
    } else if negative && positive {
        0
    } else if negative {
        -1
    } else if positive {
        1
    } else {
        0
    }
}

/// A single-axis binding: the direction that its variants give together.
#[derive(Debug, Clone)]
pub struct StatefulSingleAxisBinding {
    pub bindings: Vec<StatefulSingleAxisBindingVariant>,
    /// The value of the axis: -1, 0 or 1.
    pub value: i8,
    pub toggled_direction: Direction1D,
}

impl StatefulSingleAxisBinding {
    pub open spec fn wf(&self) -> bool {
        forall|k: int| 0 <= k < self.bindings@.len() ==> #[trigger] self.bindings@[k].wf()
    }

    /// `next` is what one tick makes of `self`.
    pub open spec fn steps_to(&self, next: Self, sources: InputSources, settings: IneffableSettings) -> bool {
        let vs = next.bindings@;
        let n = vs.len() as int;
        let d = next_toggled(
            self.toggled_direction,
            some_before(vs, n, toggles_negative_pred()),
            some_before(vs, n, toggles_positive_pred()),
            some_before(vs, n, newly_held_pred()),
        );
        &&& vs.len() == self.bindings@.len()
        &&& forall|k: int|
            0 <= k < self.bindings@.len() ==> #[trigger] self.bindings@[k].steps_to(vs[k], sources, settings)
        &&& next.toggled_direction == d
        &&& next.value as int == axis_value(
            d,
            some_before(vs, n, holds_negative_pred()),
            some_before(vs, n, holds_positive_pred()),
        )
    }

    /// Some chord of the binding was just pressed.
    pub open spec fn fresh_press(&self) -> bool {
        some_before(self.bindings@, self.bindings@.len() as int, axis_fresh_press_pred())
    }

    /// This binding is the fresh state of `axes`, with blockers from `all`.
    pub open spec fn built_from(&self, axes: Seq<SingleAxisBinding>, all: Seq<Seq<BinaryInput>>) -> bool {
        &&& self.bindings@.len() == axes.len()
        &&& forall|k: int| 0 <= k < axes.len() ==> #[trigger] self.bindings@[k].built_from(axes[k], all)
        &&& self.value == 0
        &&& self.toggled_direction == Direction1D::Neutral
    }

    /// The fresh variant for `axis`.
    pub fn process(axis: &SingleAxisBinding, all: &Vec<Chord>) -> (r: StatefulSingleAxisBindingVariant)
        ensures
            r.built_from(*axis, chord_views(all@)),
            r.wf(),
    {
        match axis {
            SingleAxisBinding::Dummy => StatefulSingleAxisBindingVariant::Dummy,
            SingleAxisBinding::Hold(negative, positive) => StatefulSingleAxisBindingVariant::Held {
                negative: StatefulBinaryInput::new(negative, all),
                positive: StatefulBinaryInput::new(positive, all),
            },
            SingleAxisBinding::Toggle(negative, positive) => StatefulSingleAxisBindingVariant::Toggle {
                negative: StatefulPulseBinding::new_from_single(negative, all),
                positive: StatefulPulseBinding::new_from_single(positive, all),
            },
        }
    }

    /// A fresh binding from the single-axis bindings among `data`; bindings of another kind are left out.
    pub fn new(data: &Vec<InputBinding>, all: &Vec<Chord>) -> (r: StatefulSingleAxisBinding)
        ensures
            r.built_from(single_axis_bindings(data@), chord_views(all@)),
            r.wf(),
    {
        let mut bindings: Vec<StatefulSingleAxisBindingVariant> = Vec::new();
        let mut i: usize = 0;
        while i < data.len()
            invariant
                i <= data@.len(),
                bindings@.len() == single_axis_bindings(data@.take(i as int)).len(),
                forall|k: int|
                    0 <= k < bindings@.len() ==> #[trigger] bindings@[k].built_from(
                        single_axis_bindings(data@.take(i as int))[k],
                        chord_views(all@),
                    ),
                forall|k: int| 0 <= k < bindings@.len() ==> #[trigger] bindings@[k].wf(),
            decreases data@.len() - i,
        {
            assert(data@.take(i + 1).drop_last() =~= data@.take(i as int));
            assert(data@.take(i + 1).last() == data@[i as int]);
            if let InputBinding::SingleAxis(axis) = &data[i] {
                bindings.push(Self::process(axis, all));
            }
            i = i + 1;
        }
        assert(data@.take(data@.len() as int) =~= data@);
        StatefulSingleAxisBinding { bindings, value: 0, toggled_direction: Direction1D::Neutral }
    }

    /// Reads one tick. Returns whether a chord of the binding was freshly pressed.
    pub fn update(&mut self, sources: &InputSources, settings: &IneffableSettings) -> (fresh: bool)
        requires
            old(self).wf(),
        ensures
            old(self).steps_to(*final(self), *sources, *settings),
            final(self).wf(),
            fresh == final(self).fresh_press(),
    {
        let ghost start = self.bindings@;
        let blocking = settings.input_blocked_by_pad();
        let mut negative_held = false;
        let mut positive_held = false;
        let mut toggle_negative = false;
        let mut toggle_positive = false;
        let mut held = false;
        let mut fresh = false;
        let mut i: usize = 0;
        while i < self.bindings.len()
            invariant
                i <= self.bindings@.len(),
                self.bindings@.len() == start.len(),
                blocking == settings.spec_input_blocked_by_pad(),
                self.toggled_direction == old(self).toggled_direction,
                forall|k: int| 0 <= k < self.bindings@.len() ==> #[trigger] self.bindings@[k].wf(),
                forall|k: int| 0 <= k < i ==> #[trigger] start[k].steps_to(self.bindings@[k], *sources, *settings),
                forall|k: int| i <= k < self.bindings@.len() ==> #[trigger] self.bindings@[k] == start[k],
                negative_held == some_before(self.bindings@, i as int, holds_negative_pred()),
                positive_held == some_before(self.bindings@, i as int, holds_positive_pred()),
                toggle_negative == some_before(self.bindings@, i as int, toggles_negative_pred()),
                toggle_positive == some_before(self.bindings@, i as int, toggles_positive_pred()),
                held == some_before(self.bindings@, i as int, newly_held_pred()),
                fresh == some_before(self.bindings@, i as int, axis_fresh_press_pred()),
            decreases self.bindings@.len() - i,
        {
            let ghost prev = self.bindings@;
            assert(prev[i as int].wf());
            match &mut self.bindings[i] {
                StatefulSingleAxisBindingVariant::Dummy => {},
                StatefulSingleAxisBindingVariant::Held { negative, positive } => {
                    let f1 = negative.update(sources, blocking);
                    let f2 = positive.update(sources, blocking);
                    negative_held = negative_held || negative.is_active();
                    positive_held = positive_held || positive.is_active();
                    held = held || f1 || f2;
                    fresh = fresh || f1 || f2;
                },
                StatefulSingleAxisBindingVariant::Toggle { negative, positive } => {
                    let f1 = negative.update(sources, settings);
                    let f2 = positive.update(sources, settings);
                    toggle_negative = toggle_negative || negative.just_pulsed;
                    toggle_positive = toggle_positive || positive.just_pulsed;
                    fresh = fresh || f1 || f2;
                },
            }
            proof {
                let next = self.bindings@;
                lemma_some_before_step(prev, next, i as int, holds_negative_pred());
                lemma_some_before_step(prev, next, i as int, holds_positive_pred());
                lemma_some_before_step(prev, next, i as int, toggles_negative_pred());
                lemma_some_before_step(prev, next, i as int, toggles_positive_pred());
                lemma_some_before_step(prev, next, i as int, newly_held_pred());
                lemma_some_before_step(prev, next, i as int, axis_fresh_press_pred());
            }
            i = i + 1;
        }
        let toggle = Direction1D::from_input(toggle_negative, toggle_positive);
        if toggle != Direction1D::Neutral {
            self.toggled_direction = self.toggled_direction.toggle(toggle);
        } else if held {
            self.toggled_direction = Direction1D::Neutral;
        }
        self.value = if self.toggled_direction != Direction1D::Neutral {
            self.toggled_direction.signum()
        } else if negative_held && positive_held {
            0
        } else if negative_held {
            -1
        } else if positive_held {
            1
        } else {
            0
        };
        fresh
    }
}

/// The single-axis bindings among `data`, in order.
pub open spec fn single_axis_bindings(data: Seq<InputBinding>) -> Seq<SingleAxisBinding>
    decreases data.len(),
{
    if data.len() == 0 {
        Seq::empty()
    } else {
        let rest = single_axis_bindings(data.drop_last());
        match data.last() {
            InputBinding::SingleAxis(a) => rest.push(a),
            _ => rest,
        }
    }
}

/// The horizontal axes of the dual-axis bindings among `data`, in order.
pub open spec fn x_axis_bindings(data: Seq<InputBinding>) -> Seq<SingleAxisBinding>
    decreases data.len(),
{
    if data.len() == 0 {
        Seq::empty()
    } else {
        let rest = x_axis_bindings(data.drop_last());
        match data.last() {
            InputBinding::DualAxis { x, .. } => rest.push(x),
            _ => rest,
        }
    }
}

/// The vertical axes of the dual-axis bindings among `data`, in order.
pub open spec fn y_axis_bindings(data: Seq<InputBinding>) -> Seq<SingleAxisBinding>
    decreases data.len(),
{
    if data.len() == 0 {
        Seq::empty()
    } else {
        let rest = y_axis_bindings(data.drop_last());
        match data.last() {
            InputBinding::DualAxis { y, .. } => rest.push(y),
            _ => rest,
        }
    }
}

/// A direction in the plane: the values of the x and y axes, each -1, 0 or 1.
#[derive(Debug, Clone, Copy, PartialEq, Eq, Structural, Default)]
pub struct Direction2D {
    pub x: i8,
    pub y: i8,
}

/// A dual-axis binding: two independent single axes.
#[derive(Debug, Clone)]
pub struct StatefulDualAxisBinding {
    pub x: StatefulSingleAxisBinding,
    pub y: StatefulSingleAxisBinding,
    /// The direction: the values of the x and y axes.
    pub value: Direction2D,
}

impl StatefulDualAxisBinding {
    pub open spec fn wf(&self) -> bool {
        self.x.wf() && self.y.wf()
    }

    pub open spec fn steps_to(&self, next: Self, sources: InputSources, settings: IneffableSettings) -> bool {
        &&& self.x.steps_to(next.x, sources, settings)
        &&& self.y.steps_to(next.y, sources, settings)
        &&& next.value == (Direction2D { x: next.x.value, y: next.y.value })
    }

    /// A fresh binding from the dual-axis bindings among `data`; bindings of another kind are left out.
    pub fn new(data: &Vec<InputBinding>, all: &Vec<Chord>) -> (r: StatefulDualAxisBinding)
        ensures
            r.x.built_from(x_axis_bindings(data@), chord_views(all@)),
            r.y.built_from(y_axis_bindings(data@), chord_views(all@)),
            r.value == (Direction2D { x: 0, y: 0 }),
            r.wf(),
    {
        let mut xs: Vec<StatefulSingleAxisBindingVariant> = Vec::new();
        let mut ys: Vec<StatefulSingleAxisBindingVariant> = Vec::new();
        let mut i: usize = 0;
        while i < data.len()
            invariant
                i <= data@.len(),
                xs@.len() == x_axis_bindings(data@.take(i as int)).len(),
                ys@.len() == y_axis_bindings(data@.take(i as int)).len(),
                forall|k: int|
                    0 <= k < xs@.len() ==> #[trigger] xs@[k].built_from(
                        x_axis_bindings(data@.take(i as int))[k],
                        chord_views(all@),
                    ),
                forall|k: int|
                    0 <= k < ys@.len() ==> #[trigger] ys@[k].built_from(
                        y_axis_bindings(data@.take(i as int))[k],
                        chord_views(all@),
                    ),
                forall|k: int| 0 <= k < xs@.len() ==> #[trigger] xs@[k].wf(),
                forall|k: int| 0 <= k < ys@.len() ==> #[trigger] ys@[k].wf(),
            decreases data@.len() - i,
        {
            assert(data@.take(i + 1).drop_last() =~= data@.take(i as int));
            assert(data@.take(i + 1).last() == data@[i as int]);
            if let InputBinding::DualAxis { x, y } = &data[i] {
                xs.push(StatefulSingleAxisBinding::process(x, all));
                ys.push(StatefulSingleAxisBinding::process(y, all));
            }
            i = i + 1;
        }
        assert(data@.take(data@.len() as int) =~= data@);
        StatefulDualAxisBinding {
            x: StatefulSingleAxisBinding { bindings: xs, value: 0, toggled_direction: Direction1D::Neutral },
            y: StatefulSingleAxisBinding { bindings: ys, value: 0, toggled_direction: Direction1D::Neutral },
            value: Direction2D { x: 0, y: 0 },
        }
    }

    /// Reads one tick. Returns whether a chord of the binding was freshly pressed.
    pub fn update(&mut self, sources: &InputSources, settings: &IneffableSettings) -> (fresh: bool)
        requires
            old(self).wf(),
        ensures
            old(self).steps_to(*final(self), *sources, *settings),
            final(self).wf(),
            fresh == (final(self).x.fresh_press() || final(self).y.fresh_press()),
    {
        let fx = self.x.update(sources, settings);
        let fy = self.y.update(sources, settings);
        self.value = Direction2D { x: self.x.value, y: self.y.value };
        fx || fy
    }
}

} // verus!
