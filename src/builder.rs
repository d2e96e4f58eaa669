use vstd::prelude::*;

use crate::action::{Continuous, DualAxis, IAWrp, InputAction, Pulse, SingleAxis};
use crate::bindings::{ContinuousBinding, InputBinding, PulseBinding, SingleAxisBinding};
use crate::config::{add_bindings, bindings_in, groups_wf, has_entry, GroupBindings, InputConfig};
use crate::input::{BinaryInput, Chord};

verus! {

/// One input, or several to be pressed together.
#[derive(Debug, Clone)]
pub enum ChordLike {
    Single(BinaryInput),
    Multiple(Vec<BinaryInput>),
}

impl ChordLike {
    pub open spec fn members(&self) -> Seq<BinaryInput> {
        match self {
            ChordLike::Single(i) => seq![*i],
            ChordLike::Multiple(v) => v@,
        }
    }

    /// The chord of the inputs.
    pub fn into_chord(self) -> (r: Chord)
        ensures
            r@ == self.members(),
    {
        match self {
            ChordLike::Single(input) => {
                let r = vec![input];
                assert(r@ =~= self.members());
                r
            },
            ChordLike::Multiple(inputs) => inputs,
        }
    }
}

/// A binding together with the kind of action it is for, so that a binding
/// can only be bound to an action of its kind.
#[derive(Debug)]
pub struct IBWrp<Kind>(pub InputBinding, pub core::marker::PhantomData<Kind>);

/// Makes dual-axis bindings.
#[derive(Debug, Clone, Copy, PartialEq, Eq, Structural, Hash)]
pub struct DualAxisBinding;

impl DualAxisBinding {
    pub fn builder() -> (r: DualAxisBindingBuilder)
        ensures
            r.x is None && r.y is None,
    {
        DualAxisBindingBuilder::new()
    }
}

/// Builds a dual-axis binding from two single-axis ones; an unset axis is a dummy.
#[derive(Debug)]
pub struct DualAxisBindingBuilder {
    pub x: Option<SingleAxisBinding>,
    pub y: Option<SingleAxisBinding>,
}

impl DualAxisBindingBuilder {
    pub fn new() -> (r: Self)
        ensures
            r.x is None && r.y is None,
    {
        DualAxisBindingBuilder { x: None, y: None }
    }

    pub fn set_x(self, input: IBWrp<SingleAxis>) -> (r: Self)
        ensures
            r.x == Some(Self::spec_unwrap_axis(input.0)),
            r.y == self.y,
    {
        DualAxisBindingBuilder { x: Some(Self::unwrap_axis(input)), y: self.y }
    }

    pub fn set_y(self, input: IBWrp<SingleAxis>) -> (r: Self)
        ensures
            r.y == Some(Self::spec_unwrap_axis(input.0)),
            r.x == self.x,
    {
        DualAxisBindingBuilder { x: self.x, y: Some(Self::unwrap_axis(input)) }
    }

    pub fn build(self) -> (r: IBWrp<DualAxis>)
        ensures
            r.0 == (InputBinding::DualAxis {
                x: match self.x {
                    Some(a) => a,
                    None => SingleAxisBinding::Dummy,
                },
                y: match self.y {
                    Some(a) => a,
                    None => SingleAxisBinding::Dummy,
                },
            }),
    {
        let x = match self.x {
            Some(a) => a,
            None => SingleAxisBinding::Dummy,
        };
        let y = match self.y {
            Some(a) => a,
            None => SingleAxisBinding::Dummy,
        };
        IBWrp(InputBinding::DualAxis { x, y }, core::marker::PhantomData)
    }

    pub open spec fn spec_unwrap_axis(b: InputBinding) -> SingleAxisBinding {
        match b {
            InputBinding::SingleAxis(a) => a,
            _ => SingleAxisBinding::Dummy,
        }
    }

    /// The single-axis binding in `input`; a dummy for a binding of another kind.
    pub fn unwrap_axis(input: IBWrp<SingleAxis>) -> (r: SingleAxisBinding)
        ensures
            r == Self::spec_unwrap_axis(input.0),
    {
        match input.0 {
            InputBinding::SingleAxis(axis) => axis,
            _ => SingleAxisBinding::Dummy,
        }
    }
}

impl SingleAxisBinding {
    pub fn hold() -> (r: SingleAxisHoldBuilder)
        ensures
            r.negative is None && r.positive is None,
    {
        SingleAxisHoldBuilder::new()
    }

    pub fn toggle() -> (r: SingleAxisToggleBuilder)
        ensures
            r.negative is None && r.positive is None,
    {
        SingleAxisToggleBuilder::new()
    }
}

/// Builds a single-axis binding held by two chords; an unset chord is empty.
#[derive(Debug)]
pub struct SingleAxisHoldBuilder {
    pub negative: Option<Chord>,
    pub positive: Option<Chord>,
}

impl SingleAxisHoldBuilder {
    pub fn new() -> (r: Self)
        ensures
            r.negative is None && r.positive is None,
    {
        SingleAxisHoldBuilder { negative: None, positive: None }
    }

    pub fn set_negative(self, input: ChordLike) -> (r: Self)
        ensures
            r.negative matches Some(c) && c@ == input.members(),
            r.positive == self.positive,
    {
        SingleAxisHoldBuilder { negative: Some(input.into_chord()), positive: self.positive }
    }

    pub fn set_positive(self, input: ChordLike) -> (r: Self)
        ensures
            r.positive matches Some(c) && c@ == input.members(),
            r.negative == self.negative,
    {
        SingleAxisHoldBuilder { negative: self.negative, positive: Some(input.into_chord()) }
    }

    pub fn build(self) -> (r: IBWrp<SingleAxis>)
        ensures
            r.0 matches InputBinding::SingleAxis(SingleAxisBinding::Hold(n, p)) && n@ == match self.negative {
                Some(c) => c@,
                None => Seq::empty(),
            } && p@ == match self.positive {
                Some(c) => c@,
                None => Seq::empty(),
            },
    {
        let n = match self.negative {
            Some(c) => c,
            None => Vec::new(),
        };
        let p = match self.positive {
            Some(c) => c,
            None => Vec::new(),
        };
        IBWrp(InputBinding::SingleAxis(SingleAxisBinding::Hold(n, p)), core::marker::PhantomData)
    }
}

/// Builds a single-axis binding toggled by two pulses; an unset pulse is a dummy.
#[derive(Debug)]
pub struct SingleAxisToggleBuilder {
    pub negative: Option<PulseBinding>,
    pub positive: Option<PulseBinding>,
}

impl SingleAxisToggleBuilder {
    pub fn new() -> (r: Self)
        ensures
            r.negative is None && r.positive is None,
    {
        SingleAxisToggleBuilder { negative: None, positive: None }
    }

    pub fn set_negative(self, input: IBWrp<Pulse>) -> (r: Self)
        ensures
            r.negative == Some(Self::spec_unwrap_pulse(input.0)),
            r.positive == self.positive,
    {
        SingleAxisToggleBuilder { negative: Some(Self::unwrap_pulse(input)), positive: self.positive }
    }

    pub fn set_positive(self, input: IBWrp<Pulse>) -> (r: Self)
        ensures
            r.positive == Some(Self::spec_unwrap_pulse(input.0)),
            r.negative == self.negative,
    {
        SingleAxisToggleBuilder { negative: self.negative, positive: Some(Self::unwrap_pulse(input)) }
    }

    pub fn build(self) -> (r: IBWrp<SingleAxis>)
        ensures
            r.0 == InputBinding::SingleAxis(
                SingleAxisBinding::Toggle(
                    match self.negative {
                        Some(p) => p,
                        None => PulseBinding::Dummy,
                    },
                    match self.positive {
                        Some(p) => p,
                        None => PulseBinding::Dummy,
                    },
                ),
            ),
    {
        let n = match self.negative {
            Some(p) => p,
            None => PulseBinding::Dummy,
        };
        let p = match self.positive {
            Some(p) => p,
            None => PulseBinding::Dummy,
        };
        IBWrp(InputBinding::SingleAxis(SingleAxisBinding::Toggle(n, p)), core::marker::PhantomData)
    }

    pub open spec fn spec_unwrap_pulse(b: InputBinding) -> PulseBinding {
        match b {
            InputBinding::Pulse(p) => p,
            _ => PulseBinding::Dummy,
        }
    }

    /// The pulse binding in `input`; a dummy for a binding of another kind.
    pub fn unwrap_pulse(input: IBWrp<Pulse>) -> (r: PulseBinding)
        ensures
            r == Self::spec_unwrap_pulse(input.0),
    {
        match input.0 {
            InputBinding::Pulse(pulse) => pulse,
            _ => PulseBinding::Dummy,
        }
    }
}

impl ContinuousBinding {
    /// Active while the chord is held.
    pub fn hold(input: ChordLike) -> (r: IBWrp<Continuous>)
        ensures
            r.0 matches InputBinding::Continuous(ContinuousBinding::Hold(c)) && c@ == input.members(),
    {
        IBWrp(InputBinding::Continuous(ContinuousBinding::Hold(input.into_chord())), core::marker::PhantomData)
    }

    /// Switched on and off by each pulse; a dummy for a binding that is not a pulse.
    pub fn toggle(input: IBWrp<Pulse>) -> (r: IBWrp<Continuous>)
        ensures
            r.0 == match input.0 {
                InputBinding::Pulse(p) => InputBinding::Continuous(ContinuousBinding::Toggle(p)),
                _ => InputBinding::Continuous(ContinuousBinding::Dummy),
            },
    {
        match input.0 {
            InputBinding::Pulse(pulse) => IBWrp(
                InputBinding::Continuous(ContinuousBinding::Toggle(pulse)),
                core::marker::PhantomData,
            ),
            _ => IBWrp(InputBinding::Continuous(ContinuousBinding::Dummy), core::marker::PhantomData),
        }
    }
}

impl PulseBinding {
    /// Fires when the chord is pressed.
    pub fn just_pressed(input: ChordLike) -> (r: IBWrp<Pulse>)
        ensures
            r.0 matches InputBinding::Pulse(PulseBinding::JustPressed(c)) && c@ == input.members(),
    {
        IBWrp(InputBinding::Pulse(PulseBinding::JustPressed(input.into_chord())), core::marker::PhantomData)
    }

    /// Fires when the chord is released.
    pub fn just_released(input: ChordLike) -> (r: IBWrp<Pulse>)
        ensures
            r.0 matches InputBinding::Pulse(PulseBinding::JustReleased(c)) && c@ == input.members(),
    {
        IBWrp(InputBinding::Pulse(PulseBinding::JustReleased(input.into_chord())), core::marker::PhantomData)
    }

    /// Fires when the chord is pressed twice within the double-click timing.
    pub fn double_click(input: ChordLike) -> (r: IBWrp<Pulse>)
        ensures
            r.0 matches InputBinding::Pulse(PulseBinding::DoubleClick(c)) && c@ == input.members(),
    {
        IBWrp(InputBinding::Pulse(PulseBinding::DoubleClick(input.into_chord())), core::marker::PhantomData)
    }

    /// A sequence that starts with the chord.
    pub fn sequence(input: ChordLike) -> (r: SequenceBuilder)
        ensures
            r.chords@.len() == 1,
            r.chords@[0]@ == input.members(),
    {
        SequenceBuilder::new(input)
    }
}

/// Builds a sequence of chords.
#[derive(Debug)]
pub struct SequenceBuilder {
    pub chords: Vec<Chord>,
}

impl SequenceBuilder {
    pub fn new(input: ChordLike) -> (r: Self)
        ensures
            r.chords@.len() == 1,
            r.chords@[0]@ == input.members(),
    {
        SequenceBuilder { chords: vec![input.into_chord()] }
    }

    /// The sequence, followed by the chord.
    pub fn followed_by(self, input: ChordLike) -> (r: Self)
        ensures
            r.chords@.len() == self.chords@.len() + 1,
            r.chords@.drop_last() == self.chords@,
            r.chords@.last()@ == input.members(),
    {
        let mut chords = self.chords;
        chords.push(input.into_chord());
        assert(chords@.drop_last() =~= self.chords@);
        SequenceBuilder { chords }
    }

    /// The sequence as a pulse binding, to be completed within `millis` milliseconds.
    pub fn with_timing(self, millis: u64) -> (r: IBWrp<Pulse>)
        ensures
            r.0 matches InputBinding::Pulse(PulseBinding::Sequence(m, cs)) && m == millis && cs@ == self.chords@,
    {
        IBWrp(InputBinding::Pulse(PulseBinding::Sequence(millis, self.chords)), core::marker::PhantomData)
    }
}

/// Builds a configuration binding by binding.
#[derive(Debug)]
pub struct InputConfigBuilder {
    pub double_click_timing: Option<u64>,
    pub post_acceptance_delay: Option<u64>,
    pub bindings: Vec<GroupBindings>,
}

impl InputConfig {
    pub fn builder() -> (r: InputConfigBuilder)
        ensures
            r.double_click_timing is None,
            r.post_acceptance_delay is None,
            r.bindings@.len() == 0,
            r.wf(),
    {
        InputConfigBuilder::new()
    }
}

impl InputConfigBuilder {
    pub open spec fn wf(&self) -> bool {
        groups_wf(self.bindings@)
    }

    pub fn new() -> (r: Self)
        ensures
            r.double_click_timing is None,
            r.post_acceptance_delay is None,
            r.bindings@.len() == 0,
            r.wf(),
    {
        InputConfigBuilder { double_click_timing: None, post_acceptance_delay: None, bindings: Vec::new() }
    }

    /// Sets the longest delay between the clicks of a double click, in milliseconds.
    pub fn double_click_timing(self, millis: u64) -> (r: Self)
        ensures
            r.double_click_timing == Some(millis),
            r.post_acceptance_delay == self.post_acceptance_delay,
            r.bindings == self.bindings,
    {
        InputConfigBuilder { double_click_timing: Some(millis), ..self }
    }

    /// Sets the post-acceptance delay, in milliseconds.
    pub fn post_acceptance_delay(self, millis: u64) -> (r: Self)
        ensures
            r.post_acceptance_delay == Some(millis),
            r.double_click_timing == self.double_click_timing,
            r.bindings == self.bindings,
    {
        InputConfigBuilder { post_acceptance_delay: Some(millis), ..self }
    }

    /// Adds `binding` to the bindings of the action `action_id` of the group `group_id`.
    pub fn bind_at(self, group_id: String, action_id: String, binding: InputBinding) -> (r: Self)
        requires
            self.wf(),
        ensures
            r.wf(),
            r.double_click_timing == self.double_click_timing,
            r.post_acceptance_delay == self.post_acceptance_delay,
            forall|g: Seq<char>, a: Seq<char>|
                #[trigger] bindings_in(r.bindings@, g, a) == if g == group_id@ && a == action_id@ {
                    bindings_in(self.bindings@, g, a).push(binding)
                } else {
                    bindings_in(self.bindings@, g, a)
                },
            forall|g: Seq<char>, a: Seq<char>|
                #[trigger] has_entry(r.bindings@, g, a) == (has_entry(self.bindings@, g, a) || (g == group_id@ && a
                    == action_id@)),
    {
        let mut bindings = self.bindings;
        let ghost b = binding;
        let more = vec![binding];
        add_bindings(&mut bindings, group_id, action_id, more, false);
        assert forall|g: Seq<char>, a: Seq<char>|
            #[trigger] bindings_in(bindings@, g, a) == if g == group_id@ && a == action_id@ {
                bindings_in(self.bindings@, g, a).push(b)
            } else {
                bindings_in(self.bindings@, g, a)
            } by {
            assert(bindings_in(self.bindings@, g, a) + seq![b] =~= bindings_in(self.bindings@, g, a).push(b));
        }
        InputConfigBuilder {
            double_click_timing: self.double_click_timing,
            post_acceptance_delay: self.post_acceptance_delay,
            bindings,
        }
    }

    /// Adds `binding` to the bindings of `action`.
    pub fn bind<I: InputAction, Kind>(self, action: IAWrp<I, Kind>, binding: IBWrp<Kind>) -> (r: Self)
        requires
            self.wf(),
        ensures
            r.wf(),
    {
        self.bind_at(I::group_id(), action.0.action_id(), binding.0)
    }

    /// The configuration built so far.
    pub fn build(self) -> (r: InputConfig)
        requires
            self.wf(),
        ensures
            r.wf(),
            r.bindings == self.bindings,
            r.double_click_timing == self.double_click_timing,
            r.post_acceptance_delay == self.post_acceptance_delay,
    {
        InputConfig {
            double_click_timing: self.double_click_timing,
            post_acceptance_delay: self.post_acceptance_delay,
            bindings: self.bindings,
        }
    }
}

} // verus!
