use vstd::prelude::*;

use crate::input::Chord;

verus! {

/// The four kinds of action, each read in its own way.
#[derive(Debug, Clone, Copy, PartialEq, Eq, Structural, Hash)]
pub enum InputKind {
    /// A direction in a plane, along two axes.
    DualAxis,
    /// A direction along one axis.
    SingleAxis,
    /// On or off, for as long as its condition holds.
    Continuous,
    /// True for exactly one tick per activation.
    Pulse,
}

impl InputKind {
    pub open spec fn explanation(self) -> Seq<char> {
        match self {
            InputKind::SingleAxis => "Indicates a direction along a single axis. Example: mouse wheel."@,
            InputKind::DualAxis => "Indicates a direction along two axes. Example: joystick."@,
            InputKind::Continuous => "Binary signal, either on or off. Example: holding down the sprint button."@,
            InputKind::Pulse => "An instantaneous event. Example: clicking the mouse button to shoot."@,
        }
    }

    /// A short description of the kind, for reports.
    pub fn explain(self) -> (r: &'static str)
        ensures
            r@ == self.explanation(),
    {
        match self {
            InputKind::SingleAxis => "Indicates a direction along a single axis. Example: mouse wheel.",
            InputKind::DualAxis => "Indicates a direction along two axes. Example: joystick.",
            InputKind::Continuous => "Binary signal, either on or off. Example: holding down the sprint button.",
            InputKind::Pulse => "An instantaneous event. Example: clicking the mouse button to shoot.",
        }
    }
}

/// Keys that come in pairs, such as the left and right shift keys.
#[derive(Debug, Clone, Copy, PartialEq, Eq, Structural, Hash)]
pub enum KeyGroup {
    Enter,
    Control,
    Shift,
    Alt,
}

/// An analog source of a value along one axis.
#[derive(Debug, Clone, Copy, PartialEq, Eq, Structural, Hash)]
pub enum AnalogAxisInput {
    ScrollWheelX,
    ScrollWheelY,
    MousePositionX,
    MousePositionY,
    GamePadStickLeftX,
    GamePadStickLeftY,
    GamePadStickRightX,
    GamePadStickRightY,
}

/// Whether an analog axis reads inverted.
#[derive(Debug, Clone, Copy, PartialEq, Eq, Structural, Hash)]
pub enum AxisInversion {
    NotInverted,
    Inverted,
}

/// Options of an analog axis; none so far.
#[derive(Debug, Clone, Copy, PartialEq, Eq, Structural, Hash)]
pub struct AxisOptions {}

/// The dead zone of an analog axis; none so far.
#[derive(Debug, Clone, Copy, PartialEq, Eq, Structural, Hash)]
pub struct AxisDeadZone {}

/// Whether an axis value is used as it is or inverted.
#[derive(Debug, Clone, Copy, PartialEq, Eq, Structural, Hash)]
pub enum Inversion {
    NotInverted,
    Inverted,
}

impl Inversion {
    pub open spec fn spec_multiplier(self) -> int {
        match self {
            Inversion::NotInverted => 1,
            Inversion::Inverted => -1,
        }
    }

    /// The sign an axis value is multiplied by: 1, or -1 when inverted.
    pub fn multiplier(&self) -> (r: i8)
        ensures
            r as int == self.spec_multiplier(),
    {
        match self {
            Inversion::NotInverted => 1,
            Inversion::Inverted => -1,
        }
    }

    /// `value`, inverted when this says so.
    pub fn maybe_invert(&self, value: i8) -> (r: i8)
        requires
            value > i8::MIN,
        ensures
            r as int == value * self.spec_multiplier(),
    {
        match self {
            Inversion::NotInverted => value,
            Inversion::Inverted => -value,
        }
    }
}

/// A change of a continuous action, as recorded.
#[derive(Debug, Clone, Copy, PartialEq, Eq, Structural, Hash)]
pub enum ContinuousStateChange {
    Start,
    End,
}

/// A binding that is true for one tick per activation. Timings are in milliseconds.
#[derive(Debug, Clone)]
pub enum PulseBinding {
    Dummy,
    JustPressed(Chord),
    JustReleased(Chord),
    DoubleClick(Chord),
    /// The chords in order, all pressed within the timeout counted from the first.
    Sequence(u64, Vec<Chord>),
}

/// A binding for one axis.
#[derive(Debug, Clone)]
pub enum SingleAxisBinding {
    Dummy,
    /// While the negative chord is held the axis reads -1, while the positive one is held +1.
    Hold(Chord, Chord),
    /// Each pulse flips the axis to its direction, or back to neutral.
    Toggle(PulseBinding, PulseBinding),
}

/// A binding that is on for as long as its condition holds.
#[derive(Debug, Clone)]
pub enum ContinuousBinding {
    Dummy,
    Hold(Chord),
    /// Each pulse switches the action on or off.
    Toggle(PulseBinding),
}

/// One binding of an action, of the action's kind.
#[derive(Debug, Clone)]
pub enum InputBinding {
    SingleAxis(SingleAxisBinding),
    DualAxis { x: SingleAxisBinding, y: SingleAxisBinding },
    Continuous(ContinuousBinding),
    Pulse(PulseBinding),
}

impl InputBinding {
    pub open spec fn spec_kind(&self) -> InputKind {
        match self {
            InputBinding::SingleAxis(_) => InputKind::SingleAxis,
            InputBinding::DualAxis { .. } => InputKind::DualAxis,
            InputBinding::Continuous(_) => InputKind::Continuous,
            InputBinding::Pulse(_) => InputKind::Pulse,
        }
    }

    pub fn kind(&self) -> (r: InputKind)
        ensures
            r == self.spec_kind(),
    {
        match self {
            InputBinding::SingleAxis(_) => InputKind::SingleAxis,
            InputBinding::DualAxis { .. } => InputKind::DualAxis,
            InputBinding::Continuous(_) => InputKind::Continuous,
            InputBinding::Pulse(_) => InputKind::Pulse,
        }
    }
}

} // verus!
