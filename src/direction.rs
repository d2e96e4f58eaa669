use vstd::prelude::*;

verus! {

/// A direction along one axis, as a toggle leaves it.
#[derive(Debug, Clone, Copy, PartialEq, Eq, Structural)]
pub enum Direction1D {
    Negative,
    Positive,
    Neutral,
}

impl Default for Direction1D {
    fn default() -> (r: Self)
        ensures
            r == Direction1D::Neutral,
    {
        Direction1D::Neutral
    }
}

/// The direction signalled by two toggles that may have fired in one tick:
/// neutral when both or neither fired.
pub open spec fn direction_of(negative: bool, positive: bool) -> Direction1D {
    if negative && !positive {
        Direction1D::Negative
    } else if positive && !negative {
        Direction1D::Positive
    } else {
        Direction1D::Neutral
    }
}

/// The signed value of a direction: -1, 1 or 0.
pub open spec fn direction_value(d: Direction1D) -> int {
    match d {
        Direction1D::Negative => -1,
        Direction1D::Positive => 1,
        Direction1D::Neutral => 0,
    }
}

/// Toggling `d` with `t`: toggling with itself gives neutral, toggling with
/// neutral keeps `d`, and any other toggle gives `t`.
pub open spec fn toggled(d: Direction1D, t: Direction1D) -> Direction1D {
    if d == t {
        Direction1D::Neutral
    } else if t == Direction1D::Neutral {
        d
    } else {
        t
    }
}

impl Direction1D {
    pub open spec fn spec_opposite(self) -> Direction1D {
        match self {
            Direction1D::Negative => Direction1D::Positive,
            Direction1D::Neutral => Direction1D::Neutral,
            Direction1D::Positive => Direction1D::Negative,
        }
    }

    pub fn from_input(negative: bool, positive: bool) -> (r: Self)
        ensures
            r == direction_of(negative, positive),
    {
        if negative ^ positive {
            if negative {
                Direction1D::Negative
            } else {
                Direction1D::Positive
            }
        } else {
            Direction1D::Neutral
        }
    }

    pub fn toggle(self, toggle: Direction1D) -> (r: Self)
        ensures
            r == toggled(self, toggle),
    {
        if self == toggle {
            Direction1D::Neutral
        } else if toggle == Direction1D::Neutral {
            self
        } else if self == Direction1D::Neutral {
            toggle
        } else {
            self.opposite()
        }
    }

    pub fn signum(&self) -> (r: i8)
        ensures
            r as int == direction_value(*self),
    {
        match self {
            Direction1D::Positive => 1,
            Direction1D::Negative => -1,
            Direction1D::Neutral => 0,
        }
    }

    /// The opposite direction; neutral stays neutral.
    pub fn opposite(self) -> (r: Self)
        ensures
            r == self.spec_opposite(),
    {
        match self {
            Direction1D::Negative => Direction1D::Positive,
            Direction1D::Neutral => Direction1D::Neutral,
            Direction1D::Positive => Direction1D::Negative,
        }
    }
}

} // verus!
