use vstd::prelude::*;

use crate::input::{
    all_inputs_pressed, all_pressed, blocks, chord_pressed, copy_chord, is_blocked_by,
    BinaryInput, Chord, InputSources,
};

verus! {

/// A chord in the form the tick reads it: no members, one member, or several.
#[derive(Debug, Clone)]
pub enum ProcessedChord {
    Dummy,
    Single(BinaryInput),
    Chord(Vec<BinaryInput>),
}

impl ProcessedChord {
    /// The members of the chord.
    pub open spec fn members(&self) -> Seq<BinaryInput> {
        match self {
            ProcessedChord::Dummy => Seq::empty(),
            ProcessedChord::Single(i) => seq![*i],
            ProcessedChord::Chord(v) => v@,
        }
    }

    pub fn new(chord: &Chord) -> (r: ProcessedChord)
        ensures
            r.members() == chord@,
    {
        if chord.len() > 1 {
            ProcessedChord::Chord(copy_chord(chord))
        } else if chord.len() == 1 {
            let r = ProcessedChord::Single(chord[0]);
            assert(r.members() =~= chord@);
            r
        } else {
            let r = ProcessedChord::Dummy;
            assert(r.members() =~= chord@);
            r
        }
    }

    /// Whether the chord is pressed: it has members and all of them are pressed.
    pub fn is_pressed(&self, pressed: &Vec<BinaryInput>) -> (r: bool)
        ensures
            r == chord_pressed(self.members(), pressed@),
    {
        match self {
            ProcessedChord::Dummy => false,
            ProcessedChord::Single(input) => {
                let r = crate::input::contains_input(pressed, *input);
                assert(r == all_pressed(self.members(), pressed@)) by {
                    if r {
                        assert forall|k: int| 0 <= k < self.members().len() implies pressed@.contains(
                            #[trigger] self.members()[k],
                        ) by {
                            assert(self.members()[k] == *input);
                        }
                    } else {
                        assert(self.members()[0] == *input);
                    }
                }
                r
            },
            ProcessedChord::Chord(inputs) => {
                if inputs.len() == 0 {
                    false
                } else {
                    all_inputs_pressed(inputs, pressed)
                }
            },
        }
    }
}

/// The chords of `all` that suppress `chord`, in the order of `all`.
pub open spec fn blockers_of(chord: Seq<BinaryInput>, all: Seq<Seq<BinaryInput>>) -> Seq<Seq<BinaryInput>> {
    all.filter(|b: Seq<BinaryInput>| blocks(b, chord))
}

/// The views of a list of chords.
pub open spec fn chord_views(chords: Seq<Chord>) -> Seq<Seq<BinaryInput>> {
    chords.map_values(|c: Chord| c@)
}

/// Some chord of `blockers` is fully pressed.
pub open spec fn some_blocker_pressed(blockers: Seq<Seq<BinaryInput>>, pressed: Seq<BinaryInput>) -> bool {
    exists|b: int| 0 <= b < blockers.len() && all_pressed(#[trigger] blockers[b], pressed)
}

/// One chord of a binding, with what the last two ticks made of it.
#[derive(Debug, Clone)]
pub struct StatefulBinaryInput {
    pub binary_input: ProcessedChord,
    pub active: bool,
    pub active_previous_tick: bool,
    pub blocked: bool,
    /// The chords that take precedence over this one: while any of them is
    /// pressed, this one cannot be active.
    pub blockers: Vec<Chord>,
}

impl StatefulBinaryInput {
    pub open spec fn spec_is_active(&self) -> bool {
        !self.blocked && self.active
    }

    pub open spec fn spec_just_pressed(&self) -> bool {
        !self.blocked && self.active && !self.active_previous_tick
    }

    pub open spec fn spec_just_released(&self) -> bool {
        !self.blocked && !self.active && self.active_previous_tick
    }

    /// The state is fresh: nothing active, nothing blocked.
    pub open spec fn is_fresh(&self) -> bool {
        !self.active && !self.active_previous_tick && !self.blocked
    }

    /// `next` is what one tick makes of `self`, given the pressed inputs and
    /// whether the post-acceptance delay is blocking all input.
    pub open spec fn steps_to(&self, next: Self, pressed: Seq<BinaryInput>, pad_blocking: bool) -> bool {
        &&& next.binary_input == self.binary_input
        &&& next.blockers == self.blockers
        &&& next.active_previous_tick == self.active
        &&& if pad_blocking {
            !next.active && next.blocked == self.blocked
        } else {
            &&& next.active == chord_pressed(self.binary_input.members(), pressed)
            &&& next.blocked == some_blocker_pressed(chord_views(self.blockers@), pressed)
        }
    }

    /// A fresh input for `chord`, whose blockers are the chords of `all` that suppress it.
    pub fn new(chord: &Chord, all: &Vec<Chord>) -> (r: StatefulBinaryInput)
        ensures
            r.binary_input.members() == chord@,
            chord_views(r.blockers@) == blockers_of(chord@, chord_views(all@)),
            r.is_fresh(),
    {
        let mut blockers: Vec<Chord> = Vec::new();
        let mut i: usize = 0;
        while i < all.len()
            invariant
                i <= all.len(),
                chord_views(blockers@) == blockers_of(chord@, chord_views(all@).take(i as int)),
            decreases all.len() - i,
        {
            let ghost before = chord_views(all@).take(i as int);
            let ghost after = chord_views(all@).take(i + 1);
            assert(after.drop_last() =~= before);
            assert(after.last() == all@[i as int]@);
            proof {
                reveal(Seq::filter);
            }
            if is_blocked_by(chord, &all[i]) {
                let c = copy_chord(&all[i]);
                let ghost old_blockers = blockers@;
                blockers.push(c);
                assert(chord_views(blockers@) =~= chord_views(old_blockers).push(c@));
            }
            i = i + 1;
        }
        assert(chord_views(all@).take(all.len() as int) =~= chord_views(all@));
        StatefulBinaryInput {
            binary_input: ProcessedChord::new(chord),
            active: false,
            active_previous_tick: false,
            blocked: false,
            blockers,
        }
    }

    pub fn is_active(&self) -> (r: bool)
        ensures
            r == self.spec_is_active(),
    {
        !self.blocked && self.active
    }

    pub fn just_pressed(&self) -> (r: bool)
        ensures
            r == self.spec_just_pressed(),
    {
        !self.blocked && self.active && !self.active_previous_tick
    }

    pub fn just_released(&self) -> (r: bool)
        ensures
            r == self.spec_just_released(),
    {
        !self.blocked && !self.active && self.active_previous_tick
    }

    /// Reads one tick. While the post-acceptance delay blocks input the chord
    /// reads as released. Returns whether the chord was freshly pressed, which
    /// the caller reports to the post-acceptance delay.
    pub fn update(&mut self, sources: &InputSources, pad_blocking: bool) -> (fresh: bool)
        ensures
            old(self).steps_to(*final(self), sources.pressed@, pad_blocking),
            fresh == final(self).spec_just_pressed(),
    {
        self.active_previous_tick = self.active;
        if pad_blocking {
            self.active = false;
            return false;
        }
        self.active = self.binary_input.is_pressed(&sources.pressed);
        self.blocked = any_blocker_pressed(&self.blockers, &sources.pressed);
        self.just_pressed()
    }
}

/// Whether some chord of `blockers` is fully pressed, whether or not that
/// chord is itself blocked.
pub fn any_blocker_pressed(blockers: &Vec<Chord>, pressed: &Vec<BinaryInput>) -> (r: bool)
    ensures
        r == some_blocker_pressed(chord_views(blockers@), pressed@),
{
    let mut i: usize = 0;
    while i < blockers.len()
        invariant
            i <= blockers.len(),
            forall|b: int| 0 <= b < i ==> !all_pressed(#[trigger] chord_views(blockers@)[b], pressed@),
        decreases blockers.len() - i,
    {
        if all_inputs_pressed(&blockers[i], pressed) {
            assert(chord_views(blockers@)[i as int] == blockers@[i as int]@);
            return true;
        }
        assert(chord_views(blockers@)[i as int] == blockers@[i as int]@);
        i = i + 1;
    }
    false
}

/// A chord without members never reads active, whatever is pressed, and no
/// chord suppresses it; nor does it suppress any chord, so it is never among
/// the blockers of another.
pub proof fn lemma_empty_chord_inert(
    input: StatefulBinaryInput,
    next: StatefulBinaryInput,
    pressed: Seq<BinaryInput>,
    pad_blocking: bool,
    other: Seq<BinaryInput>,
    all: Seq<Seq<BinaryInput>>,
)
    requires
        input.binary_input.members().len() == 0,
        input.steps_to(next, pressed, pad_blocking),
    ensures
        !next.spec_is_active(),
        !next.spec_just_pressed(),
        !blocks(other, Seq::empty()),
        !blocks(Seq::empty(), other),
        !blockers_of(other, all).contains(Seq::empty()),
{
    let pred = |b: Seq<BinaryInput>| blocks(b, other);
    all.filter_lemma(pred);
    if blockers_of(other, all).contains(Seq::empty()) {
        let k = choose|k: int| 0 <= k < all.filter(pred).len() && all.filter(pred)[k] == Seq::<BinaryInput>::empty();
        assert(pred(all.filter(pred)[k]));
    }
}

/// While the post-acceptance delay blocks input, a chord reads released and
/// is not freshly pressed, whatever is pressed.
pub proof fn lemma_blocked_input_reads_released(
    input: StatefulBinaryInput,
    next: StatefulBinaryInput,
    pressed: Seq<BinaryInput>,
)
    requires
        input.steps_to(next, pressed, true),
    ensures
        !next.spec_is_active(),
        !next.spec_just_pressed(),
{
}

/// A chord is suppressed while a strictly larger chord of the same
/// configuration that holds all its members is fully pressed.
pub proof fn lemma_larger_chord_blocks(
    chord: Seq<BinaryInput>,
    larger: Seq<BinaryInput>,
    all: Seq<Seq<BinaryInput>>,
    input: StatefulBinaryInput,
    next: StatefulBinaryInput,
    pressed: Seq<BinaryInput>,
)
    requires
        blocks(larger, chord),
        all.contains(larger),
        input.binary_input.members() == chord,
        chord_views(input.blockers@) == blockers_of(chord, all),
        input.steps_to(next, pressed, false),
        all_pressed(larger, pressed),
    ensures
        next.blocked,
        !next.spec_is_active(),
{
    let pred = |b: Seq<BinaryInput>| blocks(b, chord);
    all.filter_lemma(pred);
    let k = choose|k: int| 0 <= k < all.len() && all[k] == larger;
    assert(pred(all[k]));
    assert(all.filter(pred).contains(all[k]));
    let j = choose|j: int| 0 <= j < all.filter(pred).len() && all.filter(pred)[j] == larger;
    assert(all_pressed(chord_views(input.blockers@)[j], pressed));
}

} // verus!
