use vstd::prelude::*;

verus! {

/// One physical button. Keys and mouse buttons are identified by their code.
#[derive(Debug, Clone, Copy, PartialEq, Eq, Structural, Hash)]
pub enum BinaryInput {
    Key(u64),
    MouseButton(u32),
}

/// A set of inputs that must all be pressed together. An empty chord never activates.
pub type Chord = Vec<BinaryInput>;

/// What the hardware reports for one tick: the inputs held down, and the time
/// since the previous tick in nanoseconds.
#[derive(Debug, Clone)]
pub struct InputSources {
    pub pressed: Vec<BinaryInput>,
    pub delta: u64,
}

/// Every member of `chord` is among the pressed inputs.
pub open spec fn all_pressed(chord: Seq<BinaryInput>, pressed: Seq<BinaryInput>) -> bool {
    forall|k: int| 0 <= k < chord.len() ==> pressed.contains(#[trigger] chord[k])
}

/// A chord is pressed when it has members and all of them are pressed.
pub open spec fn chord_pressed(chord: Seq<BinaryInput>, pressed: Seq<BinaryInput>) -> bool {
    chord.len() > 0 && all_pressed(chord, pressed)
}

/// `blocker` suppresses `chord`: `chord` is non-empty, strictly shorter, and
/// every member of it is a member of `blocker`.
pub open spec fn blocks(blocker: Seq<BinaryInput>, chord: Seq<BinaryInput>) -> bool {
    &&& 0 < chord.len() < blocker.len()
    &&& forall|k: int| 0 <= k < chord.len() ==> blocker.contains(#[trigger] chord[k])
}

/// Whether `input` is one of `inputs`.
pub fn contains_input(inputs: &Vec<BinaryInput>, input: BinaryInput) -> (r: bool)
    ensures
        r == inputs@.contains(input),
{
    let mut i: usize = 0;
    while i < inputs.len()
        invariant
            i <= inputs.len(),
            forall|k: int| 0 <= k < i ==> inputs@[k] != input,
        decreases inputs.len() - i,
    {
        if inputs[i] == input {
            return true;
        }
        i = i + 1;
    }
    false
}

/// Whether every member of `chord` is one of `pressed` (true of an empty chord).
pub fn all_inputs_pressed(chord: &Vec<BinaryInput>, pressed: &Vec<BinaryInput>) -> (r: bool)
    ensures
        r == all_pressed(chord@, pressed@),
{
    let mut i: usize = 0;
    while i < chord.len()
        invariant
            i <= chord.len(),
            forall|k: int| 0 <= k < i ==> pressed@.contains(#[trigger] chord@[k]),
        decreases chord.len() - i,
    {
        if !contains_input(pressed, chord[i]) {
            return false;
        }
        i = i + 1;
    }
    true
}

/// Whether `blocker` suppresses `chord`.
pub fn is_blocked_by(chord: &Vec<BinaryInput>, blocker: &Vec<BinaryInput>) -> (r: bool)
    ensures
        r == blocks(blocker@, chord@),
{
    if chord.len() == 0 || chord.len() >= blocker.len() {
        return false;
    }
    all_inputs_pressed(chord, blocker)
}

/// A copy of `chord`, member by member.
pub fn copy_chord(chord: &Vec<BinaryInput>) -> (r: Chord)
    ensures
        r@ == chord@,
{
    let mut out: Chord = Vec::new();
    let mut i: usize = 0;
    while i < chord.len()
        invariant
            i <= chord.len(),
            out@ == chord@.take(i as int),
        decreases chord.len() - i,
    {
        out.push(chord[i]);
        i = i + 1;
        assert(out@ =~= chord@.take(i as int));
    }
    assert(out@ =~= chord@);
    out
}

} // verus!
