use vstd::prelude::*;

use crate::binary::chord_views;
use crate::bindings::{ContinuousBinding, InputBinding, InputKind, PulseBinding, SingleAxisBinding};
use crate::config::{ActionBindings, GroupBindings, InputConfig};
use crate::input::{copy_chord, BinaryInput, Chord};
use crate::meta::IneffableMetaData;

verus! {

/// The chords of a pulse binding.
pub open spec fn pulse_chords(p: PulseBinding) -> Seq<Seq<BinaryInput>> {
    match p {
        PulseBinding::Dummy => Seq::empty(),
        PulseBinding::JustPressed(c) => seq![c@],
        PulseBinding::JustReleased(c) => seq![c@],
        PulseBinding::DoubleClick(c) => seq![c@],
        PulseBinding::Sequence(_, cs) => chord_views(cs@),
    }
}

/// The chords of a single-axis binding.
pub open spec fn axis_chords(a: SingleAxisBinding) -> Seq<Seq<BinaryInput>> {
    match a {
        SingleAxisBinding::Dummy => Seq::empty(),
        SingleAxisBinding::Hold(n, p) => seq![n@, p@],
        SingleAxisBinding::Toggle(n, p) => pulse_chords(n) + pulse_chords(p),
    }
}

/// The chords of a continuous binding.
pub open spec fn continuous_chords(c: ContinuousBinding) -> Seq<Seq<BinaryInput>> {
    match c {
        ContinuousBinding::Dummy => Seq::empty(),
        ContinuousBinding::Hold(c) => seq![c@],
        ContinuousBinding::Toggle(p) => pulse_chords(p),
    }
}

/// The chords of a binding, when it is of the kind `kind`; none otherwise.
pub open spec fn binding_chords(kind: InputKind, b: InputBinding) -> Seq<Seq<BinaryInput>> {
    match b {
        InputBinding::SingleAxis(a) => if kind == InputKind::SingleAxis { axis_chords(a) } else { Seq::empty() },
        InputBinding::DualAxis { x, y } => if kind == InputKind::DualAxis {
            axis_chords(x) + axis_chords(y)
        } else {
            Seq::empty()
        },
        InputBinding::Continuous(c) => if kind == InputKind::Continuous {
            continuous_chords(c)
        } else {
            Seq::empty()
        },
        InputBinding::Pulse(p) => if kind == InputKind::Pulse { pulse_chords(p) } else { Seq::empty() },
    }
}

/// The chords of the bindings of kind `kind` among `bs`, in order.
pub open spec fn bindings_chords(kind: InputKind, bs: Seq<InputBinding>) -> Seq<Seq<BinaryInput>>
    decreases bs.len(),
{
    if bs.len() == 0 {
        Seq::empty()
    } else {
        bindings_chords(kind, bs.drop_last()) + binding_chords(kind, bs.last())
    }
}

/// The chords of the registered actions among `actions` of the group `group_id`.
pub open spec fn actions_chords(meta: IneffableMetaData, group_id: Seq<char>, actions: Seq<ActionBindings>) -> Seq<
    Seq<BinaryInput>,
>
    decreases actions.len(),
{
    if actions.len() == 0 {
        Seq::empty()
    } else {
        let a = actions.last();
        actions_chords(meta, group_id, actions.drop_last()) + if meta.spec_action_exists(group_id, a.action_id@) {
            bindings_chords(meta.spec_action(group_id, a.action_id@).kind, a.bindings@)
        } else {
            Seq::empty()
        }
    }
}

/// The chords of the registered groups among `groups`.
pub open spec fn groups_chords(meta: IneffableMetaData, groups: Seq<GroupBindings>) -> Seq<Seq<BinaryInput>>
    decreases groups.len(),
{
    if groups.len() == 0 {
        Seq::empty()
    } else {
        let g = groups.last();
        groups_chords(meta, groups.drop_last()) + if meta.spec_group_exists(g.group_id@) {
            actions_chords(meta, g.group_id@, g.actions@)
        } else {
            Seq::empty()
        }
    }
}

/// Every chord bound in `config` to a registered action of the binding's kind.
pub open spec fn config_chords(meta: IneffableMetaData, config: InputConfig) -> Seq<Seq<BinaryInput>> {
    groups_chords(meta, config.bindings@)
}

/// Appends a copy of `chord`.
fn push_chord(out: &mut Vec<Chord>, chord: &Chord)
    ensures
        chord_views(final(out)@) == chord_views(old(out)@).push(chord@),
{
    let c = copy_chord(chord);
    out.push(c);
    assert(chord_views(out@) =~= chord_views(old(out)@).push(chord@));
}

/// Appends copies of `chords`.
fn push_chords(out: &mut Vec<Chord>, chords: &Vec<Chord>)
    ensures
        chord_views(final(out)@) == chord_views(old(out)@) + chord_views(chords@),
{
    let ghost start = chord_views(out@);
    let mut i: usize = 0;
    while i < chords.len()
        invariant
            i <= chords@.len(),
            chord_views(out@) == start + chord_views(chords@.take(i as int)),
        decreases chords@.len() - i,
    {
        push_chord(out, &chords[i]);
        assert(chord_views(chords@.take(i + 1)) =~= chord_views(chords@.take(i as int)).push(chords@[i as int]@));
        assert(start + chord_views(chords@.take(i + 1)) =~= (start + chord_views(chords@.take(i as int))).push(
            chords@[i as int]@,
        ));
        i = i + 1;
    }
    assert(chords@.take(chords@.len() as int) =~= chords@);
}

fn push_pulse_chords(out: &mut Vec<Chord>, p: &PulseBinding)
    ensures
        chord_views(final(out)@) == chord_views(old(out)@) + pulse_chords(*p),
{
    match p {
        PulseBinding::Dummy => {
            assert(chord_views(out@) =~= chord_views(out@) + pulse_chords(*p));
        },
        PulseBinding::JustPressed(c) | PulseBinding::JustReleased(c) | PulseBinding::DoubleClick(c) => {
            push_chord(out, c);
            assert(chord_views(old(out)@).push(c@) =~= chord_views(old(out)@) + seq![c@]);
        },
        PulseBinding::Sequence(_, cs) => {
            push_chords(out, cs);
        },
    }
}

fn push_axis_chords(out: &mut Vec<Chord>, a: &SingleAxisBinding)
    ensures
        chord_views(final(out)@) == chord_views(old(out)@) + axis_chords(*a),
{
    match a {
        SingleAxisBinding::Dummy => {
            assert(chord_views(out@) =~= chord_views(out@) + axis_chords(*a));
        },
        SingleAxisBinding::Hold(n, p) => {
            push_chord(out, n);
            push_chord(out, p);
            assert(chord_views(old(out)@).push(n@).push(p@) =~= chord_views(old(out)@) + seq![n@, p@]);
        },
        SingleAxisBinding::Toggle(n, p) => {
            push_pulse_chords(out, n);
            push_pulse_chords(out, p);
            assert(chord_views(old(out)@) + pulse_chords(*n) + pulse_chords(*p) =~= chord_views(old(out)@) + (
            pulse_chords(*n) + pulse_chords(*p)));
        },
    }
}

/// Appends the chords of `b` when it is of the kind `kind`.
fn push_binding_chords(out: &mut Vec<Chord>, kind: InputKind, b: &InputBinding)
    ensures
        chord_views(final(out)@) == chord_views(old(out)@) + binding_chords(kind, *b),
{
    let ghost start = chord_views(out@);
    match b {
        InputBinding::SingleAxis(a) => {
            if kind == InputKind::SingleAxis {
                push_axis_chords(out, a);
            }
        },
        InputBinding::DualAxis { x, y } => {
            if kind == InputKind::DualAxis {
                push_axis_chords(out, x);
                push_axis_chords(out, y);
                assert(start + axis_chords(*x) + axis_chords(*y) =~= start + (axis_chords(*x) + axis_chords(*y)));
            }
        },
        InputBinding::Continuous(c) => {
            if kind == InputKind::Continuous {
                match c {
                    ContinuousBinding::Dummy => {},
                    ContinuousBinding::Hold(chord) => {
                        push_chord(out, chord);
                        assert(start.push(chord@) =~= start + seq![chord@]);
                    },
                    ContinuousBinding::Toggle(p) => {
                        push_pulse_chords(out, p);
                    },
                }
            }
        },
        InputBinding::Pulse(p) => {
            if kind == InputKind::Pulse {
                push_pulse_chords(out, p);
            }
        },
    }
    assert(chord_views(out@) =~= start + binding_chords(kind, *b));
}

/// Every chord bound in `config` to a registered action, for the blockers of each.
pub fn collect_inputs(meta: &IneffableMetaData, config: &InputConfig) -> (r: Vec<Chord>)
    requires
        meta.wf(),
    ensures
        chord_views(r@) == config_chords(*meta, *config),
{
    let mut out: Vec<Chord> = Vec::new();
    let groups = &config.bindings;
    let mut g: usize = 0;
    assert(chord_views(out@) =~= Seq::<Seq<BinaryInput>>::empty());
    while g < groups.len()
        invariant
            g <= groups@.len(),
            meta.wf(),
            chord_views(out@) == groups_chords(*meta, groups@.take(g as int)),
        decreases groups@.len() - g,
    {
        let group = &groups[g];
        assert(groups@.take(g + 1).drop_last() =~= groups@.take(g as int));
        let ghost before = chord_views(out@);
        if meta.group_exists(&group.group_id) {
            let actions = &group.actions;
            let mut a: usize = 0;
            assert(before + actions_chords(*meta, group.group_id@, actions@.take(0)) =~= before);
            while a < actions.len()
                invariant
                    a <= actions@.len(),
                    meta.wf(),
                    meta.spec_group_exists(group.group_id@),
                    chord_views(out@) == before + actions_chords(*meta, group.group_id@, actions@.take(a as int)),
                decreases actions@.len() - a,
            {
                let action = &actions[a];
                assert(actions@.take(a + 1).drop_last() =~= actions@.take(a as int));
                let ghost mid = chord_views(out@);
                let ghost part = if meta.spec_action_exists(group.group_id@, action.action_id@) {
                    bindings_chords(meta.spec_action(group.group_id@, action.action_id@).kind, action.bindings@)
                } else {
                    Seq::empty()
                };
                if let Some(item) = meta.action(&group.group_id, &action.action_id) {
                    let kind = item.kind;
                    let bs = &action.bindings;
                    let mut b: usize = 0;
                    assert(mid + bindings_chords(kind, bs@.take(0)) =~= mid);
                    while b < bs.len()
                        invariant
                            b <= bs@.len(),
                            chord_views(out@) == mid + bindings_chords(kind, bs@.take(b as int)),
                        decreases bs@.len() - b,
                    {
                        assert(bs@.take(b + 1).drop_last() =~= bs@.take(b as int));
                        push_binding_chords(&mut out, kind, &bs[b]);
                        assert(mid + bindings_chords(kind, bs@.take(b + 1)) =~= mid + bindings_chords(
                            kind,
                            bs@.take(b as int),
                        ) + binding_chords(kind, bs@[b as int]));
                        b = b + 1;
                    }
                    assert(bs@.take(bs@.len() as int) =~= bs@);
                } else {
                    assert(chord_views(out@) =~= mid + part);
                }
                let ghost prefix = actions_chords(*meta, group.group_id@, actions@.take(a as int));
                assert(actions_chords(*meta, group.group_id@, actions@.take(a + 1)) == prefix + part);
                assert(before + (prefix + part) =~= (before + prefix) + part);
                a = a + 1;
            }
            assert(actions@.take(actions@.len() as int) =~= actions@);
        } else {
            assert(groups_chords(*meta, groups@.take(g + 1)) =~= groups_chords(*meta, groups@.take(g as int)));
        }
        g = g + 1;
    }
    assert(groups@.take(groups@.len() as int) =~= groups@);
    out
}

} // verus!
