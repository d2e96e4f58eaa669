use vstd::prelude::*;

use crate::bindings::{ContinuousBinding, InputBinding, InputKind, PulseBinding, SingleAxisBinding};
use crate::config::{ActionBindings, GroupBindings, InputConfig};
use crate::input::{BinaryInput, Chord};
use crate::meta::IneffableMetaData;
use crate::report::{
    append_entries, entries_view, push_entry, ActionLocation, InputConfigProblem, InputConfigReport,
    ProblemTag, ProblemView, ReportEntry, Severity,
};

verus! {

/// Timings of at most this many milliseconds, for a sequence or a double
/// click, are too short for a person to meet.
pub const MIN_REALISTIC_MILLIS: u64 = 25;

/// A problem at `at` with no further details.
pub open spec fn place_view(severity: Severity, tag: ProblemTag, at: Place) -> ProblemView {
    (severity, tag, at.0, at.1, at.2, Seq::empty(), None, 0)
}

/// Where a problem is: the group, the action, and the binding's position.
pub type Place = (Seq<char>, Seq<char>, nat);

/// The place of a location.
pub open spec fn place(loc: ActionLocation) -> Place {
    (loc.group_id@, loc.action_id@, loc.index as nat)
}

/// One problem at `at` when `cond` holds; none otherwise.
pub open spec fn problem_if(cond: bool, severity: Severity, tag: ProblemTag, at: Place) -> Seq<ProblemView> {
    if cond {
        seq![place_view(severity, tag, at)]
    } else {
        Seq::empty()
    }
}

/// The number of members of `c` before position `y`, after position `x`, equal to member `x`.
pub open spec fn equal_members(c: Seq<BinaryInput>, x: int, y: int) -> nat
    decreases y - x,
{
    if y <= x + 1 {
        0
    } else {
        equal_members(c, x, y - 1) + if c[y - 1] == c[x] { 1nat } else { 0nat }
    }
}

/// The number of pairs of equal members among the first `n` members of `c`, each
/// pair counted at its first member.
pub open spec fn duplicate_pairs(c: Seq<BinaryInput>, n: int) -> nat
    decreases n,
{
    if n <= 0 {
        0
    } else {
        duplicate_pairs(c, n - 1) + equal_members(c, n - 1, c.len() as int)
    }
}

/// One warning for each pair of equal members of the chord.
pub open spec fn chord_problems(c: Seq<BinaryInput>, at: Place) -> Seq<ProblemView> {
    Seq::new(
        duplicate_pairs(c, c.len() as int),
        |k: int| place_view(Severity::Warning, ProblemTag::ChordContainsDuplicates, at),
    )
}

/// The problems of the chords of a sequence, chord by chord.
pub open spec fn chords_problems(cs: Seq<Chord>, at: Place) -> Seq<ProblemView>
    decreases cs.len(),
{
    if cs.len() == 0 {
        Seq::empty()
    } else {
        chords_problems(cs.drop_last(), at) + chord_problems(cs.last()@, at)
    }
}

/// The problems of a pulse binding.
pub open spec fn pulse_problems(p: PulseBinding, at: Place) -> Seq<ProblemView> {
    match p {
        PulseBinding::Dummy => Seq::empty(),
        PulseBinding::JustPressed(c) => chord_binding_problems(c@, at),
        PulseBinding::JustReleased(c) => chord_binding_problems(c@, at),
        PulseBinding::DoubleClick(c) => chord_binding_problems(c@, at),
        PulseBinding::Sequence(millis, cs) => (if millis <= MIN_REALISTIC_MILLIS {
            seq![(Severity::Error, ProblemTag::SequenceUnrealisticTiming, at.0, at.1, at.2, Seq::empty(), None, millis as nat)]
        } else {
            Seq::empty()
        }) + problem_if(cs@.len() == 0, Severity::Warning, ProblemTag::SequenceEmpty, at) + problem_if(
            cs@.len() == 1,
            Severity::Warning,
            ProblemTag::SequenceOnlyContainsOneElement,
            at,
        ) + problem_if(
            exists|k: int| 0 <= k < cs@.len() && (#[trigger] cs@[k])@.len() == 0,
            Severity::Error,
            ProblemTag::ConvolutedDummy,
            at,
        ) + chords_problems(cs@, at),
    }
}

/// The problems of a binding made of one chord: an empty chord, and duplicates.
pub open spec fn chord_binding_problems(c: Seq<BinaryInput>, at: Place) -> Seq<ProblemView> {
    problem_if(c.len() == 0, Severity::Warning, ProblemTag::ConvolutedDummy, at) + chord_problems(c, at)
}

/// The problems of a single-axis binding.
pub open spec fn axis_problems(a: SingleAxisBinding, at: Place) -> Seq<ProblemView> {
    match a {
        SingleAxisBinding::Dummy => Seq::empty(),
        SingleAxisBinding::Hold(n, p) => problem_if(
            n@.len() == 0 && p@.len() == 0,
            Severity::Warning,
            ProblemTag::ConvolutedDummy,
            at,
        ) + chord_problems(n@, at) + chord_problems(p@, at),
        SingleAxisBinding::Toggle(n, p) => problem_if(
            n is Dummy && p is Dummy,
            Severity::Warning,
            ProblemTag::ConvolutedDummy,
            at,
        ) + pulse_problems(n, at) + pulse_problems(p, at),
    }
}

/// The problems of a continuous binding.
pub open spec fn continuous_problems(c: ContinuousBinding, at: Place) -> Seq<ProblemView> {
    match c {
        ContinuousBinding::Dummy => Seq::empty(),
        ContinuousBinding::Hold(chord) => chord_binding_problems(chord@, at),
        ContinuousBinding::Toggle(p) => problem_if(p is Dummy, Severity::Warning, ProblemTag::ConvolutedDummy, at)
            + pulse_problems(p, at),
    }
}

/// The problems of one binding of an action of kind `kind`.
pub open spec fn binding_problems(b: InputBinding, kind: InputKind, at: Place) -> Seq<ProblemView> {
    (if b.spec_kind() != kind {
        seq![(Severity::Error, ProblemTag::ActionWrongKind, at.0, at.1, at.2, Seq::empty(), Some((b.spec_kind(), kind)), 0nat)]
    } else {
        Seq::empty()
    }) + match b {
        InputBinding::SingleAxis(a) => problem_if(a is Dummy, Severity::Warning, ProblemTag::RootBindingIsDummy, at)
            + axis_problems(a, at),
        InputBinding::DualAxis { x, y } => problem_if(
            x is Dummy && y is Dummy,
            Severity::Warning,
            ProblemTag::RootBindingIsDummy,
            at,
        ) + axis_problems(x, at) + axis_problems(y, at),
        InputBinding::Continuous(c) => problem_if(
            c is Dummy,
            Severity::Warning,
            ProblemTag::RootBindingIsDummy,
            at,
        ) + continuous_problems(c, at),
        InputBinding::Pulse(p) => problem_if(p is Dummy, Severity::Warning, ProblemTag::RootBindingIsDummy, at)
            + pulse_problems(p, at),
    }
}


/// The problems of the bindings `bs` of the action `action_id` of kind `kind`, binding by binding.
pub open spec fn bindings_problems(bs: Seq<InputBinding>, kind: InputKind, group_id: Seq<char>, action_id: Seq<char>) -> Seq<
    ProblemView,
>
    decreases bs.len(),
{
    if bs.len() == 0 {
        Seq::empty()
    } else {
        bindings_problems(bs.drop_last(), kind, group_id, action_id) + binding_problems(
            bs.last(),
            kind,
            (group_id, action_id, (bs.len() - 1) as nat),
        )
    }
}

/// The problems of the actions of the registered group `group_id`, action by action.
pub open spec fn actions_problems(meta: IneffableMetaData, group_id: Seq<char>, actions: Seq<ActionBindings>) -> Seq<
    ProblemView,
>
    decreases actions.len(),
{
    if actions.len() == 0 {
        Seq::empty()
    } else {
        let a = actions.last();
        actions_problems(meta, group_id, actions.drop_last()) + if meta.spec_action_exists(group_id, a.action_id@) {
            bindings_problems(a.bindings@, meta.spec_action(group_id, a.action_id@).kind, group_id, a.action_id@)
        } else {
            seq![(
                Severity::Error,
                ProblemTag::UnknownAction,
                group_id,
                a.action_id@,
                0nat,
                meta.spec_action_ids(group_id),
                None,
                0nat,
            )]
        }
    }
}

/// The problems of the groups of a configuration, group by group.
pub open spec fn groups_problems(meta: IneffableMetaData, groups: Seq<GroupBindings>) -> Seq<ProblemView>
    decreases groups.len(),
{
    if groups.len() == 0 {
        Seq::empty()
    } else {
        let g = groups.last();
        groups_problems(meta, groups.drop_last()) + if meta.spec_group_exists(g.group_id@) {
            actions_problems(meta, g.group_id@, g.actions@)
        } else {
            seq![(
                Severity::Error,
                ProblemTag::UnknownGroup,
                g.group_id@,
                Seq::<char>::empty(),
                0nat,
                meta.spec_group_ids(),
                None,
                0nat,
            )]
        }
    }
}

/// The problem of a double-click timing too short for a person to meet.
pub open spec fn timing_problems(double_click_timing: Option<u64>) -> Seq<ProblemView> {
    match double_click_timing {
        Some(m) => if m <= MIN_REALISTIC_MILLIS {
            seq![(Severity::Error, ProblemTag::DoubleClickUnrealisticTiming, Seq::empty(), Seq::empty(), 0nat, Seq::empty(), None, m as nat)]
        } else {
            Seq::empty()
        },
        None => Seq::empty(),
    }
}

/// The problems of a configuration: its timing, then its groups.
pub open spec fn config_problems(meta: IneffableMetaData, config: InputConfig) -> Seq<ProblemView> {
    timing_problems(config.double_click_timing) + groups_problems(meta, config.bindings@)
}

/// A copy of `loc`.
fn copy_loc(loc: &ActionLocation) -> (r: ActionLocation)
    ensures
        place(r) == place(*loc),
{
    ActionLocation { group_id: loc.group_id.clone(), action_id: loc.action_id.clone(), index: loc.index }
}

/// One warning for each pair of equal members of `c`.
fn check_chord(c: &Chord, loc: &ActionLocation) -> (r: Vec<ReportEntry>)
    ensures
        entries_view(r@) == chord_problems(c@, place(*loc)),
{
    let ghost at = place(*loc);
    let ghost v = place_view(Severity::Warning, ProblemTag::ChordContainsDuplicates, at);
    let mut out: Vec<ReportEntry> = Vec::new();
    let mut x: usize = 0;
    assert(entries_view(out@) =~= Seq::new(duplicate_pairs(c@, 0), |k: int| v));
    while x < c.len()
        invariant
            x <= c@.len(),
            v == place_view(Severity::Warning, ProblemTag::ChordContainsDuplicates, at),
            at == place(*loc),
            entries_view(out@) == Seq::new(duplicate_pairs(c@, x as int), |k: int| v),
        decreases c@.len() - x,
    {
        let mut y: usize = x + 1;
        while y < c.len()
            invariant
                x < c@.len(),
                x + 1 <= y <= c@.len(),
                v == place_view(Severity::Warning, ProblemTag::ChordContainsDuplicates, at),
                at == place(*loc),
                entries_view(out@) == Seq::new(
                    duplicate_pairs(c@, x as int) + equal_members(c@, x as int, y as int),
                    |k: int| v,
                ),
            decreases c@.len() - y,
        {
            let ghost n = duplicate_pairs(c@, x as int) + equal_members(c@, x as int, y as int);
            if c[x] == c[y] {
                push_entry(&mut out, Severity::Warning, InputConfigProblem::ChordContainsDuplicates { loc: copy_loc(loc) });
                assert(Seq::new(n, |k: int| v).push(v) =~= Seq::new(n + 1, |k: int| v));
            }
            y = y + 1;
        }
        x = x + 1;
    }
    out
}

/// The problems of the chords of a sequence.
fn check_chords(cs: &Vec<Chord>, loc: &ActionLocation) -> (r: Vec<ReportEntry>)
    ensures
        entries_view(r@) == chords_problems(cs@, place(*loc)),
{
    let mut out: Vec<ReportEntry> = Vec::new();
    let mut i: usize = 0;
    assert(entries_view(out@) =~= chords_problems(cs@.take(0), place(*loc)));
    while i < cs.len()
        invariant
            i <= cs@.len(),
            entries_view(out@) == chords_problems(cs@.take(i as int), place(*loc)),
        decreases cs@.len() - i,
    {
        assert(cs@.take(i + 1).drop_last() =~= cs@.take(i as int));
        append_entries(&mut out, check_chord(&cs[i], loc));
        i = i + 1;
    }
    assert(cs@.take(cs@.len() as int) =~= cs@);
    out
}

/// The problems of a binding made of one chord.
fn check_chord_binding(c: &Chord, loc: &ActionLocation) -> (r: Vec<ReportEntry>)
    ensures
        entries_view(r@) == chord_binding_problems(c@, place(*loc)),
{
    let mut out: Vec<ReportEntry> = Vec::new();
    if c.len() == 0 {
        push_entry(&mut out, Severity::Warning, InputConfigProblem::ConvolutedDummy { loc: copy_loc(loc) });
    }
    let ghost first = entries_view(out@);
    assert(first =~= problem_if(c@.len() == 0, Severity::Warning, ProblemTag::ConvolutedDummy, place(*loc)));
    append_entries(&mut out, check_chord(c, loc));
    out
}

/// Whether some chord of `cs` is empty.
fn some_chord_empty(cs: &Vec<Chord>) -> (r: bool)
    ensures
        r == exists|k: int| 0 <= k < cs@.len() && (#[trigger] cs@[k])@.len() == 0,
{
    let mut i: usize = 0;
    while i < cs.len()
        invariant
            i <= cs@.len(),
            forall|k: int| 0 <= k < i ==> (#[trigger] cs@[k])@.len() != 0,
        decreases cs@.len() - i,
    {
        if cs[i].len() == 0 {
            return true;
        }
        i = i + 1;
    }
    false
}

/// The problems of a pulse binding.
fn check_pulse(p: &PulseBinding, loc: &ActionLocation) -> (r: Vec<ReportEntry>)
    ensures
        entries_view(r@) == pulse_problems(*p, place(*loc)),
{
    let at = Ghost(place(*loc));
    match p {
        PulseBinding::Dummy => Vec::new(),
        PulseBinding::JustPressed(c) | PulseBinding::JustReleased(c) | PulseBinding::DoubleClick(c) => {
            check_chord_binding(c, loc)
        },
        PulseBinding::Sequence(millis, cs) => {
            let mut out: Vec<ReportEntry> = Vec::new();
            if *millis <= MIN_REALISTIC_MILLIS {
                push_entry(
                    &mut out,
                    Severity::Error,
                    InputConfigProblem::SequenceUnrealisticTiming { loc: copy_loc(loc), actual_millis: *millis },
                );
            }
            let ghost s1 = if *millis <= MIN_REALISTIC_MILLIS {
                seq![(Severity::Error, ProblemTag::SequenceUnrealisticTiming, at@.0, at@.1, at@.2, Seq::empty(), None, *millis as nat)]
            } else {
                Seq::empty()
            };
            assert(entries_view(out@) =~= s1);
            if cs.len() == 0 {
                push_entry(&mut out, Severity::Warning, InputConfigProblem::SequenceEmpty { loc: copy_loc(loc) });
            }
            let ghost s2 = s1 + problem_if(cs@.len() == 0, Severity::Warning, ProblemTag::SequenceEmpty, at@);
            assert(entries_view(out@) =~= s2);
            if cs.len() == 1 {
                push_entry(&mut out, Severity::Warning, InputConfigProblem::SequenceOnlyContainsOneElement { loc: copy_loc(loc) });
            }
            let ghost s3 = s2 + problem_if(cs@.len() == 1, Severity::Warning, ProblemTag::SequenceOnlyContainsOneElement, at@);
            assert(entries_view(out@) =~= s3);
            let empty = some_chord_empty(cs);
            if empty {
                push_entry(&mut out, Severity::Error, InputConfigProblem::ConvolutedDummy { loc: copy_loc(loc) });
            }
            let ghost s4 = s3 + problem_if(empty, Severity::Error, ProblemTag::ConvolutedDummy, at@);
            assert(entries_view(out@) =~= s4);
            append_entries(&mut out, check_chords(cs, loc));
            out
        },
    }
}

/// The problems of a single-axis binding.
fn check_axis(a: &SingleAxisBinding, loc: &ActionLocation) -> (r: Vec<ReportEntry>)
    ensures
        entries_view(r@) == axis_problems(*a, place(*loc)),
{
    let at = Ghost(place(*loc));
    let mut out: Vec<ReportEntry> = Vec::new();
    match a {
        SingleAxisBinding::Dummy => {},
        SingleAxisBinding::Hold(n, p) => {
            if n.len() == 0 && p.len() == 0 {
                push_entry(&mut out, Severity::Warning, InputConfigProblem::ConvolutedDummy { loc: copy_loc(loc) });
            }
            let ghost s1 = problem_if(n@.len() == 0 && p@.len() == 0, Severity::Warning, ProblemTag::ConvolutedDummy, at@);
            assert(entries_view(out@) =~= s1);
            append_entries(&mut out, check_chord(n, loc));
            append_entries(&mut out, check_chord(p, loc));
        },
        SingleAxisBinding::Toggle(n, p) => {
            let both = matches!(n, PulseBinding::Dummy) && matches!(p, PulseBinding::Dummy);
            if both {
                push_entry(&mut out, Severity::Warning, InputConfigProblem::ConvolutedDummy { loc: copy_loc(loc) });
            }
            let ghost s1 = problem_if(both, Severity::Warning, ProblemTag::ConvolutedDummy, at@);
            assert(entries_view(out@) =~= s1);
            append_entries(&mut out, check_pulse(n, loc));
            append_entries(&mut out, check_pulse(p, loc));
        },
    }
    out
}

/// The problems of a continuous binding.
fn check_continuous(c: &ContinuousBinding, loc: &ActionLocation) -> (r: Vec<ReportEntry>)
    ensures
        entries_view(r@) == continuous_problems(*c, place(*loc)),
{
    let at = Ghost(place(*loc));
    match c {
        ContinuousBinding::Dummy => Vec::new(),
        ContinuousBinding::Hold(chord) => check_chord_binding(chord, loc),
        ContinuousBinding::Toggle(p) => {
            let mut out: Vec<ReportEntry> = Vec::new();
            let dummy = matches!(p, PulseBinding::Dummy);
            if dummy {
                push_entry(&mut out, Severity::Warning, InputConfigProblem::ConvolutedDummy { loc: copy_loc(loc) });
            }
            assert(entries_view(out@) =~= problem_if(dummy, Severity::Warning, ProblemTag::ConvolutedDummy, at@));
            append_entries(&mut out, check_pulse(p, loc));
            out
        },
    }
}

/// The problems of one binding of an action of kind `kind`.
fn check_binding(b: &InputBinding, kind: InputKind, loc: &ActionLocation) -> (r: Vec<ReportEntry>)
    ensures
        entries_view(r@) == binding_problems(*b, kind, place(*loc)),
{
    let at = Ghost(place(*loc));
    let mut out: Vec<ReportEntry> = Vec::new();
    let found = b.kind();
    if found != kind {
        push_entry(
            &mut out,
            Severity::Error,
            InputConfigProblem::ActionWrongKind { loc: copy_loc(loc), wrong_kind: found, right_kind: kind },
        );
    }
    let ghost s1 = if found != kind {
        seq![(Severity::Error, ProblemTag::ActionWrongKind, at@.0, at@.1, at@.2, Seq::empty(), Some((found, kind)), 0nat)]
    } else {
        Seq::empty()
    };
    assert(entries_view(out@) =~= s1);
    let dummy = match b {
        InputBinding::SingleAxis(a) => matches!(a, SingleAxisBinding::Dummy),
        InputBinding::DualAxis { x, y } => matches!(x, SingleAxisBinding::Dummy) && matches!(y, SingleAxisBinding::Dummy),
        InputBinding::Continuous(c) => matches!(c, ContinuousBinding::Dummy),
        InputBinding::Pulse(p) => matches!(p, PulseBinding::Dummy),
    };
    if dummy {
        push_entry(&mut out, Severity::Warning, InputConfigProblem::RootBindingIsDummy { loc: copy_loc(loc) });
    }
    let ghost s2 = s1 + problem_if(dummy, Severity::Warning, ProblemTag::RootBindingIsDummy, at@);
    assert(entries_view(out@) =~= s2);
    match b {
        InputBinding::SingleAxis(a) => {
            append_entries(&mut out, check_axis(a, loc));
        },
        InputBinding::DualAxis { x, y } => {
            append_entries(&mut out, check_axis(x, loc));
            append_entries(&mut out, check_axis(y, loc));
        },
        InputBinding::Continuous(c) => {
            append_entries(&mut out, check_continuous(c, loc));
        },
        InputBinding::Pulse(p) => {
            append_entries(&mut out, check_pulse(p, loc));
        },
    }
    out
}

/// The problems of the bindings of one registered action.
fn check_bindings(bs: &Vec<InputBinding>, kind: InputKind, group_id: &String, action_id: &String) -> (r: Vec<ReportEntry>)
    ensures
        entries_view(r@) == bindings_problems(bs@, kind, group_id@, action_id@),
{
    let mut out: Vec<ReportEntry> = Vec::new();
    let mut i: usize = 0;
    assert(entries_view(out@) =~= bindings_problems(bs@.take(0), kind, group_id@, action_id@));
    while i < bs.len()
        invariant
            i <= bs@.len(),
            entries_view(out@) == bindings_problems(bs@.take(i as int), kind, group_id@, action_id@),
        decreases bs@.len() - i,
    {
        assert(bs@.take(i + 1).drop_last() =~= bs@.take(i as int));
        let loc = ActionLocation { group_id: group_id.clone(), action_id: action_id.clone(), index: i };
        append_entries(&mut out, check_binding(&bs[i], kind, &loc));
        i = i + 1;
    }
    assert(bs@.take(bs@.len() as int) =~= bs@);
    out
}

/// Checks a configuration against the registered actions, without changing
/// anything: unknown groups and actions, bindings of the wrong kind, dummies,
/// duplicate chord members, sequences that are empty, of one chord, or too
/// fast, and a double-click timing that is too short.
pub fn validate(meta: &IneffableMetaData, config: &InputConfig) -> (r: InputConfigReport)
    requires
        meta.wf(),
    ensures
        r.view() == config_problems(*meta, *config),
{
    let mut first: Vec<ReportEntry> = Vec::new();
    if let Some(m) = config.double_click_timing {
        if m <= MIN_REALISTIC_MILLIS {
            push_entry(&mut first, Severity::Error, InputConfigProblem::DoubleClickUnrealisticTiming { actual_millis: m });
        }
    }
    assert(entries_view(first@) =~= timing_problems(config.double_click_timing));
    let mut out: Vec<ReportEntry> = Vec::new();
    let groups = &config.bindings;
    let mut g: usize = 0;
    assert(entries_view(out@) =~= groups_problems(*meta, groups@.take(0)));
    while g < groups.len()
        invariant
            g <= groups@.len(),
            meta.wf(),
            entries_view(out@) == groups_problems(*meta, groups@.take(g as int)),
        decreases groups@.len() - g,
    {
        let group = &groups[g];
        assert(groups@.take(g + 1).drop_last() =~= groups@.take(g as int));
        let ghost before = entries_view(out@);
        if !meta.group_exists(&group.group_id) {
            push_entry(
                &mut out,
                Severity::Error,
                InputConfigProblem::UnknownGroup { group_id: group.group_id.clone(), options: meta.group_ids() },
            );
        } else {
            let actions = &group.actions;
            let mut a: usize = 0;
            assert(before + actions_problems(*meta, group.group_id@, actions@.take(0)) =~= before);
            while a < actions.len()
                invariant
                    a <= actions@.len(),
                    meta.wf(),
                    meta.spec_group_exists(group.group_id@),
                    entries_view(out@) == before + actions_problems(*meta, group.group_id@, actions@.take(a as int)),
                decreases actions@.len() - a,
            {
                let action = &actions[a];
                assert(actions@.take(a + 1).drop_last() =~= actions@.take(a as int));
                let ghost mid = entries_view(out@);
                let ghost part = if meta.spec_action_exists(group.group_id@, action.action_id@) {
                    bindings_problems(
                        action.bindings@,
                        meta.spec_action(group.group_id@, action.action_id@).kind,
                        group.group_id@,
                        action.action_id@,
                    )
                } else {
                    seq![(
                        Severity::Error,
                        ProblemTag::UnknownAction,
                        group.group_id@,
                        action.action_id@,
                        0nat,
                        meta.spec_action_ids(group.group_id@),
                        None,
                        0nat,
                    )]
                };
                match meta.action(&group.group_id, &action.action_id) {
                    Some(item) => {
                        append_entries(&mut out, check_bindings(&action.bindings, item.kind, &group.group_id, &action.action_id));
                    },
                    None => {
                        push_entry(
                            &mut out,
                            Severity::Error,
                            InputConfigProblem::UnknownAction {
                                group_id: group.group_id.clone(),
                                action_id: action.action_id.clone(),
                                options: meta.action_ids(&group.group_id),
                            },
                        );
                    },
                }
                assert(entries_view(out@) =~= mid + part);
                let ghost prefix = actions_problems(*meta, group.group_id@, actions@.take(a as int));
                assert(actions_problems(*meta, group.group_id@, actions@.take(a + 1)) == prefix + part);
                assert(before + (prefix + part) =~= (before + prefix) + part);
                a = a + 1;
            }
            assert(actions@.take(actions@.len() as int) =~= actions@);
        }
        assert(entries_view(out@) =~= groups_problems(*meta, groups@.take(g + 1)));
        g = g + 1;
    }
    assert(groups@.take(groups@.len() as int) =~= groups@);
    append_entries(&mut first, out);
    InputConfigReport { entries: first }
}

} // verus!
