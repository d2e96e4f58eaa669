use vstd::prelude::*;

use crate::bindings::InputKind;

verus! {

/// Where in a configuration a problem was found: the group, the action, and
/// the position of the binding among the action's bindings.
#[derive(Debug, Clone)]
pub struct ActionLocation {
    pub group_id: String,
    pub action_id: String,
    pub index: usize,
}

/// How serious a problem is.
#[derive(Debug, Clone, Copy, PartialEq, Eq, Structural)]
pub enum Severity {
    Warning,
    Error,
}

/// A problem found in a configuration.
#[derive(Debug, Clone)]
pub enum InputConfigProblem {
    /// No group of this name is registered; `options` are the registered ones.
    UnknownGroup { group_id: String, options: Vec<String> },
    /// The group has no action of this name; `options` are its actions.
    UnknownAction { group_id: String, action_id: String, options: Vec<String> },
    /// A binding of another kind than its action.
    ActionWrongKind { loc: ActionLocation, wrong_kind: InputKind, right_kind: InputKind },
    /// A binding that is a dummy as a whole.
    RootBindingIsDummy { loc: ActionLocation },
    /// A binding that can never activate, though it is not written as a dummy.
    ConvolutedDummy { loc: ActionLocation },
    /// A chord that names one input twice.
    ChordContainsDuplicates { loc: ActionLocation },
    /// A sequence whose timeout is too short for a person to meet.
    SequenceUnrealisticTiming { loc: ActionLocation, actual_millis: u64 },
    /// A sequence without chords.
    SequenceEmpty { loc: ActionLocation },
    /// A sequence of one chord.
    SequenceOnlyContainsOneElement { loc: ActionLocation },
    /// A double-click timing too short for a person to meet.
    DoubleClickUnrealisticTiming { actual_millis: u64 },
}

/// The kind of a problem, without its details.
#[derive(Debug, Clone, Copy, PartialEq, Eq, Structural)]
pub enum ProblemTag {
    UnknownGroup,
    UnknownAction,
    ActionWrongKind,
    RootBindingIsDummy,
    ConvolutedDummy,
    ChordContainsDuplicates,
    SequenceUnrealisticTiming,
    SequenceEmpty,
    SequenceOnlyContainsOneElement,
    DoubleClickUnrealisticTiming,
}

/// A problem as the contracts see it: severity, kind, group, action, binding
/// position, the names offered instead, the kinds found and expected, and a
/// timing in milliseconds. Details a problem does not have are empty, `None` or 0.
pub type ProblemView = (Severity, ProblemTag, Seq<char>, Seq<char>, nat, Seq<Seq<char>>, Option<(InputKind, InputKind)>, nat);

/// The views of a list of strings.
pub open spec fn string_views(v: Seq<String>) -> Seq<Seq<char>> {
    v.map_values(|s: String| s@)
}

/// One entry of a report.
#[derive(Debug, Clone)]
pub struct ReportEntry {
    pub severity: Severity,
    pub problem: InputConfigProblem,
}

impl ReportEntry {
    pub open spec fn view(&self) -> ProblemView {
        let none = None::<(InputKind, InputKind)>;
        match self.problem {
            InputConfigProblem::UnknownGroup { group_id, options } => (
                self.severity,
                ProblemTag::UnknownGroup,
                group_id@,
                Seq::empty(),
                0,
                string_views(options@),
                none,
                0,
            ),
            InputConfigProblem::UnknownAction { group_id, action_id, options } => (
                self.severity,
                ProblemTag::UnknownAction,
                group_id@,
                action_id@,
                0,
                string_views(options@),
                none,
                0,
            ),
            InputConfigProblem::ActionWrongKind { loc, wrong_kind, right_kind } => (
                self.severity,
                ProblemTag::ActionWrongKind,
                loc.group_id@,
                loc.action_id@,
                loc.index as nat,
                Seq::empty(),
                Some((wrong_kind, right_kind)),
                0,
            ),
            InputConfigProblem::RootBindingIsDummy { loc } => loc_view(self.severity, ProblemTag::RootBindingIsDummy, loc),
            InputConfigProblem::ConvolutedDummy { loc } => loc_view(self.severity, ProblemTag::ConvolutedDummy, loc),
            InputConfigProblem::ChordContainsDuplicates { loc } => loc_view(
                self.severity,
                ProblemTag::ChordContainsDuplicates,
                loc,
            ),
            InputConfigProblem::SequenceUnrealisticTiming { loc, actual_millis } => (
                self.severity,
                ProblemTag::SequenceUnrealisticTiming,
                loc.group_id@,
                loc.action_id@,
                loc.index as nat,
                Seq::empty(),
                none,
                actual_millis as nat,
            ),
            InputConfigProblem::SequenceEmpty { loc } => loc_view(self.severity, ProblemTag::SequenceEmpty, loc),
            InputConfigProblem::SequenceOnlyContainsOneElement { loc } => loc_view(
                self.severity,
                ProblemTag::SequenceOnlyContainsOneElement,
                loc,
            ),
            InputConfigProblem::DoubleClickUnrealisticTiming { actual_millis } => (
                self.severity,
                ProblemTag::DoubleClickUnrealisticTiming,
                Seq::empty(),
                Seq::empty(),
                0,
                Seq::empty(),
                none,
                actual_millis as nat,
            ),
        }
    }
}

pub open spec fn loc_view(severity: Severity, tag: ProblemTag, loc: ActionLocation) -> ProblemView {
    (severity, tag, loc.group_id@, loc.action_id@, loc.index as nat, Seq::empty(), None, 0)
}

/// The views of a list of entries.
pub open spec fn entries_view(entries: Seq<ReportEntry>) -> Seq<ProblemView> {
    entries.map_values(|e: ReportEntry| e.view())
}

/// The problems found in a configuration, as warnings and errors.
#[derive(Debug, Clone)]
pub struct InputConfigReport {
    pub entries: Vec<ReportEntry>,
}

impl InputConfigReport {
    pub open spec fn view(&self) -> Seq<ProblemView> {
        entries_view(self.entries@)
    }

    /// Whether the report holds an error.
    pub fn has_errors(&self) -> (r: bool)
        ensures
            r == exists|k: int| 0 <= k < self.entries@.len() && #[trigger] self.entries@[k].severity == Severity::Error,
    {
        let mut i: usize = 0;
        while i < self.entries.len()
            invariant
                i <= self.entries@.len(),
                forall|k: int| 0 <= k < i ==> #[trigger] self.entries@[k].severity != Severity::Error,
            decreases self.entries@.len() - i,
        {
            if self.entries[i].severity == Severity::Error {
                return true;
            }
            i = i + 1;
        }
        false
    }
}

/// Appends `more` to `entries`.
pub fn append_entries(entries: &mut Vec<ReportEntry>, more: Vec<ReportEntry>)
    ensures
        entries_view(final(entries)@) == entries_view(old(entries)@) + entries_view(more@),
{
    let mut more = more;
    let ghost m = more@;
    entries.append(&mut more);
    assert(entries_view(entries@) =~= entries_view(old(entries)@) + entries_view(m));
}

/// Appends one entry.
pub fn push_entry(entries: &mut Vec<ReportEntry>, severity: Severity, problem: InputConfigProblem)
    ensures
        entries_view(final(entries)@) == entries_view(old(entries)@).push(
            (ReportEntry { severity, problem }).view(),
        ),
{
    entries.push(ReportEntry { severity, problem });
    assert(entries_view(entries@) =~= entries_view(old(entries)@).push((ReportEntry { severity, problem }).view()));
}

} // verus!
