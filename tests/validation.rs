use ineffable::action::{construct_variants_meta_data, InputAction, InputActionRegistrar};
use ineffable::bindings::{ContinuousBinding, InputBinding, InputKind, PulseBinding, SingleAxisBinding};
use ineffable::config::{ActionBindings, GroupBindings, InputConfig};
use ineffable::input::BinaryInput;
use ineffable::meta::IneffableMetaData;
use ineffable::report::{InputConfigProblem, InputConfigReport, Severity};
use ineffable::validate::validate;

const X: BinaryInput = BinaryInput::Key(1);
const Y: BinaryInput = BinaryInput::Key(2);

#[derive(Clone, Copy, Debug)]
enum Menu {
    Open,
    Scroll,
    Hold,
}

impl InputAction for Menu {
    fn group_id() -> String {
        "Menu".to_string()
    }
    fn action_id(&self) -> String {
        format!("{:?}", self)
    }
    fn index(&self) -> usize {
        *self as usize
    }
    fn kind(&self) -> InputKind {
        match self {
            Menu::Open => InputKind::Pulse,
            Menu::Scroll => InputKind::SingleAxis,
            Menu::Hold => InputKind::Continuous,
        }
    }
    fn variants() -> Vec<Self> {
        vec![Menu::Open, Menu::Scroll, Menu::Hold]
    }
}

fn registry() -> IneffableMetaData {
    let mut meta = IneffableMetaData::new();
    meta.register_input_action::<Menu>();
    assert_eq!(construct_variants_meta_data::<Menu>().len(), 3);
    meta
}

fn check(action: &str, bindings: Vec<InputBinding>) -> InputConfigReport {
    let mut config = InputConfig::new();
    config.bindings.push(GroupBindings {
        group_id: "Menu".to_string(),
        actions: vec![ActionBindings { action_id: action.to_string(), bindings }],
    });
    validate(&registry(), &config)
}

fn summary(report: &InputConfigReport) -> Vec<(Severity, &'static str)> {
    report
        .entries
        .iter()
        .map(|e| {
            let name = match &e.problem {
                InputConfigProblem::UnknownGroup { .. } => "unknown group",
                InputConfigProblem::UnknownAction { .. } => "unknown action",
                InputConfigProblem::ActionWrongKind { .. } => "wrong kind",
                InputConfigProblem::RootBindingIsDummy { .. } => "root dummy",
                InputConfigProblem::ConvolutedDummy { .. } => "convoluted dummy",
                InputConfigProblem::ChordContainsDuplicates { .. } => "duplicates",
                InputConfigProblem::SequenceUnrealisticTiming { .. } => "unrealistic timing",
                InputConfigProblem::SequenceEmpty { .. } => "empty sequence",
                InputConfigProblem::SequenceOnlyContainsOneElement { .. } => "one-element sequence",
                InputConfigProblem::DoubleClickUnrealisticTiming { .. } => "unrealistic double click",
            };
            (e.severity, name)
        })
        .collect()
}

#[test]
fn valid_config_has_no_problems() {
    let report = check("Open", vec![InputBinding::Pulse(PulseBinding::JustPressed(vec![X]))]);
    assert!(report.entries.is_empty());
    assert!(!report.has_errors());
}

#[test]
fn unknown_group_is_an_error() {
    let mut config = InputConfig::new();
    config.bindings.push(GroupBindings { group_id: "Nobody".to_string(), actions: vec![] });
    let report = validate(&registry(), &config);
    assert_eq!(summary(&report), vec![(Severity::Error, "unknown group")]);
    match &report.entries[0].problem {
        InputConfigProblem::UnknownGroup { group_id, options } => {
            assert_eq!(group_id, "Nobody");
            assert_eq!(options, &vec!["Menu".to_string()]);
        }
        _ => panic!("expected an unknown group"),
    }
    assert!(report.has_errors());
}

#[test]
fn unknown_action_is_an_error() {
    let report = check("Close", vec![]);
    assert_eq!(summary(&report), vec![(Severity::Error, "unknown action")]);
    match &report.entries[0].problem {
        InputConfigProblem::UnknownAction { action_id, options, .. } => {
            assert_eq!(action_id, "Close");
            assert_eq!(options.len(), 3);
        }
        _ => panic!("expected an unknown action"),
    }
}

#[test]
fn wrong_kind_is_an_error() {
    let report = check("Open", vec![InputBinding::Continuous(ContinuousBinding::Hold(vec![X]))]);
    assert_eq!(summary(&report), vec![(Severity::Error, "wrong kind")]);
    match &report.entries[0].problem {
        InputConfigProblem::ActionWrongKind { loc, wrong_kind, right_kind } => {
            assert_eq!(loc.index, 0);
            assert_eq!(*wrong_kind, InputKind::Continuous);
            assert_eq!(*right_kind, InputKind::Pulse);
        }
        _ => panic!("expected a wrong kind"),
    }
}

#[test]
fn dummies_are_warned_about() {
    let report = check(
        "Scroll",
        vec![
            InputBinding::SingleAxis(SingleAxisBinding::Dummy),
            InputBinding::SingleAxis(SingleAxisBinding::Hold(vec![], vec![])),
            InputBinding::SingleAxis(SingleAxisBinding::Toggle(PulseBinding::Dummy, PulseBinding::Dummy)),
        ],
    );
    assert_eq!(
        summary(&report),
        vec![
            (Severity::Warning, "root dummy"),
            (Severity::Warning, "convoluted dummy"),
            (Severity::Warning, "convoluted dummy"),
        ]
    );
    let indices: Vec<usize> = report
        .entries
        .iter()
        .map(|e| match &e.problem {
            InputConfigProblem::RootBindingIsDummy { loc } | InputConfigProblem::ConvolutedDummy { loc } => loc.index,
            _ => usize::MAX,
        })
        .collect();
    assert_eq!(indices, vec![0, 1, 2]);
}

#[test]
fn duplicate_chord_members_are_warned_about_per_pair() {
    let report = check("Hold", vec![InputBinding::Continuous(ContinuousBinding::Hold(vec![X, Y, X, X]))]);
    assert_eq!(summary(&report), vec![(Severity::Warning, "duplicates"); 3]);
}

#[test]
fn degenerate_sequences_are_reported() {
    let report = check("Open", vec![InputBinding::Pulse(PulseBinding::Sequence(25, vec![]))]);
    assert_eq!(
        summary(&report),
        vec![(Severity::Error, "unrealistic timing"), (Severity::Warning, "empty sequence")]
    );
    let report = check("Open", vec![InputBinding::Pulse(PulseBinding::Sequence(26, vec![vec![]]))]);
    assert_eq!(
        summary(&report),
        vec![(Severity::Warning, "one-element sequence"), (Severity::Error, "convoluted dummy")]
    );
    let report = check("Open", vec![InputBinding::Pulse(PulseBinding::Sequence(500, vec![vec![X], vec![Y]]))]);
    assert!(report.entries.is_empty());
}

#[test]
fn too_short_double_click_timing_is_an_error() {
    let meta = registry();
    let mut config = InputConfig::new();
    config.double_click_timing = Some(10);
    let report = validate(&meta, &config);
    assert_eq!(summary(&report), vec![(Severity::Error, "unrealistic double click")]);
    assert!(matches!(
        report.entries[0].problem,
        InputConfigProblem::DoubleClickUnrealisticTiming { actual_millis: 10 }
    ));
    config.double_click_timing = Some(26);
    assert!(validate(&meta, &config).entries.is_empty());
    config.double_click_timing = None;
    assert!(validate(&meta, &config).entries.is_empty());
}

#[test]
fn sequence_timing_problem_carries_the_timing() {
    let report = check("Open", vec![InputBinding::Pulse(PulseBinding::Sequence(20, vec![vec![X], vec![Y]]))]);
    assert!(matches!(
        &report.entries[0].problem,
        InputConfigProblem::SequenceUnrealisticTiming { actual_millis: 20, loc } if loc.action_id == "Open" && loc.index == 0
    ));
}
