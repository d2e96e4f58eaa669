use std::marker::PhantomData;

use ineffable::action::{Continuous, IAWrp, InputAction, Pulse};
use ineffable::bindings::{ContinuousBinding, InputBinding, InputKind, PulseBinding, SingleAxisBinding};
use ineffable::builder::{ChordLike, DualAxisBinding, IBWrp, SequenceBuilder};
use ineffable::config::{ActionBindings, GroupBindings, InputConfig, LoadedConfig, MergeMode, merge_configs};
use ineffable::input::BinaryInput;

const X: BinaryInput = BinaryInput::Key(1);
const Y: BinaryInput = BinaryInput::Key(2);
const Z: BinaryInput = BinaryInput::Key(3);

#[derive(Clone, Copy, Debug)]
enum Ship {
    Fire,
    Boost,
}

impl InputAction for Ship {
    fn group_id() -> String {
        "Ship".to_string()
    }
    fn action_id(&self) -> String {
        format!("{:?}", self)
    }
    fn index(&self) -> usize {
        *self as usize
    }
    fn kind(&self) -> InputKind {
        match self {
            Ship::Fire => InputKind::Pulse,
            Ship::Boost => InputKind::Continuous,
        }
    }
    fn variants() -> Vec<Self> {
        vec![Ship::Fire, Ship::Boost]
    }
}

fn pulse(key: BinaryInput) -> InputBinding {
    InputBinding::Pulse(PulseBinding::JustPressed(vec![key]))
}

fn one(group: &str, action: &str, bindings: Vec<InputBinding>) -> InputConfig {
    let mut c = InputConfig::new();
    c.bindings.push(GroupBindings {
        group_id: group.to_string(),
        actions: vec![ActionBindings { action_id: action.to_string(), bindings }],
    });
    c
}

fn keys_of(c: &InputConfig, group: &str, action: &str) -> Vec<BinaryInput> {
    let g = c.bindings.iter().find(|g| g.group_id == group).expect("group");
    let a = g.actions.iter().find(|a| a.action_id == action).expect("action");
    a.bindings
        .iter()
        .map(|b| match b {
            InputBinding::Pulse(PulseBinding::JustPressed(c)) => c[0],
            _ => panic!("unexpected binding"),
        })
        .collect()
}

#[test]
fn merge_replace_replaces_bound_actions_only() {
    let mut base = one("Ship", "Fire", vec![pulse(X)]);
    base.double_click_timing = Some(300);
    let base = base.merge_replace(one("Ship", "Boost", vec![pulse(Z)]));
    let mut over = one("Ship", "Fire", vec![pulse(Y)]);
    over.post_acceptance_delay = Some(100);
    let merged = base.merge_replace(over);
    assert_eq!(keys_of(&merged, "Ship", "Fire"), vec![Y]);
    assert_eq!(keys_of(&merged, "Ship", "Boost"), vec![Z]);
    assert_eq!(merged.double_click_timing, Some(300));
    assert_eq!(merged.post_acceptance_delay, Some(100));
}

#[test]
fn merge_append_keeps_both() {
    let merged = one("Ship", "Fire", vec![pulse(X)]).merge_append(one("Ship", "Fire", vec![pulse(Y)]));
    assert_eq!(keys_of(&merged, "Ship", "Fire"), vec![X, Y]);
    let merged = one("Ship", "Fire", vec![pulse(X)]).merge(one("Other", "Fire", vec![pulse(Y)]));
    assert_eq!(keys_of(&merged, "Ship", "Fire"), vec![X]);
    assert_eq!(keys_of(&merged, "Other", "Fire"), vec![Y]);
}

#[test]
fn loaded_configs_combine_in_order() {
    let loaded = vec![
        LoadedConfig { mode: MergeMode::Replace, config: one("Ship", "Fire", vec![pulse(X)]) },
        LoadedConfig { mode: MergeMode::Append, config: one("Ship", "Fire", vec![pulse(Y)]) },
    ];
    assert_eq!(keys_of(&merge_configs(loaded), "Ship", "Fire"), vec![X, Y]);
    let loaded = vec![
        LoadedConfig { mode: MergeMode::Replace, config: one("Ship", "Fire", vec![pulse(X)]) },
        LoadedConfig { mode: MergeMode::Base, config: one("Ship", "Fire", vec![pulse(Z)]) },
        LoadedConfig { mode: MergeMode::Replace, config: one("Ship", "Boost", vec![pulse(Y)]) },
    ];
    let merged = merge_configs(loaded);
    assert_eq!(keys_of(&merged, "Ship", "Fire"), vec![Z]);
    assert_eq!(keys_of(&merged, "Ship", "Boost"), vec![Y]);
    assert!(merge_configs(vec![]).bindings.is_empty());
}

#[test]
fn builder_binds_to_actions() {
    let config = InputConfig::builder()
        .double_click_timing(250)
        .post_acceptance_delay(50)
        .bind(IAWrp::<Ship, Pulse>(Ship::Fire, PhantomData), PulseBinding::just_pressed(ChordLike::Single(X)))
        .bind(IAWrp::<Ship, Pulse>(Ship::Fire, PhantomData), PulseBinding::just_pressed(ChordLike::Single(Y)))
        .bind(
            IAWrp::<Ship, Continuous>(Ship::Boost, PhantomData),
            ContinuousBinding::hold(ChordLike::Multiple(vec![X, Z])),
        )
        .build();
    assert_eq!(config.double_click_timing, Some(250));
    assert_eq!(config.post_acceptance_delay, Some(50));
    assert_eq!(keys_of(&config, "Ship", "Fire"), vec![X, Y]);
    let boost = &config.bindings[0].actions[1];
    assert_eq!(boost.action_id, "Boost");
    assert!(matches!(&boost.bindings[0], InputBinding::Continuous(ContinuousBinding::Hold(c)) if c == &vec![X, Z]));
}

#[test]
fn binding_builders_fill_in_dummies() {
    let axis = SingleAxisBinding::hold().set_positive(ChordLike::Single(X)).build();
    assert!(matches!(&axis.0, InputBinding::SingleAxis(SingleAxisBinding::Hold(n, p)) if n.is_empty() && p == &vec![X]));
    let toggle = SingleAxisBinding::toggle().set_negative(PulseBinding::double_click(ChordLike::Single(Y))).build();
    assert!(matches!(
        &toggle.0,
        InputBinding::SingleAxis(SingleAxisBinding::Toggle(PulseBinding::DoubleClick(_), PulseBinding::Dummy))
    ));
    let dual = DualAxisBinding::builder().set_y(axis).build();
    assert!(matches!(&dual.0, InputBinding::DualAxis { x: SingleAxisBinding::Dummy, y: SingleAxisBinding::Hold(..) }));
    let wrong: IBWrp<ineffable::action::SingleAxis> = IBWrp(InputBinding::Pulse(PulseBinding::Dummy), PhantomData);
    let dual = DualAxisBinding::builder().set_x(wrong).build();
    assert!(matches!(&dual.0, InputBinding::DualAxis { x: SingleAxisBinding::Dummy, y: SingleAxisBinding::Dummy }));
    let not_a_pulse: IBWrp<Pulse> = IBWrp(InputBinding::Continuous(ContinuousBinding::Dummy), PhantomData);
    assert!(matches!(ContinuousBinding::toggle(not_a_pulse).0, InputBinding::Continuous(ContinuousBinding::Dummy)));
    let released = ContinuousBinding::toggle(PulseBinding::just_released(ChordLike::Single(Z)));
    assert!(matches!(
        released.0,
        InputBinding::Continuous(ContinuousBinding::Toggle(PulseBinding::JustReleased(_)))
    ));
}

#[test]
fn sequence_builder_collects_chords() {
    let seq = PulseBinding::sequence(ChordLike::Single(X))
        .followed_by(ChordLike::Single(Y))
        .followed_by(ChordLike::Multiple(vec![X, Z]))
        .with_timing(800);
    match seq.0 {
        InputBinding::Pulse(PulseBinding::Sequence(millis, chords)) => {
            assert_eq!(millis, 800);
            assert_eq!(chords, vec![vec![X], vec![Y], vec![X, Z]]);
        }
        _ => panic!("expected a sequence"),
    }
    assert_eq!(SequenceBuilder::new(ChordLike::Single(Z)).chords, vec![vec![Z]]);
}

#[test]
fn merging_keeps_timings_unless_the_later_config_sets_them() {
    let first = InputConfig::builder().double_click_timing(10).build();
    let second = InputConfig::builder().post_acceptance_delay(200).build();
    let merged = first.merge(second);
    assert_eq!(merged.double_click_timing, Some(10));
    assert_eq!(merged.post_acceptance_delay, Some(200));
    let third = InputConfig::builder().double_click_timing(42).build();
    let merged = merged.merge(third);
    assert_eq!(merged.double_click_timing, Some(42));
    assert_eq!(merged.post_acceptance_delay, Some(200));
    let appended = merged.merge_append(InputConfig::new());
    assert_eq!(appended.double_click_timing, Some(42));
    assert_eq!(appended.post_acceptance_delay, Some(200));
}

#[test]
fn loaded_configs_combine_timings() {
    let timed = |dct: Option<u64>, pad: Option<u64>| {
        let mut c = InputConfig::new();
        c.double_click_timing = dct;
        c.post_acceptance_delay = pad;
        c
    };
    let loaded = vec![
        LoadedConfig { mode: MergeMode::Replace, config: timed(Some(300), Some(100)) },
        LoadedConfig { mode: MergeMode::Append, config: timed(None, Some(50)) },
    ];
    let merged = merge_configs(loaded);
    assert_eq!((merged.double_click_timing, merged.post_acceptance_delay), (Some(300), Some(50)));
    let loaded = vec![
        LoadedConfig { mode: MergeMode::Replace, config: timed(Some(300), Some(100)) },
        LoadedConfig { mode: MergeMode::Base, config: timed(None, Some(70)) },
    ];
    let merged = merge_configs(loaded);
    assert_eq!((merged.double_click_timing, merged.post_acceptance_delay), (None, Some(70)));
}
