use std::marker::PhantomData;

use ineffable::action::{
    construct_variants_meta_data, Continuous, DualAxis, IAWrp, InputAction, InputActionRegistrar, Pulse, SingleAxis,
};
use ineffable::axis::Direction2D;
use ineffable::bindings::{ContinuousBinding, InputBinding, InputKind, PulseBinding, SingleAxisBinding};
use ineffable::config::{ActionBindings, GroupBindings, InputConfig};
use ineffable::ineffable::Ineffable;
use ineffable::input::{BinaryInput, InputSources};
use ineffable::meta::{IneffableMetaData, IneffableMetaItem, Registration};

const X: BinaryInput = BinaryInput::Key(10);
const Y: BinaryInput = BinaryInput::Key(11);
const A: BinaryInput = BinaryInput::Key(20);
const B: BinaryInput = BinaryInput::Key(21);
const C: BinaryInput = BinaryInput::Key(22);
const D: BinaryInput = BinaryInput::Key(23);
const H: BinaryInput = BinaryInput::Key(30);
const T: BinaryInput = BinaryInput::Key(31);
const M: BinaryInput = BinaryInput::MouseButton(1);

const MS: u64 = 1_000_000;

#[derive(Clone, Copy, Debug, PartialEq)]
enum Player {
    Jump,
    Dash,
    Combo,
    Sprint,
    Crouch,
    Rotate,
    Move,
}

impl InputAction for Player {
    fn group_id() -> String {
        "Player".to_string()
    }
    fn action_id(&self) -> String {
        format!("{:?}", self)
    }
    fn index(&self) -> usize {
        *self as usize
    }
    fn kind(&self) -> InputKind {
        match self {
            Player::Jump | Player::Dash | Player::Combo => InputKind::Pulse,
            Player::Sprint | Player::Crouch => InputKind::Continuous,
            Player::Rotate => InputKind::SingleAxis,
            Player::Move => InputKind::DualAxis,
        }
    }
    fn variants() -> Vec<Self> {
        vec![
            Player::Jump,
            Player::Dash,
            Player::Combo,
            Player::Sprint,
            Player::Crouch,
            Player::Rotate,
            Player::Move,
        ]
    }
}

fn ia<K>(action: Player) -> IAWrp<Player, K> {
    IAWrp(action, PhantomData)
}

fn registry() -> IneffableMetaData {
    let mut meta = IneffableMetaData::new();
    let outcome = meta.register_input_action::<Player>();
    assert_eq!(outcome, Registration::Registered);
    meta
}

fn config(actions: Vec<(Player, Vec<InputBinding>)>) -> InputConfig {
    let mut c = InputConfig::new();
    c.bindings.push(GroupBindings {
        group_id: Player::group_id(),
        actions: actions
            .into_iter()
            .map(|(a, bindings)| ActionBindings { action_id: a.action_id(), bindings })
            .collect(),
    });
    c
}

fn engine_with(c: &InputConfig) -> Ineffable {
    let meta = registry();
    let mut engine = Ineffable::new();
    engine.set_config_silent(&meta, c);
    engine
}

fn tick(engine: &mut Ineffable, pressed: &[BinaryInput], delta_ms: u64) {
    engine.update(&InputSources { pressed: pressed.to_vec(), delta: delta_ms * MS });
}

fn hold(chord: Vec<BinaryInput>) -> InputBinding {
    InputBinding::Continuous(ContinuousBinding::Hold(chord))
}

#[test]
fn blocking_prefers_the_larger_chord() {
    let c = config(vec![(Player::Sprint, vec![hold(vec![X])]), (Player::Crouch, vec![hold(vec![Y, X])])]);
    let mut engine = engine_with(&c);
    tick(&mut engine, &[X], 10);
    assert!(engine.is_active(ia::<Continuous>(Player::Sprint)));
    assert!(!engine.is_active(ia::<Continuous>(Player::Crouch)));
    tick(&mut engine, &[X, Y], 10);
    assert!(!engine.is_active(ia::<Continuous>(Player::Sprint)));
    assert!(engine.is_active(ia::<Continuous>(Player::Crouch)));
}

#[test]
fn single_axis_hold_values() {
    let c = config(vec![(Player::Rotate, vec![InputBinding::SingleAxis(SingleAxisBinding::Hold(vec![A], vec![D]))])]);
    let mut engine = engine_with(&c);
    tick(&mut engine, &[A], 10);
    assert_eq!(engine.direction_1d(ia::<SingleAxis>(Player::Rotate)), -1);
    tick(&mut engine, &[D], 10);
    assert_eq!(engine.direction_1d(ia::<SingleAxis>(Player::Rotate)), 1);
    tick(&mut engine, &[A, D], 10);
    assert_eq!(engine.direction_1d(ia::<SingleAxis>(Player::Rotate)), 0);
    tick(&mut engine, &[], 10);
    assert_eq!(engine.direction_1d(ia::<SingleAxis>(Player::Rotate)), 0);
}

#[test]
fn single_axis_toggle_holds_direction_until_a_hold() {
    let c = config(vec![(
        Player::Rotate,
        vec![
            InputBinding::SingleAxis(SingleAxisBinding::Toggle(
                PulseBinding::JustPressed(vec![T]),
                PulseBinding::JustPressed(vec![M]),
            )),
            InputBinding::SingleAxis(SingleAxisBinding::Hold(vec![A], vec![D])),
        ],
    )]);
    let mut engine = engine_with(&c);
    tick(&mut engine, &[M], 10);
    assert_eq!(engine.direction_1d(ia::<SingleAxis>(Player::Rotate)), 1);
    tick(&mut engine, &[], 10);
    assert_eq!(engine.direction_1d(ia::<SingleAxis>(Player::Rotate)), 1);
    tick(&mut engine, &[T], 10);
    assert_eq!(engine.direction_1d(ia::<SingleAxis>(Player::Rotate)), -1);
    tick(&mut engine, &[], 10);
    tick(&mut engine, &[T], 10);
    assert_eq!(engine.direction_1d(ia::<SingleAxis>(Player::Rotate)), 0);
    tick(&mut engine, &[M], 10);
    assert_eq!(engine.direction_1d(ia::<SingleAxis>(Player::Rotate)), 1);
    tick(&mut engine, &[A], 10);
    assert_eq!(engine.direction_1d(ia::<SingleAxis>(Player::Rotate)), -1);
    tick(&mut engine, &[], 10);
    assert_eq!(engine.direction_1d(ia::<SingleAxis>(Player::Rotate)), 0);
}

#[test]
fn dual_axis_reads_both_axes() {
    let c = config(vec![(
        Player::Move,
        vec![InputBinding::DualAxis {
            x: SingleAxisBinding::Hold(vec![A], vec![D]),
            y: SingleAxisBinding::Hold(vec![B], vec![C]),
        }],
    )]);
    let mut engine = engine_with(&c);
    tick(&mut engine, &[D, B], 10);
    assert_eq!(engine.direction_2d(ia::<DualAxis>(Player::Move)), Direction2D { x: 1, y: -1 });
    tick(&mut engine, &[], 10);
    assert_eq!(engine.direction_2d(ia::<DualAxis>(Player::Move)), Direction2D { x: 0, y: 0 });
}

#[test]
fn just_pressed_fires_once_per_press() {
    let c = config(vec![(Player::Jump, vec![InputBinding::Pulse(PulseBinding::JustPressed(vec![X]))])]);
    let mut engine = engine_with(&c);
    let presses: [&[BinaryInput]; 6] = [&[], &[X], &[X], &[X], &[], &[X]];
    let expected = [false, true, false, false, false, true];
    for (pressed, want) in presses.iter().zip(expected.iter()) {
        tick(&mut engine, pressed, 16);
        assert_eq!(engine.just_pulsed(ia::<Pulse>(Player::Jump)), *want);
    }
}

#[test]
fn just_released_fires_on_release() {
    let c = config(vec![(Player::Jump, vec![InputBinding::Pulse(PulseBinding::JustReleased(vec![X]))])]);
    let mut engine = engine_with(&c);
    tick(&mut engine, &[X], 16);
    assert!(!engine.just_pulsed(ia::<Pulse>(Player::Jump)));
    tick(&mut engine, &[], 16);
    assert!(engine.just_pulsed(ia::<Pulse>(Player::Jump)));
    tick(&mut engine, &[], 16);
    assert!(!engine.just_pulsed(ia::<Pulse>(Player::Jump)));
}

fn double_click_engine() -> Ineffable {
    let mut c = config(vec![(Player::Dash, vec![InputBinding::Pulse(PulseBinding::DoubleClick(vec![M]))])]);
    c.double_click_timing = Some(500);
    engine_with(&c)
}

/// Ticks every 10 ms from `from` to `to` (inclusive), with `M` pressed at the
/// times in `clicks`; returns the times at which the action pulsed.
fn run_clicks(engine: &mut Ineffable, action: Player, keys: &[(u64, BinaryInput)], to: u64) -> Vec<u64> {
    let mut fired = Vec::new();
    let mut t = 0;
    while t <= to {
        let pressed: Vec<BinaryInput> = keys.iter().filter(|(at, _)| *at == t).map(|(_, k)| *k).collect();
        tick(engine, &pressed, 10);
        if engine.just_pulsed(ia::<Pulse>(action)) {
            fired.push(t);
        }
        t += 10;
    }
    fired
}

#[test]
fn double_click_within_timing_fires() {
    let mut engine = double_click_engine();
    let fired = run_clicks(&mut engine, Player::Dash, &[(0, M), (300, M)], 400);
    assert_eq!(fired, vec![300]);
}

#[test]
fn double_click_after_timeout_starts_over() {
    let mut engine = double_click_engine();
    let fired = run_clicks(&mut engine, Player::Dash, &[(0, M), (600, M), (700, M)], 800);
    assert_eq!(fired, vec![700]);
}

fn sequence_engine() -> Ineffable {
    let c = config(vec![(
        Player::Combo,
        vec![InputBinding::Pulse(PulseBinding::Sequence(1000, vec![vec![A], vec![B], vec![C]]))],
    )]);
    engine_with(&c)
}

#[test]
fn sequence_within_timeout_fires() {
    let mut engine = sequence_engine();
    let fired = run_clicks(&mut engine, Player::Combo, &[(0, A), (200, B), (900, C)], 1000);
    assert_eq!(fired, vec![900]);
}

#[test]
fn sequence_timeout_counts_from_first_chord() {
    let mut engine = sequence_engine();
    let fired = run_clicks(&mut engine, Player::Combo, &[(0, A), (200, B), (1200, C)], 1300);
    assert!(fired.is_empty());
}

#[test]
fn sequence_out_of_order_does_not_fire() {
    let mut engine = sequence_engine();
    let fired = run_clicks(&mut engine, Player::Combo, &[(0, B), (100, A), (200, C)], 300);
    assert!(fired.is_empty());
}

#[test]
fn post_acceptance_delay_blocks_input_for_its_duration() {
    let mut c = config(vec![(Player::Sprint, vec![hold(vec![X])])]);
    c.post_acceptance_delay = Some(500);
    let mut engine = engine_with(&c);
    tick(&mut engine, &[X], 10);
    assert!(engine.is_active(ia::<Continuous>(Player::Sprint)));
    let mut t = 10;
    while t <= 500 {
        tick(&mut engine, &[X], 10);
        assert!(!engine.is_active(ia::<Continuous>(Player::Sprint)), "blocked at {t} ms");
        t += 10;
    }
    tick(&mut engine, &[X], 10);
    assert!(engine.is_active(ia::<Continuous>(Player::Sprint)));
}

#[test]
fn holding_breaks_a_toggle() {
    let c = config(vec![(
        Player::Sprint,
        vec![
            InputBinding::Continuous(ContinuousBinding::Toggle(PulseBinding::JustPressed(vec![T]))),
            hold(vec![H]),
        ],
    )]);
    let mut engine = engine_with(&c);
    tick(&mut engine, &[T], 10);
    assert!(engine.is_active(ia::<Continuous>(Player::Sprint)));
    tick(&mut engine, &[], 10);
    assert!(engine.is_active(ia::<Continuous>(Player::Sprint)));
    tick(&mut engine, &[H], 10);
    assert!(engine.is_active(ia::<Continuous>(Player::Sprint)));
    tick(&mut engine, &[], 10);
    assert!(!engine.is_active(ia::<Continuous>(Player::Sprint)));
    assert!(engine.just_deactivated(ia::<Continuous>(Player::Sprint)));
}

#[test]
fn continuous_charge_time_and_transitions() {
    let c = config(vec![(Player::Sprint, vec![hold(vec![X])])]);
    let mut engine = engine_with(&c);
    tick(&mut engine, &[], 10);
    assert_eq!(engine.charge_time(ia::<Continuous>(Player::Sprint)), None);
    tick(&mut engine, &[X], 10);
    assert!(engine.just_activated(ia::<Continuous>(Player::Sprint)));
    assert_eq!(engine.charge_time(ia::<Continuous>(Player::Sprint)), Some(10 * MS));
    tick(&mut engine, &[X], 25);
    assert!(!engine.just_activated(ia::<Continuous>(Player::Sprint)));
    assert_eq!(engine.charge_time(ia::<Continuous>(Player::Sprint)), Some(35 * MS));
    tick(&mut engine, &[], 10);
    assert!(engine.just_deactivated(ia::<Continuous>(Player::Sprint)));
    assert_eq!(engine.charge_time(ia::<Continuous>(Player::Sprint)), None);
}

#[test]
fn unbound_and_wrong_kind_queries_read_defaults() {
    let c = config(vec![(Player::Sprint, vec![hold(vec![X])])]);
    let mut engine = engine_with(&c);
    tick(&mut engine, &[X], 10);
    assert_eq!(engine.direction_1d(ia::<SingleAxis>(Player::Sprint)), 0);
    assert!(!engine.just_pulsed(ia::<Pulse>(Player::Sprint)));
    assert!(!engine.is_active(ia::<Continuous>(Player::Crouch)));
    let empty = Ineffable::new();
    assert!(!empty.is_active(ia::<Continuous>(Player::Sprint)));
    assert_eq!(empty.direction_2d(ia::<DualAxis>(Player::Move)), Direction2D { x: 0, y: 0 });
}

#[test]
fn empty_chord_never_activates_nor_blocks() {
    let c = config(vec![(Player::Sprint, vec![hold(vec![])]), (Player::Crouch, vec![hold(vec![X])])]);
    let mut engine = engine_with(&c);
    tick(&mut engine, &[X, Y], 10);
    assert!(!engine.is_active(ia::<Continuous>(Player::Sprint)));
    assert!(engine.is_active(ia::<Continuous>(Player::Crouch)));
}

#[test]
fn registering_twice_is_redundant_or_conflicting() {
    let mut meta = registry();
    assert_eq!(meta.register(Player::group_id(), construct_variants_meta_data::<Player>()), Registration::Redundant);
    let mut other = construct_variants_meta_data::<Player>();
    other.pop();
    assert_eq!(meta.register(Player::group_id(), other), Registration::Conflict);
    assert_eq!(meta.groups.len(), 1);
    assert_eq!(meta.register_input_action::<Player>(), Registration::Redundant);
}

#[test]
fn registering_repeated_action_names_is_refused() {
    let mut meta = IneffableMetaData::new();
    let item = |name: &str, index: usize| IneffableMetaItem {
        group_id: "Menu".to_string(),
        action_id: name.to_string(),
        kind: InputKind::Pulse,
        index,
    };
    let outcome = meta.register_checked("Menu".to_string(), vec![item("Open", 0), item("Open", 1)]);
    assert_eq!(outcome, Registration::DuplicateActions);
    assert!(meta.groups.is_empty());
    let outcome = meta.register_checked("Menu".to_string(), vec![item("Open", 0), item("Close", 1)]);
    assert_eq!(outcome, Registration::Registered);
    assert_eq!(meta.action_ids(&"Menu".to_string()), vec!["Open".to_string(), "Close".to_string()]);
}

#[test]
fn install_skips_unknown_groups_and_sets_timings() {
    let mut c = config(vec![(Player::Sprint, vec![hold(vec![X])])]);
    c.bindings.push(GroupBindings { group_id: "Nobody".to_string(), actions: vec![] });
    c.double_click_timing = Some(250);
    c.post_acceptance_delay = Some(0);
    let engine = engine_with(&c);
    assert_eq!(engine.groups.len(), 1);
    assert_eq!(engine.groups[0].actions.len(), 7);
    assert_eq!(engine.settings.double_click_timing, 250 * MS);
    assert!(engine.settings.post_acceptance_delay.is_none());
}

#[test]
fn set_config_reports_and_installs() {
    let meta = registry();
    let mut c = config(vec![(Player::Sprint, vec![hold(vec![X, X])])]);
    c.bindings[0].actions.push(ActionBindings { action_id: "Fly".to_string(), bindings: vec![] });
    assert!(c.is_well_formed());
    let mut engine = Ineffable::new();
    let report = engine.set_config(&meta, &c);
    assert_eq!(report.entries.len(), 2);
    assert!(report.has_errors());
    tick(&mut engine, &[X], 10);
    assert!(engine.is_active(ia::<Continuous>(Player::Sprint)));
}

#[test]
fn repeated_entries_are_not_well_formed() {
    let mut c = config(vec![(Player::Sprint, vec![]), (Player::Sprint, vec![])]);
    assert!(!c.is_well_formed());
    c.bindings[0].actions.pop();
    assert!(c.is_well_formed());
    let again = c.bindings[0].clone();
    c.bindings.push(again);
    assert!(!c.is_well_formed());
}

#[test]
fn plain_queries_read_by_group_and_index() {
    let c = config(vec![
        (Player::Sprint, vec![hold(vec![X])]),
        (Player::Jump, vec![InputBinding::Pulse(PulseBinding::JustPressed(vec![X]))]),
        (Player::Rotate, vec![InputBinding::SingleAxis(SingleAxisBinding::Hold(vec![A], vec![D]))]),
    ]);
    let mut engine = engine_with(&c);
    tick(&mut engine, &[X, D], 20);
    let group = Player::group_id();
    assert!(engine.is_active_at(&group, Player::Sprint.index()));
    assert!(engine.just_activated_at(&group, Player::Sprint.index()));
    assert!(!engine.just_deactivated_at(&group, Player::Sprint.index()));
    assert_eq!(engine.charge_time_at(&group, Player::Sprint.index()), Some(20 * MS));
    assert!(engine.just_pulsed_at(&group, Player::Jump.index()));
    assert_eq!(engine.direction_1d_at(&group, Player::Rotate.index()), 1);
    assert_eq!(engine.direction_2d_at(&group, Player::Move.index()), Direction2D { x: 0, y: 0 });
    assert!(!engine.is_active_at(&group, 99));
    assert!(!engine.is_active_at(&"Other".to_string(), 0));
}
