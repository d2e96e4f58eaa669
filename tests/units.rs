use ineffable::bindings::{InputKind, Inversion};
use ineffable::config::InputConfigRonLoader;
use ineffable::direction::Direction1D;
use ineffable::input::{is_blocked_by, BinaryInput};
use ineffable::settings::{to_nanos, IneffableSettings, PostAcceptanceDelay};

#[test]
fn toggle_direction_algebra() {
    assert_eq!(Direction1D::Neutral.toggle(Direction1D::Positive), Direction1D::Positive);
    assert_eq!(Direction1D::Positive.toggle(Direction1D::Positive), Direction1D::Neutral);
    assert_eq!(Direction1D::Positive.toggle(Direction1D::Negative), Direction1D::Negative);
    assert_eq!(Direction1D::Negative.toggle(Direction1D::Neutral), Direction1D::Negative);
}

#[test]
fn direction_from_toggles_and_sign() {
    assert_eq!(Direction1D::from_input(true, false), Direction1D::Negative);
    assert_eq!(Direction1D::from_input(false, true), Direction1D::Positive);
    assert_eq!(Direction1D::from_input(true, true), Direction1D::Neutral);
    assert_eq!(Direction1D::from_input(false, false), Direction1D::Neutral);
    assert_eq!(Direction1D::Negative.signum(), -1);
    assert_eq!(Direction1D::Positive.opposite(), Direction1D::Negative);
    assert_eq!(Direction1D::default(), Direction1D::Neutral);
}

#[test]
fn blockers_are_strict_supersets() {
    let x = BinaryInput::Key(1);
    let y = BinaryInput::Key(2);
    assert!(is_blocked_by(&vec![x], &vec![y, x]));
    assert!(!is_blocked_by(&vec![y, x], &vec![x]));
    assert!(!is_blocked_by(&vec![x, y], &vec![y, x]));
    assert!(!is_blocked_by(&vec![], &vec![x]));
    assert!(!is_blocked_by(&vec![x], &vec![y, BinaryInput::MouseButton(1)]));
}

#[test]
fn default_settings() {
    let s = IneffableSettings::new();
    assert_eq!(s.double_click_timing, 500_000_000);
    assert!(s.post_acceptance_delay.is_none());
    assert!(!s.input_blocked_by_pad());
    let s = IneffableSettings::from_timings(None, Some(200));
    assert_eq!(s.double_click_timing, 500_000_000);
    assert_eq!(s.post_acceptance_delay, Some(PostAcceptanceDelay::new(200_000_000)));
    assert_eq!(to_nanos(u64::MAX), u64::MAX);
}

#[test]
fn post_acceptance_delay_runs_its_course() {
    let mut pad = PostAcceptanceDelay::new(30);
    pad.tick(10);
    assert!(!pad.is_blocking_input());
    pad.input_detected();
    assert!(!pad.is_blocking_input());
    pad.tick(10);
    assert!(pad.is_blocking_input());
    pad.tick(10);
    pad.tick(10);
    assert!(pad.is_blocking_input());
    pad.tick(10);
    assert!(!pad.is_blocking_input());
}

#[test]
fn inversion_multiplies() {
    assert_eq!(Inversion::NotInverted.multiplier(), 1);
    assert_eq!(Inversion::Inverted.multiplier(), -1);
    assert_eq!(Inversion::Inverted.maybe_invert(1), -1);
    assert_eq!(Inversion::NotInverted.maybe_invert(-1), -1);
}

#[test]
fn kinds_explain_themselves() {
    assert_eq!(InputKind::DualAxis.explain(), "Indicates a direction along two axes. Example: joystick.");
    assert!(InputKind::Pulse.explain().starts_with("An instantaneous event"));
    assert_eq!(InputConfigRonLoader.extensions(), vec!["input.ron"]);
}
