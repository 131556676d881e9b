use deck_optimizer::cli::{Action, CliArgs};
use deck_optimizer::modes::Mode;

fn args(show_status: bool, mode: Option<&str>, reset: bool, log: bool) -> CliArgs {
    CliArgs { show_status, selected_mode: mode.map(|m| m.to_string()), reset, log }
}

#[test]
fn no_flags_open_the_front_end() {
    let empty = args(false, None, false, false);
    assert!(empty.is_empty());
    assert_eq!(empty.actions(), vec![Action::LaunchGui]);
}

#[test]
fn each_flag_gives_its_action() {
    assert_eq!(args(true, None, false, false).actions(), vec![Action::PrintStatus]);
    assert_eq!(args(false, None, true, false).actions(), vec![Action::Reset]);
    assert_eq!(args(false, None, false, true).actions(), vec![Action::Log]);
    assert_eq!(
        args(false, Some("Balanced"), false, false).actions(),
        vec![Action::ApplyMode(Mode::Balanced)]
    );
    assert!(!args(false, Some("x"), false, false).is_empty());
}

#[test]
fn actions_come_in_a_fixed_order() {
    assert_eq!(
        args(true, Some("SchedUtil"), true, true).actions(),
        vec![
            Action::PrintStatus,
            Action::ApplyMode(Mode::Custom("schedutil".to_string())),
            Action::Reset,
            Action::Log,
        ]
    );
    assert_eq!(
        args(false, Some("battery"), false, true).actions(),
        vec![Action::ApplyMode(Mode::BatterySaver), Action::Log]
    );
}
