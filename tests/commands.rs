use n_body_platformer::command_parser::DevCommandList;
use n_body_platformer::commands::{
    keyboard_state_changer, update_cmdline, CmdlineKey, CmdlineState, SimulationState,
};

fn list() -> DevCommandList<&'static str> {
    DevCommandList::new()
        .add_command("info".to_string(), "info command")
        .add_command("infotwo".to_string(), "second info command")
        .add_command("setclockspeed".to_string(), "clock")
}

#[test]
fn command_with_argument() {
    let l = list();
    let (i, arg) = l.parse_command("setclockspeed   2.5  ").unwrap();
    assert_eq!(*l.command(i), "clock");
    assert_eq!(arg, "2.5");
}

#[test]
fn longest_name_wins() {
    let l = list();
    let (i, arg) = l.parse_command("infotwo hello").unwrap();
    assert_eq!(*l.command(i), "second info command");
    assert_eq!(arg, "hello");
    let (i, arg) = l.parse_command("infox y").unwrap();
    assert_eq!(*l.command(i), "info command");
    assert_eq!(arg, "x y");
    let (i, arg) = l.parse_command("info").unwrap();
    assert_eq!(*l.command(i), "info command");
    assert_eq!(arg, "");
}

#[test]
fn unknown_command_is_none() {
    let l = list();
    assert_eq!(l.parse_command("inf"), None);
    assert_eq!(l.parse_command(""), None);
    assert_eq!(l.parse_command("help"), None);
}

#[test]
fn later_command_replaces_same_name() {
    let l = DevCommandList::new()
        .add_command("go".to_string(), 1)
        .add_command("go".to_string(), 2);
    let (i, _) = l.parse_command("go").unwrap();
    assert_eq!(*l.command(i), 2);
}

#[test]
fn completion_of_names() {
    let l = list();
    assert_eq!(l.complete("setc"), Some("setclockspeed".to_string()));
    assert_eq!(l.complete("infot"), Some("infotwo".to_string()));
    assert_eq!(l.complete("info"), Some("info".to_string()));
    assert_eq!(l.complete("x"), None);
}

#[test]
fn key_presses_edit_the_text() {
    let l = list();
    let mut text = String::new();
    for c in ["s", "e", "t", "c"] {
        assert_eq!(update_cmdline(&l, &mut text, &CmdlineKey::Character(c.to_string())), None);
    }
    assert_eq!(text, "setc");
    assert_eq!(update_cmdline(&l, &mut text, &CmdlineKey::Tab), None);
    assert_eq!(text, "setclockspeed");
    update_cmdline(&l, &mut text, &CmdlineKey::Space);
    update_cmdline(&l, &mut text, &CmdlineKey::Character("3x".to_string()));
    update_cmdline(&l, &mut text, &CmdlineKey::Backspace);
    update_cmdline(&l, &mut text, &CmdlineKey::Other);
    assert_eq!(text, "setclockspeed 3");
    let run = update_cmdline(&l, &mut text, &CmdlineKey::Enter).unwrap();
    assert_eq!(*l.command(run.0), "clock");
    assert_eq!(run.1, "3");
    assert_eq!(text, "");
    update_cmdline(&l, &mut text, &CmdlineKey::Backspace);
    assert_eq!(text, "");
    update_cmdline(&l, &mut text, &CmdlineKey::Character("nope".to_string()));
    assert_eq!(update_cmdline(&l, &mut text, &CmdlineKey::Enter), None);
    assert_eq!(text, "");
}

#[test]
fn cmdline_toggles() {
    assert_eq!(CmdlineState::Open.toggled(), CmdlineState::Closed);
    assert_eq!(CmdlineState::Closed.toggled(), CmdlineState::Open);
}

#[test]
fn pause_key_flips_simulation_unless_cmdline_open() {
    assert_eq!(keyboard_state_changer(SimulationState::Paused, CmdlineState::Closed, true), SimulationState::Running);
    assert_eq!(keyboard_state_changer(SimulationState::Running, CmdlineState::Closed, true), SimulationState::Paused);
    assert_eq!(keyboard_state_changer(SimulationState::Running, CmdlineState::Closed, false), SimulationState::Running);
    assert_eq!(keyboard_state_changer(SimulationState::Paused, CmdlineState::Open, true), SimulationState::Paused);
}

#[test]
fn default_commands_hold_clock_speed() {
    let l = DevCommandList::new().add_default_commands(7u8);
    let (i, arg) = l.parse_command("setclockspeed 0.5").unwrap();
    assert_eq!(*l.command(i), 7);
    assert_eq!(arg, "0.5");
    assert_eq!(l.complete("set"), Some("setclockspeed".to_string()));
}
