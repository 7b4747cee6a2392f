use buckyboi::wake::{
    command_line, cursor_wakes, hypr_local_cursor, parse_command, parse_cursorpos, pick_monitor,
    HyprOutput, WakeCommand,
};

#[test]
fn parse_wake_words() {
    assert_eq!(parse_command("wake\n"), Some(WakeCommand::Wake));
    assert_eq!(parse_command("SHOW"), Some(WakeCommand::Wake));
    assert_eq!(parse_command("quit"), Some(WakeCommand::Quit));
    assert_eq!(parse_command("nope"), None);
}

#[test]
fn parse_hypr_cursorpos() {
    assert_eq!(parse_cursorpos("1920,540\n"), Some((1920, 540)));
    assert_eq!(parse_cursorpos(" 10 , 20 "), Some((10, 20)));
    assert_eq!(parse_cursorpos("oops"), None);
}

#[test]
fn local_cursor_subtracts_monitor_origin() {
    let mon = HyprOutput { name: "DP-2".into(), x: 1920, y: 0, width: 1440, height: 900 };
    let (x, y) = hypr_local_cursor(&mon, 2000, 100);
    assert_eq!((x as f32, y as f32), (80.0, 100.0));
}

#[test]
fn command_words_parse_back() {
    assert_eq!(parse_command(command_line(WakeCommand::Wake)), Some(WakeCommand::Wake));
    assert_eq!(parse_command(command_line(WakeCommand::Quit)), Some(WakeCommand::Quit));
    assert_eq!(command_line(WakeCommand::Wake), "wake\n");
}

#[test]
fn other_wake_and_quit_words() {
    assert_eq!(parse_command("  Unhide "), Some(WakeCommand::Wake));
    assert_eq!(parse_command("EXIT"), Some(WakeCommand::Quit));
    assert_eq!(parse_command("die\n"), Some(WakeCommand::Quit));
    assert_eq!(parse_command(""), None);
}

#[test]
fn cursorpos_rejects_partial_replies() {
    assert_eq!(parse_cursorpos("-5,7"), Some((-5, 7)));
    assert_eq!(parse_cursorpos("1,"), None);
    assert_eq!(parse_cursorpos(",2"), None);
    assert_eq!(parse_cursorpos("1 2"), None);
}

#[test]
fn focused_monitor_wins_else_first() {
    assert_eq!(pick_monitor(&[false, true, true]), Some(1));
    assert_eq!(pick_monitor(&[false, false]), Some(0));
    assert_eq!(pick_monitor(&[]), None);
}

#[test]
fn only_watched_motion_wakes() {
    assert!(cursor_wakes(true, Some((1, 1)), (2, 1)));
    assert!(!cursor_wakes(true, Some((1, 1)), (1, 1)));
    assert!(!cursor_wakes(true, None, (5, 5)));
    assert!(!cursor_wakes(false, Some((1, 1)), (9, 9)));
}
