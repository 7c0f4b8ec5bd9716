use note_stack::desktop::WindowAction;
use note_stack::menu::{dashboard_actions, menu_command, ExitGuard, MenuCommand};

#[test]
fn menu_ids_are_read() {
    assert_eq!(menu_command("quit"), MenuCommand::Quit);
    assert_eq!(menu_command("new_note"), MenuCommand::NewNote);
    assert_eq!(menu_command("dashboard"), MenuCommand::Dashboard);
    assert_eq!(menu_command("open_data"), MenuCommand::OpenData);
}

#[test]
fn other_menu_ids_are_unknown() {
    for id in ["", "Quit", "quit ", "new-note", "about"] {
        assert_eq!(menu_command(id), MenuCommand::Unknown, "{id}");
    }
}

#[test]
fn dashboard_is_brought_forward() {
    assert_eq!(
        dashboard_actions(),
        vec![
            WindowAction::Show("main".to_string()),
            WindowAction::Unminimize("main".to_string()),
            WindowAction::Focus("main".to_string()),
        ]
    );
}

#[test]
fn exit_is_prevented_until_quit() {
    let mut guard = ExitGuard::new();
    assert!(guard.prevents_exit());
    for command in [MenuCommand::NewNote, MenuCommand::Dashboard, MenuCommand::OpenData, MenuCommand::Unknown] {
        guard.observe(command);
        assert!(guard.prevents_exit());
    }
    guard.observe(MenuCommand::Quit);
    assert!(!guard.prevents_exit());
    guard.observe(MenuCommand::NewNote);
    assert!(!guard.prevents_exit());
}

#[test]
fn allow_exit_lifts_the_guard() {
    let mut guard = ExitGuard::new();
    guard.allow_exit();
    assert!(!guard.prevents_exit());
}
