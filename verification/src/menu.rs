//! The tray menu: what each entry asks for, and the guard that keeps the
//! process alive until the user has chosen to quit.

use vstd::prelude::*;
use vstd::string::*;
use crate::desktop::{actions_of, ActionView, WindowAction};
use crate::label::{dashboard_label, dashboard_window_label};
use crate::lifecycle::bring_forward;

verus! {

/// What the user asked for through the tray menu.
#[derive(Debug, PartialEq, Eq, Structural, Clone, Copy)]
pub enum MenuCommand {
    /// Store the session, allow the exit and leave.
    Quit,
    /// Open a new note, remember it and show it.
    NewNote,
    /// Bring the dashboard forward.
    Dashboard,
    /// Show the folder that holds the notes.
    OpenData,
    /// An entry that this menu does not have.
    Unknown,
}

/// The command that a menu entry id stands for.
pub open spec fn command_of(id: Seq<char>) -> MenuCommand {
    if id == "quit"@ {
        MenuCommand::Quit
    } else if id == "new_note"@ {
        MenuCommand::NewNote
    } else if id == "dashboard"@ {
        MenuCommand::Dashboard
    } else if id == "open_data"@ {
        MenuCommand::OpenData
    } else {
        MenuCommand::Unknown
    }
}

fn is_text(id: &String, text: &str) -> (same: bool)
    ensures
        same == (id@ == text@),
{
    let other = String::from_str(text);
    *id == other
}

/// Reads a menu entry id.
pub fn menu_command(id: &str) -> (command: MenuCommand)
    ensures
        command == command_of(id@),
{
    let owned = String::from_str(id);
    if is_text(&owned, "quit") {
        MenuCommand::Quit
    } else if is_text(&owned, "new_note") {
        MenuCommand::NewNote
    } else if is_text(&owned, "dashboard") {
        MenuCommand::Dashboard
    } else if is_text(&owned, "open_data") {
        MenuCommand::OpenData
    } else {
        MenuCommand::Unknown
    }
}

/// The requests that bring the dashboard forward, should it exist.
pub fn dashboard_actions() -> (actions: Vec<WindowAction>)
    ensures
        actions_of(actions@) == bring_forward(dashboard_label()),
{
    let label = dashboard_window_label();
    let mut actions: Vec<WindowAction> = Vec::new();
    actions.push(WindowAction::Show(label.clone()));
    actions.push(WindowAction::Unminimize(label.clone()));
    actions.push(WindowAction::Focus(label));
    actions
}

/// Closing the last window must not end the process: the notes live in the
/// tray. Only the quit command lifts the guard.
pub struct ExitGuard {
    pub allowed: bool,
}

impl ExitGuard {
    /// A guard that holds.
    pub fn new() -> (guard: Self)
        ensures
            !guard.allowed,
    {
        ExitGuard { allowed: false }
    }

    /// Lifts the guard.
    pub fn allow_exit(&mut self)
        ensures
            final(self).allowed,
    {
        self.allowed = true;
    }

    /// Whether a request to exit is to be turned down.
    pub fn prevents_exit(&self) -> (prevented: bool)
        ensures
            prevented == !self.allowed,
    {
        !self.allowed
    }

    /// Takes note of a menu command: quitting lifts the guard, nothing else
    /// does.
    pub fn observe(&mut self, command: MenuCommand)
        ensures
            final(self).allowed == (old(self).allowed || command == MenuCommand::Quit),
    {
        match command {
            MenuCommand::Quit => self.allow_exit(),
            _ => {},
        }
    }
}

} // verus!
