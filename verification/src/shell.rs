//! Decisions of the desktop shell around the library: whether the tray icon
//! is used, what the tray menu and deep links ask for, and the texts of crash
//! reports and of the corrupted-database notice.

use vstd::prelude::*;
use crate::errors::decimal_text;
use crate::process::{append_u64_decimal, matches_lowercase, matches_lowercase_exec};
use crate::text::{concat, same_text};

verus! {

/// The tray icon is used unless `NO_TRAY_ICON` is set to `true` in any case.
pub fn tray_enabled(no_tray_icon: Option<&str>) -> (r: bool)
    ensures
        r == match no_tray_icon {
            None => true,
            Some(s) => !matches_lowercase(s@, "true"@),
        },
{
    match no_tray_icon {
        None => true,
        Some(s) => !matches_lowercase_exec(s, "true"),
    }
}

/// What an entry of the tray menu asks for.
pub enum MenuAction {
    /// Show the main window.
    Open,
    /// Clean up and exit.
    Quit,
    /// Not an entry the client knows.
    Unhandled,
}

pub fn menu_action(id: &str) -> (r: MenuAction)
    ensures
        id@ == "open"@ ==> r is Open,
        id@ == "quit"@ ==> r is Quit,
        id@ != "open"@ && id@ != "quit"@ ==> r is Unhandled,
{
    proof {
        reveal_strlit("open");
        reveal_strlit("quit");
        assert("quit"@[0] != "open"@[0]);
    }
    if same_text(id, "open") {
        MenuAction::Open
    } else if same_text(id, "quit") {
        MenuAction::Quit
    } else {
        MenuAction::Unhandled
    }
}

/// A `drop://` link is handled when it is a sign-in handshake.
pub fn is_handshake_link(host: &str) -> (r: bool)
    ensures
        r == (host@ == "handshake"@),
{
    same_text(host, "handshake")
}

/// The name of the crash report written at `secs` seconds since the epoch.
pub fn crash_file_name(secs: u64) -> (r: String)
    ensures
        r@ == "crash-"@ + decimal_text(secs as nat) + ".log"@,
{
    let mut r = String::from_str("crash-");
    append_u64_decimal(&mut r, secs);
    r.append(".log");
    r
}

/// The contents of a crash report.
pub fn crash_report(panic_text: &str) -> (r: String)
    ensures
        r@ == "Drop crashed with the following panic:\n"@ + panic_text@,
{
    concat("Drop crashed with the following panic:\n", panic_text)
}

/// The notice shown when the database had to be replaced.
pub fn corrupted_database_message(saved_copy: &str) -> (r: String)
    ensures
        r@ == "Database corrupted. A copy has been saved at: "@ + saved_copy@,
{
    concat("Database corrupted. A copy has been saved at: ", saved_copy)
}

} // verus!
