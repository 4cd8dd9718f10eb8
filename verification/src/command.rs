//! What the user and the clock can ask for.

use crate::text::same_text;
use crate::ui::{ID_ACTIVATE, ID_CONFIG, ID_QUIT, ID_REFRESH, ID_REPO};
use vstd::prelude::*;
use vstd::string::*;

verus! {

pub const ID_USE_RESET_5H: &'static str = "use_reset_5h";

pub const ID_USE_RESET_WEEK: &'static str = "use_reset_week";

pub const ID_RESET_SITE: &'static str = "reset_site";

/// A command for the worker.
#[derive(Debug, Clone, Copy, PartialEq, Eq, Structural)]
pub enum Cmd {
    Fetch,
    /// `scheduled`: asked for by the clock. Such a command waits for a window that is still
    /// running, so that the request does not go into it in vain.
    Activate { scheduled: bool },
    UseResetCard { week: bool },
    OpenConfig,
    OpenRepo,
    OpenResetSite,
    Quit,
}

/// What choosing a line of a native menu leads to.
#[derive(Debug, Clone, Copy, PartialEq, Eq, Structural)]
pub enum Choice {
    Send(Cmd),
    Exit,
    Ignore,
}

/// The command behind a line of the tray menu: every line that is none of the others ends the
/// program.
pub open spec fn tray_command_of(id: Seq<char>) -> Cmd {
    if id == ID_ACTIVATE@ {
        Cmd::Activate { scheduled: false }
    } else if id == ID_REFRESH@ {
        Cmd::Fetch
    } else if id == ID_CONFIG@ {
        Cmd::OpenConfig
    } else if id == ID_REPO@ {
        Cmd::OpenRepo
    } else {
        Cmd::Quit
    }
}

/// What choosing a line of a native menu leads to: a line that is not known leads to nothing.
pub open spec fn choice_of(id: Seq<char>) -> Choice {
    if id == ID_ACTIVATE@ {
        Choice::Send(Cmd::Activate { scheduled: false })
    } else if id == ID_REFRESH@ {
        Choice::Send(Cmd::Fetch)
    } else if id == ID_CONFIG@ {
        Choice::Send(Cmd::OpenConfig)
    } else if id == ID_REPO@ {
        Choice::Send(Cmd::OpenRepo)
    } else if id == ID_USE_RESET_5H@ {
        Choice::Send(Cmd::UseResetCard { week: false })
    } else if id == ID_USE_RESET_WEEK@ {
        Choice::Send(Cmd::UseResetCard { week: true })
    } else if id == ID_RESET_SITE@ {
        Choice::Send(Cmd::OpenResetSite)
    } else if id == ID_QUIT@ {
        Choice::Exit
    } else {
        Choice::Ignore
    }
}

/// The command behind a line of the tray menu.
pub fn tray_command(id: &str) -> (r: Cmd)
    ensures
        r == tray_command_of(id@),
{
    if same_text(id, ID_ACTIVATE) {
        Cmd::Activate { scheduled: false }
    } else if same_text(id, ID_REFRESH) {
        Cmd::Fetch
    } else if same_text(id, ID_CONFIG) {
        Cmd::OpenConfig
    } else if same_text(id, ID_REPO) {
        Cmd::OpenRepo
    } else {
        Cmd::Quit
    }
}

/// What choosing a line of a native menu leads to.
pub fn choose_line(id: &str) -> (r: Choice)
    ensures
        r == choice_of(id@),
{
    if same_text(id, ID_ACTIVATE) {
        Choice::Send(Cmd::Activate { scheduled: false })
    } else if same_text(id, ID_REFRESH) {
        Choice::Send(Cmd::Fetch)
    } else if same_text(id, ID_CONFIG) {
        Choice::Send(Cmd::OpenConfig)
    } else if same_text(id, ID_REPO) {
        Choice::Send(Cmd::OpenRepo)
    } else if same_text(id, ID_USE_RESET_5H) {
        Choice::Send(Cmd::UseResetCard { week: false })
    } else if same_text(id, ID_USE_RESET_WEEK) {
        Choice::Send(Cmd::UseResetCard { week: true })
    } else if same_text(id, ID_RESET_SITE) {
        Choice::Send(Cmd::OpenResetSite)
    } else if same_text(id, ID_QUIT) {
        Choice::Exit
    } else {
        Choice::Ignore
    }
}

/// No two lines share an id, so that each leads to its own command.
pub proof fn ids_are_distinct()
    ensures
        tray_command_of(ID_ACTIVATE@) == (Cmd::Activate { scheduled: false }),
        tray_command_of(ID_REFRESH@) == Cmd::Fetch,
        tray_command_of(ID_CONFIG@) == Cmd::OpenConfig,
        tray_command_of(ID_REPO@) == Cmd::OpenRepo,
        tray_command_of(ID_QUIT@) == Cmd::Quit,
        choice_of(ID_ACTIVATE@) == Choice::Send(Cmd::Activate { scheduled: false }),
        choice_of(ID_REFRESH@) == Choice::Send(Cmd::Fetch),
        choice_of(ID_CONFIG@) == Choice::Send(Cmd::OpenConfig),
        choice_of(ID_REPO@) == Choice::Send(Cmd::OpenRepo),
        choice_of(ID_USE_RESET_5H@) == Choice::Send(Cmd::UseResetCard { week: false }),
        choice_of(ID_USE_RESET_WEEK@) == Choice::Send(Cmd::UseResetCard { week: true }),
        choice_of(ID_RESET_SITE@) == Choice::Send(Cmd::OpenResetSite),
        choice_of(ID_QUIT@) == Choice::Exit,
{
    reveal_strlit("activate");
    reveal_strlit("refresh");
    reveal_strlit("config");
    reveal_strlit("repo");
    reveal_strlit("use_reset_5h");
    reveal_strlit("use_reset_week");
    reveal_strlit("reset_site");
    reveal_strlit("quit");
    assert(ID_ACTIVATE@.len() == 8);
    assert(ID_REFRESH@.len() == 7);
    assert(ID_CONFIG@.len() == 6);
    assert(ID_REPO@.len() == 4 && ID_REPO@[0] == 'r');
    assert(ID_USE_RESET_5H@.len() == 12);
    assert(ID_USE_RESET_WEEK@.len() == 14);
    assert(ID_RESET_SITE@.len() == 10);
    assert(ID_QUIT@.len() == 4 && ID_QUIT@[0] == 'q');
}

/// A line whose id is none of the known ones ends the program where it is a line of the tray menu,
/// and leads to nothing in a native menu. No choice of a line counts as asked for by the clock.
pub proof fn lines_that_are_not_known(id: Seq<char>)
    ensures
        tray_command_of(id) != (Cmd::Activate { scheduled: true }),
        choice_of(id) != Choice::Send(Cmd::Activate { scheduled: true }),
        id != "activate"@ && id != "refresh"@ && id != "config"@ && id != "repo"@
            ==> tray_command_of(id) == Cmd::Quit,
        id != "activate"@ && id != "refresh"@ && id != "config"@ && id != "repo"@ && id
            != "use_reset_5h"@ && id != "use_reset_week"@ && id != "reset_site"@ && id != "quit"@
            ==> choice_of(id) == Choice::Ignore,
{
}

} // verus!
