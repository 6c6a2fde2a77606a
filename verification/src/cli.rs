//! The command line: which action a `deskstamp` invocation asks for.
use crate::text::str_is;
use vstd::prelude::*;

verus! {

/// The action a command line asks for.
#[derive(Clone, Copy, Debug, PartialEq, Eq, Structural)]
pub enum CliCommand {
    /// `menu`, `quick`, or no command: the quick menu.
    Menu,
    /// `settings`, `studio`, `gui`: the settings window.
    Settings,
    Toggle,
    Reload,
    Status,
    /// `preview [FILE]`: render a preview image.
    Preview,
    /// `config`: print the configuration.
    Config,
    /// `test`: run the overlay for a few seconds.
    Test,
    /// `daemon`: run the overlay.
    Daemon,
    /// Anything else: print the usage line.
    Usage,
}

/// The command word: the first argument after the program name, `menu` where
/// there is none.
pub open spec fn command_word(args: Seq<String>) -> Seq<char> {
    if args.len() > 1 {
        args[1]@
    } else {
        "menu"@
    }
}

/// The action a command word names.
pub open spec fn command_for(word: Seq<char>) -> CliCommand {
    if word == "menu"@ || word == "quick"@ {
        CliCommand::Menu
    } else if word == "settings"@ || word == "studio"@ || word == "gui"@ {
        CliCommand::Settings
    } else if word == "toggle"@ {
        CliCommand::Toggle
    } else if word == "reload"@ {
        CliCommand::Reload
    } else if word == "status"@ {
        CliCommand::Status
    } else if word == "preview"@ {
        CliCommand::Preview
    } else if word == "config"@ {
        CliCommand::Config
    } else if word == "test"@ {
        CliCommand::Test
    } else if word == "daemon"@ {
        CliCommand::Daemon
    } else {
        CliCommand::Usage
    }
}

/// The action that `args` (program name first) asks for.
pub fn parse_command(args: &Vec<String>) -> (c: CliCommand)
    ensures
        c == command_for(command_word(args@)),
{
    if args.len() <= 1 {
        return CliCommand::Menu;
    }
    let w = args[1].as_str();
    if str_is(w, "menu") || str_is(w, "quick") {
        CliCommand::Menu
    } else if str_is(w, "settings") || str_is(w, "studio") || str_is(w, "gui") {
        CliCommand::Settings
    } else if str_is(w, "toggle") {
        CliCommand::Toggle
    } else if str_is(w, "reload") {
        CliCommand::Reload
    } else if str_is(w, "status") {
        CliCommand::Status
    } else if str_is(w, "preview") {
        CliCommand::Preview
    } else if str_is(w, "config") {
        CliCommand::Config
    } else if str_is(w, "test") {
        CliCommand::Test
    } else if str_is(w, "daemon") {
        CliCommand::Daemon
    } else {
        CliCommand::Usage
    }
}

/// The file a preview is written to: the argument after `preview`, else
/// `deskstamp_preview.png`.
pub fn preview_file(args: &Vec<String>) -> (f: String)
    ensures
        f@ == if args@.len() > 2 {
            args@[2]@
        } else {
            "deskstamp_preview.png"@
        },
{
    if args.len() > 2 {
        args[2].clone()
    } else {
        String::from_str("deskstamp_preview.png")
    }
}

/// The usage line printed for an unknown command.
pub fn usage_line() -> (s: String)
    ensures
        s@ == "Usage: deskstamp [gui | daemon | test | toggle | reload | status | preview | config]"@,
{
    String::from_str("Usage: deskstamp [gui | daemon | test | toggle | reload | status | preview | config]")
}

} // verus!
