//! Commands of the system that the controller runs.

use crate::text::str_contains;
use crate::usb::RogCore;
use vstd::prelude::*;
use vstd::string::*;

verus! {

/// A program to run and what it is told.
#[derive(Debug, PartialEq, Eq)]
pub struct CommandLine {
    pub program: String,
    pub args: Vec<String>,
}

/// A command line as contracts see it.
pub ghost struct CommandText {
    pub program: Seq<char>,
    pub args: Seq<Seq<char>>,
}

impl View for CommandLine {
    type V = CommandText;

    open spec fn view(&self) -> CommandText {
        CommandText {
            program: self.program@,
            args: Seq::new(self.args@.len(), |i: int| self.args@[i]@),
        }
    }
}

/// How listing the wireless devices went.
#[derive(Debug, PartialEq, Eq)]
pub enum RfkillList {
    /// The program could not be run.
    NotRun,
    /// The program ended, with success or not, and printed these bytes.
    Ended { success: bool, stdout: Vec<u8> },
}

/// What to do about the wireless devices.
#[derive(Debug, PartialEq, Eq)]
pub enum AirplaneMode {
    /// Run the command.
    Switch(CommandLine),
    /// The devices could not be listed.
    NotListed,
    /// The list is no text.
    Unreadable,
}

/// A command line from its words.
pub open spec fn command_text(program: Seq<char>, args: Seq<Seq<char>>) -> CommandText {
    CommandText { program, args }
}

/// A list in which a device is blocked.
pub open spec fn any_blocked(list: Seq<char>) -> bool {
    crate::text::contains_text(list, ": yes"@)
}

/// A command line of a program with one argument.
fn command_1(program: &str, arg: &str) -> (command: CommandLine)
    ensures
        command@ == command_text(program@, seq![arg@]),
{
    let mut args: Vec<String> = Vec::new();
    args.push(arg.to_owned());
    let command = CommandLine { program: program.to_owned(), args };
    assert(command@.args =~= seq![arg@]);
    command
}

/// A command line of a program with two arguments.
fn command_2(program: &str, arg1: &str, arg2: &str) -> (command: CommandLine)
    ensures
        command@ == command_text(program@, seq![arg1@, arg2@]),
{
    let mut args: Vec<String> = Vec::new();
    args.push(arg1.to_owned());
    args.push(arg2.to_owned());
    let command = CommandLine { program: program.to_owned(), args };
    assert(command@.args =~= seq![arg1@, arg2@]);
    command
}

impl RogCore {
    /// The direct call to systemd that suspends the PC.
    ///
    /// This avoids desktop environments being required to handle it
    /// (which means it works while in a TTY also)
    pub fn suspend_with_systemd(&self) -> (command: CommandLine)
        ensures
            command@ == command_text("systemctl"@, seq!["suspend"@]),
    {
        command_1("systemctl", "suspend")
    }

    /// The call that lists the wireless devices.
    pub fn list_rf_devices(&self) -> (command: CommandLine)
        ensures
            command@ == command_text("rfkill"@, seq!["list"@]),
    {
        command_1("rfkill", "list")
    }

    /// The direct call to rfkill that suspends the wireless devices, or wakes
    /// them all where one of them is blocked.
    ///
    /// This avoids desktop environments being required to handle it (which
    /// means it works while in a TTY also)
    pub fn toggle_airplane_mode(&self, list: RfkillList) -> (mode: AirplaneMode)
        ensures
            match list {
                RfkillList::Ended { success: true, stdout } => if vstd::utf8::valid_utf8(stdout@) {
                    let word = if any_blocked(vstd::utf8::decode_utf8(stdout@)) {
                        "unblock"@
                    } else {
                        "block"@
                    };
                    mode matches AirplaneMode::Switch(command) && command@ == command_text(
                        "rfkill"@,
                        seq![word, "all"@],
                    )
                } else {
                    mode == AirplaneMode::Unreadable
                },
                _ => mode == AirplaneMode::NotListed,
            },
    {
        match list {
            RfkillList::Ended { success, stdout } => {
                if success {
                    match String::from_utf8(stdout) {
                        Ok(out) => {
                            if str_contains(out.as_str(), ": yes") {
                                AirplaneMode::Switch(command_2("rfkill", "unblock", "all"))
                            } else {
                                AirplaneMode::Switch(command_2("rfkill", "block", "all"))
                            }
                        },
                        Err(_) => AirplaneMode::Unreadable,
                    }
                } else {
                    AirplaneMode::NotListed
                }
            },
            RfkillList::NotRun => AirplaneMode::NotListed,
        }
    }
}

/// A list tells of a blocked device exactly if somewhere in it a colon, a space and
/// `yes` follow on each other.
pub proof fn law_blocked_devices_are_found(list: Seq<char>)
    ensures
        any_blocked(list) <==> exists|i: int|
            0 <= i && i + 5 <= list.len() && #[trigger] list[i] == ':' && list[i + 1] == ' '
                && list[i + 2] == 'y' && list[i + 3] == 'e' && list[i + 4] == 's',
{
    reveal_strlit(": yes");
    let needle = ": yes"@;
    if any_blocked(list) {
        let i = choose|i: int|
            0 <= i <= list.len() - needle.len() && #[trigger] list.subrange(i, i + needle.len())
                == needle;
        let found = list.subrange(i, i + needle.len());
        assert(found[0] == ':' && found[1] == ' ' && found[2] == 'y' && found[3] == 'e' && found[4]
            == 's');
        assert(list[i] == ':');
    }
    if exists|i: int|
        0 <= i && i + 5 <= list.len() && #[trigger] list[i] == ':' && list[i + 1] == ' ' && list[i
            + 2] == 'y' && list[i + 3] == 'e' && list[i + 4] == 's' {
        let i = choose|i: int|
            0 <= i && i + 5 <= list.len() && #[trigger] list[i] == ':' && list[i + 1] == ' '
                && list[i + 2] == 'y' && list[i + 3] == 'e' && list[i + 4] == 's';
        assert(list.subrange(i, i + needle.len()) =~= needle);
    }
}

/// Contracts see all of a command line: the program and each argument in its
/// place.
pub proof fn law_command_lines_are_seen_in_full(command: CommandLine)
    ensures
        command@.program == command.program@,
        command@.args.len() == command.args@.len(),
        forall|k: int|
            0 <= k < command.args@.len() ==> command@.args[k] == (#[trigger] command.args@[k])@,
{
}

/// A command line from its words has these words.
pub proof fn law_command_has_its_words(program: Seq<char>, args: Seq<Seq<char>>)
    ensures
        command_text(program, args).program == program,
        command_text(program, args).args == args,
{
}

} // verus!
