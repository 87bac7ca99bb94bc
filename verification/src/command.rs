//! The commands that carry out the reconciler's actions on accounts.
//!
//! Accounts are looked up, created and changed by the host's own tools. This
//! module says which tool an action calls and with which arguments; to run the
//! command is left to the caller.

use crate::decimal::{decimal, to_decimal};
use crate::protocol::{Action, ActionView};
use vstd::prelude::*;
use vstd::string::*;

verus! {

/// A program and its arguments.
#[derive(Debug, PartialEq, Eq)]
pub struct CommandLine {
    pub program: String,
    pub arguments: Vec<String>,
}

/// The view of a [`CommandLine`].
pub struct CommandLineView {
    pub program: Seq<char>,
    pub arguments: Seq<Seq<char>>,
}

impl View for CommandLine {
    type V = CommandLineView;

    open spec fn view(&self) -> CommandLineView {
        CommandLineView { program: self.program@, arguments: self.arguments.deep_view() }
    }
}

/// A size in gigabytes as the quota tool reads it: the number in decimal
/// notation, followed by `G`.
pub open spec fn size_text(gb: nat) -> Seq<char> {
    decimal(gb) + "G"@
}

/// The command that carries out `a`, where `a` is about an account:
///
/// - `id USER` looks the account up; it succeeds if the account exists;
/// - `useradd --create-home USER` creates it;
/// - `usermod -a -G GROUP USER` adds it to a group;
/// - `usermod --shell SHELL USER` sets its login shell;
/// - `setquota -u USER SOFT HARD 0 0 MOUNT` limits its disk usage and leaves
///   the number of its files without limit.
pub open spec fn command_of(a: ActionView) -> Option<CommandLineView> {
    match a {
        ActionView::Lookup { user } => Some(
            CommandLineView { program: "id"@, arguments: seq![user] },
        ),
        ActionView::Create { user } => Some(
            CommandLineView { program: "useradd"@, arguments: seq!["--create-home"@, user] },
        ),
        ActionView::GrantGroup { user, group } => Some(
            CommandLineView { program: "usermod"@, arguments: seq!["-a"@, "-G"@, group, user] },
        ),
        ActionView::SetShell { user, shell } => Some(
            CommandLineView { program: "usermod"@, arguments: seq!["--shell"@, shell, user] },
        ),
        ActionView::SetQuota { user, soft_gb, hard_gb, mount } => Some(
            CommandLineView {
                program: "setquota"@,
                arguments: seq![
                    "-u"@,
                    user,
                    size_text(soft_gb),
                    size_text(hard_gb),
                    "0"@,
                    "0"@,
                    mount,
                ],
            },
        ),
        _ => None,
    }
}

/// Writes a size in gigabytes as the quota tool reads it.
pub fn quota_size(gb: u64) -> (text: String)
    ensures
        text@ == size_text(gb as nat),
{
    to_decimal(gb).concat("G")
}

/// Gives the command that carries out `action`, or `None` where the action is
/// not about an account.
pub fn command_line(action: &Action) -> (line: Option<CommandLine>)
    ensures
        match line {
            Some(line) => command_of(action@) == Some(line@),
            None => command_of(action@) is None,
        },
{
    match action {
        Action::Lookup { user } => {
            let mut arguments: Vec<String> = Vec::new();
            arguments.push(user.clone());
            assert(arguments.deep_view() =~= seq![user@]);
            Some(CommandLine { program: String::from_str("id"), arguments })
        },
        Action::Create { user } => {
            let mut arguments: Vec<String> = Vec::new();
            arguments.push(String::from_str("--create-home"));
            arguments.push(user.clone());
            assert(arguments.deep_view() =~= seq!["--create-home"@, user@]);
            Some(CommandLine { program: String::from_str("useradd"), arguments })
        },
        Action::GrantGroup { user, group } => {
            let mut arguments: Vec<String> = Vec::new();
            arguments.push(String::from_str("-a"));
            arguments.push(String::from_str("-G"));
            arguments.push(group.clone());
            arguments.push(user.clone());
            assert(arguments.deep_view() =~= seq!["-a"@, "-G"@, group@, user@]);
            Some(CommandLine { program: String::from_str("usermod"), arguments })
        },
        Action::SetShell { user, shell } => {
            let mut arguments: Vec<String> = Vec::new();
            arguments.push(String::from_str("--shell"));
            arguments.push(shell.clone());
            arguments.push(user.clone());
            assert(arguments.deep_view() =~= seq!["--shell"@, shell@, user@]);
            Some(CommandLine { program: String::from_str("usermod"), arguments })
        },
        Action::SetQuota { user, soft_gb, hard_gb, mount } => {
            let mut arguments: Vec<String> = Vec::new();
            arguments.push(String::from_str("-u"));
            arguments.push(user.clone());
            arguments.push(quota_size(*soft_gb));
            arguments.push(quota_size(*hard_gb));
            arguments.push(String::from_str("0"));
            arguments.push(String::from_str("0"));
            arguments.push(mount.clone());
            assert(arguments.deep_view() =~= seq![
                "-u"@,
                user@,
                size_text(*soft_gb as nat),
                size_text(*hard_gb as nat),
                "0"@,
                "0"@,
                mount@,
            ]);
            Some(CommandLine { program: String::from_str("setquota"), arguments })
        },
        _ => None,
    }
}

} // verus!
