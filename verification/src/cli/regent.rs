//! The `regent` commands: the lifecycle of the local regent.

use vstd::prelude::*;
use crate::cli::grammar::{group_parse, lemma_group_parse_leaf, parse_group, CliError, Group, Leaf, LeafArgs, ParsedArgs};
use crate::croft::proto::strings_view;

verus! {

/// The subcommands of `regent`.
#[derive(Clone, Debug, PartialEq, Eq)]
pub enum Command {
    /// Starts the regent in the foreground, or in the background when
    /// `detached`, with the configuration file `config` if given.
    Start { config: Option<String>, detached: bool },
    /// Stops a running regent (named `main` when no name is given).
    Stop { name: Option<String> },
    /// Shows the local regents, or the one named.
    Status { name: Option<String> },
}

/// A `regent` subcommand as plain values.
pub enum CommandView {
    Start { config: Option<Seq<char>>, detached: bool },
    Stop { name: Option<Seq<char>> },
    Status { name: Option<Seq<char>> },
}

/// An optional text as plain values.
pub open spec fn opt_view(o: Option<String>) -> Option<Seq<char>> {
    match o {
        Some(s) => Some(s@),
        None => None,
    }
}

impl View for Command {
    type V = CommandView;

    open spec fn view(&self) -> CommandView {
        match self {
            Command::Start { config, detached } => CommandView::Start { config: opt_view(*config), detached: *detached },
            Command::Stop { name } => CommandView::Stop { name: opt_view(*name) },
            Command::Status { name } => CommandView::Status { name: opt_view(*name) },
        }
    }
}

/// The `regent` subcommand that the command `k` and its arguments read
/// give.
pub open spec fn regent_command_view(k: Leaf, a: LeafArgs) -> CommandView {
    match k {
        Leaf::RegentStart => CommandView::Start { config: a.config, detached: a.flag },
        Leaf::RegentStop => CommandView::Stop { name: a.name },
        _ => CommandView::Status { name: a.name },
    }
}

/// How the words of a `regent` command line parse (the first word names
/// the program).
pub open spec fn parse_regent_command(ts: Seq<Seq<char>>) -> Result<CommandView, CliError> {
    match group_parse(Group::Regent, ts, 1) {
        Ok((k, a)) => Ok(regent_command_view(k, a)),
        Err(e) => Err(e),
    }
}

/// A parse outcome as plain values.
pub open spec fn regent_result_view(r: Result<Command, CliError>) -> Result<CommandView, CliError> {
    match r {
        Ok(c) => Ok(c@),
        Err(e) => Err(e),
    }
}

impl Command {
    /// The subcommand for the command `k` of `regent` and its arguments
    /// read.
    pub fn from_args(k: Leaf, a: ParsedArgs) -> (c: Command)
        requires
            k == Leaf::RegentStart || k == Leaf::RegentStop || k == Leaf::RegentStatus,
        ensures
            c@ == regent_command_view(k, a@),
    {
        match k {
            Leaf::RegentStart => Command::Start { config: a.config, detached: a.flag },
            Leaf::RegentStop => Command::Stop { name: a.name },
            _ => Command::Status { name: a.name },
        }
    }

    /// Parses a `regent` command line: `start [-c|--config <path>]
    /// [-d|--detached]`, `stop [name]` or `status [name]`.
    pub fn try_parse_from(args: &Vec<String>) -> (r: Result<Command, CliError>)
        ensures
            regent_result_view(r) == parse_regent_command(strings_view(args@)),
    {
        let parsed = parse_group(Group::Regent, args, 1);
        proof {
            lemma_group_parse_leaf(Group::Regent, strings_view(args@), 1);
        }
        match parsed {
            Ok((k, a)) => Ok(Command::from_args(k, a)),
            Err(e) => Err(e),
        }
    }
}

} // verus!
