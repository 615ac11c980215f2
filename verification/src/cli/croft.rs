//! The `croft` commands: inspecting the crofts of the ranch.

use vstd::prelude::*;
use crate::cli::grammar::{group_parse, lemma_group_parse_leaf, parse_group, CliError, Group, Leaf, LeafArgs, ParsedArgs};
use crate::croft::proto::strings_view;

verus! {

/// The subcommands of `croft`.
#[derive(Clone, Debug, PartialEq, Eq)]
pub enum Command {
    /// Shows a croft's metadata, resources and, with `live`, its live
    /// telemetry.
    Status { name: String, live: bool },
}

/// A `croft` subcommand as plain values.
pub enum CommandView {
    Status { name: Seq<char>, live: bool },
}

impl View for Command {
    type V = CommandView;

    open spec fn view(&self) -> CommandView {
        match self {
            Command::Status { name, live } => CommandView::Status { name: name@, live: *live },
        }
    }
}

/// The `croft` subcommand that the arguments read give.
pub open spec fn croft_command_view(a: LeafArgs) -> CommandView {
    CommandView::Status {
        name: match a.name {
            Some(n) => n,
            None => Seq::empty(),
        },
        live: a.flag,
    }
}

/// How the words of a `croft` command line parse (the first word names
/// the program).
pub open spec fn parse_croft_command(ts: Seq<Seq<char>>) -> Result<CommandView, CliError> {
    match group_parse(Group::Croft, ts, 1) {
        Ok((_, a)) => Ok(croft_command_view(a)),
        Err(e) => Err(e),
    }
}

/// A parse outcome as plain values.
pub open spec fn croft_result_view(r: Result<Command, CliError>) -> Result<CommandView, CliError> {
    match r {
        Ok(c) => Ok(c@),
        Err(e) => Err(e),
    }
}

impl Command {
    /// The subcommand for the arguments read of `croft status`.
    pub fn from_args(a: ParsedArgs) -> (c: Command)
        requires
            a.name is Some,
        ensures
            c@ == croft_command_view(a@),
    {
        match a.name {
            Some(name) => Command::Status { name, live: a.flag },
            None => Command::Status { name: String::new(), live: a.flag },
        }
    }

    /// Parses a `croft` command line: `status <name> [-l|--live]`.
    pub fn try_parse_from(args: &Vec<String>) -> (r: Result<Command, CliError>)
        ensures
            croft_result_view(r) == parse_croft_command(strings_view(args@)),
    {
        let parsed = parse_group(Group::Croft, args, 1);
        proof {
            lemma_group_parse_leaf(Group::Croft, strings_view(args@), 1);
        }
        match parsed {
            Ok((_, a)) => Ok(Command::from_args(a)),
            Err(e) => Err(e),
        }
    }
}

} // verus!
