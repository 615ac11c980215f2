//! The daemon commands.

use vstd::prelude::*;
use crate::cli::grammar::{group_parse, lemma_group_parse_leaf, parse_group, CliError, Group, LeafArgs};
use crate::croft::proto::strings_view;

verus! {

/// The daemon subcommands.
#[derive(Clone, Copy, Debug, PartialEq, Eq, Structural)]
pub enum Command {
    /// Starts the daemon, in the foreground unless `detached`.
    Start { detached: bool },
}

/// The daemon subcommand that the arguments read of `start` give.
pub open spec fn daemon_command(a: LeafArgs) -> Command {
    Command::Start { detached: a.flag }
}

/// How the words of a daemon command line parse (the first word names the
/// program).
pub open spec fn parse_daemon_command(ts: Seq<Seq<char>>) -> Result<Command, CliError> {
    match group_parse(Group::Daemon, ts, 1) {
        Ok((_, a)) => Ok(daemon_command(a)),
        Err(e) => Err(e),
    }
}

impl Command {
    /// Parses a daemon command line: `start [-d|--detached]`.
    pub fn try_parse_from(args: &Vec<String>) -> (r: Result<Command, CliError>)
        ensures
            r == parse_daemon_command(strings_view(args@)),
    {
        let parsed = parse_group(Group::Daemon, args, 1);
        proof {
            lemma_group_parse_leaf(Group::Daemon, strings_view(args@), 1);
        }
        match parsed {
            Ok((_, a)) => Ok(Command::Start { detached: a.flag }),
            Err(e) => Err(e),
        }
    }
}

} // verus!
