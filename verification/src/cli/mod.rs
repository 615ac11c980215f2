//! The command line of the program: its commands, the grammar that reads
//! them, and where a command finds the api it talks to.

pub mod croft;
pub mod daemon;
pub mod grammar;
pub mod laws;
pub mod regent;
pub mod table;

use vstd::prelude::*;
use crate::cli::croft::{croft_command_view, Command as CroftCommand, CommandView as CroftCommandView};
use crate::cli::grammar::{group_parse, lemma_group_parse_leaf, parse_group, CliError, Group, Leaf, LeafArgs};
use crate::cli::regent::{regent_command_view, Command as RegentCommand, CommandView as RegentCommandView};
use crate::croft::config::{default_addr_text, http_url};
use crate::croft::proto::strings_view;
use crate::text::{owned, skip_chars, starts_with, trim, trim_str};

verus! {

/// A parsed command line.
#[derive(Clone, Debug, PartialEq, Eq)]
pub struct Cli {
    pub command: Command,
}

/// The top-level commands.
#[derive(Clone, Debug, PartialEq, Eq)]
pub enum Command {
    /// Shows a summary table of all the crofts of the ranch.
    Status,
    /// The commands on crofts.
    Croft { command: CroftCommand },
    /// The commands on the local regent.
    Regent { command: RegentCommand },
}

/// A top-level command as plain values.
pub enum CommandView {
    Status,
    Croft(CroftCommandView),
    Regent(RegentCommandView),
}

impl View for Command {
    type V = CommandView;

    open spec fn view(&self) -> CommandView {
        match self {
            Command::Status => CommandView::Status,
            Command::Croft { command } => CommandView::Croft(command@),
            Command::Regent { command } => CommandView::Regent(command@),
        }
    }
}

/// The top-level command that the command `k` and its arguments read give.
pub open spec fn top_command_view(k: Leaf, a: LeafArgs) -> CommandView {
    match k {
        Leaf::TopStatus => CommandView::Status,
        Leaf::CroftStatus => CommandView::Croft(croft_command_view(a)),
        _ => CommandView::Regent(regent_command_view(k, a)),
    }
}

/// How the words of a command line parse; the first word names the
/// program.
pub open spec fn parse_command_line(ts: Seq<Seq<char>>) -> Result<CommandView, CliError> {
    match group_parse(Group::Top, ts, 1) {
        Ok((k, a)) => Ok(top_command_view(k, a)),
        Err(e) => Err(e),
    }
}

/// A parse outcome as plain values.
pub open spec fn cli_result_view(r: Result<Cli, CliError>) -> Result<CommandView, CliError> {
    match r {
        Ok(c) => Ok(c.command@),
        Err(e) => Err(e),
    }
}

impl Cli {
    /// Parses a command line: `status`, `croft status <name> [-l|--live]`,
    /// `regent start [-c|--config <path>] [-d|--detached]`,
    /// `regent stop [name]` or `regent status [name]`; the first word
    /// names the program.
    pub fn try_parse_from(args: &Vec<String>) -> (r: Result<Cli, CliError>)
        ensures
            cli_result_view(r) == parse_command_line(strings_view(args@)),
    {
        let parsed = parse_group(Group::Top, args, 1);
        proof {
            lemma_group_parse_leaf(Group::Top, strings_view(args@), 1);
        }
        match parsed {
            Ok((k, a)) => {
                let command = match k {
                    Leaf::TopStatus => Command::Status,
                    Leaf::CroftStatus => Command::Croft { command: CroftCommand::from_args(a) },
                    _ => Command::Regent { command: RegentCommand::from_args(k, a) },
                };
                Ok(Cli { command })
            },
            Err(e) => Err(e),
        }
    }

    /// The command line asks for a regent that starts in the background,
    /// which must leave the terminal before anything else runs.
    pub fn starts_detached(&self) -> (b: bool)
        ensures
            b == (self.command@ matches CommandView::Regent(RegentCommandView::Start { detached, .. }) && detached),
    {
        match &self.command {
            Command::Regent { command: RegentCommand::Start { detached, .. } } => *detached,
            _ => false,
        }
    }
}

/// Where the api address of a command comes from, before any regent
/// state is read.
#[derive(Clone, Debug, PartialEq, Eq)]
pub enum UrlPlan {
    /// The address is known.
    Ready(String),
    /// The address is that of the local regent `name`, if its state can be
    /// found; when it cannot, the command fails if `required`, and uses
    /// the default address otherwise.
    Lookup { name: String, required: bool },
}

/// The address of a running regent, as the api url to call.
pub open spec fn url_of_addr(addr: Seq<char>) -> Seq<char> {
    "http://"@ + addr
}

/// An address given by the user, with `http://` in front unless it names
/// its scheme.
pub open spec fn url_with_scheme(t: Seq<char>) -> Seq<char> {
    if "http://"@.is_prefix_of(t) || "https://"@.is_prefix_of(t) {
        t
    } else {
        "http://"@ + t
    }
}

/// The url to dial for a peer address: the address itself when it names
/// its scheme (`http://` or `https://`), else the address behind
/// `http://`.
pub fn endpoint_url(addr: &str) -> (r: String)
    ensures
        r@ == url_with_scheme(addr@),
{
    if starts_with(addr, "http://") || starts_with(addr, "https://") {
        owned(addr)
    } else {
        owned("http://").concat(addr)
    }
}

/// Where the api address comes from, given the regent named on the command
/// line and the `SWINI_ADDR` setting: a `local://<name>` setting names a
/// regent that must be running; any other non-blank setting is the
/// address; else the named regent, if running; else the default.
pub open spec fn url_plan_spec(regent_name: Option<Seq<char>>, env_addr: Option<Seq<char>>) -> (Seq<char>, Option<bool>) {
    let t = match env_addr {
        Some(u) => trim(u),
        None => Seq::empty(),
    };
    if env_addr is Some && "local://"@.is_prefix_of(t) {
        (t.skip("local://"@.len() as int), Some(true))
    } else if env_addr is Some && t.len() > 0 {
        (url_with_scheme(t), None)
    } else {
        match regent_name {
            Some(n) => (n, Some(false)),
            None => (url_of_addr(default_addr_text()), None),
        }
    }
}

/// A plan as plain values: the ready address, or the regent to look up and
/// whether it is required.
pub open spec fn url_plan_view(p: UrlPlan) -> (Seq<char>, Option<bool>) {
    match p {
        UrlPlan::Ready(u) => (u@, None),
        UrlPlan::Lookup { name, required } => (name@, Some(required)),
    }
}

/// Text as plain values, when there is some.
pub open spec fn opt_str_view(o: Option<&str>) -> Option<Seq<char>> {
    match o {
        Some(s) => Some(s@),
        None => None,
    }
}

/// Decides where the api address comes from (see `url_plan_spec`).
pub fn api_url_plan(regent_name: Option<&str>, env_addr: Option<&str>) -> (p: UrlPlan)
    ensures
        url_plan_view(p) == url_plan_spec(opt_str_view(regent_name), opt_str_view(env_addr)),
{
    proof {
        reveal_strlit("local://");
    }
    if let Some(u) = env_addr {
        let t = trim_str(u);
        if starts_with(t.as_str(), "local://") {
            return UrlPlan::Lookup { name: skip_chars(t.as_str(), 8), required: true };
        }
        if !t.as_str().is_empty() {
            return UrlPlan::Ready(endpoint_url(t.as_str()));
        }
    }
    match regent_name {
        Some(n) => UrlPlan::Lookup { name: owned(n), required: false },
        None => UrlPlan::Ready(http_url(default_addr_text_exec().as_str())),
    }
}

/// The default address, as text.
fn default_addr_text_exec() -> (r: String)
    ensures
        r@ == default_addr_text(),
{
    crate::croft::config::default_addr()
}

/// The message for a `local://` regent whose state cannot be found.
pub open spec fn regent_not_found(name: Seq<char>) -> Seq<char> {
    "Local regent '"@ + name + "' is not running or has no state"@
}

/// The api url once the regent `name` was looked up: its address if it was
/// found (`found_addr`); else an error if it was `required`, else the
/// default address.
pub fn api_url_after_lookup(name: &str, required: bool, found_addr: Option<String>) -> (r: Result<String, String>)
    ensures
        match found_addr {
            Some(a) => r matches Ok(u) && u@ == url_of_addr(a@),
            None => if required {
                r matches Err(e) && e@ == regent_not_found(name@)
            } else {
                r matches Ok(u) && u@ == url_of_addr(default_addr_text())
            },
        },
{
    match found_addr {
        Some(a) => Ok(http_url(a.as_str())),
        None => if required {
            Err(owned("Local regent '").concat(name).concat("' is not running or has no state"))
        } else {
            Ok(http_url(default_addr_text_exec().as_str()))
        },
    }
}

} // verus!
