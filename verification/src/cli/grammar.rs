//! The grammar of the command line, shared by every command.
//!
//! Words are read left to right. `--` makes every later word positional;
//! `--name` and `--name=value` are long options; `-abc` is a cluster of
//! short flags, where a flag that takes a value takes the rest of the
//! cluster (after an optional `=`) or else the next word; any other word is
//! positional. A command with subcommands reads one word to pick among
//! them. Help wins over anything not yet read; the first refusal wins over
//! anything after it.

use vstd::prelude::*;
use crate::croft::proto::strings_view;
use crate::text::{chars_of, owned, skip_chars, starts_with};

verus! {

/// Why a command line yields no command: what it asked for instead, or
/// why it was refused.
#[derive(Clone, Copy, Debug, PartialEq, Eq, Structural)]
pub enum CliError {
    /// `-h`, `--help` or `help`: the usage was asked for.
    Help,
    /// `-V` or `--version` where the program takes them: the version was
    /// asked for.
    Version,
    /// A command that needs a subcommand was given none.
    MissingCommand,
    /// A word stands where a subcommand is expected and names none.
    UnknownCommand,
    /// A flag, an option or a word that the command does not take.
    UnexpectedArgument,
    /// An option that takes a value was given none, or an empty one.
    MissingValue,
    /// A flag or an option was given twice.
    Repeated,
    /// The required positional argument is missing.
    MissingName,
}

/// The commands that take arguments of their own, each reached by one
/// path of subcommands.
#[derive(Clone, Copy, Debug, PartialEq, Eq, Structural)]
pub enum Leaf {
    /// `status`
    TopStatus,
    /// `croft status <name> [-l|--live]`
    CroftStatus,
    /// `regent start [-c|--config <path>] [-d|--detached]`
    RegentStart,
    /// `regent stop [name]`
    RegentStop,
    /// `regent status [name]`
    RegentStatus,
    /// `start [-d|--detached]`, of the daemon commands
    DaemonStart,
}

/// The commands that pick among subcommands.
#[derive(Clone, Copy, Debug, PartialEq, Eq, Structural)]
pub enum Group {
    /// The program itself: `status`, `croft`, `regent`.
    Top,
    /// `croft`: `status`.
    Croft,
    /// `regent`: `start`, `stop`, `status`.
    Regent,
    /// The daemon commands: `start`.
    Daemon,
}

/// What reading one word at a group gives.
#[derive(Clone, Copy, Debug, PartialEq, Eq, Structural)]
pub enum Choice {
    /// The word names a subgroup; read on there.
    Enter(Group),
    /// The word names a command; read its arguments.
    Run(Leaf),
    /// The word ends the reading.
    Stop(CliError),
}

/// What a command's own arguments gave: its positional name, the value of
/// its `--config` and its one flag.
pub struct LeafArgs {
    pub name: Option<Seq<char>>,
    pub config: Option<Seq<char>>,
    pub flag: bool,
}

/// What reading a cluster of short flags gives.
pub enum ClusterOutcome {
    /// The cluster is read; read on after it.
    Done(LeafArgs),
    /// The cluster ends with `c`: its value is the next word.
    NeedValue(LeafArgs),
    /// The cluster is refused, or asks for help.
    Fail(CliError),
}

/// The short form of the command's flag.
pub open spec fn leaf_flag_char(k: Leaf) -> Option<char> {
    match k {
        Leaf::CroftStatus => Some('l'),
        Leaf::RegentStart => Some('d'),
        Leaf::DaemonStart => Some('d'),
        _ => None,
    }
}

/// The long form of the command's flag.
pub open spec fn leaf_flag_long(k: Leaf) -> Option<Seq<char>> {
    match k {
        Leaf::CroftStatus => Some("--live"@),
        Leaf::RegentStart => Some("--detached"@),
        Leaf::DaemonStart => Some("--detached"@),
        _ => None,
    }
}

/// The command takes `-c` / `--config` with a value.
pub open spec fn leaf_has_config(k: Leaf) -> bool {
    k == Leaf::RegentStart
}

/// The command takes one positional name.
pub open spec fn leaf_has_name(k: Leaf) -> bool {
    k == Leaf::CroftStatus || k == Leaf::RegentStop || k == Leaf::RegentStatus
}

/// The command cannot do without its positional name.
pub open spec fn leaf_needs_name(k: Leaf) -> bool {
    k == Leaf::CroftStatus
}

/// `-x...`: a cluster of short flags.
pub open spec fn is_short_word(t: Seq<char>) -> bool {
    t.len() >= 2 && t[0] == '-' && t[1] != '-'
}

/// `--x...`: a long option (or `--` itself).
pub open spec fn is_long_word(t: Seq<char>) -> bool {
    t.len() >= 2 && t[0] == '-' && t[1] == '-'
}

/// A word that can be an option's value: not empty, and not shaped like a
/// flag (`-` alone is a value).
pub open spec fn is_value_word(t: Seq<char>) -> bool {
    t.len() > 0 && (t[0] != '-' || t.len() == 1)
}

/// No argument given yet.
pub open spec fn no_args() -> LeafArgs {
    LeafArgs { name: None, config: None, flag: false }
}

/// `a` with its flag set.
pub open spec fn with_flag(a: LeafArgs) -> LeafArgs {
    LeafArgs { name: a.name, config: a.config, flag: true }
}

/// `a` with `v` as its `--config` value.
pub open spec fn with_config(a: LeafArgs, v: Seq<char>) -> LeafArgs {
    LeafArgs { name: a.name, config: Some(v), flag: a.flag }
}

/// `a` with `v` as its name.
pub open spec fn with_name(a: LeafArgs, v: Seq<char>) -> LeafArgs {
    LeafArgs { name: Some(v), config: a.config, flag: a.flag }
}

/// A positional word: the command's name if it takes one and has none yet.
pub open spec fn take_positional(k: Leaf, a: LeafArgs, t: Seq<char>) -> Result<LeafArgs, CliError> {
    if leaf_has_name(k) && a.name is None {
        Ok(with_name(a, t))
    } else {
        Err(CliError::UnexpectedArgument)
    }
}

/// The words from `i` on, after `--`: all positional.
pub open spec fn escaped_args(k: Leaf, ts: Seq<Seq<char>>, i: int, a: LeafArgs) -> Result<LeafArgs, CliError>
    decreases ts.len() - i,
{
    if i >= ts.len() {
        Ok(a)
    } else {
        match take_positional(k, a, ts[i]) {
            Ok(b) => escaped_args(k, ts, i + 1, b),
            Err(e) => Err(e),
        }
    }
}

/// The short flags of the cluster `t` from its `j`-th character on.
pub open spec fn cluster_args(k: Leaf, t: Seq<char>, j: int, a: LeafArgs) -> ClusterOutcome
    decreases t.len() - j,
{
    if j >= t.len() {
        ClusterOutcome::Done(a)
    } else if t[j] == 'h' {
        ClusterOutcome::Fail(CliError::Help)
    } else if leaf_flag_char(k) == Some(t[j]) {
        if a.flag {
            ClusterOutcome::Fail(CliError::Repeated)
        } else {
            cluster_args(k, t, j + 1, with_flag(a))
        }
    } else if leaf_has_config(k) && t[j] == 'c' {
        if a.config is Some {
            ClusterOutcome::Fail(CliError::Repeated)
        } else if j + 1 >= t.len() {
            ClusterOutcome::NeedValue(a)
        } else {
            let v = if t[j + 1] == '=' { t.skip(j + 2) } else { t.skip(j + 1) };
            if v.len() == 0 {
                ClusterOutcome::Fail(CliError::MissingValue)
            } else {
                ClusterOutcome::Done(with_config(a, v))
            }
        }
    } else {
        ClusterOutcome::Fail(CliError::UnexpectedArgument)
    }
}

/// The command's arguments, read from the `i`-th word on.
pub open spec fn leaf_args_from(k: Leaf, ts: Seq<Seq<char>>, i: int, a: LeafArgs) -> Result<LeafArgs, CliError>
    decreases ts.len() - i,
{
    if i >= ts.len() {
        Ok(a)
    } else {
        let t = ts[i];
        if t == "--"@ {
            escaped_args(k, ts, i + 1, a)
        } else if t == "--help"@ {
            Err(CliError::Help)
        } else if leaf_flag_long(k) == Some(t) {
            if a.flag {
                Err(CliError::Repeated)
            } else {
                leaf_args_from(k, ts, i + 1, with_flag(a))
            }
        } else if leaf_has_config(k) && t == "--config"@ {
            if a.config is Some {
                Err(CliError::Repeated)
            } else if i + 1 < ts.len() && is_value_word(ts[i + 1]) {
                leaf_args_from(k, ts, i + 2, with_config(a, ts[i + 1]))
            } else {
                Err(CliError::MissingValue)
            }
        } else if leaf_has_config(k) && "--config="@.is_prefix_of(t) {
            if a.config is Some {
                Err(CliError::Repeated)
            } else if t.len() == "--config="@.len() {
                Err(CliError::MissingValue)
            } else {
                leaf_args_from(k, ts, i + 1, with_config(a, t.skip("--config="@.len() as int)))
            }
        } else if is_long_word(t) {
            Err(CliError::UnexpectedArgument)
        } else if is_short_word(t) {
            match cluster_args(k, t, 1, a) {
                ClusterOutcome::Fail(e) => Err(e),
                ClusterOutcome::Done(b) => leaf_args_from(k, ts, i + 1, b),
                ClusterOutcome::NeedValue(b) => if i + 1 < ts.len() && is_value_word(ts[i + 1]) {
                    leaf_args_from(k, ts, i + 2, with_config(b, ts[i + 1]))
                } else {
                    Err(CliError::MissingValue)
                },
            }
        } else {
            match take_positional(k, a, t) {
                Ok(b) => leaf_args_from(k, ts, i + 1, b),
                Err(e) => Err(e),
            }
        }
    }
}

/// The command's arguments, its words starting at the `i`-th: refused
/// without the name it needs.
pub open spec fn leaf_parse(k: Leaf, ts: Seq<Seq<char>>, i: int) -> Result<LeafArgs, CliError> {
    match leaf_args_from(k, ts, i, no_args()) {
        Ok(a) => if leaf_needs_name(k) && a.name is None {
            Err(CliError::MissingName)
        } else {
            Ok(a)
        },
        Err(e) => Err(e),
    }
}

/// A word at a group that names none of its subcommands; `more` tells
/// whether words follow it.
pub open spec fn other_word(g: Group, t: Seq<char>, more: bool) -> CliError {
    if t == "help"@ || t == "--help"@ {
        CliError::Help
    } else if g == Group::Top && t == "--version"@ {
        CliError::Version
    } else if t == "--"@ {
        if more { CliError::UnexpectedArgument } else { CliError::MissingCommand }
    } else if is_long_word(t) {
        CliError::UnexpectedArgument
    } else if is_short_word(t) {
        if t[1] == 'h' {
            CliError::Help
        } else if g == Group::Top && t[1] == 'V' {
            CliError::Version
        } else {
            CliError::UnexpectedArgument
        }
    } else {
        CliError::UnknownCommand
    }
}

/// What the word `t` does at the group `g`.
pub open spec fn choose_subcommand(g: Group, t: Seq<char>, more: bool) -> Choice {
    match g {
        Group::Top => if t == "status"@ {
            Choice::Run(Leaf::TopStatus)
        } else if t == "croft"@ {
            Choice::Enter(Group::Croft)
        } else if t == "regent"@ {
            Choice::Enter(Group::Regent)
        } else {
            Choice::Stop(other_word(g, t, more))
        },
        Group::Croft => if t == "status"@ {
            Choice::Run(Leaf::CroftStatus)
        } else {
            Choice::Stop(other_word(g, t, more))
        },
        Group::Regent => if t == "start"@ {
            Choice::Run(Leaf::RegentStart)
        } else if t == "stop"@ {
            Choice::Run(Leaf::RegentStop)
        } else if t == "status"@ {
            Choice::Run(Leaf::RegentStatus)
        } else {
            Choice::Stop(other_word(g, t, more))
        },
        Group::Daemon => if t == "start"@ {
            Choice::Run(Leaf::DaemonStart)
        } else {
            Choice::Stop(other_word(g, t, more))
        },
    }
}

/// The command that the words from the `i`-th on select at the group `g`,
/// with its arguments.
pub open spec fn group_parse(g: Group, ts: Seq<Seq<char>>, i: int) -> Result<(Leaf, LeafArgs), CliError>
    decreases ts.len() - i,
{
    if i >= ts.len() {
        Err(CliError::MissingCommand)
    } else {
        match choose_subcommand(g, ts[i], i + 1 < ts.len()) {
            Choice::Enter(h) => group_parse(h, ts, i + 1),
            Choice::Run(k) => match leaf_parse(k, ts, i + 1) {
                Ok(a) => Ok((k, a)),
                Err(e) => Err(e),
            },
            Choice::Stop(e) => Err(e),
        }
    }
}

/// The commands that a group reaches.
pub open spec fn leaf_in_group(g: Group, k: Leaf) -> bool {
    match g {
        Group::Top => k == Leaf::TopStatus || k == Leaf::CroftStatus || k == Leaf::RegentStart
            || k == Leaf::RegentStop || k == Leaf::RegentStatus,
        Group::Croft => k == Leaf::CroftStatus,
        Group::Regent => k == Leaf::RegentStart || k == Leaf::RegentStop || k == Leaf::RegentStatus,
        Group::Daemon => k == Leaf::DaemonStart,
    }
}

/// A group only ever selects the commands it reaches; the name that a
/// command needs is there.
pub proof fn lemma_group_parse_leaf(g: Group, ts: Seq<Seq<char>>, i: int)
    ensures
        group_parse(g, ts, i) is Ok ==> leaf_in_group(g, group_parse(g, ts, i)->Ok_0.0),
        group_parse(g, ts, i) is Ok && leaf_needs_name(group_parse(g, ts, i)->Ok_0.0)
            ==> group_parse(g, ts, i)->Ok_0.1.name is Some,
    decreases ts.len() - i,
{
    if i < ts.len() {
        match choose_subcommand(g, ts[i], i + 1 < ts.len()) {
            Choice::Enter(h) => {
                lemma_group_parse_leaf(h, ts, i + 1);
            },
            _ => {},
        }
    }
}

/// A value of the command line as plain text.
pub open spec fn opt_text(o: Option<String>) -> Option<Seq<char>> {
    match o {
        Some(s) => Some(s@),
        None => None,
    }
}

/// The arguments of a command, as read.
pub struct ParsedArgs {
    pub name: Option<String>,
    pub config: Option<String>,
    pub flag: bool,
}

impl View for ParsedArgs {
    type V = LeafArgs;

    open spec fn view(&self) -> LeafArgs {
        LeafArgs { name: opt_text(self.name), config: opt_text(self.config), flag: self.flag }
    }
}

/// A parse outcome of a command's arguments, as plain values.
pub open spec fn args_result_view(r: Result<ParsedArgs, CliError>) -> Result<LeafArgs, CliError> {
    match r {
        Ok(a) => Ok(a@),
        Err(e) => Err(e),
    }
}

/// A parse outcome of a command line, as plain values.
pub open spec fn selection_view(r: Result<(Leaf, ParsedArgs), CliError>) -> Result<(Leaf, LeafArgs), CliError> {
    match r {
        Ok((k, a)) => Ok((k, a@)),
        Err(e) => Err(e),
    }
}

enum ClusterRead {
    Done(ParsedArgs),
    NeedValue(ParsedArgs),
    Fail(CliError),
}

spec fn cluster_read_view(r: ClusterRead) -> ClusterOutcome {
    match r {
        ClusterRead::Done(a) => ClusterOutcome::Done(a@),
        ClusterRead::NeedValue(a) => ClusterOutcome::NeedValue(a@),
        ClusterRead::Fail(e) => ClusterOutcome::Fail(e),
    }
}

fn flag_char(k: Leaf) -> (r: Option<char>)
    ensures
        r == leaf_flag_char(k),
{
    match k {
        Leaf::CroftStatus => Some('l'),
        Leaf::RegentStart => Some('d'),
        Leaf::DaemonStart => Some('d'),
        _ => None,
    }
}

fn is_flag_long(k: Leaf, t: &String) -> (b: bool)
    ensures
        b == (leaf_flag_long(k) == Some(t@)),
{
    match k {
        Leaf::CroftStatus => *t == owned("--live"),
        Leaf::RegentStart => *t == owned("--detached"),
        Leaf::DaemonStart => *t == owned("--detached"),
        _ => false,
    }
}

fn is_value(t: &String) -> (b: bool)
    ensures
        b == is_value_word(t@),
{
    let cs = chars_of(t.as_str());
    cs.len() > 0 && (cs[0] != '-' || cs.len() == 1)
}

#[verifier::loop_isolation(false)]
fn read_cluster(k: Leaf, t: &String, a: ParsedArgs) -> (r: ClusterRead)
    requires
        t@.len() >= 1,
    ensures
        cluster_read_view(r) == cluster_args(k, t@, 1, a@),
{
    let cs = chars_of(t.as_str());
    let ghost a0 = a@;
    let mut a = a;
    let mut j: usize = 1;
    while j < cs.len()
        invariant
            1 <= j <= cs.len(),
            cs@ == t@,
            cluster_args(k, t@, 1, a0) == cluster_args(k, t@, j as int, a@),
        decreases cs.len() - j,
    {
        let c = cs[j];
        let is_flag = match flag_char(k) {
            Some(f) => f == c,
            None => false,
        };
        if c == 'h' {
            return ClusterRead::Fail(CliError::Help);
        } else if is_flag {
            if a.flag {
                return ClusterRead::Fail(CliError::Repeated);
            }
            a.flag = true;
        } else if k == Leaf::RegentStart && c == 'c' {
            if a.config.is_some() {
                return ClusterRead::Fail(CliError::Repeated);
            }
            if j + 1 >= cs.len() {
                return ClusterRead::NeedValue(a);
            }
            let from: usize = if cs[j + 1] == '=' { j + 2 } else { j + 1 };
            if from >= cs.len() {
                return ClusterRead::Fail(CliError::MissingValue);
            }
            a.config = Some(skip_chars(t.as_str(), from));
            return ClusterRead::Done(a);
        } else {
            return ClusterRead::Fail(CliError::UnexpectedArgument);
        }
        j = j + 1;
    }
    ClusterRead::Done(a)
}

#[verifier::loop_isolation(false)]
fn read_escaped(k: Leaf, args: &Vec<String>, start: usize, a: ParsedArgs) -> (r: Result<ParsedArgs, CliError>)
    requires
        start <= args.len(),
    ensures
        args_result_view(r) == escaped_args(k, strings_view(args@), start as int, a@),
{
    let ghost ts = strings_view(args@);
    let ghost a0 = a@;
    let mut a = a;
    let mut i = start;
    while i < args.len()
        invariant
            start <= i <= args.len(),
            ts == strings_view(args@),
            escaped_args(k, ts, start as int, a0) == escaped_args(k, ts, i as int, a@),
        decreases args.len() - i,
    {
        let takes_name = k == Leaf::CroftStatus || k == Leaf::RegentStop || k == Leaf::RegentStatus;
        if takes_name && a.name.is_none() {
            a.name = Some(args[i].clone());
        } else {
            return Err(CliError::UnexpectedArgument);
        }
        i = i + 1;
    }
    Ok(a)
}

fn read_leaf_args(k: Leaf, args: &Vec<String>, start: usize) -> (r: Result<ParsedArgs, CliError>)
    requires
        start <= args.len(),
    ensures
        args_result_view(r) == leaf_args_from(k, strings_view(args@), start as int, no_args()),
{
    let ghost ts = strings_view(args@);
    let mut a = ParsedArgs { name: None, config: None, flag: false };
    let mut i = start;
    proof {
        reveal_strlit("--config=");
    }
    while i < args.len()
        invariant
            start <= i <= args.len(),
            ts == strings_view(args@),
            "--config="@.len() == 9,
            leaf_args_from(k, ts, start as int, no_args()) == leaf_args_from(k, ts, i as int, a@),
        decreases args.len() - i,
    {
        let t = &args[i];
        assert(ts[i as int] == t@);
        let has_config = k == Leaf::RegentStart;
        if *t == owned("--") {
            return read_escaped(k, args, i + 1, a);
        } else if *t == owned("--help") {
            return Err(CliError::Help);
        } else if is_flag_long(k, t) {
            if a.flag {
                return Err(CliError::Repeated);
            }
            a.flag = true;
            i = i + 1;
        } else if has_config && *t == owned("--config") {
            if a.config.is_some() {
                return Err(CliError::Repeated);
            }
            if i + 1 < args.len() && is_value(&args[i + 1]) {
                assert(ts[i + 1] == args@[i + 1]@);
                a.config = Some(args[i + 1].clone());
                i = i + 2;
            } else {
                return Err(CliError::MissingValue);
            }
        } else if has_config && starts_with(t.as_str(), "--config=") {
            if a.config.is_some() {
                return Err(CliError::Repeated);
            }
            let cs = chars_of(t.as_str());
            if cs.len() == 9 {
                return Err(CliError::MissingValue);
            }
            a.config = Some(skip_chars(t.as_str(), 9));
            i = i + 1;
        } else {
            let cs = chars_of(t.as_str());
            if cs.len() >= 2 && cs[0] == '-' && cs[1] == '-' {
                return Err(CliError::UnexpectedArgument);
            } else if cs.len() >= 2 && cs[0] == '-' {
                match read_cluster(k, t, a) {
                    ClusterRead::Fail(e) => {
                        return Err(e);
                    },
                    ClusterRead::Done(b) => {
                        a = b;
                        i = i + 1;
                    },
                    ClusterRead::NeedValue(b) => {
                        if i + 1 < args.len() && is_value(&args[i + 1]) {
                            assert(ts[i + 1] == args@[i + 1]@);
                            a = b;
                            a.config = Some(args[i + 1].clone());
                            i = i + 2;
                        } else {
                            return Err(CliError::MissingValue);
                        }
                    },
                }
            } else {
                let takes_name = k == Leaf::CroftStatus || k == Leaf::RegentStop || k == Leaf::RegentStatus;
                if takes_name && a.name.is_none() {
                    a.name = Some(args[i].clone());
                    i = i + 1;
                } else {
                    return Err(CliError::UnexpectedArgument);
                }
            }
        }
    }
    Ok(a)
}

/// Reads the arguments of the command `k` from the `start`-th word on.
pub fn parse_leaf(k: Leaf, args: &Vec<String>, start: usize) -> (r: Result<ParsedArgs, CliError>)
    requires
        start <= args.len(),
    ensures
        args_result_view(r) == leaf_parse(k, strings_view(args@), start as int),
{
    match read_leaf_args(k, args, start) {
        Ok(a) => {
            if k == Leaf::CroftStatus && a.name.is_none() {
                Err(CliError::MissingName)
            } else {
                Ok(a)
            }
        },
        Err(e) => Err(e),
    }
}

fn word_at_group(g: Group, t: &String, more: bool) -> (c: Choice)
    ensures
        c == choose_subcommand(g, t@, more),
{
    let sub = match g {
        Group::Top => if *t == owned("status") {
            Some(Choice::Run(Leaf::TopStatus))
        } else if *t == owned("croft") {
            Some(Choice::Enter(Group::Croft))
        } else if *t == owned("regent") {
            Some(Choice::Enter(Group::Regent))
        } else {
            None
        },
        Group::Croft => if *t == owned("status") {
            Some(Choice::Run(Leaf::CroftStatus))
        } else {
            None
        },
        Group::Regent => if *t == owned("start") {
            Some(Choice::Run(Leaf::RegentStart))
        } else if *t == owned("stop") {
            Some(Choice::Run(Leaf::RegentStop))
        } else if *t == owned("status") {
            Some(Choice::Run(Leaf::RegentStatus))
        } else {
            None
        },
        Group::Daemon => if *t == owned("start") {
            Some(Choice::Run(Leaf::DaemonStart))
        } else {
            None
        },
    };
    match sub {
        Some(c) => c,
        None => {
            let top = match g {
                Group::Top => true,
                _ => false,
            };
            let cs = chars_of(t.as_str());
            let e = if *t == owned("help") || *t == owned("--help") {
                CliError::Help
            } else if top && *t == owned("--version") {
                CliError::Version
            } else if *t == owned("--") {
                if more { CliError::UnexpectedArgument } else { CliError::MissingCommand }
            } else if cs.len() >= 2 && cs[0] == '-' && cs[1] == '-' {
                CliError::UnexpectedArgument
            } else if cs.len() >= 2 && cs[0] == '-' {
                if cs[1] == 'h' {
                    CliError::Help
                } else if top && cs[1] == 'V' {
                    CliError::Version
                } else {
                    CliError::UnexpectedArgument
                }
            } else {
                CliError::UnknownCommand
            };
            Choice::Stop(e)
        },
    }
}

/// Reads, at the group `g`, the command that the words from the `i`-th on
/// select, and its arguments.
pub fn parse_group(g: Group, args: &Vec<String>, i: usize) -> (r: Result<(Leaf, ParsedArgs), CliError>)
    ensures
        selection_view(r) == group_parse(g, strings_view(args@), i as int),
    decreases args.len() - i,
{
    let ghost ts = strings_view(args@);
    if i >= args.len() {
        return Err(CliError::MissingCommand);
    }
    assert(ts[i as int] == args@[i as int]@);
    match word_at_group(g, &args[i], i + 1 < args.len()) {
        Choice::Enter(h) => parse_group(h, args, i + 1),
        Choice::Run(k) => match parse_leaf(k, args, i + 1) {
            Ok(a) => Ok((k, a)),
            Err(e) => Err(e),
        },
        Choice::Stop(e) => Err(e),
    }
}

} // verus!
