//! Properties of the command line that hold for every word: a plain word
//! after a command that takes a name is that name, and every flag's short
//! form reads as its long form.

use vstd::prelude::*;
use crate::cli::{parse_command_line, CommandView};
use crate::cli::croft::{parse_croft_command, CommandView as CroftCommandView};
use crate::cli::daemon::{parse_daemon_command, Command as DaemonCommand};
use crate::cli::grammar::{
    cluster_args, escaped_args, group_parse, leaf_args_from, leaf_flag_char, leaf_flag_long, leaf_has_config,
    leaf_has_name, leaf_parse, no_args, take_positional, with_config, with_flag, with_name, CliError, ClusterOutcome, Group, Leaf,
    LeafArgs,
};
use crate::cli::regent::{parse_regent_command, CommandView as RegentCommandView};

verus! {

/// A plain word: not empty, and not shaped like an option.
pub open spec fn plain_word(w: Seq<char>) -> bool {
    w.len() > 0 && w[0] != '-'
}

proof fn lemma_reveal_words()
    ensures
        "--"@ == seq!['-', '-'],
        "--help"@ == seq!['-', '-', 'h', 'e', 'l', 'p'],
        "--live"@ == seq!['-', '-', 'l', 'i', 'v', 'e'],
        "--detached"@ == seq!['-', '-', 'd', 'e', 't', 'a', 'c', 'h', 'e', 'd'],
        "--config"@ == seq!['-', '-', 'c', 'o', 'n', 'f', 'i', 'g'],
        "--config="@ == seq!['-', '-', 'c', 'o', 'n', 'f', 'i', 'g', '='],
        "status"@ == seq!['s', 't', 'a', 't', 'u', 's'],
        "start"@ == seq!['s', 't', 'a', 'r', 't'],
        "stop"@ == seq!['s', 't', 'o', 'p'],
        "croft"@ == seq!['c', 'r', 'o', 'f', 't'],
        "regent"@ == seq!['r', 'e', 'g', 'e', 'n', 't'],
        "help"@ == seq!['h', 'e', 'l', 'p'],
        "-d"@ == seq!['-', 'd'],
        "-l"@ == seq!['-', 'l'],
{
    reveal_strlit("--");
    reveal_strlit("--help");
    reveal_strlit("--live");
    reveal_strlit("--detached");
    reveal_strlit("--config");
    reveal_strlit("--config=");
    reveal_strlit("status");
    reveal_strlit("start");
    reveal_strlit("stop");
    reveal_strlit("croft");
    reveal_strlit("regent");
    reveal_strlit("help");
    reveal_strlit("-d");
    reveal_strlit("-l");
}

/// A plain word as the last word of a command that takes a name is its
/// name.
proof fn lemma_last_plain_word(k: Leaf, ts: Seq<Seq<char>>, i: int)
    requires
        0 <= i,
        i + 1 == ts.len(),
        plain_word(ts[i]),
        leaf_has_name(k),
    ensures
        leaf_args_from(k, ts, i, no_args()) == Ok::<LeafArgs, CliError>(with_name(no_args(), ts[i])),
{
    lemma_reveal_words();
    let t = ts[i];
    assert(t != "--"@) by {
        if t == "--"@ {
            assert(t[0] == '-');
        }
    }
    assert(t != "--help"@) by {
        if t == "--help"@ {
            assert(t[0] == '-');
        }
    }
    assert(leaf_flag_long(k) != Some(t)) by {
        if leaf_flag_long(k) == Some(t) {
            assert(t[0] == '-');
        }
    }
    assert(!leaf_has_config(k));
    assert(take_positional(k, no_args(), t) == Ok::<LeafArgs, CliError>(with_name(no_args(), t)));
    assert(leaf_args_from(k, ts, i + 1, with_name(no_args(), t)) == Ok::<LeafArgs, CliError>(with_name(no_args(), t)));
}

/// After `regent status`, `regent stop` and `croft status`, a plain word
/// is the name of the regent or croft asked about, for every such word:
/// the command line parses to that command with exactly that name and
/// nothing else set.
pub proof fn law_plain_word_is_the_name(p: Seq<char>, w: Seq<char>)
    requires
        plain_word(w),
    ensures
        parse_regent_command(seq![p, "status"@, w]) == Ok::<RegentCommandView, CliError>(
            RegentCommandView::Status { name: Some(w) },
        ),
        parse_regent_command(seq![p, "stop"@, w]) == Ok::<RegentCommandView, CliError>(
            RegentCommandView::Stop { name: Some(w) },
        ),
        parse_croft_command(seq![p, "status"@, w]) == Ok::<CroftCommandView, CliError>(
            CroftCommandView::Status { name: w, live: false },
        ),
        parse_command_line(seq![p, "regent"@, "status"@, w]) == Ok::<CommandView, CliError>(
            CommandView::Regent(RegentCommandView::Status { name: Some(w) }),
        ),
        parse_command_line(seq![p, "regent"@, "stop"@, w]) == Ok::<CommandView, CliError>(
            CommandView::Regent(RegentCommandView::Stop { name: Some(w) }),
        ),
        parse_command_line(seq![p, "croft"@, "status"@, w]) == Ok::<CommandView, CliError>(
            CommandView::Croft(CroftCommandView::Status { name: w, live: false }),
        ),
{
    lemma_reveal_words();
    let named = with_name(no_args(), w);
    let a = seq![p, "status"@, w];
    let b = seq![p, "stop"@, w];
    lemma_last_plain_word(Leaf::RegentStatus, a, 2);
    lemma_last_plain_word(Leaf::RegentStop, b, 2);
    lemma_last_plain_word(Leaf::CroftStatus, a, 2);
    assert(leaf_parse(Leaf::RegentStatus, a, 2) == Ok::<LeafArgs, CliError>(named));
    assert(leaf_parse(Leaf::RegentStop, b, 2) == Ok::<LeafArgs, CliError>(named));
    assert(leaf_parse(Leaf::CroftStatus, a, 2) == Ok::<LeafArgs, CliError>(named));
    assert(group_parse(Group::Regent, a, 1) == Ok::<(Leaf, LeafArgs), CliError>((Leaf::RegentStatus, named)));
    assert(group_parse(Group::Regent, b, 1) == Ok::<(Leaf, LeafArgs), CliError>((Leaf::RegentStop, named)));
    assert(group_parse(Group::Croft, a, 1) == Ok::<(Leaf, LeafArgs), CliError>((Leaf::CroftStatus, named)));

    let ra = seq![p, "regent"@, "status"@, w];
    let rb = seq![p, "regent"@, "stop"@, w];
    let ca = seq![p, "croft"@, "status"@, w];
    lemma_last_plain_word(Leaf::RegentStatus, ra, 3);
    lemma_last_plain_word(Leaf::RegentStop, rb, 3);
    lemma_last_plain_word(Leaf::CroftStatus, ca, 3);
    assert(group_parse(Group::Regent, ra, 2) == Ok::<(Leaf, LeafArgs), CliError>((Leaf::RegentStatus, named)));
    assert(group_parse(Group::Regent, rb, 2) == Ok::<(Leaf, LeafArgs), CliError>((Leaf::RegentStop, named)));
    assert(group_parse(Group::Croft, ca, 2) == Ok::<(Leaf, LeafArgs), CliError>((Leaf::CroftStatus, named)));
    assert(group_parse(Group::Top, ra, 1) == group_parse(Group::Regent, ra, 2));
    assert(group_parse(Group::Top, rb, 1) == group_parse(Group::Regent, rb, 2));
    assert(group_parse(Group::Top, ca, 1) == group_parse(Group::Croft, ca, 2));
}

proof fn lemma_escaped_same_suffix(k: Leaf, ts: Seq<Seq<char>>, us: Seq<Seq<char>>, j: int)
    requires
        ts.len() == us.len(),
        0 <= j,
        forall|m: int| j <= m < ts.len() ==> ts[m] == us[m],
    ensures
        forall|a: LeafArgs| #[trigger] escaped_args(k, ts, j, a) == escaped_args(k, us, j, a),
    decreases ts.len() - j,
{
    if j < ts.len() {
        lemma_escaped_same_suffix(k, ts, us, j + 1);
        assert forall|a: LeafArgs| #[trigger] escaped_args(k, ts, j, a) == escaped_args(k, us, j, a) by {
            assert(ts[j] == us[j]);
            match take_positional(k, a, ts[j]) {
                Ok(b) => {
                    assert(escaped_args(k, ts, j + 1, b) == escaped_args(k, us, j + 1, b));
                },
                Err(_) => {},
            }
        }
    }
}

proof fn lemma_args_same_suffix(k: Leaf, ts: Seq<Seq<char>>, us: Seq<Seq<char>>, j: int)
    requires
        ts.len() == us.len(),
        0 <= j,
        forall|m: int| j <= m < ts.len() ==> ts[m] == us[m],
    ensures
        forall|a: LeafArgs| #[trigger] leaf_args_from(k, ts, j, a) == leaf_args_from(k, us, j, a),
    decreases ts.len() - j,
{
    lemma_reveal_words();
    if j < ts.len() {
        lemma_args_same_suffix(k, ts, us, j + 1);
        lemma_escaped_same_suffix(k, ts, us, j + 1);
        if j + 2 <= ts.len() {
            lemma_args_same_suffix(k, ts, us, j + 2);
        }
        assert forall|a: LeafArgs| #[trigger] leaf_args_from(k, ts, j, a) == leaf_args_from(k, us, j, a) by {
            let t = ts[j];
            assert(t == us[j]);
            if j + 1 < ts.len() {
                assert(ts[j + 1] == us[j + 1]);
            }
            assert(escaped_args(k, ts, j + 1, a) == escaped_args(k, us, j + 1, a));
            assert(leaf_args_from(k, ts, j + 1, with_flag(a)) == leaf_args_from(k, us, j + 1, with_flag(a)));
            if j + 1 < ts.len() {
                assert(leaf_args_from(k, ts, j + 2, with_config(a, ts[j + 1])) == leaf_args_from(
                    k,
                    us,
                    j + 2,
                    with_config(a, ts[j + 1]),
                ));
            }
            assert(leaf_args_from(k, ts, j + 1, with_config(a, t.skip(9))) == leaf_args_from(
                k,
                us,
                j + 1,
                with_config(a, t.skip(9)),
            ));
            match cluster_args(k, t, 1, a) {
                ClusterOutcome::Done(b) => {
                    assert(leaf_args_from(k, ts, j + 1, b) == leaf_args_from(k, us, j + 1, b));
                },
                ClusterOutcome::NeedValue(b) => {
                    if j + 1 < ts.len() {
                        assert(leaf_args_from(k, ts, j + 2, with_config(b, ts[j + 1])) == leaf_args_from(
                            k,
                            us,
                            j + 2,
                            with_config(b, ts[j + 1]),
                        ));
                    }
                },
                _ => {},
            }
            match take_positional(k, a, t) {
                Ok(b) => {
                    assert(leaf_args_from(k, ts, j + 1, b) == leaf_args_from(k, us, j + 1, b));
                },
                Err(_) => {},
            }
        }
    }
}

/// The short form of a flag: `-` and the first letter of its long name.
pub open spec fn short_form(long: Seq<char>) -> Seq<char> {
    seq!['-', long[2]]
}

/// Every command's flag reads the same in its short form as in its long
/// one (`-d` as `--detached`, `-l` as `--live`), wherever it stands among
/// the command's words and whatever was read before it.
pub proof fn law_short_flag_reads_as_long(k: Leaf, ts: Seq<Seq<char>>, i: int, a: LeafArgs)
    requires
        0 <= i < ts.len(),
        leaf_flag_long(k) is Some,
        ts[i] == short_form(leaf_flag_long(k)->0),
    ensures
        leaf_args_from(k, ts, i, a) == leaf_args_from(k, ts.update(i, leaf_flag_long(k)->0), i, a),
{
    lemma_reveal_words();
    let long = leaf_flag_long(k)->0;
    let us = ts.update(i, long);
    let t = ts[i];
    lemma_args_same_suffix(k, ts, us, i + 1);
    assert(long.len() >= 6 && long[0] == '-' && long[1] == '-');
    assert(t.len() == 2 && t[0] == '-' && t[1] == long[2]);
    assert(long[2] != '-' && long[2] != 'h');
    assert(t != "--"@);
    assert(t != "--help"@);
    assert(leaf_flag_long(k) != Some(t));
    assert(t != "--config"@);
    assert(!"--config="@.is_prefix_of(t));
    assert(leaf_flag_char(k) == Some(t[1]));
    assert(cluster_args(k, t, 2, with_flag(a)) == ClusterOutcome::Done(with_flag(a)));
    assert(us[i] == long);
    assert(long != "--"@);
    assert(long != "--help"@);
    assert(!crate::cli::grammar::is_long_word(t));
    assert(crate::cli::grammar::is_short_word(t));
    if a.flag {
        assert(cluster_args(k, t, 1, a) == ClusterOutcome::Fail(CliError::Repeated));
        assert(leaf_args_from(k, ts, i, a) == Err::<LeafArgs, CliError>(CliError::Repeated));
        assert(leaf_args_from(k, us, i, a) == Err::<LeafArgs, CliError>(CliError::Repeated));
    } else {
        assert(cluster_args(k, t, 1, a) == ClusterOutcome::Done(with_flag(a)));
        assert(leaf_args_from(k, ts, i, a) == leaf_args_from(k, ts, i + 1, with_flag(a)));
        assert(leaf_args_from(k, us, i, a) == leaf_args_from(k, us, i + 1, with_flag(a)));
        assert(leaf_args_from(k, ts, i + 1, with_flag(a)) == leaf_args_from(k, us, i + 1, with_flag(a)));
    }
}

/// `start -d` is `start --detached`, for the daemon and for the regent: a
/// detached start, with no configuration file.
pub proof fn law_detached_short_form(p: Seq<char>)
    ensures
        parse_daemon_command(seq![p, "start"@, "-d"@]) == parse_daemon_command(seq![p, "start"@, "--detached"@]),
        parse_daemon_command(seq![p, "start"@, "-d"@]) == Ok::<DaemonCommand, CliError>(
            DaemonCommand::Start { detached: true },
        ),
        parse_regent_command(seq![p, "start"@, "-d"@]) == parse_regent_command(seq![p, "start"@, "--detached"@]),
        parse_regent_command(seq![p, "start"@, "-d"@]) == Ok::<RegentCommandView, CliError>(
            RegentCommandView::Start { config: None, detached: true },
        ),
{
    lemma_reveal_words();
    let s = seq![p, "start"@, "-d"@];
    let l = seq![p, "start"@, "--detached"@];
    assert(s.update(2, "--detached"@) =~= l);
    law_short_flag_reads_as_long(Leaf::DaemonStart, s, 2, no_args());
    law_short_flag_reads_as_long(Leaf::RegentStart, s, 2, no_args());
    assert(leaf_args_from(Leaf::DaemonStart, l, 3, with_flag(no_args())) == Ok::<LeafArgs, CliError>(with_flag(no_args())));
    assert(leaf_args_from(Leaf::RegentStart, l, 3, with_flag(no_args())) == Ok::<LeafArgs, CliError>(with_flag(no_args())));
    assert(leaf_args_from(Leaf::DaemonStart, l, 2, no_args()) == Ok::<LeafArgs, CliError>(with_flag(no_args())));
    assert(leaf_args_from(Leaf::RegentStart, l, 2, no_args()) == Ok::<LeafArgs, CliError>(with_flag(no_args())));
    assert(group_parse(Group::Daemon, l, 1) == Ok::<(Leaf, LeafArgs), CliError>((Leaf::DaemonStart, with_flag(no_args()))));
    assert(group_parse(Group::Regent, l, 1) == Ok::<(Leaf, LeafArgs), CliError>((Leaf::RegentStart, with_flag(no_args()))));
    assert(group_parse(Group::Daemon, s, 1) == Ok::<(Leaf, LeafArgs), CliError>((Leaf::DaemonStart, with_flag(no_args()))));
    assert(group_parse(Group::Regent, s, 1) == Ok::<(Leaf, LeafArgs), CliError>((Leaf::RegentStart, with_flag(no_args()))));
}

} // verus!
