//! The decisions of the regent commands: what `regent status` lists, how
//! `regent stop` proceeds, and what `regent start` does about the ranch.
//! Reading state files, signalling processes and waiting stay with the
//! program; it hands the outcomes to these functions.

use vstd::prelude::*;
use crate::croft::config::default_name_text;
use crate::text::{decimal, owned, push_decimal, push_str, string_from_chars};

verus! {

/// What a regent's state file says, as `regent status` shows it.
#[derive(Clone, Debug, PartialEq, Eq)]
pub struct RegentRecord {
    pub name: String,
    pub pid: u32,
    pub addr: String,
    pub alive: bool,
    pub started_at: String,
}

/// A directory found under one of the roots of local regents, with the
/// record its state file gave, if it holds one that reads.
#[derive(Clone, Debug, PartialEq, Eq)]
pub struct RegentEntry {
    pub dir_name: String,
    pub record: Option<RegentRecord>,
}

/// The names already listed.
pub open spec fn names_of(seen: Seq<String>) -> Set<Seq<char>> {
    Set::new(|n: Seq<char>| exists|j: int| 0 <= j < seen.len() && seen[j]@ == n)
}

/// The records `regent status` lists from the entries from the `i`-th on:
/// each directory with a readable state, once per directory name (the
/// first such wins), and only the one named `target` when given.
pub open spec fn listed(es: Seq<RegentEntry>, i: int, target: Option<Seq<char>>, seen: Set<Seq<char>>) -> Seq<RegentRecord>
    decreases es.len() - i,
{
    if i >= es.len() {
        Seq::empty()
    } else {
        let e = es[i];
        if seen.contains(e.dir_name@) || (target is Some && target->0 != e.dir_name@) || e.record is None {
            listed(es, i + 1, target, seen)
        } else {
            seq![e.record->0] + listed(es, i + 1, target, seen.insert(e.dir_name@))
        }
    }
}

/// Text as plain values, when there is some.
pub open spec fn target_view(t: Option<&str>) -> Option<Seq<char>> {
    match t {
        Some(s) => Some(s@),
        None => None,
    }
}

fn contains_name(seen: &Vec<String>, name: &String) -> (b: bool)
    ensures
        b == names_of(seen@).contains(name@),
{
    let mut j: usize = 0;
    while j < seen.len()
        invariant
            j <= seen.len(),
            forall|k: int| 0 <= k < j ==> seen@[k]@ != name@,
        decreases seen.len() - j,
    {
        if seen[j] == *name {
            assert(names_of(seen@).contains(name@));
            return true;
        }
        j = j + 1;
    }
    false
}

/// The records `regent status` lists, in the order the entries were found
/// (see `listed`).
pub fn regent_listing(entries: Vec<RegentEntry>, target: Option<&str>) -> (r: Vec<RegentRecord>)
    ensures
        r@ == listed(entries@, 0, target_view(target), Set::empty()),
{
    let ghost es = entries@;
    let ghost tv = target_view(target);
    let t: Option<String> = match target {
        Some(s) => Some(owned(s)),
        None => None,
    };
    let mut seen: Vec<String> = Vec::new();
    let mut r: Vec<RegentRecord> = Vec::new();
    let mut rest = entries;
    let ghost mut i: int = 0;
    proof {
        assert(names_of(seen@) =~= Set::<Seq<char>>::empty());
    }
    while rest.len() > 0
        invariant
            0 <= i <= es.len(),
            rest@ == es.skip(i),
            tv == match t {
                Some(s) => Some(s@),
                None => None::<Seq<char>>,
            },
            listed(es, 0, tv, Set::empty()) == r@ + listed(es, i, tv, names_of(seen@)),
        decreases rest.len(),
    {
        let e = rest.remove(0);
        proof {
            assert(e == es[i]);
        }
        let ghost before = names_of(seen@);
        let skip_name = contains_name(&seen, &e.dir_name);
        let other = match &t {
            Some(name) => *name != e.dir_name,
            None => false,
        };
        if skip_name || other || e.record.is_none() {
            proof {
                assert(listed(es, i, tv, before) == listed(es, i + 1, tv, before));
            }
        } else {
            let ghost rec = e.record->0;
            let name = e.dir_name;
            match e.record {
                Some(record) => {
                    r.push(record);
                },
                None => {},
            }
            let ghost old_seen = seen@;
            seen.push(name);
            proof {
                assert forall|n: Seq<char>| #[trigger] names_of(seen@).contains(n) == before.insert(es[i].dir_name@).contains(n) by {
                    if before.contains(n) && n != es[i].dir_name@ {
                        let j = choose|j: int| 0 <= j < old_seen.len() && old_seen[j]@ == n;
                        assert(seen@[j] == old_seen[j]);
                    }
                    if n == es[i].dir_name@ {
                        assert(seen@[old_seen.len() as int]@ == n);
                    }
                    if names_of(seen@).contains(n) {
                        let j = choose|j: int| 0 <= j < seen@.len() && seen@[j]@ == n;
                        if j < old_seen.len() {
                            assert(old_seen[j] == seen@[j]);
                        }
                    }
                }
                assert(names_of(seen@) =~= before.insert(es[i].dir_name@));
                assert(listed(es, i, tv, before) == seq![rec] + listed(es, i + 1, tv, before.insert(es[i].dir_name@)));
                assert(r@ + listed(es, i + 1, tv, names_of(seen@)) =~= r@.drop_last() + listed(es, i, tv, before));
            }
        }
        proof {
            i = i + 1;
            assert(rest@ =~= es.skip(i));
        }
    }
    proof {
        assert(listed(es, i, tv, names_of(seen@)) =~= Seq::<RegentRecord>::empty());
        assert(r@ + Seq::<RegentRecord>::empty() =~= r@);
    }
    r
}

/// How `regent status` shows whether a regent runs.
pub fn status_text(alive: bool) -> (r: String)
    ensures
        r@ == (if alive { "Running"@ } else { "Dead (Stale)"@ }),
{
    if alive {
        owned("Running")
    } else {
        owned("Dead (Stale)")
    }
}

/// What `regent status` says when it lists nothing.
pub fn empty_listing_message(target: Option<&str>) -> (r: String)
    ensures
        r@ == (if target is Some { "No matching regents found."@ } else { "No regents running."@ }),
{
    match target {
        Some(_) => owned("No matching regents found."),
        None => owned("No regents running."),
    }
}

/// The regent that `regent stop` stops: the one named, else `main`.
pub fn stop_target(name: Option<&str>) -> (r: String)
    ensures
        r@ == match name {
            Some(n) => n@,
            None => default_name_text(),
        },
{
    match name {
        Some(n) => owned(n),
        None => crate::croft::config::default_name(),
    }
}

/// How many times `regent stop` checks for the process to end, a tenth of
/// a second apart.
pub open spec fn stop_polls() -> u32 {
    50
}

/// Where `regent stop` stands.
#[derive(Clone, Copy, Debug, PartialEq, Eq, Structural)]
pub enum StopPhase {
    /// The regent's state is being looked for.
    Locating,
    /// The regent was signalled; `left` more checks will be made.
    Waiting { left: u32 },
    /// Nothing more to do.
    Finished,
}

/// What the program observed.
#[derive(Clone, Copy, Debug, PartialEq, Eq, Structural)]
pub enum StopEvent {
    /// No state of the regent was found.
    NotFound,
    /// Its state was found, naming process `pid`, which is `alive` or not.
    Found { pid: u32, alive: bool },
    /// The process was checked again.
    Checked { alive: bool },
}

/// What the program does next.
#[derive(Clone, Debug, PartialEq, Eq)]
pub enum StopAction {
    /// Fail the command with this message.
    Fail(String),
    /// Remove the state file, print the message, and end.
    CleanUp(String),
    /// Print the message, send the process SIGTERM, then check on it.
    Signal(String),
    /// Wait a tenth of a second, then check again.
    Wait,
    /// Wait a tenth of a second, print the message, and end.
    GiveUp(String),
    /// Nothing: the command is over.
    Nothing,
}

/// A regent name and process id in the messages of `regent stop`.
pub open spec fn quoted(target: Seq<char>) -> Seq<char> {
    "Regent '"@ + target + "'"@
}

/// The step of `regent stop` for the regent `target` in `phase` on `ev`.
pub open spec fn stop_transition(target: Seq<char>, phase: StopPhase, ev: StopEvent) -> (StopPhase, Option<Seq<char>>, int) {
    // The second component is the message; the third tells the action:
    // 0 fail, 1 clean up, 2 signal, 3 wait, 4 give up, 5 nothing.
    match (phase, ev) {
        (StopPhase::Locating, StopEvent::NotFound) => (StopPhase::Finished, Some(quoted(target) + " is not running (no state found)"@), 0),
        (StopPhase::Locating, StopEvent::Found { pid, alive }) => if !alive {
            (StopPhase::Finished, Some(quoted(target) + " was not running (cleaned up stale state)."@), 1)
        } else {
            (StopPhase::Waiting { left: stop_polls() }, Some("Stopping regent '"@ + target + "' (PID "@ + decimal(pid as nat) + ")..."@), 2)
        },
        (StopPhase::Waiting { left }, StopEvent::Checked { alive }) => if !alive {
            (StopPhase::Finished, Some(quoted(target) + " stopped successfully."@), 1)
        } else if left > 1 {
            (StopPhase::Waiting { left: (left - 1) as u32 }, None, 3)
        } else {
            (StopPhase::Finished, Some(quoted(target) + " did not terminate in time."@), 4)
        },
        _ => (phase, None, 5),
    }
}

/// An action as plain values: its message and its kind (see
/// `stop_transition`).
pub open spec fn stop_action_view(a: StopAction) -> (Option<Seq<char>>, int) {
    match a {
        StopAction::Fail(m) => (Some(m@), 0),
        StopAction::CleanUp(m) => (Some(m@), 1),
        StopAction::Signal(m) => (Some(m@), 2),
        StopAction::Wait => (None, 3),
        StopAction::GiveUp(m) => (Some(m@), 4),
        StopAction::Nothing => (None, 5),
    }
}

fn regent_says(target: &str, what: &str) -> (r: String)
    ensures
        r@ == quoted(target@) + what@,
{
    owned("Regent '").concat(target).concat("'").concat(what)
}

/// Decides the next step of `regent stop` (see `stop_transition`): no
/// state fails; a dead regent's stale state is cleaned up; a live one is
/// signalled and checked up to fifty times before the command gives up.
pub fn stop_step(target: &str, phase: StopPhase, ev: StopEvent) -> (r: (StopPhase, StopAction))
    ensures
        (r.0, stop_action_view(r.1).0, stop_action_view(r.1).1) == stop_transition(target@, phase, ev),
{
    match (phase, ev) {
        (StopPhase::Locating, StopEvent::NotFound) => {
            (StopPhase::Finished, StopAction::Fail(regent_says(target, " is not running (no state found)")))
        },
        (StopPhase::Locating, StopEvent::Found { pid, alive }) => {
            if !alive {
                (StopPhase::Finished, StopAction::CleanUp(regent_says(target, " was not running (cleaned up stale state).")))
            } else {
                let mut cs: Vec<char> = Vec::new();
                push_str(&mut cs, "Stopping regent '");
                push_str(&mut cs, target);
                push_str(&mut cs, "' (PID ");
                push_decimal(&mut cs, pid as u128);
                push_str(&mut cs, ")...");
                (StopPhase::Waiting { left: 50 }, StopAction::Signal(string_from_chars(cs.as_slice())))
            }
        },
        (StopPhase::Waiting { left }, StopEvent::Checked { alive }) => {
            if !alive {
                (StopPhase::Finished, StopAction::CleanUp(regent_says(target, " stopped successfully.")))
            } else if left > 1 {
                (StopPhase::Waiting { left: left - 1 }, StopAction::Wait)
            } else {
                (StopPhase::Finished, StopAction::GiveUp(regent_says(target, " did not terminate in time.")))
            }
        },
        _ => (phase, StopAction::Nothing),
    }
}

/// What a starting regent does about the ranch.
#[derive(Clone, Copy, Debug, PartialEq, Eq, Structural)]
pub enum StartPlan {
    /// Bootstrap a new ranch with this croft as its only member.
    Initialize,
    /// Join the ranch through the configured peers.
    Join,
    /// Neither: a worker with no peers to join waits to be found.
    Nothing,
}

/// A regent with no peers to join bootstraps a ranch when its croft is a
/// server; one with peers joins through them.
pub fn start_plan(has_join_addresses: bool, is_server: bool) -> (p: StartPlan)
    ensures
        p == (if !has_join_addresses && is_server {
            StartPlan::Initialize
        } else if has_join_addresses {
            StartPlan::Join
        } else {
            StartPlan::Nothing
        }),
{
    if !has_join_addresses && is_server {
        StartPlan::Initialize
    } else if has_join_addresses {
        StartPlan::Join
    } else {
        StartPlan::Nothing
    }
}

/// Where joining the ranch through the configured peers stands.
#[derive(Clone, Copy, Debug, PartialEq, Eq, Structural)]
pub enum JoinPhase {
    /// The peer at position `next` is the next to dial.
    Trying { next: usize },
    /// Nothing more to do.
    Finished,
}

/// What the program observed.
#[derive(Clone, Copy, Debug, PartialEq, Eq, Structural)]
pub enum JoinEvent {
    /// Joining begins.
    Start,
    /// The last peer dialled could not be joined.
    Failed,
    /// The last peer dialled let this croft join, and named the ranch's
    /// server crofts.
    Joined,
}

/// What the program does next.
#[derive(Clone, Debug, PartialEq, Eq)]
pub enum JoinAction {
    /// Dial the peer at this position of the configured list.
    Dial(usize),
    /// Keep the server crofts learned as the Barn's node cache; joining is
    /// done.
    CacheServers,
    /// Joining is done; a server keeps no cache.
    Done,
    /// Joining failed with this message.
    Fail(String),
    /// Nothing: joining is over.
    Nothing,
}

/// The message when no configured peer could be joined.
pub open spec fn join_failed_message() -> Seq<char> {
    "Failed to join ranch from any configured peer address"@
}

/// The next step of joining through `peers` configured peers, for a croft
/// that is a server or not, as plain values (the message for a failure,
/// and the action's kind: 0 dial, 1 cache, 2 done, 3 fail, 4 nothing).
pub open spec fn join_transition(peers: usize, is_server: bool, phase: JoinPhase, ev: JoinEvent) -> (JoinPhase, int, usize) {
    match (phase, ev) {
        (JoinPhase::Trying { next }, JoinEvent::Joined) => (JoinPhase::Finished, if is_server { 2 } else { 1 }, 0),
        (JoinPhase::Trying { next }, _) => if next < peers {
            (JoinPhase::Trying { next: (next + 1) as usize }, 0, next)
        } else {
            (JoinPhase::Finished, 3, 0)
        },
        (JoinPhase::Finished, _) => (JoinPhase::Finished, 4, 0),
    }
}

/// A join action as plain values: its kind and the peer it dials.
pub open spec fn join_action_view(a: JoinAction) -> (int, usize) {
    match a {
        JoinAction::Dial(i) => (0, i),
        JoinAction::CacheServers => (1, 0),
        JoinAction::Done => (2, 0),
        JoinAction::Fail(_) => (3, 0),
        JoinAction::Nothing => (4, 0),
    }
}

/// Decides the next step of joining the ranch: the peers are dialled in
/// their order until one lets this croft join; a worker then keeps the
/// server crofts it learned, a server keeps nothing; when every peer fails,
/// joining fails with "Failed to join ranch from any configured peer
/// address".
pub fn join_step(peers: usize, is_server: bool, phase: JoinPhase, ev: JoinEvent) -> (r: (JoinPhase, JoinAction))
    ensures
        (r.0, join_action_view(r.1).0, join_action_view(r.1).1) == join_transition(peers, is_server, phase, ev),
        r.1 matches JoinAction::Fail(m) ==> m@ == join_failed_message(),
{
    match (phase, ev) {
        (JoinPhase::Trying { next: _ }, JoinEvent::Joined) => {
            if is_server {
                (JoinPhase::Finished, JoinAction::Done)
            } else {
                (JoinPhase::Finished, JoinAction::CacheServers)
            }
        },
        (JoinPhase::Trying { next }, _) => {
            if next < peers {
                (JoinPhase::Trying { next: next + 1 }, JoinAction::Dial(next))
            } else {
                (JoinPhase::Finished, JoinAction::Fail(owned("Failed to join ranch from any configured peer address")))
            }
        },
        (JoinPhase::Finished, _) => (JoinPhase::Finished, JoinAction::Nothing),
    }
}

} // verus!
