//! How the Barn answers a listing: here when this node leads and raft
//! confirms it, forwarded to the leader the node cache names otherwise,
//! and refused when no leader is known.

use vstd::prelude::*;
use crate::store::barn::events::nodes_view;
use crate::store::barn::routing::{is_leader_in, no_leader_error, route, KeyScope, Route};
use crate::store::barn::storage::{rescoped, Storage};
use crate::store::barn::types::{Node, ReadAction, ReadResult};
use crate::store::kv::{map_of, sorted_keys, with_prefix};
use crate::store::table::pairs_view;

verus! {

/// What a listing comes to on this node.
#[derive(Clone, Debug, PartialEq, Eq)]
pub enum ListOutcome {
    /// Listed here: the entries, keys without the handle's prefix.
    Listed(Vec<(String, Vec<u8>)>),
    /// Refused, with the reason.
    Failed(String),
    /// To be sent to the leader, whose reply `list_reply` reads.
    Forward(Node, ReadAction),
}

/// The full prefix a listing under `prefix` asks the store for.
pub open spec fn list_prefix(scope: Seq<char>, prefix: Option<Seq<char>>) -> Seq<char> {
    scope + match prefix {
        Some(q) => q,
        None => Seq::empty(),
    }
}

/// The listing of the handle `scope` under `prefix` (all of the handle's
/// entries when `None`), as the Barn decides it from its node cache: when
/// this node (id `self_id`) leads, the outcome `leader_check` of raft's
/// confirmation that it still does decides: on success the entries of
/// `storage` whose keys start with the handle's prefix and then `prefix`,
/// in key order, each without the handle's prefix; on failure its error.
/// Otherwise the request goes to the node the cache names leader (the
/// first such node), and with no leader known the listing fails with "no
/// known raft leader". `leader_check` is consulted only when this node
/// leads.
pub fn barn_list(
    storage: &Storage,
    cache: &Vec<Node>,
    self_id: u64,
    scope: &KeyScope,
    prefix: Option<&str>,
    leader_check: Result<(), String>,
) -> (r: ListOutcome)
    requires
        storage.wf(),
    ensures
        is_leader_in(nodes_view(cache@), self_id) ==> match leader_check {
            Ok(()) => r matches ListOutcome::Listed(ps) && sorted_keys(rescoped(pairs_view(ps@), scope.prefix@))
                && map_of(rescoped(pairs_view(ps@), scope.prefix@)) == with_prefix(
                storage@.data,
                list_prefix(scope.prefix@, match prefix {
                    Some(q) => Some(q@),
                    None => None,
                }),
            ),
            Err(e) => r == ListOutcome::Failed(e),
        },
        !is_leader_in(nodes_view(cache@), self_id) ==> match r {
            ListOutcome::Forward(n, req) => n.is_leader && (exists|i: int|
                0 <= i < cache@.len() && cache@[i]@ == n@ && forall|j: int| 0 <= j < i ==> !(#[trigger] cache@[j]).is_leader)
                && (req matches ReadAction::List { prefix: Some(p) } && p@ == list_prefix(scope.prefix@, match prefix {
                Some(q) => Some(q@),
                None => None,
            })),
            ListOutcome::Failed(e) => e@ == "no known raft leader"@ && forall|i: int|
                0 <= i < cache@.len() ==> !(#[trigger] cache@[i]).is_leader,
            ListOutcome::Listed(_) => false,
        },
{
    match route(cache, self_id) {
        Route::Local => match leader_check {
            Ok(()) => ListOutcome::Listed(storage.scoped_list(scope, prefix)),
            Err(e) => ListOutcome::Failed(e),
        },
        Route::Forward(n) => ListOutcome::Forward(n, scope.list_request(prefix)),
        Route::NoLeader => ListOutcome::Failed(no_leader_error()),
    }
}

/// The leader's reply to a forwarded listing, as the handle `scope`
/// returns it: the entries with the handle's prefix taken off each key, or
/// the leader's error.
pub fn list_reply(scope: &KeyScope, reply: ReadResult) -> (r: Result<Vec<(String, Vec<u8>)>, String>)
    requires
        !(reply is GetResult),
        reply matches ReadResult::ListResult(ps) ==> forall|i: int|
            0 <= i < ps@.len() ==> scope.prefix@.is_prefix_of(#[trigger] ps@[i].0@),
    ensures
        match reply {
            ReadResult::ListResult(ps) => r matches Ok(qs) && rescoped(pairs_view(qs@), scope.prefix@) == pairs_view(ps@),
            ReadResult::Error(e) => r == Err::<Vec<(String, Vec<u8>)>, String>(e),
            ReadResult::GetResult(_) => false,
        },
{
    match reply {
        ReadResult::ListResult(ps) => {
            let qs = scope.unscoped(ps);
            assert(rescoped(pairs_view(qs@), scope.prefix@) =~= pairs_view(ps@));
            Ok(qs)
        },
        ReadResult::Error(e) => Err(e),
        ReadResult::GetResult(_) => {
            proof {
                assert(false);
            }
            Err(String::new())
        },
    }
}

/// A listing answered under the handle prefix `scope` holds all and only
/// the entries of `data` whose keys start with `scope` and then `q`, each
/// once, with `scope` taken off its key and its value unchanged.
pub proof fn law_scoped_listing(
    data: Map<Seq<char>, Seq<u8>>,
    scope: Seq<char>,
    q: Seq<char>,
    ps: Seq<(Seq<char>, Seq<u8>)>,
)
    requires
        sorted_keys(rescoped(ps, scope)),
        map_of(rescoped(ps, scope)) == with_prefix(data, scope + q),
    ensures
        forall|i: int|
            0 <= i < ps.len() ==> data.contains_key(scope + (#[trigger] ps[i]).0) && (scope + q).is_prefix_of(scope + ps[i].0)
                && data[scope + ps[i].0] == ps[i].1,
        forall|k: Seq<char>|
            #[trigger] data.contains_key(k) && (scope + q).is_prefix_of(k) ==> exists|i: int|
                0 <= i < ps.len() && scope + ps[i].0 == k,
        forall|i: int, j: int| 0 <= i < j < ps.len() ==> #[trigger] ps[i].0 != #[trigger] ps[j].0,
{
    let rs = rescoped(ps, scope);
    assert forall|i: int| 0 <= i < ps.len() implies data.contains_key(scope + (#[trigger] ps[i]).0) && (scope
        + q).is_prefix_of(scope + ps[i].0) && data[scope + ps[i].0] == ps[i].1 by {
        crate::store::kv::lemma_map_of_at(rs, i);
        assert(rs[i] == (scope + ps[i].0, ps[i].1));
    }
    assert forall|k: Seq<char>| #[trigger] data.contains_key(k) && (scope + q).is_prefix_of(k) implies exists|i: int|
        0 <= i < ps.len() && scope + ps[i].0 == k by {
        assert(with_prefix(data, scope + q).contains_key(k));
        assert(map_of(rs).contains_key(k));
        let i = choose|i: int| 0 <= i < rs.len() && rs[i].0 == k;
        assert(rs[i] == (scope + ps[i].0, ps[i].1));
    }
    assert forall|i: int, j: int| 0 <= i < j < ps.len() implies #[trigger] ps[i].0 != #[trigger] ps[j].0 by {
        crate::store::kv::lemma_sorted_distinct(rs, i, j);
        assert(rs[i] == (scope + ps[i].0, ps[i].1));
        assert(rs[j] == (scope + ps[j].0, ps[j].1));
    }
}

} // verus!
