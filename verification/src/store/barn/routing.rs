//! How the Barn decides where a request goes: key scoping of sliced
//! handles, the node cache and the leader it names, and how answers turn
//! into results.

use vstd::prelude::*;
use rand::seq::IndexedRandom;
use crate::store::barn::events::{change_events, events_view, node_events, nodes_view, removal_events, unique_ids, Event};
use crate::store::barn::types::{
    ActionResult, Membership, MembershipView, Node, NodeRole, NodeView, ReadAction, ReadResult,
    voter_ids,
};
use crate::store::table::{pairs_view, copy_bytes};
use crate::text::{chars_of, string_from_chars};

verus! {

/// The key prefix a Barn handle works under: empty for the whole store,
/// non-empty for a slice of it.
#[derive(Clone, Debug, PartialEq, Eq)]
pub struct KeyScope {
    pub prefix: String,
}

impl KeyScope {
    /// The scope of the whole store.
    pub fn root() -> (s: Self)
        ensures
            s.prefix@ == Seq::<char>::empty(),
    {
        KeyScope { prefix: String::new() }
    }

    /// `key` as the store sees it: prefixed with this scope's prefix.
    pub fn scoped_key(&self, key: &str) -> (r: String)
        ensures
            r@ == self.prefix@ + key@,
    {
        self.prefix.clone().concat(key)
    }

    /// The scope of a slice of this one: keys get `prefix` after this
    /// scope's own prefix.
    pub fn slice(&self, prefix: &str) -> (r: KeyScope)
        ensures
            r.prefix@ == self.prefix@ + prefix@,
    {
        KeyScope { prefix: self.scoped_key(prefix) }
    }

    /// The read that fetches `key`, checked with the leader.
    pub fn get_request(&self, key: &str) -> (r: ReadAction)
        ensures
            r matches ReadAction::Get { key: k, allow_stale } && k@ == self.prefix@ + key@ && !allow_stale,
    {
        ReadAction::Get { key: self.scoped_key(key), allow_stale: false }
    }

    /// The read that fetches `key` from any node.
    pub fn stale_get_request(&self, key: &str) -> (r: ReadAction)
        ensures
            r matches ReadAction::Get { key: k, allow_stale } && k@ == self.prefix@ + key@ && allow_stale,
    {
        ReadAction::Get { key: self.scoped_key(key), allow_stale: true }
    }

    /// The read that lists the entries under `prefix` (under the whole
    /// scope when `None`).
    pub fn list_request(&self, prefix: Option<&str>) -> (r: ReadAction)
        ensures
            r matches ReadAction::List { prefix: Some(p) } && p@ == self.prefix@ + match prefix {
                Some(q) => q@,
                None => Seq::empty(),
            },
    {
        let p = match prefix {
            Some(q) => self.scoped_key(q),
            None => self.scoped_key(""),
        };
        proof {
            reveal_strlit("");
        }
        ReadAction::List { prefix: Some(p) }
    }

    /// A listing of the store with this scope's prefix taken off each key.
    pub fn unscoped(&self, pairs: Vec<(String, Vec<u8>)>) -> (r: Vec<(String, Vec<u8>)>)
        requires
            forall|i: int| 0 <= i < pairs@.len() ==> self.prefix@.is_prefix_of(#[trigger] pairs@[i].0@),
        ensures
            r@.len() == pairs@.len(),
            forall|i: int| 0 <= i < r@.len() ==> self.prefix@ + (#[trigger] r@[i]).0@ == pairs@[i].0@ && r@[i].1@ == pairs@[i].1@,
    {
        let p = chars_of(self.prefix.as_str());
        let n = p.len();
        let mut r: Vec<(String, Vec<u8>)> = Vec::new();
        let mut i: usize = 0;
        while i < pairs.len()
            invariant
                i <= pairs.len(),
                p@ == self.prefix@,
                n == p@.len(),
                forall|j: int| 0 <= j < pairs@.len() ==> self.prefix@.is_prefix_of(#[trigger] pairs@[j].0@),
                r@.len() == i,
                forall|j: int| 0 <= j < i ==> self.prefix@ + (#[trigger] r@[j]).0@ == pairs@[j].0@ && r@[j].1@ == pairs@[j].1@,
            decreases pairs.len() - i,
        {
            let k = chars_of(pairs[i].0.as_str());
            assert(self.prefix@.is_prefix_of(pairs@[i as int].0@));
            let mut rest: Vec<char> = Vec::new();
            let mut t: usize = n;
            while t < k.len()
                invariant
                    n <= t <= k.len(),
                    rest@ == k@.subrange(n as int, t as int),
                decreases k.len() - t,
            {
                rest.push(k[t]);
                t = t + 1;
                assert(rest@ =~= k@.subrange(n as int, t as int));
            }
            proof {
                assert(self.prefix@ + rest@ =~= k@);
            }
            r.push((string_from_chars(rest.as_slice()), copy_bytes(&pairs[i].1)));
            i = i + 1;
        }
        r
    }
}

/// Some node of the cache is this node (id `self_id`) and is leader.
pub open spec fn is_leader_in(cache: Seq<NodeView>, self_id: u64) -> bool {
    exists|i: int| 0 <= i < cache.len() && cache[i].id == self_id && cache[i].is_leader
}

/// Whether this node (id `self_id`) leads, according to the node cache.
pub fn cache_is_leader(cache: &Vec<Node>, self_id: u64) -> (b: bool)
    ensures
        b == is_leader_in(nodes_view(cache@), self_id),
{
    let mut i: usize = 0;
    while i < cache.len()
        invariant
            i <= cache.len(),
            forall|j: int| 0 <= j < i ==> !((#[trigger] cache@[j]).id == self_id && cache@[j].is_leader),
        decreases cache.len() - i,
    {
        if cache[i].id == self_id && cache[i].is_leader {
            assert(nodes_view(cache@)[i as int] == cache@[i as int]@);
            return true;
        }
        i = i + 1;
    }
    proof {
        let v = nodes_view(cache@);
        if is_leader_in(v, self_id) {
            let j = choose|j: int| 0 <= j < v.len() && v[j].id == self_id && v[j].is_leader;
            assert(v[j] == cache@[j]@);
        }
    }
    false
}

/// The first node of `cache` satisfying `leader`-ness, as an index.
pub open spec fn first_leader(cache: Seq<NodeView>) -> Option<int> {
    if exists|i: int| 0 <= i < cache.len() && cache[i].is_leader {
        Some(choose|i: int| 0 <= i < cache.len() && cache[i].is_leader && forall|j: int| 0 <= j < i ==> !(#[trigger] cache[j]).is_leader)
    } else {
        None
    }
}

/// The node the cache names leader (the first such node), if any.
pub fn cache_leader(cache: &Vec<Node>) -> (r: Option<Node>)
    ensures
        match r {
            Some(n) => exists|i: int| 0 <= i < cache@.len() && cache@[i]@ == n@ && n.is_leader && forall|j: int| 0 <= j < i ==> !(#[trigger] cache@[j]).is_leader,
            None => forall|i: int| 0 <= i < cache@.len() ==> !(#[trigger] cache@[i]).is_leader,
        },
{
    let mut i: usize = 0;
    while i < cache.len()
        invariant
            i <= cache.len(),
            forall|j: int| 0 <= j < i ==> !(#[trigger] cache@[j]).is_leader,
        decreases cache.len() - i,
    {
        if cache[i].is_leader {
            return Some(cache[i].copy());
        }
        i = i + 1;
    }
    None
}

/// The cached entry of the node with id `id` (the first one), if any.
pub fn cache_node(cache: &Vec<Node>, id: u64) -> (r: Option<Node>)
    ensures
        match r {
            Some(n) => exists|i: int| 0 <= i < cache@.len() && cache@[i]@ == n@ && n.id == id && forall|j: int| 0 <= j < i ==> (#[trigger] cache@[j]).id != id,
            None => forall|i: int| 0 <= i < cache@.len() ==> (#[trigger] cache@[i]).id != id,
        },
{
    let mut i: usize = 0;
    while i < cache.len()
        invariant
            i <= cache.len(),
            forall|j: int| 0 <= j < i ==> (#[trigger] cache@[j]).id != id,
        decreases cache.len() - i,
    {
        if cache[i].id == id {
            return Some(cache[i].copy());
        }
        i = i + 1;
    }
    None
}

/// Where a consistent read or a write goes.
#[derive(Clone, Debug, PartialEq, Eq)]
pub enum Route {
    /// This node leads: serve it here.
    Local,
    /// Forward it to the leader.
    Forward(Node),
    /// No leader is known: it fails with "no known raft leader".
    NoLeader,
}

/// Routes a consistent read or a write: here when this node (id
/// `self_id`) leads, else to the node the cache names leader, else nowhere.
pub fn route(cache: &Vec<Node>, self_id: u64) -> (r: Route)
    ensures
        is_leader_in(nodes_view(cache@), self_id) ==> r is Local,
        !is_leader_in(nodes_view(cache@), self_id) ==> match r {
            Route::Local => false,
            Route::Forward(n) => n.is_leader && exists|i: int| 0 <= i < cache@.len() && cache@[i]@ == n@ && forall|j: int| 0 <= j < i ==> !(#[trigger] cache@[j]).is_leader,
            Route::NoLeader => forall|i: int| 0 <= i < cache@.len() ==> !(#[trigger] cache@[i]).is_leader,
        },
{
    if cache_is_leader(cache, self_id) {
        Route::Local
    } else {
        match cache_leader(cache) {
            Some(n) => Route::Forward(n),
            None => Route::NoLeader,
        }
    }
}

/// The error of a request that found no leader.
pub fn no_leader_error() -> (r: String)
    ensures
        r@ == "no known raft leader"@,
{
    String::from_str("no known raft leader")
}

/// Picks a member uniformly at random (`IndexedRandom::choose`), none when
/// there is none.
#[verifier::external_body]
fn choose_node(nodes: &Vec<Node>) -> (r: Option<Node>)
    ensures
        r is None <==> nodes@.len() == 0,
        r matches Some(n) ==> exists|i: int| 0 <= i < nodes@.len() && nodes@[i]@ == n@,
{
    nodes.choose(&mut rand::rng()).cloned()
}

/// The node a stale read goes to: any cached node, picked at random, or
/// this node when the cache is empty.
pub fn stale_read_target(cache: &Vec<Node>, self_node: &Node) -> (r: Node)
    ensures
        cache@.len() == 0 ==> r@ == self_node@,
        cache@.len() > 0 ==> exists|i: int| 0 <= i < cache@.len() && cache@[i]@ == r@,
{
    match choose_node(cache) {
        Some(n) => n,
        None => self_node.copy(),
    }
}

/// The value a `Get` read answered, or its error.
pub fn read_value(r: ReadResult) -> (v: Result<Option<Vec<u8>>, String>)
    requires
        !(r is ListResult),
    ensures
        match r {
            ReadResult::GetResult(x) => v == Ok::<Option<Vec<u8>>, String>(x),
            ReadResult::Error(e) => v == Err::<Option<Vec<u8>>, String>(e),
            _ => false,
        },
{
    match r {
        ReadResult::GetResult(x) => Ok(x),
        ReadResult::Error(e) => Err(e),
        ReadResult::ListResult(_) => {
            proof {
                assert(false);
            }
            Err(String::new())
        },
    }
}

/// The outcome of a write, as a result.
pub fn write_outcome(r: ActionResult) -> (v: Result<(), String>)
    ensures
        match r {
            ActionResult::Success => v is Ok,
            ActionResult::Error(e) => v == Err::<(), String>(e),
        },
{
    match r {
        ActionResult::Success => Ok(()),
        ActionResult::Error(e) => Err(e),
    }
}

/// `n` with its role and leadership as the membership and the current
/// leader give them.
pub open spec fn classified(m: MembershipView, leader: Option<u64>, id: u64, n: NodeView) -> NodeView {
    NodeView {
        role: if voter_ids(m).contains(id) { NodeRole::Voter } else { NodeRole::Learner },
        is_leader: leader == Some(id),
        ..n
    }
}

fn is_voter(m: &Membership, id: u64) -> (b: bool)
    ensures
        b == voter_ids(m@).contains(id),
{
    let mut c: usize = 0;
    while c < m.configs.len()
        invariant
            c <= m.configs.len(),
            forall|x: int, j: int| 0 <= x < c && 0 <= j < m.configs@[x]@.len() ==> m.configs@[x]@[j] != id,
        decreases m.configs.len() - c,
    {
        let cfg = &m.configs[c];
        let mut j: usize = 0;
        while j < cfg.len()
            invariant
                j <= cfg.len(),
                c < m.configs.len(),
                cfg@ == m.configs@[c as int]@,
                forall|x: int, y: int| 0 <= x < c && 0 <= y < m.configs@[x]@.len() ==> m.configs@[x]@[y] != id,
                forall|y: int| 0 <= y < j ==> cfg@[y] != id,
            decreases cfg.len() - j,
        {
            if cfg[j] == id {
                proof {
                    assert(m@.configs[c as int] == cfg@);
                    assert(m@.configs[c as int][j as int] == id);
                }
                return true;
            }
            j = j + 1;
        }
        c = c + 1;
    }
    proof {
        if voter_ids(m@).contains(id) {
            let (x, j) = choose|x: int, j: int| 0 <= x < m@.configs.len() && 0 <= j < m@.configs[x].len() && m@.configs[x][j] == id;
            assert(m@.configs[x] == m.configs@[x]@);
        }
    }
    false
}

/// The node list of a membership, in its order, each node's role and
/// leadership computed afresh: a voter when some configuration has its id,
/// leader when its id is the current leader's.
pub fn nodes_from_membership(m: &Membership, current_leader: Option<u64>) -> (r: Vec<Node>)
    ensures
        r@.len() == m@.nodes.len(),
        forall|i: int| 0 <= i < r@.len() ==> (#[trigger] r@[i])@ == classified(m@, current_leader, m@.nodes[i].0, m@.nodes[i].1),
{
    let mut r: Vec<Node> = Vec::new();
    let mut i: usize = 0;
    while i < m.nodes.len()
        invariant
            i <= m.nodes.len(),
            r@.len() == i,
            forall|j: int| 0 <= j < i ==> (#[trigger] r@[j])@ == classified(m@, current_leader, m@.nodes[j].0, m@.nodes[j].1),
        decreases m.nodes.len() - i,
    {
        let id = m.nodes[i].0;
        let mut n = m.nodes[i].1.copy();
        n.role = if is_voter(m, id) { NodeRole::Voter } else { NodeRole::Learner };
        n.is_leader = match current_leader {
            Some(l) => l == id,
            None => false,
        };
        assert(m@.nodes[i as int] == (m.nodes@[i as int].0, m.nodes@[i as int].1@));
        r.push(n);
        i = i + 1;
    }
    r
}

/// The nodes of a membership, in its order, as the node cache holds them:
/// each node's role and leadership computed afresh.
pub open spec fn membership_nodes(m: MembershipView, current_leader: Option<u64>) -> Seq<NodeView> {
    Seq::new(m.nodes.len(), |i: int| classified(m, current_leader, m.nodes[i].0, m.nodes[i].1))
}

fn copy_nodes(ns: &Vec<Node>) -> (r: Vec<Node>)
    ensures
        nodes_view(r@) == nodes_view(ns@),
{
    let mut r: Vec<Node> = Vec::new();
    let mut i: usize = 0;
    while i < ns.len()
        invariant
            i <= ns.len(),
            r@.len() == i,
            nodes_view(r@) == nodes_view(ns@).take(i as int),
        decreases ns.len() - i,
    {
        let ghost before = r@;
        let n = ns[i].copy();
        r.push(n);
        proof {
            assert(r@ == before.push(n));
            assert forall|j: int| 0 <= j <= i implies #[trigger] nodes_view(r@)[j] == nodes_view(ns@)[j] by {
                if j < i {
                    assert(r@[j] == before[j]);
                    assert(nodes_view(before)[j] == nodes_view(ns@).take(i as int)[j]);
                } else {
                    assert(r@[j] == n);
                    assert(n@ == ns@[j]@);
                }
            }
        }
        i = i + 1;
        assert(nodes_view(r@) =~= nodes_view(ns@).take(i as int));
    }
    assert(nodes_view(ns@).take(i as int) =~= nodes_view(ns@));
    r
}

/// What the Barn does when raft's membership or leader changes: the node
/// cache and the nodes last seen both become the membership's nodes, their
/// roles and leadership computed afresh; the events returned tell what
/// changed since the nodes last seen (added and changed nodes in the
/// membership's order, then removed ones in the order they were seen).
pub fn refresh_nodes(last: &mut Vec<Node>, cache: &mut Vec<Node>, m: &Membership, current_leader: Option<u64>) -> (r: Vec<Event>)
    requires
        unique_ids(nodes_view(old(last)@)),
    ensures
        nodes_view(final(cache)@) == membership_nodes(m@, current_leader),
        nodes_view(final(last)@) == membership_nodes(m@, current_leader),
        events_view(r@) == change_events(nodes_view(old(last)@), membership_nodes(m@, current_leader))
            + removal_events(nodes_view(old(last)@), membership_nodes(m@, current_leader)),
{
    let cur = nodes_from_membership(m, current_leader);
    assert(nodes_view(cur@) =~= membership_nodes(m@, current_leader));
    let events = node_events(last, &cur);
    *cache = copy_nodes(&cur);
    *last = cur;
    events
}

/// Whether adding a node must bootstrap a new cluster: true exactly when
/// the membership has no node yet.
pub fn must_bootstrap(m: &Membership) -> (b: bool)
    ensures
        b == (m@.nodes.len() == 0),
{
    m.nodes.len() == 0
}

} // verus!
