//! What the croft clerk decides when crofts join the ranch and are looked
//! up: where a croft's record is kept, when it joined, and which crofts
//! are servers.

use vstd::prelude::*;
use crate::croft::proto::{croft_role_texts, role_names, strings_view, JoinReq, ProtoCroftResources};
use crate::clock::{rfc3339_reading, utc_now_rfc3339};
use crate::croft::types::{has_role, Croft, CroftRole};
use crate::store::barn::types::{Node, NodeRole, NodeView, SpreadNode};
use crate::text::{decimal, owned, push_decimal, push_str, string_from_chars};

verus! {

/// The key prefix of croft records in the Barn.
pub open spec fn croft_prefix() -> Seq<char> {
    "croft/"@
}

/// The key of the record of the croft `id`: `croft/<id>`.
pub fn croft_key(id: u64) -> (r: String)
    ensures
        r@ == croft_prefix() + decimal(id as nat),
{
    let mut cs: Vec<char> = Vec::new();
    push_str(&mut cs, "croft/");
    push_decimal(&mut cs, id as u128);
    string_from_chars(cs.as_slice())
}

/// `c` with `now` as its join time, unless it already has one.
pub fn stamp_joined_at(c: Croft, now: String) -> (r: Croft)
    ensures
        r.id == c.id,
        r.name == c.name,
        r.addr == c.addr,
        r.roles == c.roles,
        r.tags == c.tags,
        r.resources == c.resources,
        r.joined_at@ == (if c.joined_at@.len() == 0 { now@ } else { c.joined_at@ }),
{
    let mut c = c;
    if c.joined_at.as_str().is_empty() {
        c.joined_at = now;
    }
    c
}

/// A joining croft as it is recorded: stamped with the current time unless
/// it already has a join time (so its join time is never empty).
pub fn stamp_join(c: Croft) -> (r: Croft)
    ensures
        r.id == c.id,
        r.name == c.name,
        r.addr == c.addr,
        r.roles == c.roles,
        r.tags == c.tags,
        r.resources == c.resources,
        c.joined_at@.len() > 0 ==> r.joined_at@ == c.joined_at@,
        r.joined_at@.len() > 0,
        c.joined_at@.len() == 0 ==> "+00:00"@.is_suffix_of(r.joined_at@),
        c.joined_at@.len() == 0 ==> exists|secs: u64, nanos: u32|
            nanos < 1_000_000_000 && r.joined_at@ == #[trigger] rfc3339_reading(secs, nanos),
{
    if c.joined_at.as_str().is_empty() {
        let now = utc_now_rfc3339();
        stamp_joined_at(c, now)
    } else {
        c
    }
}

/// A joining croft is added to the raft membership exactly when it is a
/// server.
pub fn joins_membership(c: &Croft) -> (b: bool)
    ensures
        b == has_role(c.roles@, CroftRole::Server),
{
    c.is_server()
}

/// The crofts of `cs` that are servers.
pub open spec fn server_crofts_spec(cs: Seq<Croft>) -> Seq<Croft> {
    cs.filter(|c: Croft| has_role(c.roles@, CroftRole::Server))
}

/// The server crofts among `crofts`, in their order.
pub fn server_crofts(crofts: Vec<Croft>) -> (r: Vec<Croft>)
    ensures
        r@ == server_crofts_spec(crofts@),
{
    let ghost all = crofts@;
    let mut rest = crofts;
    let mut r: Vec<Croft> = Vec::new();
    let ghost mut k: int = 0;
    while rest.len() > 0
        invariant
            0 <= k <= all.len(),
            rest@ == all.skip(k),
            r@ == server_crofts_spec(all.take(k)),
        decreases rest.len(),
    {
        let c = rest.remove(0);
        proof {
            assert(c == all[k]);
            assert(all.take(k + 1).drop_last() =~= all.take(k));
            assert(all.take(k + 1).last() == c);
            reveal(Seq::filter);
        }
        if c.is_server() {
            r.push(c);
        }
        proof {
            k = k + 1;
            assert(rest@ =~= all.skip(k));
        }
    }
    proof {
        assert(all.take(k) =~= all);
    }
    r
}

/// The request by which the croft `c` asks a peer to let it join: its
/// identity, its roles by name, its tags and its resources.
pub fn join_request(c: &Croft) -> (r: JoinReq)
    ensures
        r.id == c.id,
        r.name@ == c.name@,
        r.addr@ == c.addr@,
        strings_view(r.roles@) == croft_role_texts(c.roles@),
        r.tags@ == c.tags@,
        r.resources == Some(ProtoCroftResources::from_resources_spec(c.resources)),
{
    JoinReq {
        id: c.id,
        name: c.name.clone(),
        addr: c.addr.clone(),
        roles: role_names(&c.roles),
        tags: c.tags.clone(),
        resources: Some(ProtoCroftResources::from_resources(c.resources)),
    }
}

/// The Barn node that a croft is, as the node cache of a worker holds it:
/// a voter that is not known to lead.
pub open spec fn barn_node_of(c: Croft) -> NodeView {
    NodeView { id: c.id, name: c.name@, api_addr: c.addr@, role: NodeRole::Voter, is_leader: false }
}

/// The Barn nodes of the server crofts a worker learned when it joined,
/// in their order.
pub fn barn_nodes_of(crofts: &Vec<Croft>) -> (r: Vec<Node>)
    ensures
        r@.len() == crofts@.len(),
        forall|i: int| 0 <= i < r@.len() ==> (#[trigger] r@[i])@ == barn_node_of(crofts@[i]),
{
    let mut r: Vec<Node> = Vec::new();
    let mut i: usize = 0;
    while i < crofts.len()
        invariant
            i <= crofts.len(),
            r@.len() == i,
            forall|j: int| 0 <= j < i ==> (#[trigger] r@[j])@ == barn_node_of(crofts@[j]),
        decreases crofts.len() - i,
    {
        let c = &crofts[i];
        r.push(<Node as SpreadNode>::new(c.id, c.name.clone(), c.addr.clone()));
        i = i + 1;
    }
    r
}

} // verus!
