//! Cluster nodes, as the cluster api registers them, and the messages it
//! exchanges about them.

use vstd::prelude::*;
use crate::croft::proto::strings_view;
use crate::text::{all_ascii, ascii_lower_char, decimal, is_blank, lowercase, lowercase_of, owned, push_decimal, push_str, string_from_chars, trim};

verus! {

/// The role a cluster node plays.
#[derive(Clone, Copy, Debug, PartialEq, Eq, Structural)]
pub enum NodeRole {
    Server,
    Worker,
}

impl NodeRole {
    /// The role of a node given none: `Worker`.
    pub fn default_role() -> (r: NodeRole)
        ensures
            r == NodeRole::Worker,
    {
        NodeRole::Worker
    }

    /// The role's name, lowercase: `server` or `worker`.
    pub fn to_text(&self) -> (r: String)
        ensures
            r@ == node_role_text(*self),
    {
        match self {
            NodeRole::Server => owned("server"),
            NodeRole::Worker => owned("worker"),
        }
    }

    /// The role a remote node reports: server when the name, lowercased,
    /// is `server`; worker otherwise.
    pub fn from_remote(s: &str) -> (r: NodeRole)
        ensures
            r == (if lowercase_of(s@) == "server"@ { NodeRole::Server } else { NodeRole::Worker }),
            all_ascii(s@) ==> r == (if s@.map_values(|c: char| ascii_lower_char(c)) == "server"@ {
                NodeRole::Server
            } else {
                NodeRole::Worker
            }),
    {
        if lowercase(s) == owned("server") {
            NodeRole::Server
        } else {
            NodeRole::Worker
        }
    }
}

/// How a node role prints.
pub open spec fn node_role_text(r: NodeRole) -> Seq<char> {
    match r {
        NodeRole::Server => "server"@,
        NodeRole::Worker => "worker"@,
    }
}

/// A cluster node.
#[derive(Clone, Debug, PartialEq, Eq, Default)]
pub struct Node {
    pub id: u64,
    pub name: String,
    pub tags: Vec<String>,
    pub cpu_total: u32,
    pub memory_total: u32,
    pub cpu_reserved: u32,
    pub memory_reserved: u32,
    pub yardable_cpu: u32,
    pub yardable_memory: u32,
    pub running_piglets: Vec<String>,
    pub roles: Vec<NodeRole>,
    pub api_addr: String,
    pub joined_at: String,
}

/// A node's request to join the cluster.
#[derive(Clone, Debug, PartialEq, Eq, Default)]
pub struct JoinReq {
    pub id: u64,
    pub name: String,
    pub api_addr: String,
    pub roles: Vec<String>,
    pub tags: Vec<String>,
}

/// A node as it travels on the wire.
#[derive(Clone, Debug, PartialEq, Eq, Default)]
pub struct ProtoNode {
    pub id: u64,
    pub name: String,
    pub api_addr: String,
    pub roles: Vec<String>,
    pub tags: Vec<String>,
    pub joined_at: String,
    pub is_primary: bool,
}

/// How a role name of a join request parses: by its lowercase form.
pub open spec fn parse_node_role(s: Seq<char>) -> Result<NodeRole, Seq<char>> {
    let w = lowercase_of(s);
    if w == "server"@ {
        Ok(NodeRole::Server)
    } else if w == "worker"@ {
        Ok(NodeRole::Worker)
    } else {
        Err("unknown role: "@ + w)
    }
}

/// How the role names of a join request parse: all their roles, in order,
/// or the error of the first name that is not a role.
pub open spec fn parse_node_roles(ss: Seq<Seq<char>>) -> Result<Seq<NodeRole>, Seq<char>>
    decreases ss.len(),
{
    if ss.len() == 0 {
        Ok(Seq::empty())
    } else {
        match parse_node_roles(ss.drop_last()) {
            Err(e) => Err(e),
            Ok(rs) => match parse_node_role(ss.last()) {
                Ok(r) => Ok(rs.push(r)),
                Err(e) => Err(e),
            },
        }
    }
}

/// How an ASCII role name of a join request parses: by its form with
/// ASCII case folded.
pub open spec fn parse_node_role_ascii(s: Seq<char>) -> Result<NodeRole, Seq<char>> {
    let w = s.map_values(|c: char| ascii_lower_char(c));
    if w == "server"@ {
        Ok(NodeRole::Server)
    } else if w == "worker"@ {
        Ok(NodeRole::Worker)
    } else {
        Err("unknown role: "@ + w)
    }
}

/// How ASCII role names of a join request parse.
pub open spec fn parse_node_roles_ascii(ss: Seq<Seq<char>>) -> Result<Seq<NodeRole>, Seq<char>>
    decreases ss.len(),
{
    if ss.len() == 0 {
        Ok(Seq::empty())
    } else {
        match parse_node_roles_ascii(ss.drop_last()) {
            Err(e) => Err(e),
            Ok(rs) => match parse_node_role_ascii(ss.last()) {
                Ok(r) => Ok(rs.push(r)),
                Err(e) => Err(e),
            },
        }
    }
}

/// Every name of `ss` is ASCII.
pub open spec fn node_names_ascii(ss: Seq<Seq<char>>) -> bool {
    forall|i: int| 0 <= i < ss.len() ==> all_ascii(#[trigger] ss[i])
}

proof fn lemma_parse_node_roles_ascii_err(ss: Seq<Seq<char>>, n: int)
    requires
        0 <= n <= ss.len(),
        parse_node_roles_ascii(ss.take(n)) is Err,
    ensures
        parse_node_roles_ascii(ss) == parse_node_roles_ascii(ss.take(n)),
    decreases ss.len() - n,
{
    if n < ss.len() {
        assert(ss.drop_last().take(n) =~= ss.take(n));
        lemma_parse_node_roles_ascii_err(ss.drop_last(), n);
    } else {
        assert(ss.take(n) =~= ss);
    }
}

proof fn lemma_parse_node_roles_err(ss: Seq<Seq<char>>, n: int)
    requires
        0 <= n <= ss.len(),
        parse_node_roles(ss.take(n)) is Err,
    ensures
        parse_node_roles(ss) == parse_node_roles(ss.take(n)),
    decreases ss.len() - n,
{
    if n < ss.len() {
        assert(ss.drop_last().take(n) =~= ss.take(n));
        lemma_parse_node_roles_err(ss.drop_last(), n);
    } else {
        assert(ss.take(n) =~= ss);
    }
}

fn parse_role_names(names: &Vec<String>) -> (r: Result<Vec<NodeRole>, String>)
    ensures
        match r {
            Ok(rs) => parse_node_roles(strings_view(names@)) == Ok::<Seq<NodeRole>, Seq<char>>(rs@),
            Err(e) => parse_node_roles(strings_view(names@)) == Err::<Seq<NodeRole>, Seq<char>>(e@),
        },
        node_names_ascii(strings_view(names@)) ==> match r {
            Ok(rs) => parse_node_roles_ascii(strings_view(names@)) == Ok::<Seq<NodeRole>, Seq<char>>(rs@),
            Err(e) => parse_node_roles_ascii(strings_view(names@)) == Err::<Seq<NodeRole>, Seq<char>>(e@),
        },
{
    let ghost ss = strings_view(names@);
    let mut roles: Vec<NodeRole> = Vec::new();
    let mut i: usize = 0;
    proof {
        assert(ss.take(0) =~= Seq::<Seq<char>>::empty());
    }
    while i < names.len()
        invariant
            i <= names.len(),
            ss == strings_view(names@),
            parse_node_roles(ss.take(i as int)) == Ok::<Seq<NodeRole>, Seq<char>>(roles@),
            node_names_ascii(ss) ==> parse_node_roles_ascii(ss.take(i as int)) == Ok::<Seq<NodeRole>, Seq<char>>(roles@),
        decreases names.len() - i,
    {
        let w = lowercase(names[i].as_str());
        proof {
            assert(ss.take(i + 1).drop_last() =~= ss.take(i as int));
            assert(ss.take(i + 1).last() == names@[i as int]@);
            if node_names_ascii(ss) {
                assert(all_ascii(ss[i as int]));
            }
        }
        if w == owned("server") {
            roles.push(NodeRole::Server);
        } else if w == owned("worker") {
            roles.push(NodeRole::Worker);
        } else {
            let e = owned("unknown role: ").concat(w.as_str());
            proof {
                lemma_parse_node_roles_err(ss, i + 1);
                if node_names_ascii(ss) {
                    lemma_parse_node_roles_ascii_err(ss, i + 1);
                }
            }
            return Err(e);
        }
        i = i + 1;
    }
    proof {
        assert(ss.take(i as int) =~= ss);
    }
    Ok(roles)
}

/// The error a join request is refused with, if it is refused: a zero id,
/// then a blank api address, then the first role name that is not a role,
/// then no role at all.
pub open spec fn node_join_error(id: u64, api_addr: Seq<char>, roles: Seq<Seq<char>>) -> Option<Seq<char>> {
    if id == 0 {
        Some("node id must be greater than 0"@)
    } else if trim(api_addr).len() == 0 {
        Some("api_addr cannot be empty"@)
    } else {
        match parse_node_roles(roles) {
            Err(e) => Some(e),
            Ok(rs) => if rs.len() == 0 {
                Some("node must specify at least one role"@)
            } else {
                None
            },
        }
    }
}

/// The error a join request with ASCII role names is refused with (see
/// `node_join_error`), its roles parsed with ASCII case folding.
pub open spec fn node_join_error_ascii(id: u64, api_addr: Seq<char>, roles: Seq<Seq<char>>) -> Option<Seq<char>> {
    if id == 0 {
        Some("node id must be greater than 0"@)
    } else if trim(api_addr).len() == 0 {
        Some("api_addr cannot be empty"@)
    } else {
        match parse_node_roles_ascii(roles) {
            Err(e) => Some(e),
            Ok(rs) => if rs.len() == 0 {
                Some("node must specify at least one role"@)
            } else {
                None
            },
        }
    }
}

/// A node join request is accepted only with a positive id and an api
/// address that is not blank: id zero is refused as such, and a node with
/// an id but a blank api address is refused for its address, whatever its
/// roles.
pub proof fn law_node_join_needs_id_and_address(id: u64, api_addr: Seq<char>, roles: Seq<Seq<char>>)
    ensures
        node_join_error(id, api_addr, roles) is None ==> id > 0 && trim(api_addr).len() > 0,
        node_join_error_ascii(id, api_addr, roles) is None ==> id > 0 && trim(api_addr).len() > 0,
        id > 0 && trim(api_addr).len() == 0 ==> node_join_error(id, api_addr, roles) == Some("api_addr cannot be empty"@)
            && node_join_error_ascii(id, api_addr, roles) == Some("api_addr cannot be empty"@),
        id == 0 ==> node_join_error(id, api_addr, roles) == Some("node id must be greater than 0"@)
            && node_join_error_ascii(id, api_addr, roles) == Some("node id must be greater than 0"@),
{
}

/// The name a node gets when its request names none: `node-<id>`.
pub open spec fn default_node_name(id: u64) -> Seq<char> {
    "node-"@ + decimal(id as nat)
}

/// The node a join request describes: named `node-<id>` when it gives no
/// name, with no join time yet and no resources; or why it is refused
/// (every refusal is an invalid argument).
pub fn node_from_join_req(req: JoinReq) -> (r: Result<Node, String>)
    ensures
        match r {
            Ok(n) => node_join_error(req.id, req.api_addr@, strings_view(req.roles@)) is None
                && n.id == req.id
                && n.name@ == (if req.name@.len() == 0 { default_node_name(req.id) } else { req.name@ })
                && parse_node_roles(strings_view(req.roles@)) == Ok::<Seq<NodeRole>, Seq<char>>(n.roles@)
                && n.tags@ == req.tags@
                && n.api_addr == req.api_addr
                && n.joined_at@ == Seq::<char>::empty()
                && n.cpu_total == 0 && n.memory_total == 0 && n.cpu_reserved == 0
                && n.memory_reserved == 0 && n.yardable_cpu == 0 && n.yardable_memory == 0
                && n.running_piglets@.len() == 0,
            Err(e) => node_join_error(req.id, req.api_addr@, strings_view(req.roles@)) == Some(e@),
        },
        node_names_ascii(strings_view(req.roles@)) ==> match r {
            Ok(n) => node_join_error_ascii(req.id, req.api_addr@, strings_view(req.roles@)) is None
                && parse_node_roles_ascii(strings_view(req.roles@)) == Ok::<Seq<NodeRole>, Seq<char>>(n.roles@),
            Err(e) => node_join_error_ascii(req.id, req.api_addr@, strings_view(req.roles@)) == Some(e@),
        },
        r is Ok ==> req.id > 0 && trim(req.api_addr@).len() > 0,
        r matches Ok(n) ==> n.roles@.len() > 0,
        req.id == 0 ==> (r matches Err(e) && e@ == "node id must be greater than 0"@),
        req.id > 0 && trim(req.api_addr@).len() == 0 ==> (r matches Err(e) && e@ == "api_addr cannot be empty"@),
{
    proof {
        reveal_strlit("node id must be greater than 0");
        reveal_strlit("api_addr cannot be empty");
    }
    if req.id == 0 {
        return Err(owned("node id must be greater than 0"));
    }
    if is_blank(req.api_addr.as_str()) {
        return Err(owned("api_addr cannot be empty"));
    }
    let roles = match parse_role_names(&req.roles) {
        Ok(rs) => rs,
        Err(e) => return Err(e),
    };
    if roles.len() == 0 {
        return Err(owned("node must specify at least one role"));
    }
    let name = if req.name.as_str().is_empty() {
        let mut cs: Vec<char> = Vec::new();
        push_str(&mut cs, "node-");
        push_decimal(&mut cs, req.id as u128);
        string_from_chars(cs.as_slice())
    } else {
        req.name
    };
    Ok(Node {
        id: req.id,
        name,
        tags: req.tags,
        cpu_total: 0,
        memory_total: 0,
        cpu_reserved: 0,
        memory_reserved: 0,
        yardable_cpu: 0,
        yardable_memory: 0,
        running_piglets: Vec::new(),
        roles,
        api_addr: req.api_addr,
        joined_at: String::new(),
    })
}

/// The role names of `roles`, in order.
pub open spec fn node_role_texts(roles: Seq<NodeRole>) -> Seq<Seq<char>> {
    roles.map_values(|r: NodeRole| node_role_text(r))
}

fn node_role_names(roles: &Vec<NodeRole>) -> (r: Vec<String>)
    ensures
        strings_view(r@) == node_role_texts(roles@),
{
    let mut r: Vec<String> = Vec::new();
    let mut i: usize = 0;
    while i < roles.len()
        invariant
            i <= roles.len(),
            strings_view(r@) == node_role_texts(roles@.take(i as int)),
        decreases roles.len() - i,
    {
        let t = roles[i].to_text();
        let ghost before = strings_view(r@);
        r.push(t);
        proof {
            assert(strings_view(r@) =~= before.push(node_role_text(roles@[i as int])));
            assert(node_role_texts(roles@.take(i + 1)) =~= node_role_texts(roles@.take(i as int)).push(
                node_role_text(roles@[i as int]),
            ));
        }
        i = i + 1;
    }
    assert(roles@.take(i as int) =~= roles@);
    r
}

/// The wire form of a node: its roles by lowercase name, primary exactly
/// when its id is `primary_id`.
pub fn to_proto_node(node: Node, primary_id: Option<u64>) -> (p: ProtoNode)
    ensures
        p.id == node.id,
        p.name == node.name,
        p.api_addr == node.api_addr,
        strings_view(p.roles@) == node_role_texts(node.roles@),
        p.tags == node.tags,
        p.joined_at == node.joined_at,
        p.is_primary == (primary_id == Some(node.id)),
{
    let roles = node_role_names(&node.roles);
    let is_primary = match primary_id {
        Some(p) => p == node.id,
        None => false,
    };
    ProtoNode {
        id: node.id,
        name: node.name,
        api_addr: node.api_addr,
        roles,
        tags: node.tags,
        joined_at: node.joined_at,
        is_primary,
    }
}

/// Whether `p` is the wire form of `n`, primary exactly when its id is
/// `primary_id`.
pub open spec fn is_proto_of(p: ProtoNode, n: Node, primary_id: Option<u64>) -> bool {
    &&& p.id == n.id
    &&& p.name == n.name
    &&& p.api_addr == n.api_addr
    &&& strings_view(p.roles@) == node_role_texts(n.roles@)
    &&& p.tags == n.tags
    &&& p.joined_at == n.joined_at
    &&& p.is_primary == (primary_id == Some(n.id))
}

/// The wire forms of `nodes`, in order, the one with id `primary_id`
/// marked primary.
pub fn to_proto_nodes(nodes: Vec<Node>, primary_id: Option<u64>) -> (r: Vec<ProtoNode>)
    ensures
        r@.len() == nodes@.len(),
        forall|i: int| 0 <= i < r@.len() ==> is_proto_of(#[trigger] r@[i], nodes@[i], primary_id),
{
    let ghost all = nodes@;
    let mut rest = nodes;
    let mut r: Vec<ProtoNode> = Vec::new();
    while rest.len() > 0
        invariant
            r@.len() + rest@.len() == all.len(),
            rest@ == all.subrange(r@.len() as int, all.len() as int),
            forall|i: int| 0 <= i < r@.len() ==> is_proto_of(#[trigger] r@[i], all[i], primary_id),
        decreases rest.len(),
    {
        let n = rest.remove(0);
        let ghost k = r@.len();
        proof {
            assert(n == all[k as int]);
        }
        r.push(to_proto_node(n, primary_id));
        proof {
            assert(rest@ =~= all.subrange(r@.len() as int, all.len() as int));
        }
    }
    r
}

/// The request by which the node `n` asks a peer to let it join: its id,
/// name, api address and tags, and its roles by lowercase name.
pub fn node_join_request(n: &Node) -> (r: JoinReq)
    ensures
        r.id == n.id,
        r.name@ == n.name@,
        r.api_addr@ == n.api_addr@,
        strings_view(r.roles@) == node_role_texts(n.roles@),
        r.tags@ == n.tags@,
{
    JoinReq {
        id: n.id,
        name: n.name.clone(),
        api_addr: n.api_addr.clone(),
        roles: node_role_names(&n.roles),
        tags: n.tags.clone(),
    }
}

/// The roles a remote node reports, each read as `from_remote` reads it.
pub open spec fn remote_roles(ss: Seq<Seq<char>>) -> Seq<NodeRole> {
    ss.map_values(|s: Seq<char>| if lowercase_of(s) == "server"@ { NodeRole::Server } else { NodeRole::Worker })
}

/// A server node that a peer reported on joining, as this node keeps it:
/// its identity, roles (`server` in any case is a server, anything else a
/// worker), tags and join time, with no resources and no workloads.
pub fn node_from_remote(p: ProtoNode) -> (n: Node)
    ensures
        n.id == p.id,
        n.name == p.name,
        n.api_addr == p.api_addr,
        n.roles@ == remote_roles(strings_view(p.roles@)),
        n.tags == p.tags,
        n.joined_at == p.joined_at,
        n.cpu_total == 0 && n.memory_total == 0 && n.cpu_reserved == 0 && n.memory_reserved == 0,
        n.yardable_cpu == 0 && n.yardable_memory == 0,
        n.running_piglets@.len() == 0,
{
    let mut roles: Vec<NodeRole> = Vec::new();
    let mut i: usize = 0;
    while i < p.roles.len()
        invariant
            i <= p.roles.len(),
            roles@ == remote_roles(strings_view(p.roles@)).take(i as int),
        decreases p.roles.len() - i,
    {
        let r = NodeRole::from_remote(p.roles[i].as_str());
        roles.push(r);
        i = i + 1;
        assert(roles@ =~= remote_roles(strings_view(p.roles@)).take(i as int));
    }
    assert(roles@ =~= remote_roles(strings_view(p.roles@)));
    Node {
        id: p.id,
        name: p.name,
        tags: p.tags,
        cpu_total: 0,
        memory_total: 0,
        cpu_reserved: 0,
        memory_reserved: 0,
        yardable_cpu: 0,
        yardable_memory: 0,
        running_piglets: Vec::new(),
        roles,
        api_addr: p.api_addr,
        joined_at: p.joined_at,
    }
}

} // verus!
