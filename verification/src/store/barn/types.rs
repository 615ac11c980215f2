//! Data carried through the Barn's raft log and state machine: log ids,
//! votes, cluster membership, log entries and the application actions
//! they hold, as plain values.

use vstd::prelude::*;
use crate::store::table::{copy_bytes};

verus! {

/// Identifies a log entry: the term and node of the leader that proposed
/// it, and its position in the log.
#[derive(Clone, Copy, Debug, PartialEq, Eq, Structural)]
pub struct LogId {
    pub term: u64,
    pub node_id: u64,
    pub index: u64,
}

/// A vote cast for (or by) a would-be leader in some term.
#[derive(Clone, Copy, Debug, PartialEq, Eq, Structural)]
pub struct Vote {
    pub term: u64,
    pub node_id: u64,
    pub committed: bool,
}

impl Vote {
    /// A vote, not yet committed, for `node_id` in `term`.
    pub fn new(term: u64, node_id: u64) -> (v: Self)
        ensures
            v == (Vote { term, node_id, committed: false }),
    {
        Vote { term, node_id, committed: false }
    }
}

impl LogId {
    /// The id of entry `index` proposed by `node_id` in `term`.
    pub fn new(term: u64, node_id: u64, index: u64) -> (l: Self)
        ensures
            l == (LogId { term, node_id, index }),
    {
        LogId { term, node_id, index }
    }
}

/// Whether a raft node votes (and so counts toward a quorum) or only
/// receives the log.
#[derive(Clone, Copy, Debug, PartialEq, Eq, Structural)]
pub enum NodeRole {
    /// Receives every entry but neither votes nor counts toward commits.
    Learner,
    /// Takes part in elections and in committing entries.
    Voter,
}

impl NodeRole {
    /// The role a node has when none is given: `Learner`.
    pub fn default_role() -> (r: Self)
        ensures
            r == NodeRole::Learner,
    {
        NodeRole::Learner
    }
}

/// A raft node of the Barn.
#[derive(Clone, Debug, PartialEq, Eq)]
pub struct Node {
    pub id: u64,
    pub name: String,
    pub api_addr: String,
    pub role: NodeRole,
    pub is_leader: bool,
}

/// A raft node as plain values.
pub struct NodeView {
    pub id: u64,
    pub name: Seq<char>,
    pub api_addr: Seq<char>,
    pub role: NodeRole,
    pub is_leader: bool,
}

impl View for Node {
    type V = NodeView;

    open spec fn view(&self) -> NodeView {
        NodeView {
            id: self.id,
            name: self.name@,
            api_addr: self.api_addr@,
            role: self.role,
            is_leader: self.is_leader,
        }
    }
}

impl Node {
    /// A copy of this node.
    pub fn copy(&self) -> (r: Self)
        ensures
            r@ == self@,
    {
        Node {
            id: self.id,
            name: self.name.clone(),
            api_addr: self.api_addr.clone(),
            role: self.role,
            is_leader: self.is_leader,
        }
    }

    /// Whether two nodes agree on every field.
    pub fn same_as(&self, other: &Node) -> (b: bool)
        ensures
            b == (self@ == other@),
    {
        self.id == other.id && self.name == other.name && self.api_addr == other.api_addr
            && self.role == other.role && self.is_leader == other.is_leader
    }
}

/// Operations every node kind of a replicated store offers.
pub trait SpreadNode: Sized {
    /// A node with the given identity.
    fn new(id: u64, name: String, api_addr: String) -> Self;

    /// The node's id.
    fn id(&self) -> u64;

    /// The node's name.
    fn name(&self) -> String;

    /// The address of the node's api.
    fn api_addr(&self) -> String;
}

impl SpreadNode for Node {
    /// A voter that is not (yet) leader.
    fn new(id: u64, name: String, api_addr: String) -> (n: Self)
        ensures
            n@ == (NodeView {
                id,
                name: name@,
                api_addr: api_addr@,
                role: NodeRole::Voter,
                is_leader: false,
            }),
    {
        Node { id, name, api_addr, role: NodeRole::Voter, is_leader: false }
    }

    fn id(&self) -> (r: u64)
        ensures
            r == self.id,
    {
        self.id
    }

    fn name(&self) -> (r: String)
        ensures
            r@ == self.name@,
    {
        self.name.clone()
    }

    fn api_addr(&self) -> (r: String)
        ensures
            r@ == self.api_addr@,
    {
        self.api_addr.clone()
    }
}

/// A cluster membership: the voter sets of its (joint) configurations and
/// every member node by id, in id order.
#[derive(Clone, Debug, PartialEq, Eq)]
pub struct Membership {
    pub configs: Vec<Vec<u64>>,
    pub nodes: Vec<(u64, Node)>,
}

/// A membership as plain values.
pub struct MembershipView {
    pub configs: Seq<Seq<u64>>,
    pub nodes: Seq<(u64, NodeView)>,
}

/// A member entry as plain values.
pub open spec fn member_view(e: (u64, Node)) -> (u64, NodeView) {
    (e.0, e.1@)
}

/// A voter set as plain values.
pub open spec fn config_view(c: Vec<u64>) -> Seq<u64> {
    c@
}

impl View for Membership {
    type V = MembershipView;

    open spec fn view(&self) -> MembershipView {
        MembershipView {
            configs: self.configs@.map_values(|c: Vec<u64>| config_view(c)),
            nodes: self.nodes@.map_values(|e: (u64, Node)| member_view(e)),
        }
    }
}

/// A membership with no configuration and no node.
pub open spec fn empty_membership() -> MembershipView {
    MembershipView { configs: Seq::empty(), nodes: Seq::empty() }
}

/// Every id that votes in some configuration of `m`.
pub open spec fn voter_ids(m: MembershipView) -> Set<u64> {
    Set::new(|id: u64| exists|c: int, j: int| 0 <= c < m.configs.len() && 0 <= j < m.configs[c].len() && m.configs[c][j] == id)
}

impl Membership {
    /// The membership with no configuration and no node.
    pub fn empty() -> (m: Self)
        ensures
            m@ == empty_membership(),
    {
        let m = Membership { configs: Vec::new(), nodes: Vec::new() };
        proof {
            assert(m@.configs =~= Seq::<Seq<u64>>::empty());
            assert(m@.nodes =~= Seq::<(u64, NodeView)>::empty());
        }
        m
    }

    /// A copy of this membership.
    pub fn copy(&self) -> (r: Self)
        ensures
            r@ == self@,
    {
        let mut configs: Vec<Vec<u64>> = Vec::new();
        let mut i: usize = 0;
        while i < self.configs.len()
            invariant
                i <= self.configs.len(),
                configs@.len() == i,
                forall|j: int| 0 <= j < i ==> #[trigger] configs@[j]@ == self.configs@[j]@,
            decreases self.configs.len() - i,
        {
            let c = self.configs[i].clone();
            proof {
                assert(c@ =~= self.configs@[i as int]@);
            }
            configs.push(c);
            i = i + 1;
        }
        let mut nodes: Vec<(u64, Node)> = Vec::new();
        let mut k: usize = 0;
        while k < self.nodes.len()
            invariant
                k <= self.nodes.len(),
                nodes@.len() == k,
                forall|j: int| 0 <= j < k ==> member_view(#[trigger] nodes@[j]) == member_view(self.nodes@[j]),
            decreases self.nodes.len() - k,
        {
            let (id, n) = (self.nodes[k].0, self.nodes[k].1.copy());
            nodes.push((id, n));
            k = k + 1;
        }
        let r = Membership { configs, nodes };
        proof {
            assert(r@.configs =~= self@.configs);
            assert(r@.nodes =~= self@.nodes);
        }
        r
    }
}

/// A membership together with the id of the log entry that set it.
#[derive(Clone, Debug, PartialEq, Eq)]
pub struct StoredMembership {
    pub log_id: Option<LogId>,
    pub membership: Membership,
}

/// A stored membership as plain values.
pub struct StoredMembershipView {
    pub log_id: Option<LogId>,
    pub membership: MembershipView,
}

impl View for StoredMembership {
    type V = StoredMembershipView;

    open spec fn view(&self) -> StoredMembershipView {
        StoredMembershipView { log_id: self.log_id, membership: self.membership@ }
    }
}

/// The stored membership of a node that has applied no membership yet.
pub open spec fn default_stored_membership() -> StoredMembershipView {
    StoredMembershipView { log_id: None, membership: empty_membership() }
}

impl StoredMembership {
    /// `membership`, as set by the entry with id `log_id`.
    pub fn new(log_id: Option<LogId>, membership: Membership) -> (s: Self)
        ensures
            s@ == (StoredMembershipView { log_id, membership: membership@ }),
    {
        StoredMembership { log_id, membership }
    }

    /// The stored membership of a node that has applied no membership yet.
    pub fn empty() -> (s: Self)
        ensures
            s@ == default_stored_membership(),
    {
        StoredMembership { log_id: None, membership: Membership::empty() }
    }

    /// A copy of this stored membership.
    pub fn copy(&self) -> (r: Self)
        ensures
            r@ == self@,
    {
        StoredMembership { log_id: self.log_id, membership: self.membership.copy() }
    }
}

/// A change to the application data, proposed through the raft log.
#[derive(Clone, Debug, PartialEq, Eq)]
pub enum Action {
    /// Writes `value` under `key`, whether or not the key exists.
    Put { key: String, value: Vec<u8> },
    /// Removes `key`; not an error when it is absent.
    Delete { key: String },
    /// Replaces the value of `key`, which must already exist.
    Patch { key: String, value: Vec<u8> },
}

/// An action as plain values.
pub enum ActionView {
    Put { key: Seq<char>, value: Seq<u8> },
    Delete { key: Seq<char> },
    Patch { key: Seq<char>, value: Seq<u8> },
}

impl View for Action {
    type V = ActionView;

    open spec fn view(&self) -> ActionView {
        match self {
            Action::Put { key, value } => ActionView::Put { key: key@, value: value@ },
            Action::Delete { key } => ActionView::Delete { key: key@ },
            Action::Patch { key, value } => ActionView::Patch { key: key@, value: value@ },
        }
    }
}

/// A read served by the state machine.
#[derive(Clone, Debug, PartialEq, Eq)]
pub enum ReadAction {
    /// The value of `key`; `allow_stale` lets any node answer.
    Get { key: String, allow_stale: bool },
    /// Every entry whose key starts with `prefix` (every entry when `None`).
    List { prefix: Option<String> },
}

/// The answer to a `ReadAction`.
#[derive(Clone, Debug, PartialEq, Eq)]
pub enum ReadResult {
    GetResult(Option<Vec<u8>>),
    ListResult(Vec<(String, Vec<u8>)>),
    Error(String),
}

/// The outcome of applying one log entry.
#[derive(Clone, Debug, PartialEq, Eq)]
pub enum ActionResult {
    Success,
    Error(String),
}

/// The outcome of applying one log entry, as plain values.
pub enum ActionResultView {
    Success,
    Error(Seq<char>),
}

impl View for ActionResult {
    type V = ActionResultView;

    open spec fn view(&self) -> ActionResultView {
        match self {
            ActionResult::Success => ActionResultView::Success,
            ActionResult::Error(m) => ActionResultView::Error(m@),
        }
    }
}

/// What a log entry carries.
#[derive(Clone, Debug, PartialEq, Eq)]
pub enum EntryPayload {
    /// The no-op a new leader commits at the start of its term.
    Blank,
    /// An application action.
    Normal(Action),
    /// A new cluster membership.
    Membership(Membership),
}

/// A payload as plain values.
pub enum EntryPayloadView {
    Blank,
    Normal(ActionView),
    Membership(MembershipView),
}

impl View for EntryPayload {
    type V = EntryPayloadView;

    open spec fn view(&self) -> EntryPayloadView {
        match self {
            EntryPayload::Blank => EntryPayloadView::Blank,
            EntryPayload::Normal(a) => EntryPayloadView::Normal(a@),
            EntryPayload::Membership(m) => EntryPayloadView::Membership(m@),
        }
    }
}

/// A raft log entry.
#[derive(Clone, Debug, PartialEq, Eq)]
pub struct Entry {
    pub log_id: LogId,
    pub payload: EntryPayload,
}

/// A log entry as plain values.
pub struct EntryView {
    pub log_id: LogId,
    pub payload: EntryPayloadView,
}

impl View for Entry {
    type V = EntryView;

    open spec fn view(&self) -> EntryView {
        EntryView { log_id: self.log_id, payload: self.payload@ }
    }
}

impl Action {
    /// A copy of this action.
    pub fn copy(&self) -> (r: Self)
        ensures
            r@ == self@,
    {
        match self {
            Action::Put { key, value } => Action::Put { key: key.clone(), value: copy_bytes(value) },
            Action::Delete { key } => Action::Delete { key: key.clone() },
            Action::Patch { key, value } => Action::Patch {
                key: key.clone(),
                value: copy_bytes(value),
            },
        }
    }
}

impl Entry {
    /// A copy of this entry.
    pub fn copy(&self) -> (r: Self)
        ensures
            r@ == self@,
    {
        let payload = match &self.payload {
            EntryPayload::Blank => EntryPayload::Blank,
            EntryPayload::Normal(a) => EntryPayload::Normal(a.copy()),
            EntryPayload::Membership(m) => EntryPayload::Membership(m.copy()),
        };
        Entry { log_id: self.log_id, payload }
    }

    /// A blank entry with id `log_id`.
    pub fn blank(log_id: LogId) -> (e: Self)
        ensures
            e@ == (EntryView { log_id, payload: EntryPayloadView::Blank }),
    {
        Entry { log_id, payload: EntryPayload::Blank }
    }
}

/// Describes a snapshot: the last log entry and membership it includes,
/// and an id telling it apart from other snapshots.
#[derive(Clone, Debug, PartialEq, Eq)]
pub struct SnapshotMeta {
    pub last_log_id: Option<LogId>,
    pub last_membership: StoredMembership,
    pub snapshot_id: String,
}

/// Snapshot metadata as plain values.
pub struct SnapshotMetaView {
    pub last_log_id: Option<LogId>,
    pub last_membership: StoredMembershipView,
    pub snapshot_id: Seq<char>,
}

impl View for SnapshotMeta {
    type V = SnapshotMetaView;

    open spec fn view(&self) -> SnapshotMetaView {
        SnapshotMetaView {
            last_log_id: self.last_log_id,
            last_membership: self.last_membership@,
            snapshot_id: self.snapshot_id@,
        }
    }
}

impl SnapshotMeta {
    /// A copy of this metadata.
    pub fn copy(&self) -> (r: Self)
        ensures
            r@ == self@,
    {
        SnapshotMeta {
            last_log_id: self.last_log_id,
            last_membership: self.last_membership.copy(),
            snapshot_id: self.snapshot_id.clone(),
        }
    }
}

/// A snapshot: its metadata and the encoded application data.
#[derive(Clone, Debug, PartialEq, Eq)]
pub struct Snapshot {
    pub meta: SnapshotMeta,
    pub data: Vec<u8>,
}

} // verus!
