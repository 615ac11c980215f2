//! Crofts: the machines of the ranch, their roles, and their identity.

use vstd::prelude::*;
use crate::croft::resources::CroftResources;
use crate::text::{all_ascii, ascii_lower_char, lower_trimmed, lowercase_of, owned, trim};

verus! {

/// The role a croft plays in the ranch.
#[derive(Clone, Copy, Debug, PartialEq, Eq, Structural)]
pub enum CroftRole {
    /// Takes part in raft consensus and holds the control-plane store.
    Server,
    /// Runs the workloads scheduled on it.
    Worker,
}

/// How a croft role prints.
pub open spec fn croft_role_text(r: CroftRole) -> Seq<char> {
    match r {
        CroftRole::Server => "server"@,
        CroftRole::Worker => "worker"@,
    }
}

/// The error for a role name that is neither `server` nor `worker`; it
/// quotes the name as lowercased and trimmed.
pub open spec fn unknown_croft_role(word: Seq<char>) -> Seq<char> {
    "Unknown Croft role '"@ + word + "'. Expected 'server' or 'worker'."@
}

/// How a role name parses, given its trimmed and lowercased form `word`.
pub open spec fn croft_role_from_word(word: Seq<char>) -> Result<CroftRole, Seq<char>> {
    if word == "server"@ {
        Ok(CroftRole::Server)
    } else if word == "worker"@ {
        Ok(CroftRole::Worker)
    } else {
        Err(unknown_croft_role(word))
    }
}

/// How the role name `s` parses: ignoring surrounding whitespace and case.
pub open spec fn parse_croft_role(s: Seq<char>) -> Result<CroftRole, Seq<char>> {
    croft_role_from_word(lowercase_of(trim(s)))
}

/// How an ASCII role name parses.
pub open spec fn parse_croft_role_ascii(s: Seq<char>) -> Result<CroftRole, Seq<char>> {
    croft_role_from_word(trim(s).map_values(|c: char| ascii_lower_char(c)))
}

/// A parse outcome with its error as plain text.
pub open spec fn role_result_view<R>(r: Result<R, String>) -> Result<R, Seq<char>> {
    match r {
        Ok(x) => Ok(x),
        Err(e) => Err(e@),
    }
}

impl CroftRole {
    /// The role's name: `server` or `worker`.
    pub fn to_text(&self) -> (r: String)
        ensures
            r@ == croft_role_text(*self),
    {
        match self {
            CroftRole::Server => owned("server"),
            CroftRole::Worker => owned("worker"),
        }
    }

    /// Parses a role name, ignoring surrounding whitespace and case.
    pub fn parse(s: &str) -> (r: Result<CroftRole, String>)
        ensures
            role_result_view(r) == parse_croft_role(s@),
            all_ascii(trim(s@)) ==> role_result_view(r) == parse_croft_role_ascii(s@),
    {
        let w = lower_trimmed(s);
        if w == owned("server") {
            Ok(CroftRole::Server)
        } else if w == owned("worker") {
            Ok(CroftRole::Worker)
        } else {
            let msg = owned("Unknown Croft role '").concat(w.as_str()).concat("'. Expected 'server' or 'worker'.");
            Err(msg)
        }
    }
}

impl std::str::FromStr for CroftRole {
    type Err = String;

    fn from_str(s: &str) -> (r: Result<Self, Self::Err>)
        ensures
            role_result_view(r) == parse_croft_role(s@),
            all_ascii(trim(s@)) ==> role_result_view(r) == parse_croft_role_ascii(s@),
    {
        CroftRole::parse(s)
    }
}

/// A croft's identity and metadata, as stored in the Barn.
#[derive(Clone, Debug, PartialEq, Eq, Default)]
pub struct Croft {
    pub id: u64,
    pub name: String,
    pub addr: String,
    pub roles: Vec<CroftRole>,
    pub tags: Vec<String>,
    pub joined_at: String,
    pub resources: CroftResources,
}

/// `roles` has `r`.
pub open spec fn has_role<R>(roles: Seq<R>, r: R) -> bool {
    exists|i: int| 0 <= i < roles.len() && roles[i] == r
}

fn roles_contain(roles: &Vec<CroftRole>, r: CroftRole) -> (b: bool)
    ensures
        b == has_role(roles@, r),
{
    let mut i: usize = 0;
    while i < roles.len()
        invariant
            i <= roles.len(),
            forall|j: int| 0 <= j < i ==> roles@[j] != r,
        decreases roles.len() - i,
    {
        if roles[i] == r {
            return true;
        }
        i = i + 1;
    }
    false
}

impl Croft {
    /// Whether the croft has the server role.
    pub fn is_server(&self) -> (b: bool)
        ensures
            b == has_role(self.roles@, CroftRole::Server),
    {
        roles_contain(&self.roles, CroftRole::Server)
    }

    /// Whether the croft has the worker role.
    pub fn is_worker(&self) -> (b: bool)
        ensures
            b == has_role(self.roles@, CroftRole::Worker),
    {
        roles_contain(&self.roles, CroftRole::Worker)
    }
}

} // verus!
