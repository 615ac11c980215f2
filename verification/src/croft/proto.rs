//! The messages of the croft api, and how they convert to and from crofts.

use vstd::prelude::*;
use crate::croft::resources::CroftResources;
use crate::croft::types::{croft_role_text, parse_croft_role, parse_croft_role_ascii, role_result_view, Croft, CroftRole};
use crate::text::all_ascii;
use crate::text::{is_blank, owned, trim, trim_str};

verus! {

/// Resources as they travel on the wire.
#[derive(Clone, Copy, Debug, PartialEq, Eq, Default, Structural)]
pub struct ProtoCroftResources {
    pub cpu_total: u64,
    pub cpu_yardable: u64,
    pub cpu_reserved: u64,
    pub mem_total: u64,
    pub mem_yardable: u64,
    pub mem_reserved: u64,
}

/// A croft's request to join the ranch.
#[derive(Clone, Debug, PartialEq, Eq, Default)]
pub struct JoinReq {
    pub id: u64,
    pub name: String,
    pub addr: String,
    pub roles: Vec<String>,
    pub tags: Vec<String>,
    pub resources: Option<ProtoCroftResources>,
}

/// A croft as it travels on the wire.
#[derive(Clone, Debug, PartialEq, Eq, Default)]
pub struct ProtoCroft {
    pub id: u64,
    pub name: String,
    pub addr: String,
    pub roles: Vec<String>,
    pub tags: Vec<String>,
    pub joined_at: String,
    pub is_primary: bool,
    pub resources: Option<ProtoCroftResources>,
}

/// A status request for the croft named `name`, with live telemetry when
/// `live`.
#[derive(Clone, Debug, PartialEq, Eq, Default)]
pub struct StatusReq {
    pub name: String,
    pub live: bool,
}

impl ProtoCroftResources {
    /// The wire form of `r`.
    pub fn from_resources(r: CroftResources) -> (p: Self)
        ensures
            p == (ProtoCroftResources {
                cpu_total: r.cpu_total,
                cpu_yardable: r.cpu_yardable,
                cpu_reserved: r.cpu_reserved,
                mem_total: r.mem_total,
                mem_yardable: r.mem_yardable,
                mem_reserved: r.mem_reserved,
            }),
    {
        ProtoCroftResources {
            cpu_total: r.cpu_total,
            cpu_yardable: r.cpu_yardable,
            cpu_reserved: r.cpu_reserved,
            mem_total: r.mem_total,
            mem_yardable: r.mem_yardable,
            mem_reserved: r.mem_reserved,
        }
    }
}

/// The resources a wire form stands for.
pub open spec fn resources_of(p: ProtoCroftResources) -> CroftResources {
    CroftResources {
        cpu_total: p.cpu_total,
        cpu_yardable: p.cpu_yardable,
        cpu_reserved: p.cpu_reserved,
        mem_total: p.mem_total,
        mem_yardable: p.mem_yardable,
        mem_reserved: p.mem_reserved,
    }
}

/// The resources an optional wire form stands for: zero when absent.
pub open spec fn resources_or_default(p: Option<ProtoCroftResources>) -> CroftResources {
    match p {
        Some(x) => resources_of(x),
        None => CroftResources {
            cpu_total: 0,
            cpu_yardable: 0,
            cpu_reserved: 0,
            mem_total: 0,
            mem_yardable: 0,
            mem_reserved: 0,
        },
    }
}

impl CroftResources {
    /// The resources a wire form stands for.
    pub fn from_proto(p: ProtoCroftResources) -> (r: Self)
        ensures
            r == resources_of(p),
    {
        CroftResources {
            cpu_total: p.cpu_total,
            cpu_yardable: p.cpu_yardable,
            cpu_reserved: p.cpu_reserved,
            mem_total: p.mem_total,
            mem_yardable: p.mem_yardable,
            mem_reserved: p.mem_reserved,
        }
    }
}

fn resources_from_option(p: Option<ProtoCroftResources>) -> (r: CroftResources)
    ensures
        r == resources_or_default(p),
{
    match p {
        Some(x) => CroftResources::from_proto(x),
        None => CroftResources {
            cpu_total: 0,
            cpu_yardable: 0,
            cpu_reserved: 0,
            mem_total: 0,
            mem_yardable: 0,
            mem_reserved: 0,
        },
    }
}

/// Strings as plain values.
pub open spec fn strings_view(v: Seq<String>) -> Seq<Seq<char>> {
    v.map_values(|s: String| s@)
}

/// How a list of role names parses: all their roles, in order, or the
/// error of the first name that is not a role.
pub open spec fn parse_croft_roles(ss: Seq<Seq<char>>) -> Result<Seq<CroftRole>, Seq<char>>
    decreases ss.len(),
{
    if ss.len() == 0 {
        Ok(Seq::empty())
    } else {
        match parse_croft_roles(ss.drop_last()) {
            Err(e) => Err(e),
            Ok(rs) => match parse_croft_role(ss.last()) {
                Ok(r) => Ok(rs.push(r)),
                Err(e) => Err(e),
            },
        }
    }
}

/// How a list of ASCII role names parses.
pub open spec fn parse_croft_roles_ascii(ss: Seq<Seq<char>>) -> Result<Seq<CroftRole>, Seq<char>>
    decreases ss.len(),
{
    if ss.len() == 0 {
        Ok(Seq::empty())
    } else {
        match parse_croft_roles_ascii(ss.drop_last()) {
            Err(e) => Err(e),
            Ok(rs) => match parse_croft_role_ascii(ss.last()) {
                Ok(r) => Ok(rs.push(r)),
                Err(e) => Err(e),
            },
        }
    }
}

/// Every name of `ss`, trimmed, is ASCII.
pub open spec fn names_ascii(ss: Seq<Seq<char>>) -> bool {
    forall|i: int| 0 <= i < ss.len() ==> all_ascii(trim(#[trigger] ss[i]))
}

proof fn lemma_parse_roles_ascii_err(ss: Seq<Seq<char>>, n: int)
    requires
        0 <= n <= ss.len(),
        parse_croft_roles_ascii(ss.take(n)) is Err,
    ensures
        parse_croft_roles_ascii(ss) == parse_croft_roles_ascii(ss.take(n)),
    decreases ss.len() - n,
{
    if n < ss.len() {
        assert(ss.drop_last().take(n) =~= ss.take(n));
        lemma_parse_roles_ascii_err(ss.drop_last(), n);
    } else {
        assert(ss.take(n) =~= ss);
    }
}

/// Once a prefix of the names fails to parse, the whole list fails with the
/// same error.
proof fn lemma_parse_roles_err(ss: Seq<Seq<char>>, n: int)
    requires
        0 <= n <= ss.len(),
        parse_croft_roles(ss.take(n)) is Err,
    ensures
        parse_croft_roles(ss) == parse_croft_roles(ss.take(n)),
    decreases ss.len() - n,
{
    if n < ss.len() {
        assert(ss.drop_last().take(n) =~= ss.take(n));
        lemma_parse_roles_err(ss.drop_last(), n);
    } else {
        assert(ss.take(n) =~= ss);
    }
}

/// Parses role names, stopping at the first one that is not a role.
pub fn parse_roles(names: &Vec<String>) -> (r: Result<Vec<CroftRole>, String>)
    ensures
        match r {
            Ok(rs) => parse_croft_roles(strings_view(names@)) == Ok::<Seq<CroftRole>, Seq<char>>(rs@),
            Err(e) => parse_croft_roles(strings_view(names@)) == Err::<Seq<CroftRole>, Seq<char>>(e@),
        },
        names_ascii(strings_view(names@)) ==> match r {
            Ok(rs) => parse_croft_roles_ascii(strings_view(names@)) == Ok::<Seq<CroftRole>, Seq<char>>(rs@),
            Err(e) => parse_croft_roles_ascii(strings_view(names@)) == Err::<Seq<CroftRole>, Seq<char>>(e@),
        },
{
    let ghost ss = strings_view(names@);
    let mut roles: Vec<CroftRole> = Vec::new();
    let mut i: usize = 0;
    proof {
        assert(ss.take(0) =~= Seq::<Seq<char>>::empty());
    }
    while i < names.len()
        invariant
            i <= names.len(),
            ss == strings_view(names@),
            parse_croft_roles(ss.take(i as int)) == Ok::<Seq<CroftRole>, Seq<char>>(roles@),
            names_ascii(ss) ==> parse_croft_roles_ascii(ss.take(i as int)) == Ok::<Seq<CroftRole>, Seq<char>>(roles@),
        decreases names.len() - i,
    {
        let parsed = CroftRole::parse(names[i].as_str());
        proof {
            assert(ss.take(i + 1).drop_last() =~= ss.take(i as int));
            assert(ss.take(i + 1).last() == names@[i as int]@);
        }
        match parsed {
            Ok(role) => {
                proof {
                    if names_ascii(ss) {
                        assert(all_ascii(trim(ss[i as int])));
                    }
                }
                roles.push(role);
            },
            Err(e) => {
                proof {
                    assert(role_result_view(Err::<CroftRole, String>(e)) == parse_croft_role(names@[i as int]@));
                    lemma_parse_roles_err(ss, i + 1);
                    if names_ascii(ss) {
                        assert(all_ascii(trim(ss[i as int])));
                        lemma_parse_roles_ascii_err(ss, i + 1);
                    }
                }
                return Err(e);
            },
        }
        i = i + 1;
    }
    proof {
        assert(ss.take(i as int) =~= ss);
    }
    Ok(roles)
}

/// The role names of `roles`, in order.
pub open spec fn croft_role_texts(roles: Seq<CroftRole>) -> Seq<Seq<char>> {
    roles.map_values(|r: CroftRole| croft_role_text(r))
}

/// The names of `roles`, in order.
pub fn role_names(roles: &Vec<CroftRole>) -> (r: Vec<String>)
    ensures
        strings_view(r@) == croft_role_texts(roles@),
{
    let mut r: Vec<String> = Vec::new();
    let mut i: usize = 0;
    while i < roles.len()
        invariant
            i <= roles.len(),
            strings_view(r@) == croft_role_texts(roles@.take(i as int)),
        decreases roles.len() - i,
    {
        let t = roles[i].to_text();
        let ghost before = strings_view(r@);
        r.push(t);
        proof {
            assert(strings_view(r@) =~= before.push(croft_role_text(roles@[i as int])));
            assert(croft_role_texts(roles@.take(i + 1)) =~= croft_role_texts(roles@.take(i as int)).push(
                croft_role_text(roles@[i as int]),
            ));
        }
        i = i + 1;
    }
    assert(roles@.take(i as int) =~= roles@);
    r
}

/// The error a join request is refused with, if it is refused: a blank name,
/// then a blank address, then the first role name that is not a role, then
/// no role at all.
pub open spec fn join_req_error(name: Seq<char>, addr: Seq<char>, roles: Seq<Seq<char>>) -> Option<Seq<char>> {
    if trim(name).len() == 0 {
        Some("Croft name cannot be empty"@)
    } else if trim(addr).len() == 0 {
        Some("Croft addr cannot be empty"@)
    } else {
        match parse_croft_roles(roles) {
            Err(e) => Some(e),
            Ok(rs) => if rs.len() == 0 {
                Some("Croft must have at least one role"@)
            } else {
                None
            },
        }
    }
}

/// The error a join request with ASCII role names is refused with (see
/// `join_req_error`), its roles parsed with ASCII case folding.
pub open spec fn join_req_error_ascii(name: Seq<char>, addr: Seq<char>, roles: Seq<Seq<char>>) -> Option<Seq<char>> {
    if trim(name).len() == 0 {
        Some("Croft name cannot be empty"@)
    } else if trim(addr).len() == 0 {
        Some("Croft addr cannot be empty"@)
    } else {
        match parse_croft_roles_ascii(roles) {
            Err(e) => Some(e),
            Ok(rs) => if rs.len() == 0 {
                Some("Croft must have at least one role"@)
            } else {
                None
            },
        }
    }
}

/// A croft join request is accepted only with a name and an address that
/// are not blank: a blank name is refused as such, and a named croft with a
/// blank address is refused for its address, whatever its roles.
pub proof fn law_croft_join_needs_name_and_address(name: Seq<char>, addr: Seq<char>, roles: Seq<Seq<char>>)
    ensures
        join_req_error(name, addr, roles) is None ==> trim(name).len() > 0 && trim(addr).len() > 0,
        join_req_error_ascii(name, addr, roles) is None ==> trim(name).len() > 0 && trim(addr).len() > 0,
        trim(name).len() > 0 && trim(addr).len() == 0 ==> join_req_error(name, addr, roles) == Some(
            "Croft addr cannot be empty"@,
        ) && join_req_error_ascii(name, addr, roles) == Some("Croft addr cannot be empty"@),
        trim(name).len() == 0 ==> join_req_error(name, addr, roles) == Some("Croft name cannot be empty"@)
            && join_req_error_ascii(name, addr, roles) == Some("Croft name cannot be empty"@),
{
}

impl Croft {
    /// The croft a join request describes, with name and address trimmed,
    /// its roles parsed, no join time yet, and zero resources when the
    /// request carries none; or why the request is refused.
    pub fn from_join_req(req: JoinReq) -> (r: Result<Croft, String>)
        ensures
            match r {
                Ok(c) => join_req_error(req.name@, req.addr@, strings_view(req.roles@)) is None
                    && c.id == req.id
                    && c.name@ == trim(req.name@)
                    && c.addr@ == trim(req.addr@)
                    && parse_croft_roles(strings_view(req.roles@)) == Ok::<Seq<CroftRole>, Seq<char>>(c.roles@)
                    && c.tags@ == req.tags@
                    && c.joined_at@ == Seq::<char>::empty()
                    && c.resources == resources_or_default(req.resources),
                Err(e) => join_req_error(req.name@, req.addr@, strings_view(req.roles@)) == Some(e@),
            },
            names_ascii(strings_view(req.roles@)) ==> match r {
                Ok(c) => join_req_error_ascii(req.name@, req.addr@, strings_view(req.roles@)) is None
                    && parse_croft_roles_ascii(strings_view(req.roles@)) == Ok::<Seq<CroftRole>, Seq<char>>(c.roles@),
                Err(e) => join_req_error_ascii(req.name@, req.addr@, strings_view(req.roles@)) == Some(e@),
            },
            r is Ok ==> trim(req.name@).len() > 0 && trim(req.addr@).len() > 0,
            r matches Ok(c) ==> c.name@.len() > 0 && c.addr@.len() > 0 && c.roles@.len() > 0,
            trim(req.name@).len() == 0 ==> (r matches Err(e) && e@ == "Croft name cannot be empty"@),
            trim(req.name@).len() > 0 && trim(req.addr@).len() == 0 ==> (r matches Err(e) && e@ == "Croft addr cannot be empty"@),
    {
        proof {
            reveal_strlit("Croft name cannot be empty");
            reveal_strlit("Croft addr cannot be empty");
        }
        if is_blank(req.name.as_str()) {
            return Err(owned("Croft name cannot be empty"));
        }
        if is_blank(req.addr.as_str()) {
            return Err(owned("Croft addr cannot be empty"));
        }
        let roles = match parse_roles(&req.roles) {
            Ok(rs) => rs,
            Err(e) => return Err(e),
        };
        if roles.len() == 0 {
            return Err(owned("Croft must have at least one role"));
        }
        Ok(Croft {
            id: req.id,
            name: trim_str(req.name.as_str()),
            addr: trim_str(req.addr.as_str()),
            roles,
            tags: req.tags,
            joined_at: String::new(),
            resources: resources_from_option(req.resources),
        })
    }

    /// The croft a wire form stands for, its roles parsed; fails with the
    /// error of the first role name that is not a role.
    pub fn from_proto(p: ProtoCroft) -> (r: Result<Croft, String>)
        ensures
            match r {
                Ok(c) => parse_croft_roles(strings_view(p.roles@)) == Ok::<Seq<CroftRole>, Seq<char>>(c.roles@)
                    && (names_ascii(strings_view(p.roles@)) ==> parse_croft_roles_ascii(strings_view(p.roles@))
                        == Ok::<Seq<CroftRole>, Seq<char>>(c.roles@))
                    && c.id == p.id
                    && c.name == p.name
                    && c.addr == p.addr
                    && c.tags == p.tags
                    && c.joined_at == p.joined_at
                    && c.resources == resources_or_default(p.resources),
                Err(e) => parse_croft_roles(strings_view(p.roles@)) == Err::<Seq<CroftRole>, Seq<char>>(e@)
                    && (names_ascii(strings_view(p.roles@)) ==> parse_croft_roles_ascii(strings_view(p.roles@))
                        == Err::<Seq<CroftRole>, Seq<char>>(e@)),
            },
    {
        let roles = match parse_roles(&p.roles) {
            Ok(rs) => rs,
            Err(e) => return Err(e),
        };
        Ok(Croft {
            id: p.id,
            name: p.name,
            addr: p.addr,
            roles,
            tags: p.tags,
            joined_at: p.joined_at,
            resources: resources_from_option(p.resources),
        })
    }
}

impl ProtoCroft {
    /// The wire form of a croft: its roles by name, not primary, with its
    /// resources.
    pub fn from_croft(c: Croft) -> (p: ProtoCroft)
        ensures
            p.id == c.id,
            p.name == c.name,
            p.addr == c.addr,
            strings_view(p.roles@) == croft_role_texts(c.roles@),
            p.tags == c.tags,
            p.joined_at == c.joined_at,
            !p.is_primary,
            p.resources == Some(ProtoCroftResources::from_resources_spec(c.resources)),
    {
        let roles = role_names(&c.roles);
        ProtoCroft {
            id: c.id,
            name: c.name,
            addr: c.addr,
            roles,
            tags: c.tags,
            joined_at: c.joined_at,
            is_primary: false,
            resources: Some(ProtoCroftResources::from_resources(c.resources)),
        }
    }
}

impl ProtoCroftResources {
    /// The wire form of `r`, as a plain value.
    pub open spec fn from_resources_spec(r: CroftResources) -> ProtoCroftResources {
        ProtoCroftResources {
            cpu_total: r.cpu_total,
            cpu_yardable: r.cpu_yardable,
            cpu_reserved: r.cpu_reserved,
            mem_total: r.mem_total,
            mem_yardable: r.mem_yardable,
            mem_reserved: r.mem_reserved,
        }
    }
}

} // verus!
