//! Plots: a croft's parcel of compute, its roles, and the plot api's
//! messages.

use vstd::prelude::*;
use crate::croft::proto::{names_ascii, strings_view};
use crate::croft::types::has_role;
use crate::text::{all_ascii, ascii_lower_char, is_blank, lower_trimmed, lowercase_of, owned, trim, trim_end, trim_start, trim_str};

verus! {

/// The role a plot plays.
#[derive(Clone, Copy, Debug, PartialEq, Eq, Structural)]
pub enum PlotRole {
    Server,
    Worker,
}

/// How a plot role prints.
pub open spec fn plot_role_text(r: PlotRole) -> Seq<char> {
    match r {
        PlotRole::Server => "server"@,
        PlotRole::Worker => "worker"@,
    }
}

/// How a role name parses, given its trimmed and lowercased form `word`.
pub open spec fn plot_role_from_word(word: Seq<char>) -> Result<PlotRole, Seq<char>> {
    if word == "server"@ {
        Ok(PlotRole::Server)
    } else if word == "worker"@ {
        Ok(PlotRole::Worker)
    } else {
        Err("Unknown Plot role '"@ + word + "'. Expected 'server' or 'worker'."@)
    }
}

/// How the role name `s` parses: ignoring surrounding whitespace and case.
pub open spec fn parse_plot_role(s: Seq<char>) -> Result<PlotRole, Seq<char>> {
    plot_role_from_word(lowercase_of(trim(s)))
}

/// A parse outcome with its error as plain text.
pub open spec fn plot_result_view(r: Result<PlotRole, String>) -> Result<PlotRole, Seq<char>> {
    match r {
        Ok(x) => Ok(x),
        Err(e) => Err(e@),
    }
}

impl PlotRole {
    /// The role's name: `server` or `worker`.
    pub fn to_text(&self) -> (r: String)
        ensures
            r@ == plot_role_text(*self),
    {
        match self {
            PlotRole::Server => owned("server"),
            PlotRole::Worker => owned("worker"),
        }
    }

    /// Parses a role name, ignoring surrounding whitespace and case.
    pub fn parse(s: &str) -> (r: Result<PlotRole, String>)
        ensures
            plot_result_view(r) == parse_plot_role(s@),
            all_ascii(trim(s@)) ==> plot_result_view(r) == plot_role_from_word(
                trim(s@).map_values(|c: char| ascii_lower_char(c)),
            ),
    {
        let w = lower_trimmed(s);
        if w == owned("server") {
            Ok(PlotRole::Server)
        } else if w == owned("worker") {
            Ok(PlotRole::Worker)
        } else {
            Err(owned("Unknown Plot role '").concat(w.as_str()).concat("'. Expected 'server' or 'worker'."))
        }
    }
}

impl std::str::FromStr for PlotRole {
    type Err = String;

    fn from_str(s: &str) -> (r: Result<Self, Self::Err>)
        ensures
            plot_result_view(r) == parse_plot_role(s@),
            all_ascii(trim(s@)) ==> plot_result_view(r) == plot_role_from_word(
                trim(s@).map_values(|c: char| ascii_lower_char(c)),
            ),
    {
        PlotRole::parse(s)
    }
}

/// A plot's identity, as stored in the Barn.
#[derive(Clone, Debug, PartialEq, Eq, Default)]
pub struct Plot {
    pub id: u64,
    pub name: String,
    pub addr: String,
    pub roles: Vec<PlotRole>,
    pub tags: Vec<String>,
    pub joined_at: String,
}

fn plot_roles_contain(roles: &Vec<PlotRole>, r: PlotRole) -> (b: bool)
    ensures
        b == has_role(roles@, r),
{
    let mut i: usize = 0;
    while i < roles.len()
        invariant
            i <= roles.len(),
            forall|j: int| 0 <= j < i ==> roles@[j] != r,
        decreases roles.len() - i,
    {
        if roles[i] == r {
            return true;
        }
        i = i + 1;
    }
    false
}

impl Plot {
    /// Whether the plot has the server role.
    pub fn is_server(&self) -> (b: bool)
        ensures
            b == has_role(self.roles@, PlotRole::Server),
    {
        plot_roles_contain(&self.roles, PlotRole::Server)
    }

    /// Whether the plot has the worker role.
    pub fn is_worker(&self) -> (b: bool)
        ensures
            b == has_role(self.roles@, PlotRole::Worker),
    {
        plot_roles_contain(&self.roles, PlotRole::Worker)
    }
}

/// A plot's request to join.
#[derive(Clone, Debug, PartialEq, Eq, Default)]
pub struct JoinReq {
    pub id: u64,
    pub name: String,
    pub addr: String,
    pub roles: Vec<String>,
    pub tags: Vec<String>,
}

/// A plot as it travels on the wire.
#[derive(Clone, Debug, PartialEq, Eq, Default)]
pub struct ProtoPlot {
    pub id: u64,
    pub name: String,
    pub addr: String,
    pub roles: Vec<String>,
    pub tags: Vec<String>,
    pub joined_at: String,
    pub is_primary: bool,
}

/// How a list of role names parses: all their roles, in order, or the
/// error of the first name that is not a role.
pub open spec fn parse_plot_roles(ss: Seq<Seq<char>>) -> Result<Seq<PlotRole>, Seq<char>>
    decreases ss.len(),
{
    if ss.len() == 0 {
        Ok(Seq::empty())
    } else {
        match parse_plot_roles(ss.drop_last()) {
            Err(e) => Err(e),
            Ok(rs) => match parse_plot_role(ss.last()) {
                Ok(r) => Ok(rs.push(r)),
                Err(e) => Err(e),
            },
        }
    }
}

/// How an ASCII role name parses: trimmed, with ASCII case folded.
pub open spec fn parse_plot_role_ascii(s: Seq<char>) -> Result<PlotRole, Seq<char>> {
    plot_role_from_word(trim(s).map_values(|c: char| ascii_lower_char(c)))
}

/// How a list of ASCII role names parses.
pub open spec fn parse_plot_roles_ascii(ss: Seq<Seq<char>>) -> Result<Seq<PlotRole>, Seq<char>>
    decreases ss.len(),
{
    if ss.len() == 0 {
        Ok(Seq::empty())
    } else {
        match parse_plot_roles_ascii(ss.drop_last()) {
            Err(e) => Err(e),
            Ok(rs) => match parse_plot_role_ascii(ss.last()) {
                Ok(r) => Ok(rs.push(r)),
                Err(e) => Err(e),
            },
        }
    }
}

proof fn lemma_parse_plot_roles_ascii_err(ss: Seq<Seq<char>>, n: int)
    requires
        0 <= n <= ss.len(),
        parse_plot_roles_ascii(ss.take(n)) is Err,
    ensures
        parse_plot_roles_ascii(ss) == parse_plot_roles_ascii(ss.take(n)),
    decreases ss.len() - n,
{
    if n < ss.len() {
        assert(ss.drop_last().take(n) =~= ss.take(n));
        lemma_parse_plot_roles_ascii_err(ss.drop_last(), n);
    } else {
        assert(ss.take(n) =~= ss);
    }
}

proof fn lemma_parse_plot_roles_err(ss: Seq<Seq<char>>, n: int)
    requires
        0 <= n <= ss.len(),
        parse_plot_roles(ss.take(n)) is Err,
    ensures
        parse_plot_roles(ss) == parse_plot_roles(ss.take(n)),
    decreases ss.len() - n,
{
    if n < ss.len() {
        assert(ss.drop_last().take(n) =~= ss.take(n));
        lemma_parse_plot_roles_err(ss.drop_last(), n);
    } else {
        assert(ss.take(n) =~= ss);
    }
}

fn parse_plot_role_names(names: &Vec<String>) -> (r: Result<Vec<PlotRole>, String>)
    ensures
        match r {
            Ok(rs) => parse_plot_roles(strings_view(names@)) == Ok::<Seq<PlotRole>, Seq<char>>(rs@),
            Err(e) => parse_plot_roles(strings_view(names@)) == Err::<Seq<PlotRole>, Seq<char>>(e@),
        },
        names_ascii(strings_view(names@)) ==> match r {
            Ok(rs) => parse_plot_roles_ascii(strings_view(names@)) == Ok::<Seq<PlotRole>, Seq<char>>(rs@),
            Err(e) => parse_plot_roles_ascii(strings_view(names@)) == Err::<Seq<PlotRole>, Seq<char>>(e@),
        },
{
    let ghost ss = strings_view(names@);
    let mut roles: Vec<PlotRole> = Vec::new();
    let mut i: usize = 0;
    proof {
        assert(ss.take(0) =~= Seq::<Seq<char>>::empty());
    }
    while i < names.len()
        invariant
            i <= names.len(),
            ss == strings_view(names@),
            parse_plot_roles(ss.take(i as int)) == Ok::<Seq<PlotRole>, Seq<char>>(roles@),
            names_ascii(ss) ==> parse_plot_roles_ascii(ss.take(i as int)) == Ok::<Seq<PlotRole>, Seq<char>>(roles@),
        decreases names.len() - i,
    {
        let parsed = PlotRole::parse(names[i].as_str());
        proof {
            assert(ss.take(i + 1).drop_last() =~= ss.take(i as int));
            assert(ss.take(i + 1).last() == names@[i as int]@);
        }
        match parsed {
            Ok(role) => {
                roles.push(role);
            },
            Err(e) => {
                proof {
                    assert(plot_result_view(Err::<PlotRole, String>(e)) == parse_plot_role(names@[i as int]@));
                    lemma_parse_plot_roles_err(ss, i + 1);
                    if names_ascii(ss) {
                        assert(all_ascii(trim(ss[i as int])));
                        lemma_parse_plot_roles_ascii_err(ss, i + 1);
                    }
                }
                return Err(e);
            },
        }
        i = i + 1;
    }
    proof {
        assert(ss.take(i as int) =~= ss);
    }
    Ok(roles)
}

/// The error a plot join request with ASCII role names is refused with
/// (see `plot_join_error`), its roles parsed with ASCII case folding.
pub open spec fn plot_join_error_ascii(name: Seq<char>, addr: Seq<char>, roles: Seq<Seq<char>>) -> Option<Seq<char>> {
    if trim(name).len() == 0 {
        Some("Plot name cannot be empty"@)
    } else if trim(addr).len() == 0 {
        Some("Plot addr cannot be empty"@)
    } else {
        match parse_plot_roles_ascii(roles) {
            Err(e) => Some(e),
            Ok(rs) => if rs.len() == 0 {
                Some("Plot must have at least one role"@)
            } else {
                None
            },
        }
    }
}

/// The error a plot join request is refused with, if it is refused: a blank
/// name, then a blank address, then the first role name that is not a role,
/// then no role at all.
pub open spec fn plot_join_error(name: Seq<char>, addr: Seq<char>, roles: Seq<Seq<char>>) -> Option<Seq<char>> {
    if trim(name).len() == 0 {
        Some("Plot name cannot be empty"@)
    } else if trim(addr).len() == 0 {
        Some("Plot addr cannot be empty"@)
    } else {
        match parse_plot_roles(roles) {
            Err(e) => Some(e),
            Ok(rs) => if rs.len() == 0 {
                Some("Plot must have at least one role"@)
            } else {
                None
            },
        }
    }
}

/// A plot join request is accepted only with a name and an address that
/// are not blank: a blank name is refused as such, and a named plot with a
/// blank address is refused for its address, whatever its roles.
pub proof fn law_plot_join_needs_name_and_address(name: Seq<char>, addr: Seq<char>, roles: Seq<Seq<char>>)
    ensures
        plot_join_error(name, addr, roles) is None ==> trim(name).len() > 0 && trim(addr).len() > 0,
        plot_join_error_ascii(name, addr, roles) is None ==> trim(name).len() > 0 && trim(addr).len() > 0,
        trim(name).len() > 0 && trim(addr).len() == 0 ==> plot_join_error(name, addr, roles) == Some(
            "Plot addr cannot be empty"@,
        ) && plot_join_error_ascii(name, addr, roles) == Some("Plot addr cannot be empty"@),
        trim(name).len() == 0 ==> plot_join_error(name, addr, roles) == Some("Plot name cannot be empty"@)
            && plot_join_error_ascii(name, addr, roles) == Some("Plot name cannot be empty"@),
{
}

/// The plot a join request describes, with name and address trimmed, its
/// roles parsed and no join time yet; or why the request is refused.
pub fn plot_from_join_req(req: JoinReq) -> (r: Result<Plot, String>)
    ensures
        match r {
            Ok(p) => plot_join_error(req.name@, req.addr@, strings_view(req.roles@)) is None
                && p.id == req.id
                && p.name@ == trim(req.name@)
                && p.addr@ == trim(req.addr@)
                && parse_plot_roles(strings_view(req.roles@)) == Ok::<Seq<PlotRole>, Seq<char>>(p.roles@)
                && p.tags@ == req.tags@
                && p.joined_at@ == Seq::<char>::empty(),
            Err(e) => plot_join_error(req.name@, req.addr@, strings_view(req.roles@)) == Some(e@),
        },
        names_ascii(strings_view(req.roles@)) ==> match r {
            Ok(p) => plot_join_error_ascii(req.name@, req.addr@, strings_view(req.roles@)) is None
                && parse_plot_roles_ascii(strings_view(req.roles@)) == Ok::<Seq<PlotRole>, Seq<char>>(p.roles@),
            Err(e) => plot_join_error_ascii(req.name@, req.addr@, strings_view(req.roles@)) == Some(e@),
        },
        r is Ok ==> trim(req.name@).len() > 0 && trim(req.addr@).len() > 0,
        r matches Ok(p) ==> p.name@.len() > 0 && p.addr@.len() > 0 && p.roles@.len() > 0,
        trim(req.name@).len() == 0 ==> (r matches Err(e) && e@ == "Plot name cannot be empty"@),
        trim(req.name@).len() > 0 && trim(req.addr@).len() == 0 ==> (r matches Err(e) && e@ == "Plot addr cannot be empty"@),
{
    proof {
        reveal_strlit("Plot name cannot be empty");
        reveal_strlit("Plot addr cannot be empty");
    }
    if is_blank(req.name.as_str()) {
        return Err(owned("Plot name cannot be empty"));
    }
    if is_blank(req.addr.as_str()) {
        return Err(owned("Plot addr cannot be empty"));
    }
    let roles = match parse_plot_role_names(&req.roles) {
        Ok(rs) => rs,
        Err(e) => return Err(e),
    };
    if roles.len() == 0 {
        return Err(owned("Plot must have at least one role"));
    }
    Ok(Plot {
        id: req.id,
        name: trim_str(req.name.as_str()),
        addr: trim_str(req.addr.as_str()),
        roles,
        tags: req.tags,
        joined_at: String::new(),
    })
}

/// The role names of `roles`, in order.
pub open spec fn plot_role_texts(roles: Seq<PlotRole>) -> Seq<Seq<char>> {
    roles.map_values(|r: PlotRole| plot_role_text(r))
}

/// The wire form of a plot: its roles by name, not primary.
pub fn proto_plot_from_plot(plot: Plot) -> (p: ProtoPlot)
    ensures
        p.id == plot.id,
        p.name == plot.name,
        p.addr == plot.addr,
        strings_view(p.roles@) == plot_role_texts(plot.roles@),
        p.tags == plot.tags,
        p.joined_at == plot.joined_at,
        !p.is_primary,
{
    let mut roles: Vec<String> = Vec::new();
    let mut i: usize = 0;
    while i < plot.roles.len()
        invariant
            i <= plot.roles.len(),
            strings_view(roles@) == plot_role_texts(plot.roles@.take(i as int)),
        decreases plot.roles.len() - i,
    {
        let t = plot.roles[i].to_text();
        let ghost before = strings_view(roles@);
        roles.push(t);
        proof {
            assert(strings_view(roles@) =~= before.push(plot_role_text(plot.roles@[i as int])));
            assert(plot_role_texts(plot.roles@.take(i + 1)) =~= plot_role_texts(plot.roles@.take(i as int)).push(
                plot_role_text(plot.roles@[i as int]),
            ));
        }
        i = i + 1;
    }
    assert(plot.roles@.take(i as int) =~= plot.roles@);
    ProtoPlot {
        id: plot.id,
        name: plot.name,
        addr: plot.addr,
        roles,
        tags: plot.tags,
        joined_at: plot.joined_at,
        is_primary: false,
    }
}

proof fn lemma_plot_role_text_parses(r: PlotRole)
    ensures
        all_ascii(trim(plot_role_text(r))),
        parse_plot_role_ascii(plot_role_text(r)) == Ok::<PlotRole, Seq<char>>(r),
{
    reveal_strlit("server");
    reveal_strlit("worker");
    let t = plot_role_text(r);
    assert(trim_start(t) == t);
    assert(trim_end(t) == t);
    assert(t.map_values(|c: char| ascii_lower_char(c)) =~= t);
    assert("server"@[0] != "worker"@[0]);
}

/// The role names of a list of plot roles parse back to the list, and are
/// ASCII.
pub proof fn law_plot_roles_round_trip(rs: Seq<PlotRole>)
    ensures
        names_ascii(plot_role_texts(rs)),
        parse_plot_roles_ascii(plot_role_texts(rs)) == Ok::<Seq<PlotRole>, Seq<char>>(rs),
    decreases rs.len(),
{
    let ts = plot_role_texts(rs);
    assert forall|i: int| 0 <= i < ts.len() implies all_ascii(trim(#[trigger] ts[i])) by {
        lemma_plot_role_text_parses(rs[i]);
    }
    if rs.len() > 0 {
        law_plot_roles_round_trip(rs.drop_last());
        assert(ts.drop_last() =~= plot_role_texts(rs.drop_last()));
        lemma_plot_role_text_parses(rs.last());
        assert(ts.last() == plot_role_text(rs.last()));
        assert(rs.drop_last().push(rs.last()) =~= rs);
    } else {
        assert(ts =~= Seq::<Seq<char>>::empty());
        assert(rs =~= Seq::<PlotRole>::empty());
    }
}

} // verus!
