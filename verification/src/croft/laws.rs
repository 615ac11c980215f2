//! Properties of crofts and their wire forms.

use vstd::prelude::*;
use crate::croft::proto::{
    croft_role_texts, names_ascii, parse_croft_roles_ascii, resources_or_default, ProtoCroftResources,
};
use crate::croft::resources::CroftResources;
use crate::croft::types::{croft_role_text, parse_croft_role_ascii, CroftRole};
use crate::text::{all_ascii, ascii_lower_char, trim, trim_end, trim_start};

verus! {

proof fn lemma_role_text_parses(r: CroftRole)
    ensures
        all_ascii(trim(croft_role_text(r))),
        parse_croft_role_ascii(croft_role_text(r)) == Ok::<CroftRole, Seq<char>>(r),
{
    reveal_strlit("server");
    reveal_strlit("worker");
    let t = croft_role_text(r);
    assert(trim_start(t) == t);
    assert(trim_end(t) == t);
    assert(t.map_values(|c: char| ascii_lower_char(c)) =~= t);
    assert("server"@[0] != "worker"@[0]);
}

/// A role's name parses back to the role.
pub proof fn law_role_round_trip(r: CroftRole)
    ensures
        parse_croft_role_ascii(croft_role_text(r)) == Ok::<CroftRole, Seq<char>>(r),
{
    lemma_role_text_parses(r);
}

/// The role names of a list of roles parse back to the list, and are ASCII.
pub proof fn law_roles_round_trip(rs: Seq<CroftRole>)
    ensures
        names_ascii(croft_role_texts(rs)),
        parse_croft_roles_ascii(croft_role_texts(rs)) == Ok::<Seq<CroftRole>, Seq<char>>(rs),
    decreases rs.len(),
{
    let ts = croft_role_texts(rs);
    assert forall|i: int| 0 <= i < ts.len() implies all_ascii(trim(#[trigger] ts[i])) by {
        lemma_role_text_parses(rs[i]);
    }
    if rs.len() > 0 {
        law_roles_round_trip(rs.drop_last());
        assert(ts.drop_last() =~= croft_role_texts(rs.drop_last()));
        lemma_role_text_parses(rs.last());
        assert(ts.last() == croft_role_text(rs.last()));
        assert(rs.drop_last().push(rs.last()) =~= rs);
    } else {
        assert(ts =~= Seq::<Seq<char>>::empty());
        assert(rs =~= Seq::<CroftRole>::empty());
    }
}

/// Resources survive their wire form.
pub proof fn law_resources_round_trip(r: CroftResources)
    ensures
        resources_or_default(Some(ProtoCroftResources::from_resources_spec(r))) == r,
{
}

} // verus!
