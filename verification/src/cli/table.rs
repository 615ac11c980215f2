//! The layout of the table of crofts that `swini status` prints: fixed
//! column widths, cells padded on the right, one line per croft. The
//! resource cells arrive already written in human units.

use vstd::prelude::*;
use crate::croft::proto::{strings_view, ProtoCroft};
use crate::text::{decimal, push_decimal, push_str, string_from_chars};

verus! {

/// `s` padded with spaces on the right to `w` characters, as `{:<w}`
/// writes it; unchanged when it is already that wide.
pub open spec fn padded(s: Seq<char>, w: nat) -> Seq<char> {
    if s.len() >= w {
        s
    } else {
        s + Seq::new((w - s.len()) as nat, |i: int| ' ')
    }
}

/// `parts` with `sep` between each two.
pub open spec fn joined(parts: Seq<Seq<char>>, sep: Seq<char>) -> Seq<char>
    decreases parts.len(),
{
    if parts.len() == 0 {
        Seq::empty()
    } else if parts.len() == 1 {
        parts[0]
    } else {
        joined(parts.drop_last(), sep) + sep + parts.last()
    }
}

/// The widths of the table's columns, left to right.
pub open spec fn column_widths() -> Seq<nat> {
    seq![10, 15, 12, 22, 24, 24, 8]
}

/// A line of the table: its cells, each padded to its column's width,
/// separated by one space.
pub open spec fn table_line(cells: Seq<Seq<char>>) -> Seq<char> {
    joined(Seq::new(7, |i: int| padded(cells[i], column_widths()[i])), " "@)
}

/// The titles of the table's columns.
pub open spec fn header_cells() -> Seq<Seq<char>> {
    seq!["ID"@, "NAME"@, "ROLES"@, "ADDR"@, "CPU (RES/YARD/TOT)"@, "MEM (RES/YARD/TOT)"@, "STATUS"@]
}

/// The cells of the line of croft `c`, whose resources read `cpu` and
/// `mem`.
pub open spec fn croft_cells(c: ProtoCroft, cpu: Seq<char>, mem: Seq<char>) -> Seq<Seq<char>> {
    seq![decimal(c.id as nat), c.name@, joined(strings_view(c.roles@), ","@), c.addr@, cpu, mem, "Active"@]
}

/// What the table says when there is no croft.
pub open spec fn no_crofts_text() -> Seq<char> {
    "No Crofts registered in the Ranch."@
}

fn push_padded(out: &mut Vec<char>, s: &str, w: usize)
    ensures
        final(out)@ == old(out)@ + padded(s@, w as nat),
{
    push_str(out, s);
    let n = s.unicode_len();
    let ghost base = old(out)@ + s@;
    let mut k: usize = n;
    while k < w
        invariant
            n == s@.len(),
            n <= k <= w || (w < n && k == n),
            out@ == base + Seq::new((k - n) as nat, |i: int| ' '),
        decreases w - k,
    {
        out.push(' ');
        k = k + 1;
        assert(out@ =~= base + Seq::new((k - n) as nat, |i: int| ' '));
    }
    proof {
        if n >= w {
            assert(Seq::new((k - n) as nat, |i: int| ' ') =~= Seq::<char>::empty());
            assert(out@ =~= base);
        }
        assert(out@ =~= old(out)@ + padded(s@, w as nat));
    }
}

/// `parts` with `sep` between each two.
pub fn join_texts(parts: &Vec<String>, sep: &str) -> (r: String)
    ensures
        r@ == joined(strings_view(parts@), sep@),
{
    let ghost ps = strings_view(parts@);
    let mut out: Vec<char> = Vec::new();
    let mut i: usize = 0;
    while i < parts.len()
        invariant
            i <= parts.len(),
            ps == strings_view(parts@),
            out@ == joined(ps.take(i as int), sep@),
        decreases parts.len() - i,
    {
        let ghost before = out@;
        if i > 0 {
            push_str(&mut out, sep);
        }
        push_str(&mut out, parts[i].as_str());
        proof {
            let t = ps.take(i + 1);
            assert(t.drop_last() =~= ps.take(i as int));
            assert(t.last() == parts@[i as int]@);
            if i == 0 {
                assert(t.len() == 1);
                assert(joined(ps.take(0), sep@) =~= Seq::<char>::empty());
                assert(out@ =~= t[0]);
            } else {
                assert(out@ =~= before + sep@ + t.last());
            }
        }
        i = i + 1;
    }
    proof {
        assert(ps.take(i as int) =~= ps);
    }
    string_from_chars(out.as_slice())
}

proof fn lemma_joined_step(parts: Seq<Seq<char>>, k: int, sep: Seq<char>)
    requires
        0 < k < parts.len(),
    ensures
        joined(parts.take(k + 1), sep) == joined(parts.take(k), sep) + sep + parts[k],
{
    let t = parts.take(k + 1);
    assert(t.drop_last() =~= parts.take(k));
}

fn line_of(cells: [&str; 7]) -> (r: String)
    ensures
        r@ == table_line(Seq::new(7, |i: int| cells@[i]@)),
{
    let widths: [usize; 7] = [10, 15, 12, 22, 24, 24, 8];
    let ghost ws = column_widths();
    let ghost ps = Seq::new(7, |i: int| padded(cells@[i]@, ws[i]));
    let mut out: Vec<char> = Vec::new();
    let mut i: usize = 0;
    while i < 7
        invariant
            i <= 7,
            widths@ == seq![10usize, 15, 12, 22, 24, 24, 8],
            ws == column_widths(),
            ps == Seq::new(7, |i: int| padded(cells@[i]@, ws[i])),
            i == 0 ==> out@.len() == 0,
            out@ == joined(ps.take(i as int), " "@),
        decreases 7 - i,
    {
        let ghost before = out@;
        if i > 0 {
            push_str(&mut out, " ");
        }
        assert(widths@[i as int] as nat == ws[i as int]);
        push_padded(&mut out, cells[i], widths[i]);
        proof {
            if i == 0 {
                let t = ps.take(1);
                assert(t.len() == 1 && t[0] == ps[0]);
                assert(out@ =~= ps[0]);
            } else {
                lemma_joined_step(ps, i as int, " "@);
                assert(out@ =~= before + " "@ + ps[i as int]);
            }
        }
        i = i + 1;
    }
    proof {
        assert(ps.take(7) =~= ps);
        let cs = Seq::new(7, |i: int| cells@[i]@);
        assert(ps =~= Seq::new(7, |i: int| padded(cs[i], column_widths()[i])));
    }
    string_from_chars(out.as_slice())
}

/// The lines of the table of `crofts`, whose resources read `cpu[i]` and
/// `mem[i]` for the croft at `i`: the titles, a rule of 117 dashes, then a
/// line per croft in their order; one line saying there is none when there
/// is no croft.
pub fn cluster_table_lines(crofts: &Vec<ProtoCroft>, cpu: &Vec<String>, mem: &Vec<String>) -> (r: Vec<String>)
    requires
        cpu@.len() == crofts@.len(),
        mem@.len() == crofts@.len(),
    ensures
        crofts@.len() == 0 ==> r@.len() == 1 && r@[0]@ == no_crofts_text(),
        crofts@.len() > 0 ==> {
            &&& r@.len() == crofts@.len() + 2
            &&& r@[0]@ == table_line(header_cells())
            &&& r@[1]@ == Seq::new(117, |i: int| '-')
            &&& forall|i: int|
                0 <= i < crofts@.len() ==> (#[trigger] r@[i + 2])@ == table_line(croft_cells(crofts@[i], cpu@[i]@, mem@[i]@))
        },
{
    let mut r: Vec<String> = Vec::new();
    if crofts.len() == 0 {
        r.push(String::from_str("No Crofts registered in the Ranch."));
        return r;
    }
    let header = line_of(["ID", "NAME", "ROLES", "ADDR", "CPU (RES/YARD/TOT)", "MEM (RES/YARD/TOT)", "STATUS"]);
    proof {
        let cs = seq!["ID", "NAME", "ROLES", "ADDR", "CPU (RES/YARD/TOT)", "MEM (RES/YARD/TOT)", "STATUS"];
        assert(Seq::new(7, |i: int| cs[i]@) =~= header_cells());
    }
    r.push(header);
    let mut rule: Vec<char> = Vec::new();
    let mut k: usize = 0;
    while k < 117
        invariant
            k <= 117,
            rule@ == Seq::new(k as nat, |i: int| '-'),
        decreases 117 - k,
    {
        rule.push('-');
        k = k + 1;
        assert(rule@ =~= Seq::new(k as nat, |i: int| '-'));
    }
    r.push(string_from_chars(rule.as_slice()));
    let mut i: usize = 0;
    while i < crofts.len()
        invariant
            i <= crofts@.len(),
            cpu@.len() == crofts@.len(),
            mem@.len() == crofts@.len(),
            r@.len() == i + 2,
            r@[0]@ == table_line(header_cells()),
            r@[1]@ == Seq::new(117, |j: int| '-'),
            forall|j: int| 0 <= j < i ==> (#[trigger] r@[j + 2])@ == table_line(croft_cells(crofts@[j], cpu@[j]@, mem@[j]@)),
        decreases crofts.len() - i,
    {
        let c = &crofts[i];
        let mut id: Vec<char> = Vec::new();
        push_decimal(&mut id, c.id as u128);
        let id_text = string_from_chars(id.as_slice());
        let roles = join_texts(&c.roles, ",");
        let cells = [
            id_text.as_str(),
            c.name.as_str(),
            roles.as_str(),
            c.addr.as_str(),
            cpu[i].as_str(),
            mem[i].as_str(),
            "Active",
        ];
        let line = line_of(cells);
        proof {
            let cs = croft_cells(crofts@[i as int], cpu@[i as int]@, mem@[i as int]@);
            assert(Seq::new(7, |k: int| cells@[k]@) =~= cs);
            assert(line@ == table_line(cs));
        }
        let ghost before = r@;
        r.push(line);
        proof {
            assert forall|j: int| 0 <= j < i + 1 implies (#[trigger] r@[j + 2])@ == table_line(
                croft_cells(crofts@[j], cpu@[j]@, mem@[j]@),
            ) by {
                if j < i {
                    assert(r@[j + 2] == before[j + 2]);
                }
            }
        }
        i = i + 1;
    }
    r
}

} // verus!
