//! Rendering a grouped diff as a unified diff.
//!
//! Each change cluster becomes one hunk: a header naming the affected line
//! ranges of both versions, then the lines themselves, prefixed `-` for
//! lines only in the expected text, `+` for lines only in the actual text,
//! and a space for shared context. A line that lacks its own terminator is
//! closed and flagged with a distinct `\ No newline at end of file` line,
//! so the rendering cannot be read as a normal line break.

use vstd::prelude::*;

use crate::diff::{
    new_end_of, new_start_of, old_end_of, old_start_of, op_in_bounds, DiffOp,
};

verus! {

pub open spec fn digit_char(d: nat) -> char {
    if d == 0 {
        '0'
    } else if d == 1 {
        '1'
    } else if d == 2 {
        '2'
    } else if d == 3 {
        '3'
    } else if d == 4 {
        '4'
    } else if d == 5 {
        '5'
    } else if d == 6 {
        '6'
    } else if d == 7 {
        '7'
    } else if d == 8 {
        '8'
    } else {
        '9'
    }
}

/// The decimal rendering of `n`.
pub open spec fn dec_spec(n: nat) -> Seq<char>
    decreases n,
{
    if n < 10 {
        seq![digit_char(n)]
    } else {
        dec_spec(n / 10).push(digit_char(n % 10))
    }
}

/// The rendering of a 0-based line range in a hunk header: 1-based start
/// and length, the start alone when the length is 1, and the line just
/// before the range when it is empty.
pub open spec fn range_spec(start: int, end: int) -> Seq<char> {
    let len = if end >= start {
        end - start
    } else {
        0
    };
    if len == 1 {
        dec_spec((start + 1) as nat)
    } else if len == 0 {
        dec_spec(start as nat) + seq![','] + seq!['0']
    } else {
        dec_spec((start + 1) as nat) + seq![','] + dec_spec(len as nat)
    }
}

/// The header of a hunk made of the (nonempty) op group `g`.
pub open spec fn header_spec(g: Seq<DiffOp>) -> Seq<char> {
    if g.len() == 0 {
        Seq::empty()
    } else {
        "@@ -"@ + range_spec(old_start_of(g[0]), old_end_of(g[g.len() - 1])) + " +"@ + range_spec(
            new_start_of(g[0]),
            new_end_of(g[g.len() - 1]),
        ) + " @@\n"@
    }
}

/// One rendered line: marker, the line itself, and, when the line lacks
/// its own terminator, a closing newline followed by a distinct flag line.
pub open spec fn line_spec(marker: char, line: Seq<char>) -> Seq<char> {
    seq![marker] + line + (if line.len() == 0 || line[line.len() - 1] != '\n' {
        "\n\\ No newline at end of file\n"@
    } else {
        Seq::empty()
    })
}

/// The lines `from..to` of `lines`, each rendered behind `marker`.
pub open spec fn block_spec(lines: Seq<Seq<char>>, from: int, to: int, marker: char) -> Seq<char>
    decreases to - from,
{
    if from >= to {
        Seq::empty()
    } else {
        block_spec(lines, from, to - 1, marker) + line_spec(marker, lines[to - 1])
    }
}

/// The rendered lines of one diff op: context from the old version, deleted
/// old lines, inserted new lines, or both for a replacement.
pub open spec fn op_render_spec(old: Seq<Seq<char>>, new: Seq<Seq<char>>, op: DiffOp) -> Seq<
    char,
> {
    match op {
        DiffOp::Equal { .. } => block_spec(old, old_start_of(op), old_end_of(op), ' '),
        DiffOp::Delete { .. } => block_spec(old, old_start_of(op), old_end_of(op), '-'),
        DiffOp::Insert { .. } => block_spec(new, new_start_of(op), new_end_of(op), '+'),
        DiffOp::Replace { .. } => block_spec(old, old_start_of(op), old_end_of(op), '-')
            + block_spec(new, new_start_of(op), new_end_of(op), '+'),
    }
}

pub open spec fn ops_render_spec(old: Seq<Seq<char>>, new: Seq<Seq<char>>, g: Seq<DiffOp>) -> Seq<
    char,
>
    decreases g.len(),
{
    if g.len() == 0 {
        Seq::empty()
    } else {
        ops_render_spec(old, new, g.drop_last()) + op_render_spec(old, new, g.last())
    }
}

/// One hunk: header, then the rendered ops.
pub open spec fn group_render_spec(
    old: Seq<Seq<char>>,
    new: Seq<Seq<char>>,
    g: Seq<DiffOp>,
) -> Seq<char> {
    header_spec(g) + ops_render_spec(old, new, g)
}

pub open spec fn groups_render_spec(
    old: Seq<Seq<char>>,
    new: Seq<Seq<char>>,
    gs: Seq<Seq<DiffOp>>,
) -> Seq<char>
    decreases gs.len(),
{
    if gs.len() == 0 {
        Seq::empty()
    } else {
        groups_render_spec(old, new, gs.drop_last()) + group_render_spec(old, new, gs.last())
    }
}

/// The whole report: every hunk in order, then a closing blank line.
pub open spec fn report_spec(
    old: Seq<Seq<char>>,
    new: Seq<Seq<char>>,
    gs: Seq<Seq<DiffOp>>,
) -> Seq<char> {
    groups_render_spec(old, new, gs) + seq!['\n']
}

/// Every op of every group ends within the two line counts.
pub open spec fn groups_in_bounds(gs: Seq<Seq<DiffOp>>, old_len: int, new_len: int) -> bool {
    forall|i: int, j: int|
        0 <= i < gs.len() && 0 <= j < gs[i].len() ==> op_in_bounds(
            #[trigger] gs[i][j],
            old_len,
            new_len,
        )
}

fn digit_str(d: usize) -> (r: &'static str)
    requires
        d < 10,
    ensures
        r@ == seq![digit_char(d as nat)],
{
    let r: &'static str = match d {
        0 => "0",
        1 => "1",
        2 => "2",
        3 => "3",
        4 => "4",
        5 => "5",
        6 => "6",
        7 => "7",
        8 => "8",
        _ => "9",
    };
    proof {
        reveal_strlit("0");
        reveal_strlit("1");
        reveal_strlit("2");
        reveal_strlit("3");
        reveal_strlit("4");
        reveal_strlit("5");
        reveal_strlit("6");
        reveal_strlit("7");
        reveal_strlit("8");
        reveal_strlit("9");
        assert(r@ =~= seq![digit_char(d as nat)]);
    }
    r
}

/// Appends the decimal rendering of `n` to `out`.
fn dec_into(out: &mut String, n: usize)
    ensures
        final(out)@ == old(out)@ + dec_spec(n as nat),
    decreases n,
{
    if n < 10 {
        let d = digit_str(n);
        out.append(d);
    } else {
        let ghost out0 = out@;
        dec_into(out, n / 10);
        let d = digit_str(n % 10);
        out.append(d);
        proof {
            assert(out@ =~= out0 + dec_spec((n / 10) as nat).push(digit_char((n % 10) as nat)));
        }
    }
}

/// Appends the header rendering of the 0-based line range `start..end`.
fn range_into(out: &mut String, start: usize, end: usize)
    ensures
        final(out)@ == old(out)@ + range_spec(start as int, end as int),
{
    let ghost out0 = out@;
    let len = if end > start {
        end - start
    } else {
        0
    };
    if len == 1 {
        dec_into(out, start + 1);
    } else if len == 0 {
        dec_into(out, start);
        out.append(",");
        out.append("0");
        proof {
            reveal_strlit(",");
            reveal_strlit("0");
            assert(out@ =~= out0 + (dec_spec(start as nat) + seq![','] + seq!['0']));
        }
    } else {
        dec_into(out, start + 1);
        out.append(",");
        dec_into(out, len);
        proof {
            reveal_strlit(",");
            assert(out@ =~= out0 + (dec_spec((start + 1) as nat) + seq![','] + dec_spec(
                len as nat,
            )));
        }
    }
}

fn op_old_start(op: DiffOp) -> (r: usize)
    ensures
        r as int == old_start_of(op),
{
    match op {
        DiffOp::Equal { old_index, .. } => old_index,
        DiffOp::Delete { old_index, .. } => old_index,
        DiffOp::Insert { old_index, .. } => old_index,
        DiffOp::Replace { old_index, .. } => old_index,
    }
}

fn op_new_start(op: DiffOp) -> (r: usize)
    ensures
        r as int == new_start_of(op),
{
    match op {
        DiffOp::Equal { new_index, .. } => new_index,
        DiffOp::Delete { new_index, .. } => new_index,
        DiffOp::Insert { new_index, .. } => new_index,
        DiffOp::Replace { new_index, .. } => new_index,
    }
}

fn op_old_end(op: DiffOp) -> (r: usize)
    requires
        old_end_of(op) <= usize::MAX,
    ensures
        r as int == old_end_of(op),
{
    match op {
        DiffOp::Equal { old_index, len, .. } => old_index + len,
        DiffOp::Delete { old_index, old_len, .. } => old_index + old_len,
        DiffOp::Insert { old_index, .. } => old_index,
        DiffOp::Replace { old_index, old_len, .. } => old_index + old_len,
    }
}

fn op_new_end(op: DiffOp) -> (r: usize)
    requires
        new_end_of(op) <= usize::MAX,
    ensures
        r as int == new_end_of(op),
{
    match op {
        DiffOp::Equal { new_index, len, .. } => new_index + len,
        DiffOp::Delete { new_index, .. } => new_index,
        DiffOp::Insert { new_index, new_len, .. } => new_index + new_len,
        DiffOp::Replace { new_index, new_len, .. } => new_index + new_len,
    }
}

/// Appends the hunk header for the op group `g`.
fn header_into(out: &mut String, g: &Vec<DiffOp>)
    requires
        forall|j: int|
            0 <= j < g@.len() ==> old_end_of(#[trigger] g@[j]) <= usize::MAX && new_end_of(g@[j])
                <= usize::MAX,
    ensures
        final(out)@ == old(out)@ + header_spec(g@),
{
    let ghost out0 = out@;
    if g.len() == 0 {
        proof {
            assert(out@ =~= out0 + header_spec(g@));
        }
        return ;
    }
    let first = g[0];
    let last = g[g.len() - 1];
    out.append("@@ -");
    range_into(out, op_old_start(first), op_old_end(last));
    out.append(" +");
    range_into(out, op_new_start(first), op_new_end(last));
    out.append(" @@\n");
    proof {
        assert(out@ =~= out0 + header_spec(g@));
    }
}

/// Appends the lines `from..to` of `lines`, each behind `marker`.
fn block_into(out: &mut String, lines: &Vec<String>, from: usize, to: usize, marker: &str)
    requires
        from <= to <= lines@.len(),
        marker@.len() == 1,
    ensures
        final(out)@ == old(out)@ + block_spec(
            lines.deep_view(),
            from as int,
            to as int,
            marker@[0],
        ),
{
    let ghost out0 = out@;
    let ghost ldv = lines.deep_view();
    let mut i = from;
    while i < to
        invariant
            from <= i <= to <= lines@.len(),
            ldv == lines.deep_view(),
            marker@.len() == 1,
            out@ == out0 + block_spec(ldv, from as int, i as int, marker@[0]),
        decreases to - i,
    {
        let ghost outi = out@;
        out.append(marker);
        let line = &lines[i];
        out.append(line.as_str());
        let n = line.as_str().unicode_len();
        proof {
            assert(ldv[i as int] == lines@[i as int]@);
        }
        if n == 0 || line.as_str().get_char(n - 1) != '\n' {
            out.append("\n\\ No newline at end of file\n");
            proof {
                assert(out@ =~= outi + line_spec(marker@[0], ldv[i as int]));
            }
        } else {
            proof {
                assert(out@ =~= outi + line_spec(marker@[0], ldv[i as int]));
            }
        }
        proof {
            assert(block_spec(ldv, from as int, i + 1, marker@[0]) == block_spec(
                ldv,
                from as int,
                i as int,
                marker@[0],
            ) + line_spec(marker@[0], ldv[i as int]));
            assert(out@ =~= out0 + block_spec(ldv, from as int, i + 1, marker@[0]));
        }
        i = i + 1;
    }
}

/// Appends the rendered lines of one diff op.
fn op_into(out: &mut String, old_lines: &Vec<String>, new_lines: &Vec<String>, op: DiffOp)
    requires
        old_lines@.len() <= usize::MAX,
        new_lines@.len() <= usize::MAX,
        op_in_bounds(op, old_lines@.len() as int, new_lines@.len() as int),
    ensures
        final(out)@ == old(out)@ + op_render_spec(old_lines.deep_view(), new_lines.deep_view(), op),
{
    let ghost out0 = out@;
    proof {
        reveal_strlit(" ");
        reveal_strlit("-");
        reveal_strlit("+");
    }
    match op {
        DiffOp::Equal { .. } => {
            block_into(out, old_lines, op_old_start(op), op_old_end(op), " ");
        },
        DiffOp::Delete { .. } => {
            block_into(out, old_lines, op_old_start(op), op_old_end(op), "-");
        },
        DiffOp::Insert { .. } => {
            block_into(out, new_lines, op_new_start(op), op_new_end(op), "+");
        },
        DiffOp::Replace { .. } => {
            block_into(out, old_lines, op_old_start(op), op_old_end(op), "-");
            block_into(out, new_lines, op_new_start(op), op_new_end(op), "+");
            proof {
                assert(out@ =~= out0 + op_render_spec(
                    old_lines.deep_view(),
                    new_lines.deep_view(),
                    op,
                ));
            }
        },
    }
}

/// Appends one whole hunk: header, then the rendered ops.
fn group_into(out: &mut String, old_lines: &Vec<String>, new_lines: &Vec<String>, g: &Vec<DiffOp>)
    requires
        old_lines@.len() <= usize::MAX,
        new_lines@.len() <= usize::MAX,
        forall|j: int|
            0 <= j < g@.len() ==> op_in_bounds(
                #[trigger] g@[j],
                old_lines@.len() as int,
                new_lines@.len() as int,
            ),
    ensures
        final(out)@ == old(out)@ + group_render_spec(
            old_lines.deep_view(),
            new_lines.deep_view(),
            g@,
        ),
{
    let ghost out0 = out@;
    let ghost odv = old_lines.deep_view();
    let ghost ndv = new_lines.deep_view();
    proof {
        assert(odv.len() == old_lines@.len());
        assert(ndv.len() == new_lines@.len());
    }
    header_into(out, g);
    let mut k: usize = 0;
    let ghost mid = out@;
    proof {
        assert(out@ =~= mid + ops_render_spec(odv, ndv, g@.take(0)));
    }
    while k < g.len()
        invariant
            k <= g@.len(),
            odv == old_lines.deep_view(),
            ndv == new_lines.deep_view(),
            odv.len() == old_lines@.len(),
            ndv.len() == new_lines@.len(),
            old_lines@.len() <= usize::MAX,
            new_lines@.len() <= usize::MAX,
            forall|j: int|
                0 <= j < g@.len() ==> op_in_bounds(
                    #[trigger] g@[j],
                    old_lines@.len() as int,
                    new_lines@.len() as int,
                ),
            out@ == mid + ops_render_spec(odv, ndv, g@.take(k as int)),
        decreases g@.len() - k,
    {
        let ghost outk = out@;
        op_into(out, old_lines, new_lines, g[k]);
        proof {
            assert(g@.take(k + 1).drop_last() =~= g@.take(k as int));
            assert(g@.take(k + 1).last() == g@[k as int]);
            assert(ops_render_spec(odv, ndv, g@.take(k + 1)) == ops_render_spec(
                odv,
                ndv,
                g@.take(k as int),
            ) + op_render_spec(odv, ndv, g@[k as int]));
            assert(out@ =~= mid + ops_render_spec(odv, ndv, g@.take(k + 1)));
        }
        k = k + 1;
    }
    proof {
        assert(g@.take(g@.len() as int) =~= g@);
        assert(out@ =~= out0 + group_render_spec(odv, ndv, g@));
    }
}

/// Renders the grouped diff between the two line sequences as a unified
/// diff, one hunk per group, closed by a blank line.
pub fn render_report(
    old_lines: &Vec<String>,
    new_lines: &Vec<String>,
    groups: &Vec<Vec<DiffOp>>,
) -> (r: String)
    requires
        groups_in_bounds(
            crate::diff::groups_view(groups@),
            old_lines@.len() as int,
            new_lines@.len() as int,
        ),
    ensures
        r@ == report_spec(
            old_lines.deep_view(),
            new_lines.deep_view(),
            crate::diff::groups_view(groups@),
        ),
{
    let ghost odv = old_lines.deep_view();
    let ghost ndv = new_lines.deep_view();
    let ghost gv = crate::diff::groups_view(groups@);
    let ghost_len_old = old_lines.len();
    let ghost_len_new = new_lines.len();
    proof {
        assert(old_lines@.len() <= usize::MAX);
        assert(new_lines@.len() <= usize::MAX);
    }
    let mut out = String::new();
    let mut k: usize = 0;
    proof {
        assert(out@ =~= groups_render_spec(odv, ndv, gv.take(0)));
    }
    while k < groups.len()
        invariant
            k <= groups@.len(),
            odv == old_lines.deep_view(),
            ndv == new_lines.deep_view(),
            old_lines@.len() <= usize::MAX,
            new_lines@.len() <= usize::MAX,
            gv == crate::diff::groups_view(groups@),
            groups_in_bounds(gv, old_lines@.len() as int, new_lines@.len() as int),
            out@ == groups_render_spec(odv, ndv, gv.take(k as int)),
        decreases groups@.len() - k,
    {
        proof {
            assert(gv[k as int] == groups@[k as int]@);
        }
        group_into(&mut out, old_lines, new_lines, &groups[k]);
        proof {
            assert(gv.take(k + 1).drop_last() =~= gv.take(k as int));
            assert(gv.take(k + 1).last() == gv[k as int]);
            assert(out@ =~= groups_render_spec(odv, ndv, gv.take(k + 1)));
        }
        k = k + 1;
    }
    out.append("\n");
    proof {
        reveal_strlit("\n");
        assert(gv.take(gv.len() as int) =~= gv);
        assert(out@ =~= report_spec(odv, ndv, gv));
    }
    out
}

} // verus!
