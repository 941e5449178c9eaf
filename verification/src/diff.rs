//! Line-level diff computation.
//!
//! The diff itself comes from the `similar` crate (Myers' algorithm); this
//! module holds the operations it reports and the verified grouping of those
//! operations into context-bounded clusters, one per rendered hunk.

use vstd::prelude::*;

verus! {

/// One segment of a diff between an old and a new sequence of lines. The
/// index fields name positions in the two sequences; a segment is either
/// shared by both, present only in one, or replaced wholesale.
#[derive(Clone, Copy, Debug)]
pub enum DiffOp {
    Equal { old_index: usize, new_index: usize, len: usize },
    Delete { old_index: usize, old_len: usize, new_index: usize },
    Insert { old_index: usize, new_index: usize, new_len: usize },
    Replace { old_index: usize, old_len: usize, new_index: usize, new_len: usize },
}

pub open spec fn old_start_of(op: DiffOp) -> int {
    match op {
        DiffOp::Equal { old_index, .. } => old_index as int,
        DiffOp::Delete { old_index, .. } => old_index as int,
        DiffOp::Insert { old_index, .. } => old_index as int,
        DiffOp::Replace { old_index, .. } => old_index as int,
    }
}

pub open spec fn old_end_of(op: DiffOp) -> int {
    match op {
        DiffOp::Equal { old_index, len, .. } => old_index + len,
        DiffOp::Delete { old_index, old_len, .. } => old_index + old_len,
        DiffOp::Insert { old_index, .. } => old_index as int,
        DiffOp::Replace { old_index, old_len, .. } => old_index + old_len,
    }
}

pub open spec fn new_start_of(op: DiffOp) -> int {
    match op {
        DiffOp::Equal { new_index, .. } => new_index as int,
        DiffOp::Delete { new_index, .. } => new_index as int,
        DiffOp::Insert { new_index, .. } => new_index as int,
        DiffOp::Replace { new_index, .. } => new_index as int,
    }
}

pub open spec fn new_end_of(op: DiffOp) -> int {
    match op {
        DiffOp::Equal { new_index, len, .. } => new_index + len,
        DiffOp::Delete { new_index, .. } => new_index as int,
        DiffOp::Insert { new_index, new_len, .. } => new_index + new_len,
        DiffOp::Replace { new_index, new_len, .. } => new_index + new_len,
    }
}

/// Both ranges of `op` end within sequences of the given lengths.
pub open spec fn op_in_bounds(op: DiffOp, old_len: int, new_len: int) -> bool {
    old_end_of(op) <= old_len && new_end_of(op) <= new_len
}

/// The ops form an ordered, contiguous trace of the two line sequences:
/// they start at the two origins, each picks up where its predecessor ends,
/// they end at the two lengths, and every segment marked equal names ranges
/// that hold the same lines.
pub open spec fn ops_describe(ops: Seq<DiffOp>, old: Seq<Seq<char>>, new: Seq<Seq<char>>) -> bool {
    &&& (ops.len() == 0 ==> old.len() == 0 && new.len() == 0)
    &&& (ops.len() > 0 ==> old_start_of(ops[0]) == 0 && new_start_of(ops[0]) == 0
        && old_end_of(ops[ops.len() - 1]) == old.len() && new_end_of(ops[ops.len() - 1])
        == new.len())
    &&& (forall|i: int|
        0 <= i < ops.len() - 1 ==> old_start_of(ops[i + 1]) == old_end_of(#[trigger] ops[i])
            && new_start_of(ops[i + 1]) == new_end_of(ops[i]))
    &&& (forall|i: int|
        0 <= i < ops.len() ==> op_in_bounds(#[trigger] ops[i], old.len() as int, new.len() as int))
    &&& (forall|i: int, k: int|
        #![trigger ops[i], old[old_start_of(ops[i]) + k]]
        0 <= i < ops.len() && ops[i] is Equal && 0 <= k < old_end_of(ops[i]) - old_start_of(ops[i])
            ==> old[old_start_of(ops[i]) + k] == new[new_start_of(ops[i]) + k])
}

/// The line-level diff that Myers' algorithm computes between two line
/// sequences.
pub uninterp spec fn line_diff(old: Seq<Seq<char>>, new: Seq<Seq<char>>) -> Seq<DiffOp>;

/// Relies on `similar::capture_diff_slices` with `Algorithm::Myers`: the
/// returned ops are a function of the two line sequences alone, and, as the
/// `DiffHook` protocol and the `Capture` hook that records it show, they are
/// reported in order as a contiguous trace of both sequences, equal segments
/// naming equal ranges.
#[verifier::external_body]
pub(crate) fn myers_line_ops(old: &Vec<String>, new: &Vec<String>) -> (r: Vec<DiffOp>)
    ensures
        r@ == line_diff(old.deep_view(), new.deep_view()),
        ops_describe(r@, old.deep_view(), new.deep_view()),
{
    similar::capture_diff_slices(similar::Algorithm::Myers, old, new)
        .into_iter()
        .map(|op| match op {
            similar::DiffOp::Equal { old_index, new_index, len } =>
                DiffOp::Equal { old_index, new_index, len },
            similar::DiffOp::Delete { old_index, old_len, new_index } =>
                DiffOp::Delete { old_index, old_len, new_index },
            similar::DiffOp::Insert { old_index, new_index, new_len } =>
                DiffOp::Insert { old_index, new_index, new_len },
            similar::DiffOp::Replace { old_index, old_len, new_index, new_len } =>
                DiffOp::Replace { old_index, old_len, new_index, new_len },
        })
        .collect()
}

/// An equal run longer than the context radius `n` at the very front of the
/// diff keeps only its last `n` lines.
pub open spec fn trim_first(op: DiffOp, n: usize) -> DiffOp {
    match op {
        DiffOp::Equal { old_index, new_index, len } => {
            let off = if len > n {
                len - n
            } else {
                0
            };
            (DiffOp::Equal {
                old_index: (old_index + off) as usize,
                new_index: (new_index + off) as usize,
                len: (len - off) as usize,
            })
        },
        _ => op,
    }
}

/// An equal run longer than the context radius `n` at the very end of the
/// diff keeps only its first `n` lines.
pub open spec fn trim_last(op: DiffOp, n: usize) -> DiffOp {
    match op {
        DiffOp::Equal { old_index, new_index, len } => {
            let off = if len > n {
                len - n
            } else {
                0
            };
            (DiffOp::Equal { old_index, new_index, len: (len - off) as usize })
        },
        _ => op,
    }
}

/// The diff ops with the outermost equal runs trimmed to the context radius.
pub open spec fn trimmed_ops(ops: Seq<DiffOp>, n: usize) -> Seq<DiffOp> {
    let ops1 = ops.update(0, trim_first(ops[0], n));
    ops1.update(ops1.len() - 1, trim_last(ops1[ops1.len() - 1], n))
}

/// One folding step of the grouping: an equal run longer than twice the
/// context radius closes the pending group (keeping `n` lines of trailing
/// context) and opens a new one with `n` lines of leading context.
pub open spec fn group_step(
    acc: (Seq<Seq<DiffOp>>, Seq<DiffOp>),
    op: DiffOp,
    n: usize,
) -> (Seq<Seq<DiffOp>>, Seq<DiffOp>) {
    match op {
        DiffOp::Equal { old_index, new_index, len } => {
            if len > 2 * n {
                let off = len - n;
                (
                    acc.0.push(
                        acc.1.push(DiffOp::Equal { old_index, new_index, len: n }),
                    ),
                    seq![
                        (DiffOp::Equal {
                            old_index: (old_index + off) as usize,
                            new_index: (new_index + off) as usize,
                            len: (len - off) as usize,
                        })
                    ],
                )
            } else {
                (acc.0, acc.1.push(op))
            }
        },
        _ => (acc.0, acc.1.push(op)),
    }
}

pub open spec fn group_fold(
    ops: Seq<DiffOp>,
    n: usize,
    acc: (Seq<Seq<DiffOp>>, Seq<DiffOp>),
) -> (Seq<Seq<DiffOp>>, Seq<DiffOp>)
    decreases ops.len(),
{
    if ops.len() == 0 {
        acc
    } else {
        group_fold(ops.skip(1), n, group_step(acc, ops[0], n))
    }
}

/// The change clusters of a diff: runs of ops separated by equal runs longer
/// than twice the context radius `n`, each cluster carrying at most `n`
/// lines of equal context on either side. A trailing cluster that holds
/// nothing but one equal run is dropped.
pub open spec fn groups_spec(ops: Seq<DiffOp>, n: usize) -> Seq<Seq<DiffOp>> {
    if ops.len() == 0 {
        Seq::empty()
    } else {
        let folded = group_fold(trimmed_ops(ops, n), n, (Seq::empty(), Seq::empty()));
        if folded.1.len() == 0 || (folded.1.len() == 1 && folded.1[0] is Equal) {
            folded.0
        } else {
            folded.0.push(folded.1)
        }
    }
}

pub open spec fn groups_view(gs: Seq<Vec<DiffOp>>) -> Seq<Seq<DiffOp>> {
    gs.map_values(|g: Vec<DiffOp>| g@)
}

/// Grouping never moves an op's ranges past the ends of the sequences:
/// trimming keeps each end where it was, and a split only shortens an equal
/// run from either side.
proof fn lemma_group_fold_bounded(
    ops: Seq<DiffOp>,
    n: usize,
    acc: (Seq<Seq<DiffOp>>, Seq<DiffOp>),
    old_len: int,
    new_len: int,
)
    requires
        forall|i: int| 0 <= i < ops.len() ==> op_in_bounds(#[trigger] ops[i], old_len, new_len),
        forall|i: int, j: int|
            0 <= i < acc.0.len() && 0 <= j < acc.0[i].len() ==> op_in_bounds(
                #[trigger] acc.0[i][j],
                old_len,
                new_len,
            ),
        forall|j: int| 0 <= j < acc.1.len() ==> op_in_bounds(#[trigger] acc.1[j], old_len, new_len),
    ensures
        forall|i: int, j: int|
            0 <= i < group_fold(ops, n, acc).0.len() && 0 <= j < group_fold(ops, n, acc).0[i].len()
                ==> op_in_bounds(#[trigger] group_fold(ops, n, acc).0[i][j], old_len, new_len),
        forall|j: int|
            0 <= j < group_fold(ops, n, acc).1.len() ==> op_in_bounds(
                #[trigger] group_fold(ops, n, acc).1[j],
                old_len,
                new_len,
            ),
    decreases ops.len(),
{
    if ops.len() > 0 {
        let next = group_step(acc, ops[0], n);
        assert forall|i: int, j: int|
            0 <= i < next.0.len() && 0 <= j < next.0[i].len() implies op_in_bounds(
            #[trigger] next.0[i][j],
            old_len,
            new_len,
        ) by {
            if i < acc.0.len() {
                assert(next.0[i] == acc.0[i]);
            }
        }
        assert forall|j: int| 0 <= j < next.1.len() implies op_in_bounds(
            #[trigger] next.1[j],
            old_len,
            new_len,
        ) by {
            assert(op_in_bounds(ops[0], old_len, new_len));
        }
        lemma_group_fold_bounded(ops.skip(1), n, next, old_len, new_len);
        assert(group_fold(ops, n, acc) == group_fold(ops.skip(1), n, next));
    }
}

/// Every op of every group stays in bounds when the input ops are.
pub proof fn lemma_groups_spec_bounded(ops: Seq<DiffOp>, n: usize, old_len: int, new_len: int)
    requires
        forall|i: int| 0 <= i < ops.len() ==> op_in_bounds(#[trigger] ops[i], old_len, new_len),
    ensures
        crate::render::groups_in_bounds(groups_spec(ops, n), old_len, new_len),
{
    if ops.len() > 0 {
        let t = trimmed_ops(ops, n);
        assert forall|i: int| 0 <= i < t.len() implies op_in_bounds(
            #[trigger] t[i],
            old_len,
            new_len,
        ) by {
            assert(op_in_bounds(ops[i], old_len, new_len));
        }
        lemma_group_fold_bounded(t, n, (Seq::empty(), Seq::empty()), old_len, new_len);
    }
}

fn trim_first_exec(op: DiffOp, n: usize) -> (r: DiffOp)
    requires
        old_end_of(op) <= usize::MAX,
        new_end_of(op) <= usize::MAX,
    ensures
        r == trim_first(op, n),
{
    match op {
        DiffOp::Equal { old_index, new_index, len } => {
            let off = if len > n {
                len - n
            } else {
                0
            };
            DiffOp::Equal { old_index: old_index + off, new_index: new_index + off, len: len - off }
        },
        _ => op,
    }
}

fn trim_last_exec(op: DiffOp, n: usize) -> (r: DiffOp)
    ensures
        r == trim_last(op, n),
{
    match op {
        DiffOp::Equal { old_index, new_index, len } => {
            let off = if len > n {
                len - n
            } else {
                0
            };
            DiffOp::Equal { old_index, new_index, len: len - off }
        },
        _ => op,
    }
}

/// Groups the diff ops into change clusters with `n` lines of context, as
/// `groups_spec` describes.
pub fn group_ops(ops: &Vec<DiffOp>, n: usize) -> (groups: Vec<Vec<DiffOp>>)
    requires
        2 * n <= usize::MAX,
        forall|i: int|
            0 <= i < ops@.len() ==> old_end_of(#[trigger] ops@[i]) <= usize::MAX && new_end_of(
                ops@[i],
            ) <= usize::MAX,
    ensures
        groups_view(groups@) == groups_spec(ops@, n),
{
    let mut groups: Vec<Vec<DiffOp>> = Vec::new();
    if ops.len() == 0 {
        proof {
            assert(groups_view(groups@) =~= groups_spec(ops@, n));
        }
        return groups;
    }

    let mut work: Vec<DiffOp> = Vec::new();
    let m = ops.len();
    let mut j: usize = 0;
    while j < m
        invariant
            m == ops@.len(),
            m > 0,
            j <= m,
            work@.len() == j as int,
            forall|i: int| 0 <= i < j ==> work@[i] == trimmed_ops(ops@, n)[i],
            forall|i: int|
                0 <= i < ops@.len() ==> old_end_of(#[trigger] ops@[i]) <= usize::MAX && new_end_of(
                    ops@[i],
                ) <= usize::MAX,
        decreases m - j,
    {
        let mut op = ops[j];
        if j == 0 {
            op = trim_first_exec(op, n);
        }
        if j == m - 1 {
            op = trim_last_exec(op, n);
        }
        work.push(op);
        j = j + 1;
    }
    proof {
        assert(work@ =~= trimmed_ops(ops@, n));
    }

    let mut pending: Vec<DiffOp> = Vec::new();
    let ghost whole = group_fold(work@, n, (Seq::empty(), Seq::empty()));
    let mut k: usize = 0;
    proof {
        assert(work@.skip(0) =~= work@);
        assert(groups_view(groups@) =~= Seq::<Seq<DiffOp>>::empty());
    }
    while k < m
        invariant
            m == work@.len(),
            k <= m,
            2 * n <= usize::MAX,
            forall|i: int|
                0 <= i < work@.len() ==> old_end_of(#[trigger] work@[i]) <= usize::MAX
                    && new_end_of(work@[i]) <= usize::MAX,
            whole == group_fold(work@.skip(k as int), n, (groups_view(groups@), pending@)),
        decreases m - k,
    {
        let ghost rest = work@.skip(k as int);
        let ghost acc0 = (groups_view(groups@), pending@);
        proof {
            assert(rest.len() > 0);
            assert(rest[0] == work@[k as int]);
            assert(rest.skip(1) =~= work@.skip(k + 1));
        }
        let op = work[k];
        let mut split = false;
        match op {
            DiffOp::Equal { old_index, new_index, len } => {
                if len > 2 * n {
                    split = true;
                    let off = len - n;
                    pending.push(DiffOp::Equal { old_index, new_index, len: n });
                    groups.push(pending);
                    pending = Vec::new();
                    pending.push(
                        DiffOp::Equal {
                            old_index: old_index + off,
                            new_index: new_index + off,
                            len: len - off,
                        },
                    );
                    proof {
                        assert(groups_view(groups@) =~= acc0.0.push(
                            acc0.1.push(DiffOp::Equal { old_index, new_index, len: n }),
                        ));
                        assert(pending@ =~= group_step(acc0, op, n).1);
                    }
                }
            },
            _ => {},
        }
        if !split {
            pending.push(op);
            proof {
                assert((groups_view(groups@), pending@) =~~= group_step(acc0, op, n));
            }
        }
        k = k + 1;
    }
    proof {
        assert(work@.skip(m as int) =~= Seq::<DiffOp>::empty());
    }

    let keep = if pending.len() == 0 {
        false
    } else if pending.len() == 1 {
        match pending[0] {
            DiffOp::Equal { .. } => false,
            _ => true,
        }
    } else {
        true
    };
    if keep {
        groups.push(pending);
    }
    proof {
        assert(groups_view(groups@) =~= groups_spec(ops@, n));
    }
    groups
}

} // verus!
