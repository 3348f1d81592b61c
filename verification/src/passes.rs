//! What minimizing a sequence means, stated over a judge that says of a candidate whether it
//! still shows the bug.

use crate::op::{OpModel, PortalName, StmtName};
use vstd::prelude::*;

verus! {

/// Says of a sequence whether it still shows the bug.
pub type Judge = spec_fn(Seq<OpModel>) -> bool;

// ---------------------------------------------------------------------------
// Passes
// ---------------------------------------------------------------------------

/// The shortest proper prefix of at least `end` operations that the judge accepts.
pub open spec fn suffix_trim(ops: Seq<OpModel>, end: nat, judge: Judge) -> Option<Seq<OpModel>>
    decreases ops.len() - end,
{
    if end >= ops.len() {
        None
    } else if judge(ops.take(end as int)) {
        Some(ops.take(end as int))
    } else {
        suffix_trim(ops, end + 1, judge)
    }
}

/// The shortest proper suffix that starts at `start` or before and that the judge accepts.
pub open spec fn prefix_trim(ops: Seq<OpModel>, start: nat, judge: Judge) -> Option<Seq<OpModel>>
    decreases start,
{
    if start == 0 {
        None
    } else if judge(ops.skip(start as int)) {
        Some(ops.skip(start as int))
    } else {
        prefix_trim(ops, (start - 1) as nat, judge)
    }
}

/// The sequence without its first operation from `index` on that can be left out. The last
/// operation that is left stays.
pub open spec fn single_deletion(
    ops: Seq<OpModel>,
    index: nat,
    judge: Judge,
) -> Option<Seq<OpModel>>
    decreases ops.len() - index,
{
    if ops.len() <= 1 || index >= ops.len() {
        None
    } else if judge(ops.remove(index as int)) {
        Some(ops.remove(index as int))
    } else {
        single_deletion(ops, index + 1, judge)
    }
}

/// The first window of `len` operations from `start` on that the judge accepts.
pub open spec fn window(
    ops: Seq<OpModel>,
    len: nat,
    start: nat,
    judge: Judge,
) -> Option<Seq<OpModel>>
    decreases ops.len() - start,
{
    if start + len > ops.len() || start >= ops.len() {
        None
    } else if judge(ops.subrange(start as int, (start + len) as int)) {
        Some(ops.subrange(start as int, (start + len) as int))
    } else {
        window(ops, len, start + 1, judge)
    }
}

/// The first window of the least length that the judge accepts, from windows of `len` operations
/// up to those that leave one out.
pub open spec fn shortest_window(ops: Seq<OpModel>, len: nat, judge: Judge) -> Option<Seq<OpModel>>
    decreases ops.len() - len,
{
    if len >= ops.len() {
        None
    } else {
        match window(ops, len, 0, judge) {
            Some(found) => Some(found),
            None => shortest_window(ops, len + 1, judge),
        }
    }
}

/// The shortest window that the judge accepts, and of those the first.
pub open spec fn subsequence(ops: Seq<OpModel>, judge: Judge) -> Option<Seq<OpModel>> {
    shortest_window(ops, 1, judge)
}

/// The sequence with each operation from `index` on moved to the unnamed statement and portal
/// where the judge accepts that, one after the other.
pub open spec fn name_simplification(
    ops: Seq<OpModel>,
    index: nat,
    judge: Judge,
) -> Seq<OpModel>
    decreases ops.len() - index,
{
    if index >= ops.len() {
        ops
    } else {
        let op = ops[index as int];
        let simpler = ops.update(index as int, op.unnamed());
        if op.is_named() && judge(simpler) {
            name_simplification(simpler, index + 1, judge)
        } else {
            name_simplification(ops, index + 1, judge)
        }
    }
}

/// The sequence with the SQL of each operation from `index` on replaced by `SELECT 1` where
/// the judge accepts that, one after the other.
pub open spec fn sql_simplification(
    ops: Seq<OpModel>,
    index: nat,
    judge: Judge,
) -> Seq<OpModel>
    decreases ops.len() - index,
{
    if index >= ops.len() {
        ops
    } else {
        let op = ops[index as int];
        let simpler = ops.update(index as int, op.with_plain_sql());
        if op.has_other_sql() && judge(simpler) {
            sql_simplification(simpler, index + 1, judge)
        } else {
            sql_simplification(ops, index + 1, judge)
        }
    }
}

// ---------------------------------------------------------------------------
// Rounds
// ---------------------------------------------------------------------------

/// What a pass found, or the sequence as it was.
pub open spec fn or_same(found: Option<Seq<OpModel>>, ops: Seq<OpModel>) -> Seq<OpModel> {
    match found {
        Some(shorter) => shorter,
        None => ops,
    }
}

/// One less, and no less than nothing.
pub open spec fn one_less(n: nat) -> nat {
    if n == 0 {
        0
    } else {
        (n - 1) as nat
    }
}

/// A round from the SQL simplification on.
pub open spec fn from_sql(ops: Seq<OpModel>, judge: Judge) -> Seq<OpModel> {
    sql_simplification(ops, 0, judge)
}

/// A round from the name simplification on.
pub open spec fn from_names(ops: Seq<OpModel>, judge: Judge) -> Seq<OpModel> {
    from_sql(name_simplification(ops, 0, judge), judge)
}

/// A round from the search for a window on.
pub open spec fn from_window(ops: Seq<OpModel>, judge: Judge) -> Seq<OpModel> {
    from_names(or_same(subsequence(ops, judge), ops), judge)
}

/// A round from the single deletion on.
pub open spec fn from_deletion(ops: Seq<OpModel>, judge: Judge) -> Seq<OpModel> {
    from_window(or_same(single_deletion(ops, 0, judge), ops), judge)
}

/// A round from the trimming of the front on.
pub open spec fn from_prefix(ops: Seq<OpModel>, judge: Judge) -> Seq<OpModel> {
    from_deletion(or_same(prefix_trim(ops, one_less(ops.len()), judge), ops), judge)
}

/// One round: all passes, one after the other.
pub open spec fn round(ops: Seq<OpModel>, judge: Judge) -> Seq<OpModel> {
    from_prefix(or_same(suffix_trim(ops, 1, judge), ops), judge)
}

/// What rounds end with, when they are repeated until one changes nothing.
pub open spec fn shrunk(ops: Seq<OpModel>, judge: Judge) -> Seq<OpModel>
    decreases weight(ops),
{
    if round(ops, judge) == ops {
        ops
    } else {
        proof {
            lemma_round(ops, judge);
        }
        shrunk(round(ops, judge), judge)
    }
}

// ---------------------------------------------------------------------------
// Weight
// ---------------------------------------------------------------------------

/// How much there is to take away from an operation: itself, its names and its SQL.
pub open spec fn op_weight(op: OpModel) -> nat {
    1 + (if op.is_named() {
        1nat
    } else {
        0nat
    }) + (if op.has_other_sql() {
        1nat
    } else {
        0nat
    })
}

/// How much there is to take away from a sequence.
pub open spec fn weight(ops: Seq<OpModel>) -> nat
    decreases ops.len(),
{
    if ops.len() == 0 {
        0
    } else {
        weight(ops.drop_last()) + op_weight(ops.last())
    }
}

proof fn lemma_weight_concat(a: Seq<OpModel>, b: Seq<OpModel>)
    ensures
        weight(a + b) == weight(a) + weight(b),
    decreases b.len(),
{
    if b.len() == 0 {
        assert(a + b =~= a);
    } else {
        assert((a + b).drop_last() =~= a + b.drop_last());
        assert((a + b).last() == b.last());
        lemma_weight_concat(a, b.drop_last());
    }
}

proof fn lemma_weight_len(ops: Seq<OpModel>)
    ensures
        weight(ops) >= ops.len(),
    decreases ops.len(),
{
    if ops.len() > 0 {
        lemma_weight_len(ops.drop_last());
    }
}

/// A proper window weighs less.
pub proof fn lemma_weight_window(ops: Seq<OpModel>, start: int, end: int)
    requires
        0 <= start <= end <= ops.len(),
        end - start < ops.len(),
    ensures
        weight(ops.subrange(start, end)) < weight(ops),
{
    let front = ops.take(start);
    let mid = ops.subrange(start, end);
    let back = ops.skip(end);
    assert(ops =~= (front + mid) + back);
    lemma_weight_concat(front + mid, back);
    lemma_weight_concat(front, mid);
    lemma_weight_len(front);
    lemma_weight_len(back);
}

/// A sequence weighs less without one of its operations.
pub proof fn lemma_weight_remove(ops: Seq<OpModel>, index: int)
    requires
        0 <= index < ops.len(),
    ensures
        weight(ops.remove(index)) < weight(ops),
{
    let front = ops.take(index);
    let back = ops.skip(index + 1);
    let one = seq![ops[index]];
    assert(ops =~= (front + one) + back);
    assert(ops.remove(index) =~= front + back);
    lemma_weight_concat(front + one, back);
    lemma_weight_concat(front, one);
    lemma_weight_concat(front, back);
    lemma_weight_len(one);
}

/// A sequence weighs less with a lighter operation.
pub proof fn lemma_weight_update(ops: Seq<OpModel>, index: int, op: OpModel)
    requires
        0 <= index < ops.len(),
        op_weight(op) < op_weight(ops[index]),
    ensures
        weight(ops.update(index, op)) < weight(ops),
{
    let front = ops.take(index);
    let back = ops.skip(index + 1);
    let one = seq![ops[index]];
    let other = seq![op];
    assert(ops =~= (front + one) + back);
    assert(ops.update(index, op) =~= (front + other) + back);
    lemma_weight_concat(front + one, back);
    lemma_weight_concat(front, one);
    lemma_weight_concat(front + other, back);
    lemma_weight_concat(front, other);
    assert(one.drop_last() =~= seq![]);
    assert(other.drop_last() =~= seq![]);
    assert(weight(one) == weight(one.drop_last()) + op_weight(ops[index]));
    assert(weight(other) == weight(other.drop_last()) + op_weight(op));
}

/// An operation weighs less without its names.
pub proof fn lemma_unnamed_lighter(op: OpModel)
    requires
        op.is_named(),
    ensures
        op_weight(op.unnamed()) < op_weight(op),
{
}

/// An operation weighs less without its SQL.
pub proof fn lemma_plain_sql_lighter(op: OpModel)
    requires
        op.has_other_sql(),
    ensures
        op_weight(op.with_plain_sql()) < op_weight(op),
{
}

// ---------------------------------------------------------------------------
// What passes keep
// ---------------------------------------------------------------------------

/// A pass that starts from `ops` and ends with `out` either changes nothing or ends with
/// something lighter that the judge accepts.
pub open spec fn reduces(ops: Seq<OpModel>, out: Seq<OpModel>, judge: Judge) -> bool {
    out == ops || (weight(out) < weight(ops) && out.len() <= ops.len() && out.len() > 0 && judge(
        out,
    ))
}

pub(crate) proof fn lemma_suffix_trim(ops: Seq<OpModel>, end: nat, judge: Judge)
    requires
        end >= 1,
    ensures
        suffix_trim(ops, end, judge) matches Some(out) ==> reduces(ops, out, judge) && out != ops,
        suffix_trim(ops, end, judge) is None ==> forall|k: int|
            end <= k < ops.len() ==> !judge(#[trigger] ops.take(k)),
    decreases ops.len() - end,
{
    if end < ops.len() {
        lemma_suffix_trim(ops, end + 1, judge);
        lemma_weight_window(ops, 0, end as int);
        assert(ops.take(end as int) =~= ops.subrange(0, end as int));
    }
}

pub(crate) proof fn lemma_prefix_trim(ops: Seq<OpModel>, start: nat, judge: Judge)
    requires
        start == 0 || start < ops.len(),
    ensures
        prefix_trim(ops, start, judge) matches Some(out) ==> reduces(ops, out, judge) && out
            != ops,
        prefix_trim(ops, start, judge) is None ==> forall|k: int|
            1 <= k <= start ==> !judge(#[trigger] ops.skip(k)),
    decreases start,
{
    if start > 0 {
        lemma_prefix_trim(ops, (start - 1) as nat, judge);
        lemma_weight_window(ops, start as int, ops.len() as int);
        assert(ops.skip(start as int) =~= ops.subrange(start as int, ops.len() as int));
    }
}

pub(crate) proof fn lemma_single_deletion(ops: Seq<OpModel>, index: nat, judge: Judge)
    ensures
        single_deletion(ops, index, judge) matches Some(out) ==> reduces(ops, out, judge) && out
            != ops,
        single_deletion(ops, index, judge) is None && ops.len() > 1 ==> forall|k: int|
            index <= k < ops.len() ==> !judge(#[trigger] ops.remove(k)),
    decreases ops.len() - index,
{
    if index < ops.len() {
        lemma_single_deletion(ops, index + 1, judge);
        lemma_weight_remove(ops, index as int);
    }
}

pub(crate) proof fn lemma_window(ops: Seq<OpModel>, len: nat, start: nat, judge: Judge)
    requires
        1 <= len < ops.len(),
    ensures
        window(ops, len, start, judge) matches Some(out) ==> reduces(ops, out, judge) && out
            != ops && out.len() == len && is_window(out, ops),
        window(ops, len, start, judge) is None ==> forall|k: int|
            start <= k <= ops.len() - len ==> !judge(#[trigger] ops.subrange(k, k + len)),
    decreases ops.len() - start,
{
    if start + len <= ops.len() {
        lemma_window(ops, len, start + 1, judge);
        lemma_weight_window(ops, start as int, (start + len) as int);
    }
}

/// The one sequence is a run of neighbouring operations of the other.
pub open spec fn is_window(out: Seq<OpModel>, ops: Seq<OpModel>) -> bool {
    exists|start: int, end: int|
        0 <= start <= end <= ops.len() && out == #[trigger] ops.subrange(start, end)
}

/// The judge accepts no window of at least `from` and fewer than `to` operations.
pub open spec fn no_window(ops: Seq<OpModel>, from: nat, to: nat, judge: Judge) -> bool {
    forall|start: int, end: int|
        0 <= start <= end <= ops.len() && from <= end - start < to ==> !judge(
            #[trigger] ops.subrange(start, end),
        )
}

pub(crate) proof fn lemma_shortest_window(ops: Seq<OpModel>, len: nat, judge: Judge)
    requires
        len >= 1,
    ensures
        match shortest_window(ops, len, judge) {
            Some(out) => {
                &&& reduces(ops, out, judge)
                &&& out != ops
                &&& len <= out.len() < ops.len()
                &&& is_window(out, ops)
                &&& no_window(ops, len, out.len(), judge)
            },
            None => no_window(ops, len, ops.len(), judge),
        },
    decreases ops.len() - len,
{
    if len < ops.len() {
        lemma_window(ops, len, 0, judge);
        if window(ops, len, 0, judge) is None {
            lemma_shortest_window(ops, len + 1, judge);
            let to = match shortest_window(ops, len + 1, judge) {
                Some(out) => out.len(),
                None => ops.len(),
            };
            assert forall|start: int, end: int|
                0 <= start <= end <= ops.len() && len <= end - start < to implies !judge(
                #[trigger] ops.subrange(start, end),
            ) by {
                if end - start == len {
                    assert(ops.subrange(start, start + len) =~= ops.subrange(start, end));
                }
            }
        }
    }
}

pub(crate) proof fn lemma_subsequence(ops: Seq<OpModel>, judge: Judge)
    ensures
        subsequence(ops, judge) matches Some(out) ==> reduces(ops, out, judge) && out != ops,
        subsequence(ops, judge) is None ==> no_window(ops, 1, ops.len(), judge),
{
    lemma_shortest_window(ops, 1, judge);
}

pub(crate) proof fn lemma_name_simplification(ops: Seq<OpModel>, index: nat, judge: Judge)
    ensures
        reduces(ops, name_simplification(ops, index, judge), judge),
        name_simplification(ops, index, judge).len() == ops.len(),
        name_simplification(ops, index, judge) == ops ==> forall|k: int|
            index <= k < ops.len() && (#[trigger] ops[k]).is_named() ==> !judge(
                ops.update(k, ops[k].unnamed()),
            ),
    decreases ops.len() - index,
{
    if index < ops.len() {
        let op = ops[index as int];
        let simpler = ops.update(index as int, op.unnamed());
        if op.is_named() && judge(simpler) {
            lemma_unnamed_lighter(op);
            lemma_weight_update(ops, index as int, op.unnamed());
            lemma_name_simplification(simpler, index + 1, judge);
        } else {
            lemma_name_simplification(ops, index + 1, judge);
        }
    }
}

pub(crate) proof fn lemma_sql_simplification(ops: Seq<OpModel>, index: nat, judge: Judge)
    ensures
        reduces(ops, sql_simplification(ops, index, judge), judge),
        sql_simplification(ops, index, judge).len() == ops.len(),
        sql_simplification(ops, index, judge) == ops ==> forall|k: int|
            index <= k < ops.len() && (#[trigger] ops[k]).has_other_sql() ==> !judge(
                ops.update(k, ops[k].with_plain_sql()),
            ),
    decreases ops.len() - index,
{
    if index < ops.len() {
        let op = ops[index as int];
        let simpler = ops.update(index as int, op.with_plain_sql());
        if op.has_other_sql() && judge(simpler) {
            lemma_plain_sql_lighter(op);
            lemma_weight_update(ops, index as int, op.with_plain_sql());
            lemma_sql_simplification(simpler, index + 1, judge);
        } else {
            lemma_sql_simplification(ops, index + 1, judge);
        }
    }
}

pub(crate) proof fn lemma_from_sql(ops: Seq<OpModel>, judge: Judge)
    ensures
        reduces(ops, from_sql(ops, judge), judge),
{
    lemma_sql_simplification(ops, 0, judge);
}

pub(crate) proof fn lemma_from_names(ops: Seq<OpModel>, judge: Judge)
    ensures
        reduces(ops, from_names(ops, judge), judge),
{
    lemma_name_simplification(ops, 0, judge);
    lemma_from_sql(name_simplification(ops, 0, judge), judge);
}

pub(crate) proof fn lemma_from_window(ops: Seq<OpModel>, judge: Judge)
    ensures
        reduces(ops, from_window(ops, judge), judge),
{
    lemma_subsequence(ops, judge);
    lemma_from_names(or_same(subsequence(ops, judge), ops), judge);
}

pub(crate) proof fn lemma_from_deletion(ops: Seq<OpModel>, judge: Judge)
    ensures
        reduces(ops, from_deletion(ops, judge), judge),
{
    lemma_single_deletion(ops, 0, judge);
    lemma_from_window(or_same(single_deletion(ops, 0, judge), ops), judge);
}

pub(crate) proof fn lemma_from_prefix(ops: Seq<OpModel>, judge: Judge)
    ensures
        reduces(ops, from_prefix(ops, judge), judge),
{
    lemma_prefix_trim(ops, one_less(ops.len()), judge);
    lemma_from_deletion(or_same(prefix_trim(ops, one_less(ops.len()), judge), ops), judge);
}

/// A round either changes nothing or ends with something lighter that the judge accepts.
pub proof fn lemma_round(ops: Seq<OpModel>, judge: Judge)
    ensures
        reduces(ops, round(ops, judge), judge),
{
    lemma_suffix_trim(ops, 1, judge);
    lemma_from_prefix(or_same(suffix_trim(ops, 1, judge), ops), judge);
}

// ---------------------------------------------------------------------------
// Laws
// ---------------------------------------------------------------------------

/// Minimizing gives back the sequence it was given or one that the judge accepts, and never a
/// longer one: the minimized sequence still shows the bug.
pub proof fn law_shrunk_still_shows_the_bug(ops: Seq<OpModel>, judge: Judge)
    ensures
        shrunk(ops, judge) == ops || judge(shrunk(ops, judge)),
        judge(ops) ==> judge(shrunk(ops, judge)),
        shrunk(ops, judge).len() <= ops.len(),
        weight(shrunk(ops, judge)) <= weight(ops),
        ops.len() > 0 ==> shrunk(ops, judge).len() > 0,
    decreases weight(ops),
{
    lemma_round(ops, judge);
    if round(ops, judge) != ops {
        law_shrunk_still_shows_the_bug(round(ops, judge), judge);
    }
}

/// Minimizing ends where a further round would change nothing.
pub proof fn law_shrunk_is_a_fixed_point(ops: Seq<OpModel>, judge: Judge)
    ensures
        round(shrunk(ops, judge), judge) == shrunk(ops, judge),
        shrunk(shrunk(ops, judge), judge) == shrunk(ops, judge),
    decreases weight(ops),
{
    if round(ops, judge) != ops {
        lemma_round(ops, judge);
        law_shrunk_is_a_fixed_point(round(ops, judge), judge);
    }
}

/// The window pass finds the shortest run of neighbouring operations that shows the bug, where
/// one that is shorter than the sequence does, and finds nothing otherwise.
pub proof fn law_window_is_shortest(ops: Seq<OpModel>, judge: Judge)
    ensures
        match subsequence(ops, judge) {
            Some(out) => {
                &&& is_window(out, ops)
                &&& 0 < out.len() < ops.len()
                &&& judge(out)
                &&& no_window(ops, 1, out.len(), judge)
            },
            None => no_window(ops, 1, ops.len(), judge),
        },
{
    lemma_shortest_window(ops, 1, judge);
}

/// Nothing can be taken away from a minimized sequence in one step: no shorter run of neighbouring
/// operations of it shows the bug, so no prefix and no suffix, nor does it with one operation left
/// out, with one operation moved to the unnamed statement and portal, or with `SELECT 1` in place
/// of one SQL text.
pub proof fn law_shrunk_is_minimal(ops: Seq<OpModel>, judge: Judge)
    ensures
        ({
            let least = shrunk(ops, judge);
            &&& no_window(least, 1, least.len(), judge)
            &&& forall|k: int| 1 <= k < least.len() ==> !judge(#[trigger] least.take(k))
            &&& forall|k: int| 1 <= k < least.len() ==> !judge(#[trigger] least.skip(k))
            &&& least.len() > 1 ==> forall|k: int|
                0 <= k < least.len() ==> !judge(#[trigger] least.remove(k))
            &&& forall|k: int|
                0 <= k < least.len() && (#[trigger] least[k]).is_named() ==> !judge(
                    least.update(k, least[k].unnamed()),
                )
            &&& forall|k: int|
                0 <= k < least.len() && (#[trigger] least[k]).has_other_sql() ==> !judge(
                    least.update(k, least[k].with_plain_sql()),
                )
        }),
{
    let least = shrunk(ops, judge);
    law_shrunk_is_a_fixed_point(ops, judge);
    lemma_suffix_trim(least, 1, judge);
    let a = or_same(suffix_trim(least, 1, judge), least);
    lemma_from_prefix(a, judge);
    lemma_prefix_trim(a, one_less(a.len()), judge);
    let b = or_same(prefix_trim(a, one_less(a.len()), judge), a);
    lemma_from_deletion(b, judge);
    lemma_single_deletion(b, 0, judge);
    let c = or_same(single_deletion(b, 0, judge), b);
    lemma_from_window(c, judge);
    lemma_subsequence(c, judge);
    let d = or_same(subsequence(c, judge), c);
    lemma_from_names(d, judge);
    lemma_name_simplification(d, 0, judge);
    let e = name_simplification(d, 0, judge);
    lemma_from_sql(e, judge);
    lemma_sql_simplification(e, 0, judge);
}

/// The one operation is the other, perhaps moved to the unnamed statement and portal, and perhaps
/// with `SELECT 1`, which takes no parameters, as its SQL. It is of the same variant, and the
/// parameters, the row limit and the copied data stay as they are.
pub open spec fn simplifies(simple: OpModel, op: OpModel) -> bool {
    match op {
        OpModel::Query { sql } => {
            ||| simple == op
            ||| simple == OpModel::Query { sql: "SELECT 1"@ }
        },
        OpModel::Parse { name, sql, param_oids } => {
            &&& simple matches OpModel::Parse { name: n, sql: s, param_oids: p }
            &&& n == name || n == StmtName::Unnamed
            &&& s == sql && p == param_oids || s == "SELECT 1"@ && p == Seq::<u32>::empty()
        },
        OpModel::Bind { portal, stmt, params } => {
            ||| simple == op
            ||| simple == OpModel::Bind {
                portal: PortalName::Unnamed,
                stmt: StmtName::Unnamed,
                params,
            }
        },
        OpModel::DescribeStatement { .. } => {
            ||| simple == op
            ||| simple == OpModel::DescribeStatement { name: StmtName::Unnamed }
        },
        OpModel::DescribePortal { .. } => {
            ||| simple == op
            ||| simple == OpModel::DescribePortal { name: PortalName::Unnamed }
        },
        OpModel::Execute { max_rows, .. } => {
            ||| simple == op
            ||| simple == OpModel::Execute { portal: PortalName::Unnamed, max_rows }
        },
        OpModel::CloseStatement { .. } => {
            ||| simple == op
            ||| simple == OpModel::CloseStatement { name: StmtName::Unnamed }
        },
        OpModel::ClosePortal { .. } => {
            ||| simple == op
            ||| simple == OpModel::ClosePortal { name: PortalName::Unnamed }
        },
        _ => simple == op,
    }
}

/// The one sequence is the other with operations left out and operations simplified.
pub open spec fn comes_from(out: Seq<OpModel>, ops: Seq<OpModel>) -> bool
    decreases ops.len(),
{
    if out.len() == 0 {
        true
    } else if ops.len() == 0 {
        false
    } else {
        ||| comes_from(out, ops.drop_last())
        ||| simplifies(out.last(), ops.last()) && comes_from(out.drop_last(), ops.drop_last())
    }
}

proof fn lemma_comes_from_itself(ops: Seq<OpModel>)
    ensures
        comes_from(ops, ops),
    decreases ops.len(),
{
    if ops.len() > 0 {
        lemma_comes_from_itself(ops.drop_last());
    }
}

proof fn lemma_comes_from_chain(a: Seq<OpModel>, b: Seq<OpModel>, c: Seq<OpModel>)
    requires
        comes_from(a, b),
        comes_from(b, c),
    ensures
        comes_from(a, c),
    decreases c.len(),
{
    if a.len() > 0 {
        let (b0, c0) = (b.drop_last(), c.drop_last());
        if comes_from(b, c0) {
            lemma_comes_from_chain(a, b, c0);
        } else if comes_from(a, b0) {
            lemma_comes_from_chain(a, b0, c0);
        } else {
            lemma_comes_from_chain(a.drop_last(), b0, c0);
        }
    }
}

proof fn lemma_comes_from_window(ops: Seq<OpModel>, start: int, end: int)
    requires
        0 <= start <= end <= ops.len(),
    ensures
        comes_from(ops.subrange(start, end), ops),
    decreases ops.len(),
{
    let out = ops.subrange(start, end);
    if start < end {
        let before = ops.drop_last();
        if end < ops.len() {
            lemma_comes_from_window(before, start, end);
            assert(before.subrange(start, end) =~= out);
        } else {
            lemma_comes_from_window(before, start, end - 1);
            assert(before.subrange(start, end - 1) =~= out.drop_last());
        }
    }
}

proof fn lemma_comes_from_remove(ops: Seq<OpModel>, index: int)
    requires
        0 <= index < ops.len(),
    ensures
        comes_from(ops.remove(index), ops),
    decreases ops.len(),
{
    let out = ops.remove(index);
    let before = ops.drop_last();
    if index == ops.len() - 1 {
        assert(out =~= before);
        lemma_comes_from_itself(before);
    } else {
        lemma_comes_from_remove(before, index);
        assert(out.drop_last() =~= before.remove(index));
        assert(out.last() == ops.last());
    }
}

proof fn lemma_comes_from_update(ops: Seq<OpModel>, index: int, op: OpModel)
    requires
        0 <= index < ops.len(),
        simplifies(op, ops[index]),
    ensures
        comes_from(ops.update(index, op), ops),
    decreases ops.len(),
{
    let out = ops.update(index, op);
    let before = ops.drop_last();
    if index == ops.len() - 1 {
        assert(out.drop_last() =~= before);
        lemma_comes_from_itself(before);
    } else {
        lemma_comes_from_update(before, index, op);
        assert(out.drop_last() =~= before.update(index, op));
    }
}

proof fn lemma_suffix_comes_from(ops: Seq<OpModel>, end: nat, judge: Judge)
    ensures
        suffix_trim(ops, end, judge) matches Some(out) ==> comes_from(out, ops),
    decreases ops.len() - end,
{
    if end < ops.len() {
        lemma_suffix_comes_from(ops, end + 1, judge);
        lemma_comes_from_window(ops, 0, end as int);
        assert(ops.take(end as int) =~= ops.subrange(0, end as int));
    }
}

proof fn lemma_prefix_comes_from(ops: Seq<OpModel>, start: nat, judge: Judge)
    requires
        start <= ops.len(),
    ensures
        prefix_trim(ops, start, judge) matches Some(out) ==> comes_from(out, ops),
    decreases start,
{
    if start > 0 {
        lemma_prefix_comes_from(ops, (start - 1) as nat, judge);
        lemma_comes_from_window(ops, start as int, ops.len() as int);
        assert(ops.skip(start as int) =~= ops.subrange(start as int, ops.len() as int));
    }
}

proof fn lemma_deletion_comes_from(ops: Seq<OpModel>, index: nat, judge: Judge)
    ensures
        single_deletion(ops, index, judge) matches Some(out) ==> comes_from(out, ops),
    decreases ops.len() - index,
{
    if index < ops.len() {
        lemma_deletion_comes_from(ops, index + 1, judge);
        lemma_comes_from_remove(ops, index as int);
    }
}

proof fn lemma_window_comes_from(ops: Seq<OpModel>, len: nat, start: nat, judge: Judge)
    ensures
        window(ops, len, start, judge) matches Some(out) ==> comes_from(out, ops),
    decreases ops.len() - start,
{
    if start + len <= ops.len() && start < ops.len() {
        lemma_window_comes_from(ops, len, start + 1, judge);
        lemma_comes_from_window(ops, start as int, (start + len) as int);
    }
}

proof fn lemma_shortest_comes_from(ops: Seq<OpModel>, len: nat, judge: Judge)
    ensures
        shortest_window(ops, len, judge) matches Some(out) ==> comes_from(out, ops),
    decreases ops.len() - len,
{
    if len < ops.len() {
        lemma_window_comes_from(ops, len, 0, judge);
        lemma_shortest_comes_from(ops, len + 1, judge);
    }
}

proof fn lemma_names_come_from(ops: Seq<OpModel>, index: nat, judge: Judge)
    ensures
        comes_from(name_simplification(ops, index, judge), ops),
    decreases ops.len() - index,
{
    if index >= ops.len() {
        lemma_comes_from_itself(ops);
    } else {
        let op = ops[index as int];
        let simpler = ops.update(index as int, op.unnamed());
        lemma_names_come_from(ops, index + 1, judge);
        lemma_names_come_from(simpler, index + 1, judge);
        lemma_comes_from_update(ops, index as int, op.unnamed());
        lemma_comes_from_chain(name_simplification(simpler, index + 1, judge), simpler, ops);
    }
}

proof fn lemma_sql_comes_from(ops: Seq<OpModel>, index: nat, judge: Judge)
    ensures
        comes_from(sql_simplification(ops, index, judge), ops),
    decreases ops.len() - index,
{
    if index >= ops.len() {
        lemma_comes_from_itself(ops);
    } else {
        let op = ops[index as int];
        let simpler = ops.update(index as int, op.with_plain_sql());
        lemma_sql_comes_from(ops, index + 1, judge);
        lemma_sql_comes_from(simpler, index + 1, judge);
        lemma_comes_from_update(ops, index as int, op.with_plain_sql());
        lemma_comes_from_chain(sql_simplification(simpler, index + 1, judge), simpler, ops);
    }
}

proof fn lemma_round_comes_from(ops: Seq<OpModel>, judge: Judge)
    ensures
        comes_from(round(ops, judge), ops),
{
    lemma_comes_from_itself(ops);
    lemma_suffix_comes_from(ops, 1, judge);
    let a = or_same(suffix_trim(ops, 1, judge), ops);
    lemma_comes_from_itself(a);
    lemma_prefix_comes_from(a, one_less(a.len()), judge);
    let b = or_same(prefix_trim(a, one_less(a.len()), judge), a);
    lemma_comes_from_chain(b, a, ops);
    lemma_comes_from_itself(b);
    lemma_deletion_comes_from(b, 0, judge);
    let c = or_same(single_deletion(b, 0, judge), b);
    lemma_comes_from_chain(c, b, ops);
    lemma_comes_from_itself(c);
    lemma_shortest_comes_from(c, 1, judge);
    let d = or_same(subsequence(c, judge), c);
    lemma_comes_from_chain(d, c, ops);
    lemma_names_come_from(d, 0, judge);
    let e = name_simplification(d, 0, judge);
    lemma_comes_from_chain(e, d, ops);
    lemma_sql_comes_from(e, 0, judge);
    lemma_comes_from_chain(sql_simplification(e, 0, judge), e, ops);
}

/// Minimizing invents nothing and reorders nothing: its result is the given sequence with
/// operations left out and operations simplified.
pub proof fn law_shrunk_comes_from_the_input(ops: Seq<OpModel>, judge: Judge)
    ensures
        comes_from(shrunk(ops, judge), ops),
    decreases weight(ops),
{
    lemma_comes_from_itself(ops);
    if round(ops, judge) != ops {
        lemma_round(ops, judge);
        lemma_round_comes_from(ops, judge);
        law_shrunk_comes_from_the_input(round(ops, judge), judge);
        lemma_comes_from_chain(shrunk(round(ops, judge), judge), round(ops, judge), ops);
    }
}

/// Trimming the back keeps the fewest operations that still show the bug, and finds nothing only
/// where no proper start of the sequence shows it.
pub proof fn law_suffix_trim_keeps_the_fewest(ops: Seq<OpModel>, judge: Judge)
    ensures
        match suffix_trim(ops, 1, judge) {
            Some(out) => {
                &&& 1 <= out.len() < ops.len()
                &&& out == ops.take(out.len() as int)
                &&& judge(out)
                &&& forall|k: int| 1 <= k < out.len() ==> !judge(#[trigger] ops.take(k))
            },
            None => forall|k: int| 1 <= k < ops.len() ==> !judge(#[trigger] ops.take(k)),
        },
{
    lemma_suffix_trim_from(ops, 1, judge);
}

proof fn lemma_suffix_trim_from(ops: Seq<OpModel>, end: nat, judge: Judge)
    ensures
        match suffix_trim(ops, end, judge) {
            Some(out) => {
                &&& end <= out.len() < ops.len()
                &&& out == ops.take(out.len() as int)
                &&& judge(out)
                &&& forall|k: int| end <= k < out.len() ==> !judge(#[trigger] ops.take(k))
            },
            None => forall|k: int| end <= k < ops.len() ==> !judge(#[trigger] ops.take(k)),
        },
    decreases ops.len() - end,
{
    if end < ops.len() && !judge(ops.take(end as int)) {
        lemma_suffix_trim_from(ops, end + 1, judge);
    }
}

/// Trimming the front keeps the fewest operations that still show the bug, and finds nothing only
/// where no proper end of the sequence shows it.
pub proof fn law_prefix_trim_keeps_the_fewest(ops: Seq<OpModel>, judge: Judge)
    requires
        ops.len() > 0,
    ensures
        match prefix_trim(ops, (ops.len() - 1) as nat, judge) {
            Some(out) => {
                &&& 1 <= out.len() < ops.len()
                &&& out == ops.skip(ops.len() - out.len())
                &&& judge(out)
                &&& forall|k: int|
                    ops.len() - out.len() < k < ops.len() ==> !judge(#[trigger] ops.skip(k))
            },
            None => forall|k: int| 1 <= k < ops.len() ==> !judge(#[trigger] ops.skip(k)),
        },
{
    lemma_prefix_trim_from(ops, (ops.len() - 1) as nat, judge);
}

proof fn lemma_prefix_trim_from(ops: Seq<OpModel>, start: nat, judge: Judge)
    requires
        start < ops.len(),
    ensures
        match prefix_trim(ops, start, judge) {
            Some(out) => {
                &&& ops.len() - start <= out.len() < ops.len()
                &&& out == ops.skip(ops.len() - out.len())
                &&& judge(out)
                &&& forall|k: int|
                    ops.len() - out.len() < k <= start ==> !judge(#[trigger] ops.skip(k))
            },
            None => forall|k: int| 1 <= k <= start ==> !judge(#[trigger] ops.skip(k)),
        },
    decreases start,
{
    if start > 0 && !judge(ops.skip(start as int)) {
        lemma_prefix_trim_from(ops, (start - 1) as nat, judge);
    }
}

/// Leaving out one operation takes the first one without which the bug still shows. Nothing is
/// found only where every operation is needed, and a single operation is always kept.
pub proof fn law_deletion_takes_the_first_that_can_go(ops: Seq<OpModel>, judge: Judge)
    ensures
        match single_deletion(ops, 0, judge) {
            Some(out) => ops.len() > 1 && judge(out) && exists|k: int|
                {
                    &&& 0 <= k < ops.len()
                    &&& out == #[trigger] ops.remove(k)
                    &&& forall|j: int| 0 <= j < k ==> !judge(#[trigger] ops.remove(j))
                },
            None => ops.len() <= 1 || forall|j: int|
                0 <= j < ops.len() ==> !judge(#[trigger] ops.remove(j)),
        },
{
    lemma_single_deletion_from(ops, 0, judge);
}

proof fn lemma_single_deletion_from(ops: Seq<OpModel>, index: nat, judge: Judge)
    ensures
        match single_deletion(ops, index, judge) {
            Some(out) => ops.len() > 1 && judge(out) && exists|k: int|
                {
                    &&& index <= k < ops.len()
                    &&& out == #[trigger] ops.remove(k)
                    &&& forall|j: int| index <= j < k ==> !judge(#[trigger] ops.remove(j))
                },
            None => ops.len() <= 1 || forall|j: int|
                index <= j < ops.len() ==> !judge(#[trigger] ops.remove(j)),
        },
    decreases ops.len() - index,
{
    if ops.len() > 1 && index < ops.len() {
        if judge(ops.remove(index as int)) {
            assert(single_deletion(ops, index, judge) == Some(ops.remove(index as int)));
        } else {
            lemma_single_deletion_from(ops, index + 1, judge);
            if let Some(out) = single_deletion(ops, index + 1, judge) {
                let k = choose|k: int|
                    {
                        &&& index + 1 <= k < ops.len()
                        &&& out == #[trigger] ops.remove(k)
                        &&& forall|j: int| index + 1 <= j < k ==> !judge(#[trigger] ops.remove(j))
                    };
                assert(index <= k < ops.len() && out == ops.remove(k));
            }
        }
    }
}

/// Of the windows of the least length that show the bug, the first is taken.
pub proof fn law_window_is_the_first_of_its_length(ops: Seq<OpModel>, judge: Judge)
    ensures
        subsequence(ops, judge) matches Some(out) ==> exists|k: int|
            {
                &&& 0 <= k && k + out.len() <= ops.len()
                &&& out == #[trigger] ops.subrange(k, k + out.len())
                &&& forall|j: int|
                    0 <= j < k ==> !judge(#[trigger] ops.subrange(j, j + out.len()))
            },
{
    lemma_shortest_is_first(ops, 1, judge);
}

proof fn lemma_shortest_is_first(ops: Seq<OpModel>, len: nat, judge: Judge)
    ensures
        shortest_window(ops, len, judge) matches Some(out) ==> exists|k: int|
            {
                &&& 0 <= k && k + out.len() <= ops.len()
                &&& out == #[trigger] ops.subrange(k, k + out.len())
                &&& forall|j: int|
                    0 <= j < k ==> !judge(#[trigger] ops.subrange(j, j + out.len()))
            },
    decreases ops.len() - len,
{
    if len < ops.len() {
        lemma_window_is_first(ops, len, 0, judge);
        lemma_shortest_is_first(ops, len + 1, judge);
    }
}

proof fn lemma_window_is_first(ops: Seq<OpModel>, len: nat, start: nat, judge: Judge)
    ensures
        window(ops, len, start, judge) matches Some(out) ==> out.len() == len && exists|k: int|
            {
                &&& start <= k && k + len <= ops.len()
                &&& out == #[trigger] ops.subrange(k, k + len)
                &&& forall|j: int| start <= j < k ==> !judge(#[trigger] ops.subrange(j, j + len))
            },
    decreases ops.len() - start,
{
    if start + len <= ops.len() && start < ops.len() {
        let first = ops.subrange(start as int, (start + len) as int);
        if judge(first) {
            assert(window(ops, len, start, judge) == Some(first));
        } else {
            lemma_window_is_first(ops, len, start + 1, judge);
            if let Some(out) = window(ops, len, start + 1, judge) {
                let k = choose|k: int|
                    {
                        &&& start + 1 <= k && k + len <= ops.len()
                        &&& out == #[trigger] ops.subrange(k, k + len)
                        &&& forall|j: int|
                            start + 1 <= j < k ==> !judge(#[trigger] ops.subrange(j, j + len))
                    };
                assert(start <= k && out == ops.subrange(k, k + len));
            }
        }
    }
}

/// Simplifying names goes through the operations from the first to the last. An operation loses
/// its names exactly where it has some and the sequence still shows the bug with it changed, those
/// before it as they were left, and those behind it as they were given.
pub proof fn law_names_simplified_one_by_one(ops: Seq<OpModel>, judge: Judge)
    ensures
        ({
            let out = name_simplification(ops, 0, judge);
            &&& out.len() == ops.len()
            &&& forall|k: int|
                0 <= k < ops.len() ==> #[trigger] out[k] == if ops[k].is_named() && judge(
                    (out.take(k) + ops.skip(k)).update(k, ops[k].unnamed()),
                ) {
                    ops[k].unnamed()
                } else {
                    ops[k]
                }
        }),
{
    lemma_names_one_by_one(ops, ops, 0, judge);
}

proof fn lemma_names_one_by_one(
    ops: Seq<OpModel>,
    now: Seq<OpModel>,
    index: nat,
    judge: Judge,
)
    requires
        now.len() == ops.len(),
        index <= ops.len(),
        forall|k: int| index <= k < ops.len() ==> now[k] == ops[k],
    ensures
        ({
            let out = name_simplification(now, index, judge);
            &&& out.len() == ops.len()
            &&& out.take(index as int) == now.take(index as int)
            &&& forall|k: int|
                index <= k < ops.len() ==> #[trigger] out[k] == if ops[k].is_named() && judge(
                    (out.take(k) + ops.skip(k)).update(k, ops[k].unnamed()),
                ) {
                    ops[k].unnamed()
                } else {
                    ops[k]
                }
        }),
    decreases ops.len() - index,
{
    if index < ops.len() {
        let i = index as int;
        let simpler = now.update(i, now[i].unnamed());
        let next = if now[i].is_named() && judge(simpler) {
            simpler
        } else {
            now
        };
        lemma_names_one_by_one(ops, next, index + 1, judge);
        let out = name_simplification(now, index, judge);
        assert(out == name_simplification(next, index + 1, judge));
        assert(out.take(i) =~= now.take(i)) by {
            assert forall|k: int| 0 <= k < i implies out[k] == now[k] by {
                assert(out.take(i + 1)[k] == next.take(i + 1)[k]);
            }
        }
        assert(out[i] == next[i]) by {
            assert(out.take(i + 1)[i] == next.take(i + 1)[i]);
        }
        assert((out.take(i) + ops.skip(i)).update(i, ops[i].unnamed()) =~= simpler);
    }
}

/// Simplifying SQL goes through the operations in the same way: an operation gets `SELECT 1`
/// exactly where it has other SQL and the sequence still shows the bug with it changed, those
/// before it as they were left, and those behind it as they were given.
pub proof fn law_sql_simplified_one_by_one(ops: Seq<OpModel>, judge: Judge)
    ensures
        ({
            let out = sql_simplification(ops, 0, judge);
            &&& out.len() == ops.len()
            &&& forall|k: int|
                0 <= k < ops.len() ==> #[trigger] out[k] == if ops[k].has_other_sql() && judge(
                    (out.take(k) + ops.skip(k)).update(k, ops[k].with_plain_sql()),
                ) {
                    ops[k].with_plain_sql()
                } else {
                    ops[k]
                }
        }),
{
    lemma_sql_one_by_one(ops, ops, 0, judge);
}

proof fn lemma_sql_one_by_one(
    ops: Seq<OpModel>,
    now: Seq<OpModel>,
    index: nat,
    judge: Judge,
)
    requires
        now.len() == ops.len(),
        index <= ops.len(),
        forall|k: int| index <= k < ops.len() ==> now[k] == ops[k],
    ensures
        ({
            let out = sql_simplification(now, index, judge);
            &&& out.len() == ops.len()
            &&& out.take(index as int) == now.take(index as int)
            &&& forall|k: int|
                index <= k < ops.len() ==> #[trigger] out[k] == if ops[k].has_other_sql() && judge(
                    (out.take(k) + ops.skip(k)).update(k, ops[k].with_plain_sql()),
                ) {
                    ops[k].with_plain_sql()
                } else {
                    ops[k]
                }
        }),
    decreases ops.len() - index,
{
    if index < ops.len() {
        let i = index as int;
        let simpler = now.update(i, now[i].with_plain_sql());
        let next = if now[i].has_other_sql() && judge(simpler) {
            simpler
        } else {
            now
        };
        lemma_sql_one_by_one(ops, next, index + 1, judge);
        let out = sql_simplification(now, index, judge);
        assert(out == sql_simplification(next, index + 1, judge));
        assert(out.take(i) =~= now.take(i)) by {
            assert forall|k: int| 0 <= k < i implies out[k] == now[k] by {
                assert(out.take(i + 1)[k] == next.take(i + 1)[k]);
            }
        }
        assert(out[i] == next[i]) by {
            assert(out.take(i + 1)[i] == next.take(i + 1)[i]);
        }
        assert((out.take(i) + ops.skip(i)).update(i, ops[i].with_plain_sql()) =~= simpler);
    }
}

/// A round trims the back, trims the front, leaves out one operation, looks for a window,
/// simplifies names and simplifies SQL, in this order, each on what the one before left. A pass
/// that finds nothing leaves the sequence as it was.
pub proof fn law_round_runs_every_pass_in_order(
    ops: Seq<OpModel>,
    judge: Judge,
    trimmed: Seq<OpModel>,
    cut: Seq<OpModel>,
    thinned: Seq<OpModel>,
    windowed: Seq<OpModel>,
)
    requires
        ops.len() > 0,
        match suffix_trim(ops, 1, judge) {
            Some(out) => trimmed == out,
            None => trimmed == ops,
        },
        match prefix_trim(trimmed, (trimmed.len() - 1) as nat, judge) {
            Some(out) => cut == out,
            None => cut == trimmed,
        },
        match single_deletion(cut, 0, judge) {
            Some(out) => thinned == out,
            None => thinned == cut,
        },
        match subsequence(thinned, judge) {
            Some(out) => windowed == out,
            None => windowed == thinned,
        },
    ensures
        round(ops, judge) == sql_simplification(
            name_simplification(windowed, 0, judge),
            0,
            judge,
        ),
        shrunk(ops, judge) == shrunk(round(ops, judge), judge),
{
    law_suffix_trim_keeps_the_fewest(ops, judge);
    law_shrunk_is_a_fixed_point(ops, judge);
}

} // verus!
