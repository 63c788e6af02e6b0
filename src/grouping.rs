//! The row grouper: splits the rows of a table into runs of one class attribute.
use vstd::prelude::*;
use crate::model::{Row, RowView, rows_view, same_attr};

verus! {

broadcast use vstd::seq::Seq::group_seq_flatten;

/// The runs of `picks` (indices of rows, in document order): a new run starts at every
/// row whose class attribute differs from that of the row before it. No rows give one
/// empty run.
pub open spec fn runs(rows: Seq<RowView>, picks: Seq<usize>) -> Seq<Seq<usize>>
    decreases picks.len(),
{
    if picks.len() <= 1 {
        seq![picks]
    } else {
        let prev = runs(rows, picks.drop_last());
        let x = picks.last();
        if rows[x as int].class == rows[picks[picks.len() - 2] as int].class {
            prev.update(prev.len() - 1, prev.last().push(x))
        } else {
            prev.push(seq![x])
        }
    }
}

pub open spec fn groups_view(g: Seq<Vec<usize>>) -> Seq<Seq<usize>> {
    g.map_values(|v: Vec<usize>| v@)
}

/// There is always at least one run, and the last run is empty only when there are no rows.
pub proof fn lemma_runs_shape(rows: Seq<RowView>, picks: Seq<usize>)
    ensures
        runs(rows, picks).len() >= 1,
        picks.len() > 0 ==> runs(rows, picks).last().len() > 0,
    decreases picks.len(),
{
    if picks.len() > 1 {
        lemma_runs_shape(rows, picks.drop_last());
    }
}

/// Every member of every run is one of the picked rows' indices, so below any bound
/// that all of them are below.
pub proof fn lemma_runs_bounded(rows: Seq<RowView>, picks: Seq<usize>, bound: int)
    requires
        forall|m: int| 0 <= m < picks.len() ==> picks[m] < bound,
    ensures
        forall|i: int, j: int|
            0 <= i < runs(rows, picks).len() && 0 <= j < runs(rows, picks)[i].len()
                ==> runs(rows, picks)[i][j] < bound,
    decreases picks.len(),
{
    if picks.len() > 1 {
        lemma_runs_bounded(rows, picks.drop_last(), bound);
        lemma_runs_shape(rows, picks.drop_last());
    }
}

/// The runs of a row sequence, read in order and concatenated, give back exactly that
/// sequence of rows.
pub proof fn lemma_runs_concatenate(rows: Seq<RowView>, picks: Seq<usize>)
    ensures
        runs(rows, picks).flatten() == picks,
    decreases picks.len(),
{
    if picks.len() <= 1 {
        assert(seq![picks].flatten() == picks);
    } else {
        let prev = runs(rows, picks.drop_last());
        lemma_runs_concatenate(rows, picks.drop_last());
        lemma_runs_shape(rows, picks.drop_last());
        let x = picks.last();
        if rows[x as int].class == rows[picks[picks.len() - 2] as int].class {
            let init = prev.drop_last();
            assert(prev == init.push(prev.last()));
            assert(prev.update(prev.len() - 1, prev.last().push(x)) == init.push(prev.last().push(x)));
            assert(init.push(prev.last().push(x)).flatten() == init.flatten() + prev.last().push(x));
            assert(prev.flatten() == init.flatten() + prev.last());
            assert(init.flatten() + prev.last().push(x) == (init.flatten() + prev.last()).push(x));
        } else {
            assert(prev.push(seq![x]).flatten() == prev.flatten() + seq![x]);
        }
        assert(picks.drop_last().push(x) == picks);
    }
}

/// Splits the rows listed in `picks` (indices into `rows`, in document order) into
/// groups of one class attribute each. The cursor starts at the first listed row's class;
/// each row whose class differs from the cursor closes the current group and opens a new
/// one. Only the class attribute of each row is read. No rows give one empty group;
/// otherwise no group is empty.
pub fn group_rows(rows: &Vec<Row>, picks: &Vec<usize>) -> (r: Vec<Vec<usize>>)
    requires
        forall|i: int| 0 <= i < picks@.len() ==> picks@[i] < rows@.len(),
    ensures
        groups_view(r@) == runs(rows_view(rows@), picks@),
{
    let ghost rv = rows_view(rows@);
    let mut result: Vec<Vec<usize>> = Vec::new();
    let mut current: Vec<usize> = Vec::new();
    if picks.len() == 0 {
        result.push(current);
        assert(current@ =~= picks@);
        assert(groups_view(result@) =~= seq![picks@]);
        return result;
    }
    current.push(picks[0]);
    let mut cursor: usize = picks[0];
    let mut i: usize = 1;
    assert(picks@.subrange(0, 1) == seq![picks@[0]]);
    assert(groups_view(result@).push(current@) == seq![seq![picks@[0]]]);
    while i < picks.len()
        invariant
            1 <= i <= picks@.len(),
            forall|k: int| 0 <= k < picks@.len() ==> picks@[k] < rows@.len(),
            rv == rows_view(rows@),
            cursor == picks@[i - 1],
            groups_view(result@).push(current@) == runs(rv, picks@.subrange(0, i as int)),
        decreases picks@.len() - i,
    {
        let x = picks[i];
        let ghost before = picks@.subrange(0, i as int);
        let ghost after = picks@.subrange(0, i + 1);
        assert(after.drop_last() == before);
        assert(after.last() == x);
        assert(after[after.len() - 2] == cursor);
        if same_attr(&rows[x].class, &rows[cursor].class) {
            current.push(x);
        } else {
            result.push(current);
            current = Vec::new();
            current.push(x);
            assert(current@ == seq![x]);
        }
        assert(groups_view(result@).push(current@) == runs(rv, after));
        cursor = x;
        i = i + 1;
    }
    result.push(current);
    assert(picks@.subrange(0, picks@.len() as int) == picks@);
    assert(groups_view(result@) == groups_view(result@.drop_last()).push(current@));
    result
}

} // verus!
