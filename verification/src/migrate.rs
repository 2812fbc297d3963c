//! Bookkeeping around schema migration runs: given the versions that were
//! already applied before a run and the full history after it, which
//! migrations the run itself applied.

use vstd::prelude::*;

verus! {

/// One line of the migration history: a version and its name.
pub type HistoryRow = (i32, String);

/// A history row as its plain spec value.
pub open spec fn row_view(r: HistoryRow) -> (i32, Seq<char>) {
    (r.0, r.1@)
}

/// The rows of `post` whose version is not among `pre`, in history order.
pub open spec fn fresh_rows(pre: Seq<i32>, post: Seq<(i32, Seq<char>)>) -> Seq<(i32, Seq<char>)>
    decreases post.len(),
{
    if post.len() == 0 {
        Seq::empty()
    } else {
        let rest = fresh_rows(pre, post.drop_last());
        if pre.contains(post.last().0) {
            rest
        } else {
            rest.push(post.last())
        }
    }
}

/// Whether `v` is among the previously applied versions.
fn version_applied(pre: &Vec<i32>, v: i32) -> (applied: bool)
    ensures
        applied == pre@.contains(v),
{
    let mut j: usize = 0;
    while j < pre.len()
        invariant
            j <= pre@.len(),
            forall|k: int| 0 <= k < j ==> pre@[k] != v,
        decreases pre@.len() - j,
    {
        if pre[j] == v {
            return true;
        }
        j = j + 1;
    }
    false
}

/// The migrations a run itself applied: every history row whose version was
/// not applied before the run, in history order.
pub fn newly_applied(pre: &Vec<i32>, post: &Vec<HistoryRow>) -> (fresh: Vec<HistoryRow>)
    ensures
        fresh@.map_values(|r: HistoryRow| row_view(r)) == fresh_rows(
            pre@,
            post@.map_values(|r: HistoryRow| row_view(r)),
        ),
{
    let ghost post_view = post@.map_values(|r: HistoryRow| row_view(r));
    let mut fresh: Vec<HistoryRow> = Vec::new();
    let mut i: usize = 0;
    while i < post.len()
        invariant
            i <= post@.len(),
            post_view == post@.map_values(|r: HistoryRow| row_view(r)),
            fresh@.map_values(|r: HistoryRow| row_view(r)) == fresh_rows(
                pre@,
                post_view.subrange(0, i as int),
            ),
        decreases post@.len() - i,
    {
        let ghost pre_fresh = fresh@;
        let version = post[i].0;
        if !version_applied(pre, version) {
            let name = post[i].1.clone();
            fresh.push((version, name));
        }
        proof {
            assert(post_view.subrange(0, i + 1 as int).drop_last() =~= post_view.subrange(
                0,
                i as int,
            ));
            assert(post_view.subrange(0, i + 1 as int).last() == row_view(post@[i as int]));
            assert(fresh@.map_values(|r: HistoryRow| row_view(r)) =~= fresh_rows(
                pre@,
                post_view.subrange(0, i + 1 as int),
            ));
        }
        i = i + 1;
    }
    proof {
        assert(post_view.subrange(0, post@.len() as int) =~= post_view);
    }
    fresh
}

} // verus!
