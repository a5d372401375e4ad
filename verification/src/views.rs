//! Column views: the order-preserving filter of the backing task sequence by
//! lane, the mapping from a position within a column view back to a backing
//! index, and structural selection resolution.

use vstd::prelude::*;

use crate::task::{col_status, status_of_col, tviews, Status, Task, TaskView};

verus! {

/// The column view for lane `st`: the subsequence of `ts` whose status is
/// `st`, in backing order.
pub open spec fn cv(ts: Seq<TaskView>, st: Status) -> Seq<TaskView>
    decreases ts.len(),
{
    if ts.len() == 0 {
        Seq::empty()
    } else if ts[0].status == st {
        seq![ts[0]] + cv(ts.drop_first(), st)
    } else {
        cv(ts.drop_first(), st)
    }
}

/// How many of the first `i` tasks of `ts` lie in lane `st`: the position
/// that backing index `i` has (or would have) inside the column view.
pub open spec fn rank(ts: Seq<TaskView>, st: Status, i: int) -> int
    decreases ts.len(),
{
    if i <= 0 || ts.len() == 0 {
        0
    } else {
        (if ts[0].status == st {
            1int
        } else {
            0int
        }) + rank(ts.drop_first(), st, i - 1)
    }
}

/// The backing index of the `k`-th entry of lane `st`'s column view.
/// Meaningful only when `0 <= k < cv(ts, st).len()`.
pub open spec fn nth_index(ts: Seq<TaskView>, st: Status, k: int) -> int
    decreases ts.len(),
{
    if ts.len() == 0 {
        0
    } else if ts[0].status == st {
        if k == 0 {
            0
        } else {
            1 + nth_index(ts.drop_first(), st, k - 1)
        }
    } else {
        1 + nth_index(ts.drop_first(), st, k)
    }
}

/// The backing index of the first task whose title and status both match:
/// structural selection resolution (the board keeps no task identifiers).
pub open spec fn first_match(ts: Seq<TaskView>, title: Seq<char>, st: Status) -> Option<int>
    decreases ts.len(),
{
    if ts.len() == 0 {
        None
    } else if ts[0].title == title && ts[0].status == st {
        Some(0int)
    } else {
        match first_match(ts.drop_first(), title, st) {
            Some(i) => Some(i + 1),
            None => None,
        }
    }
}

/// Resolution of a selection cursor `(col, sel)` to a backing index: the
/// `sel`-th entry of the column view, located in the backing sequence by
/// title and status; `None` when the cursor is out of range.
pub open spec fn resolve(ts: Seq<TaskView>, col: int, sel: int) -> Option<int> {
    let v = cv(ts, status_of_col(col));
    if 0 <= sel < v.len() {
        first_match(ts, v[sel].title, status_of_col(col))
    } else {
        None
    }
}

/// Every column-view entry is a task of the backing sequence: the `k`-th
/// entry of the view stands at backing index `nth_index(ts, st, k)`, which
/// carries lane `st` and has exactly `k` lane-`st` tasks before it.
pub proof fn lemma_nth_index(ts: Seq<TaskView>, st: Status, k: int)
    requires
        0 <= k < cv(ts, st).len(),
    ensures
        0 <= nth_index(ts, st, k) < ts.len(),
        ts[nth_index(ts, st, k)].status == st,
        ts[nth_index(ts, st, k)] == cv(ts, st)[k],
        rank(ts, st, nth_index(ts, st, k)) == k,
    decreases ts.len(),
{
    if ts.len() == 0 {
    } else if ts[0].status == st {
        if k == 0 {
        } else {
            lemma_nth_index(ts.drop_first(), st, k - 1);
        }
    } else {
        lemma_nth_index(ts.drop_first(), st, k);
    }
}

/// The view-to-backing mapping is strictly increasing: entries that are
/// apart in a column view are apart, in the same order, in the backing
/// sequence.
pub proof fn lemma_nth_index_increasing(ts: Seq<TaskView>, st: Status, k1: int, k2: int)
    requires
        0 <= k1 < k2 < cv(ts, st).len(),
    ensures
        nth_index(ts, st, k1) < nth_index(ts, st, k2),
    decreases ts.len(),
{
    lemma_nth_index(ts, st, k1);
    lemma_nth_index(ts, st, k2);
    if ts.len() == 0 {
    } else if ts[0].status == st {
        if k1 == 0 {
        } else {
            lemma_nth_index_increasing(ts.drop_first(), st, k1 - 1, k2 - 1);
        }
    } else {
        lemma_nth_index_increasing(ts.drop_first(), st, k1, k2);
    }
}

/// A column view never has more entries than the backing sequence.
pub proof fn lemma_cv_len(ts: Seq<TaskView>, st: Status)
    ensures
        cv(ts, st).len() <= ts.len(),
    decreases ts.len(),
{
    if ts.len() > 0 {
        lemma_cv_len(ts.drop_first(), st);
    }
}

/// Appending a task extends exactly the column view of its own lane, at the
/// end; the other lanes' views are unchanged.
pub proof fn lemma_cv_push(ts: Seq<TaskView>, st: Status, t: TaskView)
    ensures
        t.status == st ==> cv(ts.push(t), st) == cv(ts, st).push(t),
        t.status != st ==> cv(ts.push(t), st) == cv(ts, st),
    decreases ts.len(),
{
    if ts.len() == 0 {
        assert(ts.push(t) =~= seq![t]);
        assert(seq![t][0] == t);
        assert(seq![t].drop_first() =~= Seq::<TaskView>::empty());
        if t.status == st {
            assert(cv(seq![t], st) == seq![t] + cv(Seq::<TaskView>::empty(), st));
            assert(cv(ts.push(t), st) =~= cv(ts, st).push(t));
        } else {
            assert(cv(seq![t], st) == cv(seq![t].drop_first(), st));
            assert(cv(Seq::<TaskView>::empty(), st) == Seq::<TaskView>::empty());
            assert(cv(ts.push(t), st) =~= cv(ts, st));
        }
    } else {
        assert(ts.push(t)[0] == ts[0]);
        assert(ts.push(t).drop_first() =~= ts.drop_first().push(t));
        lemma_cv_push(ts.drop_first(), st, t);
        if ts[0].status == st {
            assert(cv(ts.push(t), st) == seq![ts[0]] + cv(ts.drop_first().push(t), st));
            assert(cv(ts, st) == seq![ts[0]] + cv(ts.drop_first(), st));
            if t.status == st {
                assert(seq![ts[0]] + cv(ts.drop_first(), st).push(t) =~= (seq![ts[0]] + cv(
                    ts.drop_first(),
                    st,
                )).push(t));
            }
        } else {
            assert(cv(ts.push(t), st) == cv(ts.drop_first().push(t), st));
            assert(cv(ts, st) == cv(ts.drop_first(), st));
        }
    }
}

/// Overwriting the task at backing index `i` with one of the same lane
/// rewrites the lane's column view at position `rank(ts, st, i)` and leaves
/// every other lane's view unchanged.
pub proof fn lemma_cv_update_same(ts: Seq<TaskView>, st: Status, i: int, x: TaskView)
    requires
        0 <= i < ts.len(),
        ts[i].status == st,
        x.status == st,
    ensures
        cv(ts.update(i, x), st) == cv(ts, st).update(rank(ts, st, i), x),
        forall|st2: Status| st2 != st ==> cv(ts.update(i, x), st2) == cv(ts, st2),
        0 <= rank(ts, st, i) < cv(ts, st).len(),
    decreases ts.len(),
{
    lemma_cv_len(ts, st);
    if i == 0 {
        assert(ts.update(0, x)[0] == x);
        assert(ts.update(0, x).drop_first() =~= ts.drop_first());
        assert(cv(ts.update(0, x), st) == seq![x] + cv(ts.drop_first(), st));
        assert(cv(ts, st) == seq![ts[0]] + cv(ts.drop_first(), st));
        assert(cv(ts.update(0, x), st) =~= cv(ts, st).update(0, x));
        assert forall|st2: Status| st2 != st implies cv(ts.update(i, x), st2) == cv(
            ts,
            st2,
        ) by {
            assert(cv(ts.update(0, x), st2) == cv(ts.update(0, x).drop_first(), st2));
            assert(cv(ts, st2) == cv(ts.drop_first(), st2));
        }
    } else {
        assert(ts.update(i, x)[0] == ts[0]);
        assert(ts.update(i, x).drop_first() =~= ts.drop_first().update(i - 1, x));
        lemma_cv_update_same(ts.drop_first(), st, i - 1, x);
        let r = rank(ts.drop_first(), st, i - 1);
        if ts[0].status == st {
            assert(cv(ts.update(i, x), st) == seq![ts[0]] + cv(ts.drop_first().update(i - 1, x),
                st,
            ));
            assert(cv(ts, st) == seq![ts[0]] + cv(ts.drop_first(), st));
            assert(rank(ts, st, i) == 1 + r);
            assert(seq![ts[0]] + cv(ts.drop_first(), st).update(r, x) =~= (seq![ts[0]] + cv(
                ts.drop_first(),
                st,
            )).update(1 + r, x));
        } else {
            assert(cv(ts.update(i, x), st) == cv(ts.drop_first().update(i - 1, x), st));
            assert(cv(ts, st) == cv(ts.drop_first(), st));
            assert(rank(ts, st, i) == r);
        }
        assert forall|st2: Status| st2 != st implies cv(ts.update(i, x), st2) == cv(
            ts,
            st2,
        ) by {
            if ts[0].status == st2 {
                assert(cv(ts.update(i, x), st2) == seq![ts[0]] + cv(
                    ts.drop_first().update(i - 1, x),
                    st2,
                ));
                assert(cv(ts, st2) == seq![ts[0]] + cv(ts.drop_first(), st2));
            } else {
                assert(cv(ts.update(i, x), st2) == cv(ts.drop_first().update(i - 1, x), st2));
                assert(cv(ts, st2) == cv(ts.drop_first(), st2));
            }
        }
    }
}

/// Overwriting the task at backing index `i` with one of another lane
/// removes position `rank(ts, st, i)` from its old lane's column view.
pub proof fn lemma_cv_update_leave(ts: Seq<TaskView>, st: Status, i: int, x: TaskView)
    requires
        0 <= i < ts.len(),
        ts[i].status == st,
        x.status != st,
    ensures
        cv(ts.update(i, x), st) == cv(ts, st).remove(rank(ts, st, i)),
        0 <= rank(ts, st, i) < cv(ts, st).len(),
    decreases ts.len(),
{
    lemma_cv_len(ts, st);
    if i == 0 {
        assert(ts.update(0, x).drop_first() =~= ts.drop_first());
        assert(cv(ts.update(0, x), st) =~= cv(ts, st).remove(0));
    } else {
        assert(ts.update(i, x).drop_first() =~= ts.drop_first().update(i - 1, x));
        lemma_cv_update_leave(ts.drop_first(), st, i - 1, x);
        let r = rank(ts.drop_first(), st, i - 1);
        if ts[0].status == st {
            assert(cv(ts.update(i, x), st) =~= (seq![ts[0]] + cv(ts.drop_first(), st)).remove(
                1 + r,
            ));
        }
    }
}

/// Removing the task at backing index `i` removes position
/// `rank(ts, st, i)` from its lane's column view and leaves the other
/// lanes' views unchanged.
pub proof fn lemma_cv_remove(ts: Seq<TaskView>, st: Status, i: int)
    requires
        0 <= i < ts.len(),
        ts[i].status == st,
    ensures
        cv(ts.remove(i), st) == cv(ts, st).remove(rank(ts, st, i)),
        forall|st2: Status| st2 != st ==> cv(ts.remove(i), st2) == cv(ts, st2),
        0 <= rank(ts, st, i) < cv(ts, st).len(),
    decreases ts.len(),
{
    lemma_cv_len(ts, st);
    if i == 0 {
        assert(ts.remove(0) =~= ts.drop_first());
        assert(cv(ts, st) == seq![ts[0]] + cv(ts.drop_first(), st));
        assert(cv(ts, st).remove(0) =~= cv(ts.drop_first(), st));
        assert forall|st2: Status| st2 != st implies cv(ts.remove(i), st2) == cv(
            ts,
            st2,
        ) by {
            assert(cv(ts, st2) == cv(ts.drop_first(), st2));
        }
    } else {
        assert(ts.remove(i)[0] == ts[0]);
        assert(ts.remove(i).drop_first() =~= ts.drop_first().remove(i - 1));
        lemma_cv_remove(ts.drop_first(), st, i - 1);
        let r = rank(ts.drop_first(), st, i - 1);
        if ts[0].status == st {
            assert(cv(ts.remove(i), st) == seq![ts[0]] + cv(ts.drop_first().remove(i - 1), st));
            assert(cv(ts, st) == seq![ts[0]] + cv(ts.drop_first(), st));
            assert(rank(ts, st, i) == 1 + r);
            assert(seq![ts[0]] + cv(ts.drop_first(), st).remove(r) =~= (seq![ts[0]] + cv(
                ts.drop_first(),
                st,
            )).remove(1 + r));
        } else {
            assert(cv(ts.remove(i), st) == cv(ts.drop_first().remove(i - 1), st));
            assert(cv(ts, st) == cv(ts.drop_first(), st));
            assert(rank(ts, st, i) == r);
        }
        assert forall|st2: Status| st2 != st implies cv(ts.remove(i), st2) == cv(
            ts,
            st2,
        ) by {
            if ts[0].status == st2 {
                assert(cv(ts.remove(i), st2) == seq![ts[0]] + cv(ts.drop_first().remove(i - 1),
                    st2,
                ));
                assert(cv(ts, st2) == seq![ts[0]] + cv(ts.drop_first(), st2));
            } else {
                assert(cv(ts.remove(i), st2) == cv(ts.drop_first().remove(i - 1), st2));
                assert(cv(ts, st2) == cv(ts.drop_first(), st2));
            }
        }
    }
}

/// Whatever a first-match resolution returns lies in the backing sequence
/// and matches the sought title and status; and where some task matches,
/// resolution does return one.
pub proof fn lemma_first_match(ts: Seq<TaskView>, title: Seq<char>, st: Status)
    ensures
        match first_match(ts, title, st) {
            Some(i) => 0 <= i < ts.len() && ts[i].title == title && ts[i].status == st,
            None => forall|j: int|
                0 <= j < ts.len() ==> !(ts[j].title == title && ts[j].status == st),
        },
    decreases ts.len(),
{
    if ts.len() == 0 {
    } else if ts[0].title == title && ts[0].status == st {
    } else {
        lemma_first_match(ts.drop_first(), title, st);
        if first_match(ts.drop_first(), title, st) is None {
            assert forall|j: int|
                0 <= j < ts.len() implies !(ts[j].title == title && ts[j].status == st) by {
                if j > 0 {
                    assert(ts.drop_first()[j - 1] == ts[j]);
                }
            }
        }
    }
}

/// A selection cursor that points inside a non-empty column view always
/// resolves: the selected entry itself matches its own title and status, so
/// a first match exists.
pub proof fn lemma_resolution_succeeds(ts: Seq<TaskView>, col: int, sel: int)
    requires
        0 <= sel < cv(ts, status_of_col(col)).len(),
    ensures
        resolve(ts, col, sel) is Some,
        match resolve(ts, col, sel) {
            Some(g) => 0 <= g < ts.len() && ts[g].status == status_of_col(col) && ts[g].title == cv(
                ts,
                status_of_col(col),
            )[sel].title,
            None => false,
        },
{
    let st = status_of_col(col);
    let title = cv(ts, st)[sel].title;
    lemma_nth_index(ts, st, sel);
    lemma_first_match(ts, title, st);
    if first_match(ts, title, st) is None {
        assert(!(ts[nth_index(ts, st, sel)].title == title && ts[nth_index(ts, st, sel)].status
            == st));
    }
}

/// The column view of a lane, as clones of the matching tasks in backing
/// order.
pub fn tasks_in_column(tasks: &Vec<Task>, col: usize) -> (r: Vec<Task>)
    ensures
        tviews(r@) == cv(tviews(tasks@), status_of_col(col as int)),
{
    let st = col_status(col);
    let mut r: Vec<Task> = Vec::new();
    let mut i: usize = 0;
    proof {
        assert(tviews(tasks@).skip(0) =~= tviews(tasks@));
        assert(tviews(r@) + cv(tviews(tasks@), st) =~= cv(tviews(tasks@), st));
    }
    while i < tasks.len()
        invariant
            i <= tasks.len(),
            st == status_of_col(col as int),
            tviews(r@) + cv(tviews(tasks@).skip(i as int), st) == cv(tviews(tasks@), st),
        decreases tasks.len() - i,
    {
        let ghost pre = tviews(r@);
        let ghost rest = tviews(tasks@).skip(i as int);
        proof {
            assert(rest[0] == tviews(tasks@)[i as int]);
            assert(rest.drop_first() =~= tviews(tasks@).skip(i as int + 1));
        }
        if tasks[i].status == st {
            r.push(tasks[i].clone());
            proof {
                assert(tviews(r@) =~= pre.push(tviews(tasks@)[i as int]));
                assert(tviews(r@) + cv(tviews(tasks@).skip(i as int + 1), st) =~= pre + (seq![
                    rest[0],
                ] + cv(rest.drop_first(), st)));
            }
        }
        i += 1;
    }
    proof {
        assert(tviews(tasks@).skip(tasks@.len() as int) =~= Seq::<TaskView>::empty());
        assert(tviews(r@) + cv(Seq::<TaskView>::empty(), st) =~= tviews(r@));
    }
    r
}

/// The number of tasks in lane `col`, counted without copying.
pub fn column_len(tasks: &Vec<Task>, col: usize) -> (n: usize)
    ensures
        n == cv(tviews(tasks@), status_of_col(col as int)).len(),
{
    let ghost all = tviews(tasks@);
    let st = col_status(col);
    let mut n: usize = 0;
    let mut i: usize = 0;
    proof {
        assert(all.skip(0) =~= all);
    }
    while i < tasks.len()
        invariant
            i <= tasks.len(),
            st == status_of_col(col as int),
            all == tviews(tasks@),
            n <= i,
            cv(all, st).len() == n + cv(all.skip(i as int), st).len(),
        decreases tasks.len() - i,
    {
        let ghost rest = all.skip(i as int);
        proof {
            assert(rest[0] == all[i as int]);
            assert(rest.drop_first() =~= all.skip(i as int + 1));
        }
        if tasks[i].status == st {
            n += 1;
        }
        i += 1;
    }
    proof {
        assert(all.skip(tasks@.len() as int) =~= Seq::<TaskView>::empty());
    }
    n
}

/// Two task sequences that agree in length and, position for position, in
/// status, have the same column-view geometry: equal view lengths, equal
/// view-to-backing index mappings and equal ranks, in every lane.
pub proof fn lemma_status_pointwise(a: Seq<TaskView>, b: Seq<TaskView>, st: Status)
    requires
        a.len() == b.len(),
        forall|k: int| 0 <= k < a.len() ==> a[k].status == b[k].status,
    ensures
        cv(a, st).len() == cv(b, st).len(),
        forall|k: int|
            0 <= k < cv(a, st).len() ==> nth_index(a, st, k) == nth_index(b, st, k),
        forall|m: int| rank(a, st, m) == rank(b, st, m),
    decreases a.len(),
{
    if a.len() == 0 {
        assert(forall|m: int| rank(a, st, m) == rank(b, st, m));
    } else {
        let ad = a.drop_first();
        let bd = b.drop_first();
        assert forall|k: int| 0 <= k < ad.len() implies ad[k].status == bd[k].status by {
            assert(a[k + 1].status == b[k + 1].status);
        }
        lemma_status_pointwise(ad, bd, st);
        assert(a[0].status == b[0].status);
        if a[0].status == st {
            assert(cv(a, st).len() == 1 + cv(ad, st).len());
            assert(cv(b, st).len() == 1 + cv(bd, st).len());
        }
        assert forall|k: int|
            0 <= k < cv(a, st).len() implies nth_index(a, st, k) == nth_index(b, st, k) by {
            if a[0].status == st {
                if k > 0 {
                    assert(nth_index(ad, st, k - 1) == nth_index(bd, st, k - 1));
                }
            } else {
                assert(nth_index(ad, st, k) == nth_index(bd, st, k));
            }
        }
        assert forall|m: int| rank(a, st, m) == rank(b, st, m) by {
            if m > 0 {
                assert(rank(ad, st, m - 1) == rank(bd, st, m - 1));
            }
        }
    }
}

/// The pure view-to-backing index translation: the backing index of the
/// `k`-th entry of column `col`'s view, or `None` when that view has no
/// `k`-th entry.
pub fn view_to_backing_index(tasks: &Vec<Task>, col: usize, k: usize) -> (r: Option<usize>)
    ensures
        match r {
            Some(g) => k < cv(tviews(tasks@), status_of_col(col as int)).len() && g == nth_index(
                tviews(tasks@),
                status_of_col(col as int),
                k as int,
            ) && g < tasks@.len(),
            None => k >= cv(tviews(tasks@), status_of_col(col as int)).len(),
        },
{
    let ghost all = tviews(tasks@);
    let st = col_status(col);
    let mut i: usize = 0;
    let mut seen: usize = 0;
    proof {
        assert(all.skip(0) =~= all);
    }
    while i < tasks.len()
        invariant
            i <= tasks.len(),
            st == status_of_col(col as int),
            all == tviews(tasks@),
            seen <= i,
            cv(all, st).len() == seen + cv(all.skip(i as int), st).len(),
            seen <= k,
            k < cv(all, st).len() ==> nth_index(all, st, k as int) == i + nth_index(
                all.skip(i as int),
                st,
                (k - seen) as int,
            ),
        decreases tasks.len() - i,
    {
        let ghost rest = all.skip(i as int);
        proof {
            assert(rest[0] == all[i as int]);
            assert(rest.drop_first() =~= all.skip(i as int + 1));
        }
        if tasks[i].status == st {
            if seen == k {
                proof {
                    lemma_cv_len(rest.drop_first(), st);
                }
                return Some(i);
            }
            seen += 1;
        }
        i += 1;
    }
    proof {
        assert(all.skip(tasks@.len() as int) =~= Seq::<TaskView>::empty());
    }
    None
}

/// Structural selection resolution: the backing index of the first task
/// whose title and status match the `sel`-th entry of column `col`'s view;
/// `None` when the cursor points outside the view.
pub fn resolve_selection(tasks: &Vec<Task>, col: usize, sel: usize) -> (r: Option<usize>)
    ensures
        match r {
            Some(g) => resolve(tviews(tasks@), col as int, sel as int) == Some(g as int) && g
                < tasks@.len(),
            None => resolve(tviews(tasks@), col as int, sel as int) is None,
        },
{
    let ghost all = tviews(tasks@);
    let st = col_status(col);
    let in_col = tasks_in_column(tasks, col);
    if sel >= in_col.len() {
        return None;
    }
    let title = &in_col[sel].title;
    let ghost want = cv(all, status_of_col(col as int))[sel as int].title;
    assert(title@ == want);
    let mut i: usize = 0;
    proof {
        assert(all.skip(0) =~= all);
    }
    while i < tasks.len()
        invariant
            i <= tasks.len(),
            st == status_of_col(col as int),
            all == tviews(tasks@),
            title@ == want,
            0 <= sel < cv(all, st).len(),
            want == cv(all, st)[sel as int].title,
            match first_match(all.skip(i as int), want, st) {
                Some(j) => first_match(all, want, st) == Some(i + j),
                None => first_match(all, want, st) is None,
            },
        decreases tasks.len() - i,
    {
        let ghost rest = all.skip(i as int);
        proof {
            assert(rest[0] == all[i as int]);
            assert(rest.drop_first() =~= all.skip(i as int + 1));
        }
        if tasks[i].status == st && tasks[i].title == *title {
            proof {
                assert(rest[0].status == st && rest[0].title == want);
                assert(first_match(rest, want, st) == Some(0int));
                assert(first_match(all, want, st) == Some(i as int));
            }
            return Some(i);
        }
        i += 1;
    }
    proof {
        assert(all.skip(tasks@.len() as int) =~= Seq::<TaskView>::empty());
        lemma_resolution_succeeds(all, col as int, sel as int);
    }
    None
}

} // verus!
