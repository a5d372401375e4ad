//! Board-level laws: the selection invariant over arbitrary command
//! sequences, the column-view counting law, the reorder round trip, and the
//! purity of the render projection.

use vstd::prelude::*;

use crate::app::{
    app_wf, lemma_move_down_props, lemma_move_up_props, lemma_step_preserves_invariant, spec_step,
    step_move_down, step_move_up, task_info, App, AppView, Command, ModeView,
};
use crate::task::{status_of_col, Status, TaskView};
use crate::views::{cv, lemma_nth_index, lemma_status_pointwise, nth_index};

verus! {

/// The state after a whole sequence of commands, applied in order.
pub open spec fn spec_run(s: AppView, cmds: Seq<Command>) -> AppView
    decreases cmds.len(),
{
    if cmds.len() == 0 {
        s
    } else {
        spec_run(spec_step(s, cmds[0]).0, cmds.drop_first())
    }
}

/// After any sequence of commands — adds, deletes, reorders, status
/// advances, or anything else on the surface — a well-formed board stays
/// well formed: the active column is a lane and the selection cursor stays
/// strictly inside the active column's view whenever that view is
/// non-empty, and at 0 when it is empty.
pub proof fn lemma_run_preserves_invariant(s: AppView, cmds: Seq<Command>)
    requires
        app_wf(s),
    ensures
        app_wf(spec_run(s, cmds)),
    decreases cmds.len(),
{
    if cmds.len() > 0 {
        lemma_step_preserves_invariant(s, cmds[0]);
        lemma_run_preserves_invariant(spec_step(s, cmds[0]).0, cmds.drop_first());
    }
}

/// How many tasks of the sequence lie in lane `st`.
pub open spec fn count_status(ts: Seq<TaskView>, st: Status) -> int
    decreases ts.len(),
{
    if ts.len() == 0 {
        0
    } else {
        (if ts[0].status == st {
            1int
        } else {
            0int
        }) + count_status(ts.drop_first(), st)
    }
}

/// A column view is exactly as long as the number of tasks carrying its
/// lane's status.
pub proof fn lemma_view_len_counts(ts: Seq<TaskView>, st: Status)
    ensures
        cv(ts, st).len() == count_status(ts, st),
    decreases ts.len(),
{
    if ts.len() > 0 {
        lemma_view_len_counts(ts.drop_first(), st);
    }
}

/// Reordering at a boundary is a no-op: moving up with the cursor on the
/// first view entry, or moving down with it on the last (or over an empty
/// view), leaves the board untouched and persists nothing.
pub proof fn lemma_reorder_boundary_noop(s: AppView)
    requires
        app_wf(s),
    ensures
        s.sel == 0 ==> step_move_up(s) == (s, false),
        ({
            let v = cv(s.tasks, status_of_col(s.col));
            v.len() == 0 || s.sel == v.len() - 1
        }) ==> step_move_down(s) == (s, false),
{
    lemma_move_up_props(s);
    lemma_move_down_props(s);
}

/// Moving a non-boundary entry up and then immediately down — or down and
/// then immediately up — restores the original board exactly, selection
/// included.
pub proof fn lemma_reorder_round_trip(s: AppView)
    requires
        app_wf(s),
    ensures
        0 < s.sel < cv(s.tasks, status_of_col(s.col)).len() ==> step_move_down(
            step_move_up(s).0,
        ).0 == s,
        ({
            let v = cv(s.tasks, status_of_col(s.col));
            v.len() > 0 && s.sel < v.len() - 1
        }) ==> step_move_up(step_move_down(s).0).0 == s,
{
    let st = status_of_col(s.col);
    let v = cv(s.tasks, st);
    if 0 < s.sel < v.len() {
        let i = nth_index(s.tasks, st, s.sel);
        let j = nth_index(s.tasks, st, s.sel - 1);
        lemma_nth_index(s.tasks, st, s.sel);
        lemma_nth_index(s.tasks, st, s.sel - 1);
        lemma_move_up_props(s);
        let s1 = step_move_up(s).0;
        lemma_status_pointwise(s.tasks, s1.tasks, st);
        lemma_move_down_props(s1);
        assert(nth_index(s1.tasks, st, s.sel - 1) == j);
        assert(nth_index(s1.tasks, st, s.sel) == i);
        assert(s1.tasks[j] == s.tasks[i]);
        assert(s1.tasks[i] == s.tasks[j]);
        let s2 = step_move_down(s1).0;
        assert(s2.tasks =~= s.tasks);
    }
    if v.len() > 0 && 0 <= s.sel < v.len() - 1 {
        let i = nth_index(s.tasks, st, s.sel);
        let j = nth_index(s.tasks, st, s.sel + 1);
        lemma_nth_index(s.tasks, st, s.sel);
        lemma_nth_index(s.tasks, st, s.sel + 1);
        lemma_move_down_props(s);
        let s1 = step_move_down(s).0;
        lemma_status_pointwise(s.tasks, s1.tasks, st);
        lemma_move_up_props(s1);
        assert(nth_index(s1.tasks, st, s.sel + 1) == j);
        assert(nth_index(s1.tasks, st, s.sel) == i);
        assert(s1.tasks[j] == s.tasks[i]);
        assert(s1.tasks[i] == s.tasks[j]);
        let s2 = step_move_up(s1).0;
        assert(s2.tasks =~= s.tasks);
    }
}

/// Everything the renderer draws, derived from the board state alone: the
/// three column views, the cursor, the mode with its buffers, and the
/// detail-popup text.
pub ghost struct RenderModel {
    pub todo: Seq<TaskView>,
    pub doing: Seq<TaskView>,
    pub done: Seq<TaskView>,
    pub col: int,
    pub sel: int,
    pub mode: ModeView,
    pub info: (Seq<char>, Seq<char>),
}

/// The render projection: a pure function of the board state.
pub open spec fn render_model(s: AppView) -> RenderModel {
    RenderModel {
        todo: cv(s.tasks, Status::Todo),
        doing: cv(s.tasks, Status::Doing),
        done: cv(s.tasks, Status::Done),
        col: s.col,
        sel: s.sel,
        mode: s.mode,
        info: task_info(s),
    }
}

/// Rendering is a pure projection: it is derived through functions that
/// take the board immutably, and two boards with the same content project
/// to the same picture — so rendering twice from identical state yields
/// identical output.
pub proof fn lemma_rendering_pure(a: &App, b: &App)
    requires
        a@ == b@,
    ensures
        render_model(a@) == render_model(b@),
{
}

} // verus!
