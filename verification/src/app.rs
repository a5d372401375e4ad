//! The board state and its modal interaction state machine: one backing
//! sequence of tasks, a selection cursor, and a mode that owns the transient
//! editing buffers. Every transition is given by a spec-level step function
//! and every mutating method returns whether the change must be persisted.

use vstd::prelude::*;

use crate::buffer::{
    buf_cursor_left, buf_cursor_right, buf_delete_backward, buf_insert, buf_wf, BufView,
    EditBuffer,
};
use crate::strings::{chars_to_string, norm_title, normalize_title, string_to_chars};
use crate::task::{
    advance_status, next_status, status_of_col, tviews, EditFocus, Status, Task, TaskView,
};
use crate::views::{
    column_len, cv, lemma_cv_push, lemma_cv_remove, lemma_cv_update_leave,
    lemma_cv_update_same, lemma_nth_index, lemma_nth_index_increasing, lemma_resolution_succeeds,
    lemma_status_pointwise, nth_index, rank, resolve, resolve_selection, tasks_in_column,
    view_to_backing_index,
};

verus! {

/// The modal interaction context. Exactly one mode is active at a time, and
/// each mode owns only the buffers it needs.
#[derive(Debug)]
pub enum Mode {
    /// Plain board navigation.
    Navigation,
    /// The footer quick-add prompt, with its title buffer.
    QuickAdd { title: EditBuffer },
    /// The delete-confirmation popup for the current selection.
    Confirm,
    /// The read-only task detail popup.
    ViewDetail,
    /// The split edit popup, with a focus flag and both buffers.
    EditTask { focus: EditFocus, title: EditBuffer, description: EditBuffer },
}

/// The mathematical content of a [`Mode`].
pub ghost enum ModeView {
    Navigation,
    QuickAdd { title: BufView },
    Confirm,
    ViewDetail,
    EditTask { focus: EditFocus, title: BufView, description: BufView },
}

impl View for Mode {
    type V = ModeView;

    open spec fn view(&self) -> ModeView {
        match self {
            Mode::Navigation => ModeView::Navigation,
            Mode::QuickAdd { title } => ModeView::QuickAdd { title: title@ },
            Mode::Confirm => ModeView::Confirm,
            Mode::ViewDetail => ModeView::ViewDetail,
            Mode::EditTask { focus, title, description } => ModeView::EditTask {
                focus: *focus,
                title: title@,
                description: description@,
            },
        }
    }
}

/// A mode is well formed when the buffers it owns are.
pub open spec fn mode_wf(m: ModeView) -> bool {
    match m {
        ModeView::QuickAdd { title } => buf_wf(title),
        ModeView::EditTask { focus, title, description } => buf_wf(title) && buf_wf(description),
        _ => true,
    }
}

/// The whole board state: backing tasks, selection cursor, and mode.
#[derive(Debug)]
pub struct App {
    pub tasks: Vec<Task>,
    pub active_column: usize,
    pub selected_index: usize,
    pub mode: Mode,
}

/// The mathematical content of an [`App`].
pub ghost struct AppView {
    pub tasks: Seq<TaskView>,
    pub col: int,
    pub sel: int,
    pub mode: ModeView,
}

impl View for App {
    type V = AppView;

    open spec fn view(&self) -> AppView {
        AppView {
            tasks: tviews(self.tasks@),
            col: self.active_column as int,
            sel: self.selected_index as int,
            mode: self.mode@,
        }
    }
}

/// The selection cursor stays inside the active column's view: strictly
/// below its length when the view is non-empty, and pinned to 0 when it is
/// empty.
pub open spec fn sel_ok(s: AppView) -> bool {
    let v = cv(s.tasks, status_of_col(s.col));
    if v.len() == 0 {
        s.sel == 0
    } else {
        0 <= s.sel < v.len()
    }
}

/// The board invariant: the active column is one of the three lanes, the
/// selection cursor is in range, and the mode's buffers are well formed.
pub open spec fn app_wf(s: AppView) -> bool {
    &&& 0 <= s.col < 3
    &&& sel_ok(s)
    &&& mode_wf(s.mode)
}

/// The semantic command surface, decoded from physical keys outside the
/// library.
#[derive(Clone, Copy, Debug, PartialEq, Eq, Structural)]
pub enum Command {
    Quit,
    NewTask,
    OpenEdit,
    OpenView,
    PromptDelete,
    MoveColumnLeft,
    MoveColumnRight,
    MoveSelectionUp,
    MoveSelectionDown,
    ReorderUp,
    ReorderDown,
    AdvanceStatus,
    InsertChar(char),
    DeleteBackward,
    CursorLeft,
    CursorRight,
    SubmitText,
    CancelText,
    ToggleFocus,
}

// --- Spec-level transitions, one per externally observable operation. ---

/// Move to the column on the right, clamped; reaching a new column resets
/// the selection to its top.
pub open spec fn step_next_column(s: AppView) -> AppView {
    if s.col < 2 {
        AppView { tasks: s.tasks, col: s.col + 1, sel: 0, mode: s.mode }
    } else {
        s
    }
}

/// Move to the column on the left, clamped; reaching a new column resets
/// the selection to its top.
pub open spec fn step_prev_column(s: AppView) -> AppView {
    if s.col > 0 {
        AppView { tasks: s.tasks, col: s.col - 1, sel: 0, mode: s.mode }
    } else {
        s
    }
}

/// Move the selection down one entry, clamped to the view's last entry.
pub open spec fn step_next_item(s: AppView) -> AppView {
    let n = cv(s.tasks, status_of_col(s.col)).len();
    if n > 0 && s.sel < n - 1 {
        AppView { tasks: s.tasks, col: s.col, sel: s.sel + 1, mode: s.mode }
    } else {
        s
    }
}

/// Move the selection up one entry, clamped to the view's first entry.
pub open spec fn step_prev_item(s: AppView) -> AppView {
    if s.sel > 0 {
        AppView { tasks: s.tasks, col: s.col, sel: s.sel - 1, mode: s.mode }
    } else {
        s
    }
}

/// Swap the selected entry with its predecessor in the active column: the
/// two backing positions are exchanged, and the selection follows the moved
/// task. A selection at the top of the view is a silent no-op.
pub open spec fn step_move_up(s: AppView) -> (AppView, bool) {
    let st = status_of_col(s.col);
    let v = cv(s.tasks, st);
    if 0 < s.sel < v.len() {
        let i = nth_index(s.tasks, st, s.sel);
        let j = nth_index(s.tasks, st, s.sel - 1);
        (
            AppView {
                tasks: s.tasks.update(i, s.tasks[j]).update(j, s.tasks[i]),
                col: s.col,
                sel: s.sel - 1,
                mode: s.mode,
            },
            true,
        )
    } else {
        (s, false)
    }
}

/// Swap the selected entry with its successor in the active column; a
/// selection at the bottom of the view is a silent no-op.
pub open spec fn step_move_down(s: AppView) -> (AppView, bool) {
    let st = status_of_col(s.col);
    let v = cv(s.tasks, st);
    if v.len() > 0 && 0 <= s.sel < v.len() - 1 {
        let i = nth_index(s.tasks, st, s.sel);
        let j = nth_index(s.tasks, st, s.sel + 1);
        (
            AppView {
                tasks: s.tasks.update(i, s.tasks[j]).update(j, s.tasks[i]),
                col: s.col,
                sel: s.sel + 1,
                mode: s.mode,
            },
            true,
        )
    } else {
        (s, false)
    }
}

/// Open the quick-add prompt with an empty title buffer.
pub open spec fn step_start_adding(s: AppView) -> AppView {
    AppView {
        tasks: s.tasks,
        col: s.col,
        sel: s.sel,
        mode: ModeView::QuickAdd { title: BufView { text: Seq::empty(), cursor: 0 } },
    }
}

/// Discard the quick-add buffer and return to navigation.
pub open spec fn step_cancel_input(s: AppView) -> AppView {
    AppView { tasks: s.tasks, col: s.col, sel: s.sel, mode: ModeView::Navigation }
}

/// Submit the quick-add buffer: a title that trims to nothing cancels the
/// prompt without touching the board; otherwise a new Todo task with the
/// trimmed title and an empty description is appended at the end.
pub open spec fn step_submit_input(s: AppView) -> (AppView, bool) {
    match s.mode {
        ModeView::QuickAdd { title } => {
            let t = norm_title(title.text);
            if t.len() == 0 {
                (
                    AppView { tasks: s.tasks, col: s.col, sel: s.sel, mode: ModeView::Navigation },
                    false,
                )
            } else {
                (
                    AppView {
                        tasks: s.tasks.push(
                            TaskView { title: t, description: Seq::empty(), status: Status::Todo },
                        ),
                        col: s.col,
                        sel: s.sel,
                        mode: ModeView::Navigation,
                    },
                    true,
                )
            }
        },
        _ => (s, false),
    }
}

/// Ask for confirmation before deleting, but only when the active column
/// has something to delete.
pub open spec fn step_prompt_delete(s: AppView) -> AppView {
    if cv(s.tasks, status_of_col(s.col)).len() > 0 {
        AppView { tasks: s.tasks, col: s.col, sel: s.sel, mode: ModeView::Confirm }
    } else {
        s
    }
}

/// Decline the deletion: no mutation.
pub open spec fn step_cancel_delete(s: AppView) -> AppView {
    AppView { tasks: s.tasks, col: s.col, sel: s.sel, mode: ModeView::Navigation }
}

/// Confirm the deletion: the selection is resolved structurally and the
/// resolved task is removed, shifting later tasks left; a selection that
/// fails to resolve is a silent no-op. Either way the popup closes. The
/// cursor steps up one entry when it was not already at the top.
pub open spec fn step_confirm_delete(s: AppView) -> (AppView, bool) {
    match resolve(s.tasks, s.col, s.sel) {
        Some(g) => (
            AppView {
                tasks: s.tasks.remove(g),
                col: s.col,
                sel: if s.sel > 0 {
                    s.sel - 1
                } else {
                    0
                },
                mode: ModeView::Navigation,
            },
            true,
        ),
        None => (
            AppView { tasks: s.tasks, col: s.col, sel: s.sel, mode: ModeView::Navigation },
            false,
        ),
    }
}

/// Advance the selected task's status one step around the cycle, in place:
/// the task keeps its backing position. The selection is then clamped to
/// the shrunken view of the active column.
pub open spec fn step_advance_status(s: AppView) -> (AppView, bool) {
    match resolve(s.tasks, s.col, s.sel) {
        Some(g) => {
            let t = s.tasks[g];
            let t2 = TaskView {
                title: t.title,
                description: t.description,
                status: next_status(t.status),
            };
            let tasks2 = s.tasks.update(g, t2);
            let n2 = cv(tasks2, status_of_col(s.col)).len();
            let sel2 = if n2 == 0 {
                0
            } else if s.sel >= n2 {
                n2 - 1
            } else {
                s.sel
            };
            (AppView { tasks: tasks2, col: s.col, sel: sel2, mode: s.mode }, true)
        },
        None => (s, false),
    }
}

/// Open the read-only detail popup, but only over a non-empty column.
pub open spec fn step_open_view(s: AppView) -> AppView {
    if cv(s.tasks, status_of_col(s.col)).len() > 0 {
        AppView { tasks: s.tasks, col: s.col, sel: s.sel, mode: ModeView::ViewDetail }
    } else {
        s
    }
}

/// Close the detail popup: read-only, no mutation.
pub open spec fn step_close_view(s: AppView) -> AppView {
    AppView { tasks: s.tasks, col: s.col, sel: s.sel, mode: ModeView::Navigation }
}

/// Open the edit popup over the resolved selection, its title buffer loaded
/// with the cursor at the end and its description buffer with the cursor at
/// the start; focus starts on the title. A selection that fails to resolve
/// is a silent no-op.
pub open spec fn step_open_edit(s: AppView) -> AppView {
    match resolve(s.tasks, s.col, s.sel) {
        Some(g) => AppView {
            tasks: s.tasks,
            col: s.col,
            sel: s.sel,
            mode: ModeView::EditTask {
                focus: EditFocus::Title,
                title: BufView { text: s.tasks[g].title, cursor: s.tasks[g].title.len() as int },
                description: BufView { text: s.tasks[g].description, cursor: 0 },
            },
        },
        None => s,
    }
}

/// Discard both edit buffers and return to navigation.
pub open spec fn step_close_edit(s: AppView) -> AppView {
    AppView { tasks: s.tasks, col: s.col, sel: s.sel, mode: ModeView::Navigation }
}

/// Flip the edit focus between the title and description boxes; no data
/// changes.
pub open spec fn step_toggle_focus(s: AppView) -> AppView {
    match s.mode {
        ModeView::EditTask { focus, title, description } => AppView {
            tasks: s.tasks,
            col: s.col,
            sel: s.sel,
            mode: ModeView::EditTask {
                focus: if focus == EditFocus::Title {
                    EditFocus::Description
                } else {
                    EditFocus::Title
                },
                title,
                description,
            },
        },
        _ => s,
    }
}

/// Save the edit buffers into the resolved task: a title that trims to
/// nothing discards the edit, yet the popup still closes; otherwise the
/// task keeps its status and takes the trimmed title and the description
/// text. A selection that fails to resolve discards the edit too.
pub open spec fn step_save_edit(s: AppView) -> (AppView, bool) {
    match s.mode {
        ModeView::EditTask { focus, title, description } => {
            let t = norm_title(title.text);
            if t.len() == 0 {
                (
                    AppView { tasks: s.tasks, col: s.col, sel: s.sel, mode: ModeView::Navigation },
                    false,
                )
            } else {
                match resolve(s.tasks, s.col, s.sel) {
                    Some(g) => (
                        AppView {
                            tasks: s.tasks.update(
                                g,
                                TaskView {
                                    title: t,
                                    description: description.text,
                                    status: s.tasks[g].status,
                                },
                            ),
                            col: s.col,
                            sel: s.sel,
                            mode: ModeView::Navigation,
                        },
                        true,
                    ),
                    None => (
                        AppView {
                            tasks: s.tasks,
                            col: s.col,
                            sel: s.sel,
                            mode: ModeView::Navigation,
                        },
                        false,
                    ),
                }
            }
        },
        _ => (s, false),
    }
}

/// Insert a character into whichever buffer the mode focuses; outside a
/// text mode this is a no-op.
pub open spec fn step_insert_char(s: AppView, c: char) -> AppView {
    match s.mode {
        ModeView::QuickAdd { title } => AppView {
            tasks: s.tasks,
            col: s.col,
            sel: s.sel,
            mode: ModeView::QuickAdd { title: buf_insert(title, c) },
        },
        ModeView::EditTask { focus, title, description } => AppView {
            tasks: s.tasks,
            col: s.col,
            sel: s.sel,
            mode: if focus == EditFocus::Title {
                ModeView::EditTask { focus, title: buf_insert(title, c), description }
            } else {
                ModeView::EditTask { focus, title, description: buf_insert(description, c) }
            },
        },
        _ => s,
    }
}

/// Delete backward in whichever buffer the mode focuses; outside a text
/// mode this is a no-op.
pub open spec fn step_delete_backward(s: AppView) -> AppView {
    match s.mode {
        ModeView::QuickAdd { title } => AppView {
            tasks: s.tasks,
            col: s.col,
            sel: s.sel,
            mode: ModeView::QuickAdd { title: buf_delete_backward(title) },
        },
        ModeView::EditTask { focus, title, description } => AppView {
            tasks: s.tasks,
            col: s.col,
            sel: s.sel,
            mode: if focus == EditFocus::Title {
                ModeView::EditTask { focus, title: buf_delete_backward(title), description }
            } else {
                ModeView::EditTask { focus, title, description: buf_delete_backward(description) }
            },
        },
        _ => s,
    }
}

/// Move the focused buffer's cursor one place left; outside a text mode a
/// no-op.
pub open spec fn step_cursor_left(s: AppView) -> AppView {
    match s.mode {
        ModeView::QuickAdd { title } => AppView {
            tasks: s.tasks,
            col: s.col,
            sel: s.sel,
            mode: ModeView::QuickAdd { title: buf_cursor_left(title) },
        },
        ModeView::EditTask { focus, title, description } => AppView {
            tasks: s.tasks,
            col: s.col,
            sel: s.sel,
            mode: if focus == EditFocus::Title {
                ModeView::EditTask { focus, title: buf_cursor_left(title), description }
            } else {
                ModeView::EditTask { focus, title, description: buf_cursor_left(description) }
            },
        },
        _ => s,
    }
}

/// Move the focused buffer's cursor one place right; outside a text mode a
/// no-op.
pub open spec fn step_cursor_right(s: AppView) -> AppView {
    match s.mode {
        ModeView::QuickAdd { title } => AppView {
            tasks: s.tasks,
            col: s.col,
            sel: s.sel,
            mode: ModeView::QuickAdd { title: buf_cursor_right(title) },
        },
        ModeView::EditTask { focus, title, description } => AppView {
            tasks: s.tasks,
            col: s.col,
            sel: s.sel,
            mode: if focus == EditFocus::Title {
                ModeView::EditTask { focus, title: buf_cursor_right(title), description }
            } else {
                ModeView::EditTask { focus, title, description: buf_cursor_right(description) }
            },
        },
        _ => s,
    }
}

/// The full interaction state machine: a command is routed by the current
/// mode, every other command is ignored, and the boolean says whether the
/// board mutated and must be persisted. Navigation and reorder commands are
/// blocked while any popup or prompt is open.
pub open spec fn spec_step(s: AppView, cmd: Command) -> (AppView, bool) {
    match s.mode {
        ModeView::Navigation => match cmd {
            Command::NewTask => (step_start_adding(s), false),
            Command::OpenEdit => (step_open_edit(s), false),
            Command::OpenView => (step_open_view(s), false),
            Command::PromptDelete => (step_prompt_delete(s), false),
            Command::MoveColumnLeft => (step_prev_column(s), false),
            Command::MoveColumnRight => (step_next_column(s), false),
            Command::MoveSelectionUp => (step_prev_item(s), false),
            Command::MoveSelectionDown => (step_next_item(s), false),
            Command::ReorderUp => step_move_up(s),
            Command::ReorderDown => step_move_down(s),
            Command::AdvanceStatus => step_advance_status(s),
            _ => (s, false),
        },
        ModeView::QuickAdd { title } => match cmd {
            Command::SubmitText => step_submit_input(s),
            Command::CancelText => (step_cancel_input(s), false),
            Command::InsertChar(c) => (step_insert_char(s, c), false),
            Command::DeleteBackward => (step_delete_backward(s), false),
            Command::CursorLeft => (step_cursor_left(s), false),
            Command::CursorRight => (step_cursor_right(s), false),
            _ => (s, false),
        },
        ModeView::Confirm => match cmd {
            Command::SubmitText => step_confirm_delete(s),
            Command::CancelText => (step_cancel_delete(s), false),
            _ => (s, false),
        },
        ModeView::ViewDetail => match cmd {
            Command::SubmitText => (step_close_view(s), false),
            Command::CancelText => (step_close_view(s), false),
            _ => (s, false),
        },
        ModeView::EditTask { focus, title, description } => match cmd {
            Command::SubmitText => step_save_edit(s),
            Command::CancelText => (step_close_edit(s), false),
            Command::ToggleFocus => (step_toggle_focus(s), false),
            Command::InsertChar(c) => (step_insert_char(s, c), false),
            Command::DeleteBackward => (step_delete_backward(s), false),
            Command::CursorLeft => (step_cursor_left(s), false),
            Command::CursorRight => (step_cursor_right(s), false),
            _ => (s, false),
        },
    }
}

// --- Invariant preservation, and the exact view effect of a reorder. ---

/// Reordering upward preserves the invariant; when it fires it swaps the
/// selected view entry with its predecessor, touches no other lane, keeps
/// every backing status in place, and moves the selection up with the task.
/// At the top of the view it is exactly a no-op.
pub proof fn lemma_move_up_props(s: AppView)
    requires
        app_wf(s),
    ensures
        app_wf(step_move_up(s).0),
        0 < s.sel < cv(s.tasks, status_of_col(s.col)).len() ==> {
            let st = status_of_col(s.col);
            let v = cv(s.tasks, st);
            let s2 = step_move_up(s).0;
            &&& cv(s2.tasks, st) == v.update(s.sel, v[s.sel - 1]).update(s.sel - 1, v[s.sel])
            &&& (forall|st2: Status| st2 != st ==> cv(s2.tasks, st2) == cv(s.tasks, st2))
            &&& s2.tasks.len() == s.tasks.len()
            &&& (forall|k: int| 0 <= k < s.tasks.len() ==> s2.tasks[k].status == s.tasks[k].status)
            &&& s2.sel == s.sel - 1
            &&& s2.col == s.col
            &&& s2.mode == s.mode
            &&& step_move_up(s).1
        },
        !(0 < s.sel < cv(s.tasks, status_of_col(s.col)).len()) ==> step_move_up(s) == (s, false),
{
    let st = status_of_col(s.col);
    let v = cv(s.tasks, st);
    if 0 < s.sel < v.len() {
        let i = nth_index(s.tasks, st, s.sel);
        let j = nth_index(s.tasks, st, s.sel - 1);
        lemma_nth_index(s.tasks, st, s.sel);
        lemma_nth_index(s.tasks, st, s.sel - 1);
        lemma_nth_index_increasing(s.tasks, st, s.sel - 1, s.sel);
        let ts1 = s.tasks.update(i, s.tasks[j]);
        lemma_cv_update_same(s.tasks, st, i, s.tasks[j]);
        lemma_status_pointwise(s.tasks, ts1, st);
        assert(ts1[j] == s.tasks[j]);
        lemma_cv_update_same(ts1, st, j, s.tasks[i]);
        let ts2 = ts1.update(j, s.tasks[i]);
        assert(rank(ts1, st, j) == rank(s.tasks, st, j));
        assert(cv(ts2, st) == v.update(s.sel, s.tasks[j]).update(s.sel - 1, s.tasks[i]));
        assert(v[s.sel] == s.tasks[i]);
        assert(v[s.sel - 1] == s.tasks[j]);
        assert forall|k: int| 0 <= k < s.tasks.len() implies ts2[k].status == s.tasks[k].status by {
        }
        assert(cv(ts2, st).len() == v.len());
    }
}

/// Reordering downward preserves the invariant; when it fires it swaps the
/// selected view entry with its successor, touches no other lane, keeps
/// every backing status in place, and moves the selection down with the
/// task. At the bottom of the view it is exactly a no-op.
pub proof fn lemma_move_down_props(s: AppView)
    requires
        app_wf(s),
    ensures
        app_wf(step_move_down(s).0),
        ({
            let v = cv(s.tasks, status_of_col(s.col));
            v.len() > 0 && 0 <= s.sel < v.len() - 1
        }) ==> {
            let st = status_of_col(s.col);
            let v = cv(s.tasks, st);
            let s2 = step_move_down(s).0;
            &&& cv(s2.tasks, st) == v.update(s.sel, v[s.sel + 1]).update(s.sel + 1, v[s.sel])
            &&& (forall|st2: Status| st2 != st ==> cv(s2.tasks, st2) == cv(s.tasks, st2))
            &&& s2.tasks.len() == s.tasks.len()
            &&& (forall|k: int| 0 <= k < s.tasks.len() ==> s2.tasks[k].status == s.tasks[k].status)
            &&& s2.sel == s.sel + 1
            &&& s2.col == s.col
            &&& s2.mode == s.mode
            &&& step_move_down(s).1
        },
        !({
            let v = cv(s.tasks, status_of_col(s.col));
            v.len() > 0 && 0 <= s.sel < v.len() - 1
        }) ==> step_move_down(s) == (s, false),
{
    let st = status_of_col(s.col);
    let v = cv(s.tasks, st);
    if v.len() > 0 && 0 <= s.sel < v.len() - 1 {
        let i = nth_index(s.tasks, st, s.sel);
        let j = nth_index(s.tasks, st, s.sel + 1);
        lemma_nth_index(s.tasks, st, s.sel);
        lemma_nth_index(s.tasks, st, s.sel + 1);
        lemma_nth_index_increasing(s.tasks, st, s.sel, s.sel + 1);
        let ts1 = s.tasks.update(i, s.tasks[j]);
        lemma_cv_update_same(s.tasks, st, i, s.tasks[j]);
        lemma_status_pointwise(s.tasks, ts1, st);
        assert(ts1[j] == s.tasks[j]);
        lemma_cv_update_same(ts1, st, j, s.tasks[i]);
        let ts2 = ts1.update(j, s.tasks[i]);
        assert(rank(ts1, st, j) == rank(s.tasks, st, j));
        assert(cv(ts2, st) == v.update(s.sel, s.tasks[j]).update(s.sel + 1, s.tasks[i]));
        assert(v[s.sel] == s.tasks[i]);
        assert(v[s.sel + 1] == s.tasks[j]);
        assert forall|k: int| 0 <= k < s.tasks.len() implies ts2[k].status == s.tasks[k].status by {
        }
        assert(cv(ts2, st).len() == v.len());
    }
}

/// Submitting the quick-add prompt preserves the invariant.
pub proof fn lemma_submit_input_wf(s: AppView)
    requires
        app_wf(s),
    ensures
        app_wf(step_submit_input(s).0),
{
    match s.mode {
        ModeView::QuickAdd { title } => {
            let t = norm_title(title.text);
            if t.len() > 0 {
                let nt = TaskView { title: t, description: Seq::empty(), status: Status::Todo };
                let st = status_of_col(s.col);
                lemma_cv_push(s.tasks, st, nt);
            }
        },
        _ => {},
    }
}

/// Confirming a deletion preserves the invariant.
pub proof fn lemma_confirm_delete_wf(s: AppView)
    requires
        app_wf(s),
    ensures
        app_wf(step_confirm_delete(s).0),
{
    let st = status_of_col(s.col);
    let v = cv(s.tasks, st);
    match resolve(s.tasks, s.col, s.sel) {
        Some(g) => {
            lemma_resolution_succeeds(s.tasks, s.col, s.sel);
            lemma_cv_remove(s.tasks, st, g);
        },
        None => {},
    }
}

/// Advancing the selected task's status preserves the invariant.
pub proof fn lemma_advance_status_wf(s: AppView)
    requires
        app_wf(s),
    ensures
        app_wf(step_advance_status(s).0),
{
    let st = status_of_col(s.col);
    match resolve(s.tasks, s.col, s.sel) {
        Some(g) => {
            lemma_resolution_succeeds(s.tasks, s.col, s.sel);
            let t = s.tasks[g];
            let t2 = TaskView {
                title: t.title,
                description: t.description,
                status: next_status(t.status),
            };
            assert(t2.status != st);
            lemma_cv_update_leave(s.tasks, st, g, t2);
        },
        None => {},
    }
}

/// Saving an edit preserves the invariant.
pub proof fn lemma_save_edit_wf(s: AppView)
    requires
        app_wf(s),
    ensures
        app_wf(step_save_edit(s).0),
{
    let st = status_of_col(s.col);
    match s.mode {
        ModeView::EditTask { focus, title, description } => {
            let t = norm_title(title.text);
            if t.len() > 0 {
                match resolve(s.tasks, s.col, s.sel) {
                    Some(g) => {
                        lemma_resolution_succeeds(s.tasks, s.col, s.sel);
                        let nt = TaskView {
                            title: t,
                            description: description.text,
                            status: s.tasks[g].status,
                        };
                        lemma_cv_update_same(s.tasks, st, g, nt);
                    },
                    None => {},
                }
            }
        },
        _ => {},
    }
}

/// What the detail popup shows for the current selection: the selected
/// entry's title and description, or two empty strings when the cursor
/// points outside the view.
pub open spec fn task_info(s: AppView) -> (Seq<char>, Seq<char>) {
    let v = cv(s.tasks, status_of_col(s.col));
    if 0 <= s.sel < v.len() {
        (v[s.sel].title, v[s.sel].description)
    } else {
        (Seq::empty(), Seq::empty())
    }
}

/// The interaction state machine keeps the board invariant: whatever
/// command arrives in whatever mode, a well-formed state steps to a
/// well-formed state.
pub proof fn lemma_step_preserves_invariant(s: AppView, cmd: Command)
    requires
        app_wf(s),
    ensures
        app_wf(spec_step(s, cmd).0),
{
    match s.mode {
        ModeView::Navigation => match cmd {
            Command::OpenEdit => {
                if resolve(s.tasks, s.col, s.sel) is Some {
                }
            },
            Command::ReorderUp => lemma_move_up_props(s),
            Command::ReorderDown => lemma_move_down_props(s),
            Command::AdvanceStatus => lemma_advance_status_wf(s),
            _ => {},
        },
        ModeView::QuickAdd { title } => match cmd {
            Command::SubmitText => lemma_submit_input_wf(s),
            _ => {},
        },
        ModeView::Confirm => match cmd {
            Command::SubmitText => lemma_confirm_delete_wf(s),
            _ => {},
        },
        ModeView::ViewDetail => {},
        ModeView::EditTask { .. } => match cmd {
            Command::SubmitText => lemma_save_edit_wf(s),
            _ => {},
        },
    }
}

impl App {
    /// A fresh board over the given tasks: first column active, cursor at
    /// the top, plain navigation.
    pub fn new(tasks: Vec<Task>) -> (r: App)
        ensures
            r@.tasks == tviews(tasks@),
            r@.col == 0,
            r@.sel == 0,
            r@.mode == ModeView::Navigation,
            app_wf(r@),
    {
        App { tasks, active_column: 0, selected_index: 0, mode: Mode::Navigation }
    }

    /// The tasks of one column, cloned, in backing order.
    pub fn get_tasks_in_column(&self, col_idx: usize) -> (r: Vec<Task>)
        ensures
            tviews(r@) == cv(self@.tasks, status_of_col(col_idx as int)),
    {
        tasks_in_column(&self.tasks, col_idx)
    }

    /// The backing index that the current selection resolves to, by first
    /// structural match on title and status; `None` when the cursor points
    /// outside the active column's view.
    pub fn get_selected_global_index(&self) -> (r: Option<usize>)
        ensures
            match r {
                Some(g) => resolve(self@.tasks, self@.col, self@.sel) == Some(g as int) && g
                    < self@.tasks.len(),
                None => resolve(self@.tasks, self@.col, self@.sel) is None,
            },
    {
        resolve_selection(&self.tasks, self.active_column, self.selected_index)
    }

    /// Runtime check of the board invariant, for callers outside the
    /// verified world.
    pub fn is_well_formed(&self) -> (r: bool)
        ensures
            r == app_wf(self@),
    {
        if self.active_column > 2 {
            return false;
        }
        let n = column_len(&self.tasks, self.active_column);
        let cursor_ok = if n == 0 {
            self.selected_index == 0
        } else {
            self.selected_index < n
        };
        if !cursor_ok {
            return false;
        }
        match &self.mode {
            Mode::QuickAdd { title } => title.cursor <= title.chars.len(),
            Mode::EditTask { title, description, .. } => title.cursor <= title.chars.len()
                && description.cursor <= description.chars.len(),
            _ => true,
        }
    }

    /// Move one column right, clamped to the last lane; entering a new
    /// column resets the cursor to its top.
    pub fn next_column(&mut self)
        requires
            app_wf(old(self)@),
        ensures
            final(self)@ == step_next_column(old(self)@),
            app_wf(final(self)@),
    {
        if self.active_column < 2 {
            self.active_column += 1;
            self.selected_index = 0;
        }
    }

    /// Move one column left, clamped to the first lane; entering a new
    /// column resets the cursor to its top.
    pub fn prev_column(&mut self)
        requires
            app_wf(old(self)@),
        ensures
            final(self)@ == step_prev_column(old(self)@),
            app_wf(final(self)@),
    {
        if self.active_column > 0 {
            self.active_column -= 1;
            self.selected_index = 0;
        }
    }

    /// Move the cursor down one entry, clamped to the view's end; no
    /// wraparound.
    pub fn next_item(&mut self)
        requires
            app_wf(old(self)@),
        ensures
            final(self)@ == step_next_item(old(self)@),
            app_wf(final(self)@),
    {
        let n = column_len(&self.tasks, self.active_column);
        if n > 0 && self.selected_index < n - 1 {
            self.selected_index += 1;
        }
    }

    /// Move the cursor up one entry, clamped to the view's top; no
    /// wraparound.
    pub fn prev_item(&mut self)
        requires
            app_wf(old(self)@),
        ensures
            final(self)@ == step_prev_item(old(self)@),
            app_wf(final(self)@),
    {
        if self.selected_index > 0 {
            self.selected_index -= 1;
        }
    }

    /// Swap the selected task with its predecessor in the active column and
    /// follow it with the cursor; at the top of the view a silent no-op.
    /// Returns whether the board changed and must be persisted.
    pub fn move_task_up(&mut self) -> (saved: bool)
        requires
            app_wf(old(self)@),
        ensures
            final(self)@ == step_move_up(old(self)@).0,
            saved == step_move_up(old(self)@).1,
            app_wf(final(self)@),
    {
        proof {
            lemma_move_up_props(old(self)@);
        }
        if self.selected_index == 0 {
            return false;
        }
        match view_to_backing_index(&self.tasks, self.active_column, self.selected_index) {
            None => false,
            Some(i) => {
                match view_to_backing_index(
                    &self.tasks,
                    self.active_column,
                    self.selected_index - 1,
                ) {
                    None => {
                        proof {
                            assert(false);
                        }
                        false
                    },
                    Some(j) => {
                        let ti = self.tasks[i].clone();
                        let tj = self.tasks[j].clone();
                        self.tasks.set(i, tj);
                        self.tasks.set(j, ti);
                        self.selected_index -= 1;
                        proof {
                            assert(tviews(self.tasks@) =~= tviews(old(self).tasks@).update(
                                i as int,
                                tviews(old(self).tasks@)[j as int],
                            ).update(j as int, tviews(old(self).tasks@)[i as int]));
                        }
                        true
                    },
                }
            },
        }
    }

    /// Swap the selected task with its successor in the active column and
    /// follow it with the cursor; at the bottom of the view a silent no-op.
    /// Returns whether the board changed and must be persisted.
    pub fn move_task_down(&mut self) -> (saved: bool)
        requires
            app_wf(old(self)@),
        ensures
            final(self)@ == step_move_down(old(self)@).0,
            saved == step_move_down(old(self)@).1,
            app_wf(final(self)@),
    {
        proof {
            lemma_move_down_props(old(self)@);
        }
        let n = column_len(&self.tasks, self.active_column);
        if n == 0 || self.selected_index >= n - 1 {
            return false;
        }
        match view_to_backing_index(&self.tasks, self.active_column, self.selected_index) {
            None => {
                proof {
                    assert(false);
                }
                false
            },
            Some(i) => {
                match view_to_backing_index(
                    &self.tasks,
                    self.active_column,
                    self.selected_index + 1,
                ) {
                    None => {
                        proof {
                            assert(false);
                        }
                        false
                    },
                    Some(j) => {
                        let ti = self.tasks[i].clone();
                        let tj = self.tasks[j].clone();
                        self.tasks.set(i, tj);
                        self.tasks.set(j, ti);
                        self.selected_index += 1;
                        proof {
                            assert(tviews(self.tasks@) =~= tviews(old(self).tasks@).update(
                                i as int,
                                tviews(old(self).tasks@)[j as int],
                            ).update(j as int, tviews(old(self).tasks@)[i as int]));
                        }
                        true
                    },
                }
            },
        }
    }

    /// Open the quick-add prompt with an empty title buffer.
    pub fn start_adding(&mut self)
        requires
            app_wf(old(self)@),
        ensures
            final(self)@ == step_start_adding(old(self)@),
            app_wf(final(self)@),
    {
        self.mode = Mode::QuickAdd { title: EditBuffer::new() };
    }

    /// Discard the quick-add buffer and return to navigation.
    pub fn cancel_input(&mut self)
        requires
            app_wf(old(self)@),
        ensures
            final(self)@ == step_cancel_input(old(self)@),
            app_wf(final(self)@),
    {
        self.mode = Mode::Navigation;
    }

    /// Commit the quick-add buffer: appends a Todo task with the trimmed
    /// title when it is non-empty, else cancels silently; either way the
    /// prompt closes. Returns whether the board changed.
    pub fn submit_input(&mut self) -> (saved: bool)
        requires
            app_wf(old(self)@),
        ensures
            final(self)@ == step_submit_input(old(self)@).0,
            saved == step_submit_input(old(self)@).1,
            app_wf(final(self)@),
    {
        proof {
            lemma_submit_input_wf(old(self)@);
        }
        match &self.mode {
            Mode::QuickAdd { title } => {
                let t = normalize_title(&title.chars);
                if t.len() == 0 {
                    self.mode = Mode::Navigation;
                    false
                } else {
                    let title_s = chars_to_string(&t);
                    self.mode = Mode::Navigation;
                    self.tasks.push(
                        Task { title: title_s, description: String::new(), status: Status::Todo },
                    );
                    proof {
                        assert(tviews(self.tasks@) =~= tviews(old(self).tasks@).push(
                            TaskView {
                                title: t@,
                                description: Seq::empty(),
                                status: Status::Todo,
                            },
                        ));
                    }
                    true
                }
            },
            _ => false,
        }
    }

    /// Ask for confirmation before deleting; with an empty active column a
    /// silent no-op.
    pub fn prompt_delete(&mut self)
        requires
            app_wf(old(self)@),
        ensures
            final(self)@ == step_prompt_delete(old(self)@),
            app_wf(final(self)@),
    {
        let n = column_len(&self.tasks, self.active_column);
        if n > 0 {
            self.mode = Mode::Confirm;
        }
    }

    /// Decline the deletion: the popup closes, nothing mutates.
    pub fn cancel_delete(&mut self)
        requires
            app_wf(old(self)@),
        ensures
            final(self)@ == step_cancel_delete(old(self)@),
            app_wf(final(self)@),
    {
        self.mode = Mode::Navigation;
    }

    /// Confirm the deletion: removes the resolved task, shifting later
    /// tasks left, and steps the cursor up when it was not at the top; an
    /// unresolvable selection is a silent no-op. The popup closes either
    /// way. Returns whether the board changed.
    pub fn confirm_delete(&mut self) -> (saved: bool)
        requires
            app_wf(old(self)@),
        ensures
            final(self)@ == step_confirm_delete(old(self)@).0,
            saved == step_confirm_delete(old(self)@).1,
            app_wf(final(self)@),
    {
        proof {
            lemma_confirm_delete_wf(old(self)@);
        }
        let r = resolve_selection(&self.tasks, self.active_column, self.selected_index);
        self.mode = Mode::Navigation;
        match r {
            Some(g) => {
                self.tasks.remove(g);
                if self.selected_index > 0 {
                    self.selected_index -= 1;
                }
                proof {
                    assert(tviews(self.tasks@) =~= tviews(old(self).tasks@).remove(g as int));
                }
                true
            },
            None => false,
        }
    }

    /// Advance the resolved task's status one step around the cycle, in
    /// place: the task keeps its backing position rather than moving to the
    /// end of its new lane. The cursor is clamped to the shrunken view.
    /// Returns whether the board changed.
    pub fn move_current_task(&mut self) -> (saved: bool)
        requires
            app_wf(old(self)@),
        ensures
            final(self)@ == step_advance_status(old(self)@).0,
            saved == step_advance_status(old(self)@).1,
            app_wf(final(self)@),
    {
        proof {
            lemma_advance_status_wf(old(self)@);
        }
        match resolve_selection(&self.tasks, self.active_column, self.selected_index) {
            Some(g) => {
                let mut t = self.tasks[g].clone();
                t.status = advance_status(t.status);
                self.tasks.set(g, t);
                proof {
                    let s = old(self)@;
                    let tv = s.tasks[g as int];
                    assert(tviews(self.tasks@) =~= s.tasks.update(
                        g as int,
                        TaskView {
                            title: tv.title,
                            description: tv.description,
                            status: next_status(tv.status),
                        },
                    ));
                }
                let n2 = column_len(&self.tasks, self.active_column);
                if n2 == 0 {
                    self.selected_index = 0;
                } else if self.selected_index >= n2 {
                    self.selected_index = n2 - 1;
                }
                true
            },
            None => false,
        }
    }

    /// Open the read-only detail popup; with an empty active column a
    /// silent no-op.
    pub fn open_view_mode(&mut self)
        requires
            app_wf(old(self)@),
        ensures
            final(self)@ == step_open_view(old(self)@),
            app_wf(final(self)@),
    {
        let n = column_len(&self.tasks, self.active_column);
        if n > 0 {
            self.mode = Mode::ViewDetail;
        }
    }

    /// Close the detail popup.
    pub fn close_view_mode(&mut self)
        requires
            app_wf(old(self)@),
        ensures
            final(self)@ == step_close_view(old(self)@),
            app_wf(final(self)@),
    {
        self.mode = Mode::Navigation;
    }

    /// The selected task's title and description, cloned; two empty strings
    /// when the cursor points outside the view.
    pub fn get_current_task_info(&self) -> (r: (String, String))
        ensures
            r.0@ == task_info(self@).0,
            r.1@ == task_info(self@).1,
    {
        let v = tasks_in_column(&self.tasks, self.active_column);
        if self.selected_index < v.len() {
            let t = &v[self.selected_index];
            (t.title.clone(), t.description.clone())
        } else {
            (String::new(), String::new())
        }
    }

    /// Open the edit popup over the resolved selection, the title buffer's
    /// cursor at its end and the description buffer's at its start, focus
    /// on the title; an unresolvable selection is a silent no-op.
    pub fn open_edit_mode(&mut self)
        requires
            app_wf(old(self)@),
        ensures
            final(self)@ == step_open_edit(old(self)@),
            app_wf(final(self)@),
    {
        match resolve_selection(&self.tasks, self.active_column, self.selected_index) {
            Some(g) => {
                let tc = string_to_chars(self.tasks[g].title.as_str());
                let dc = string_to_chars(self.tasks[g].description.as_str());
                self.mode = Mode::EditTask {
                    focus: EditFocus::Title,
                    title: EditBuffer::with_cursor_at_end(tc),
                    description: EditBuffer::with_cursor_at_start(dc),
                };
            },
            None => {},
        }
    }

    /// Close the edit popup, discarding both buffers.
    pub fn close_edit_mode(&mut self)
        requires
            app_wf(old(self)@),
        ensures
            final(self)@ == step_close_edit(old(self)@),
            app_wf(final(self)@),
    {
        self.mode = Mode::Navigation;
    }

    /// Flip the edit focus between title and description; no data change.
    pub fn toggle_edit_focus(&mut self)
        requires
            app_wf(old(self)@),
        ensures
            final(self)@ == step_toggle_focus(old(self)@),
            app_wf(final(self)@),
    {
        match &mut self.mode {
            Mode::EditTask { focus, .. } => {
                if *focus == EditFocus::Title {
                    *focus = EditFocus::Description;
                } else {
                    *focus = EditFocus::Title;
                }
            },
            _ => {},
        }
    }

    /// Save the edit buffers into the resolved task: with a title that
    /// trims to nothing the edit is silently discarded, yet the popup still
    /// closes. Returns whether the board changed.
    pub fn save_edit_changes(&mut self) -> (saved: bool)
        requires
            app_wf(old(self)@),
        ensures
            final(self)@ == step_save_edit(old(self)@).0,
            saved == step_save_edit(old(self)@).1,
            app_wf(final(self)@),
    {
        proof {
            lemma_save_edit_wf(old(self)@);
        }
        match &self.mode {
            Mode::EditTask { title, description, .. } => {
                let t = normalize_title(&title.chars);
                if t.len() == 0 {
                    self.mode = Mode::Navigation;
                    false
                } else {
                    let desc_s = chars_to_string(&description.chars);
                    let title_s = chars_to_string(&t);
                    match resolve_selection(&self.tasks, self.active_column, self.selected_index) {
                        Some(g) => {
                            let st0 = self.tasks[g].status;
                            self.mode = Mode::Navigation;
                            self.tasks.set(
                                g,
                                Task { title: title_s, description: desc_s, status: st0 },
                            );
                            proof {
                                let s = old(self)@;
                                assert(tviews(self.tasks@) =~= s.tasks.update(
                                    g as int,
                                    TaskView {
                                        title: title_s@,
                                        description: desc_s@,
                                        status: s.tasks[g as int].status,
                                    },
                                ));
                            }
                            true
                        },
                        None => {
                            self.mode = Mode::Navigation;
                            false
                        },
                    }
                }
            },
            _ => false,
        }
    }

    /// Insert a character into the focused buffer; outside a text mode a
    /// no-op. Buffer edits never touch the board or change mode.
    pub fn insert_char(&mut self, c: char)
        requires
            app_wf(old(self)@),
        ensures
            final(self)@ == step_insert_char(old(self)@, c),
            app_wf(final(self)@),
    {
        match &mut self.mode {
            Mode::QuickAdd { title } => title.insert_char(c),
            Mode::EditTask { focus, title, description } => {
                if *focus == EditFocus::Title {
                    title.insert_char(c);
                } else {
                    description.insert_char(c);
                }
            },
            _ => {},
        }
    }

    /// Delete the character before the focused buffer's cursor; outside a
    /// text mode a no-op.
    pub fn delete_backward(&mut self)
        requires
            app_wf(old(self)@),
        ensures
            final(self)@ == step_delete_backward(old(self)@),
            app_wf(final(self)@),
    {
        match &mut self.mode {
            Mode::QuickAdd { title } => title.delete_backward(),
            Mode::EditTask { focus, title, description } => {
                if *focus == EditFocus::Title {
                    title.delete_backward();
                } else {
                    description.delete_backward();
                }
            },
            _ => {},
        }
    }

    /// Move the focused buffer's cursor left; outside a text mode a no-op.
    pub fn cursor_left(&mut self)
        requires
            app_wf(old(self)@),
        ensures
            final(self)@ == step_cursor_left(old(self)@),
            app_wf(final(self)@),
    {
        match &mut self.mode {
            Mode::QuickAdd { title } => title.cursor_left(),
            Mode::EditTask { focus, title, description } => {
                if *focus == EditFocus::Title {
                    title.cursor_left();
                } else {
                    description.cursor_left();
                }
            },
            _ => {},
        }
    }

    /// Move the focused buffer's cursor right; outside a text mode a no-op.
    pub fn cursor_right(&mut self)
        requires
            app_wf(old(self)@),
        ensures
            final(self)@ == step_cursor_right(old(self)@),
            app_wf(final(self)@),
    {
        match &mut self.mode {
            Mode::QuickAdd { title } => title.cursor_right(),
            Mode::EditTask { focus, title, description } => {
                if *focus == EditFocus::Title {
                    title.cursor_right();
                } else {
                    description.cursor_right();
                }
            },
            _ => {},
        }
    }

    /// Route one semantic command through the current mode, exactly as
    /// [`spec_step`] says, and return whether the board mutated and must be
    /// persisted.
    pub fn handle_command(&mut self, cmd: Command) -> (saved: bool)
        requires
            app_wf(old(self)@),
        ensures
            final(self)@ == spec_step(old(self)@, cmd).0,
            saved == spec_step(old(self)@, cmd).1,
            app_wf(final(self)@),
    {
        match self.mode {
            Mode::Navigation => match cmd {
                Command::NewTask => {
                    self.start_adding();
                    false
                },
                Command::OpenEdit => {
                    self.open_edit_mode();
                    false
                },
                Command::OpenView => {
                    self.open_view_mode();
                    false
                },
                Command::PromptDelete => {
                    self.prompt_delete();
                    false
                },
                Command::MoveColumnLeft => {
                    self.prev_column();
                    false
                },
                Command::MoveColumnRight => {
                    self.next_column();
                    false
                },
                Command::MoveSelectionUp => {
                    self.prev_item();
                    false
                },
                Command::MoveSelectionDown => {
                    self.next_item();
                    false
                },
                Command::ReorderUp => self.move_task_up(),
                Command::ReorderDown => self.move_task_down(),
                Command::AdvanceStatus => self.move_current_task(),
                _ => false,
            },
            Mode::QuickAdd { .. } => match cmd {
                Command::SubmitText => self.submit_input(),
                Command::CancelText => {
                    self.cancel_input();
                    false
                },
                Command::InsertChar(c) => {
                    self.insert_char(c);
                    false
                },
                Command::DeleteBackward => {
                    self.delete_backward();
                    false
                },
                Command::CursorLeft => {
                    self.cursor_left();
                    false
                },
                Command::CursorRight => {
                    self.cursor_right();
                    false
                },
                _ => false,
            },
            Mode::Confirm => match cmd {
                Command::SubmitText => self.confirm_delete(),
                Command::CancelText => {
                    self.cancel_delete();
                    false
                },
                _ => false,
            },
            Mode::ViewDetail => match cmd {
                Command::SubmitText => {
                    self.close_view_mode();
                    false
                },
                Command::CancelText => {
                    self.close_view_mode();
                    false
                },
                _ => false,
            },
            Mode::EditTask { .. } => match cmd {
                Command::SubmitText => self.save_edit_changes(),
                Command::CancelText => {
                    self.close_edit_mode();
                    false
                },
                Command::ToggleFocus => {
                    self.toggle_edit_focus();
                    false
                },
                Command::InsertChar(c) => {
                    self.insert_char(c);
                    false
                },
                Command::DeleteBackward => {
                    self.delete_backward();
                    false
                },
                Command::CursorLeft => {
                    self.cursor_left();
                    false
                },
                Command::CursorRight => {
                    self.cursor_right();
                    false
                },
                _ => false,
            },
        }
    }
}

} // verus!
