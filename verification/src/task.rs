//! The task data model: a status lane, a task with title, description and
//! status, and the status cycle.

use vstd::prelude::*;

verus! {

/// One of the three fixed lanes of the board.
#[derive(Clone, Copy, Debug, PartialEq, Eq, Structural)]
pub enum Status {
    Todo,
    Doing,
    Done,
}

/// A task: a display title, a free-form multi-line description and a lane.
#[derive(Debug)]
pub struct Task {
    pub title: String,
    pub description: String,
    pub status: Status,
}

/// Which box of the edit popup has the focus.
#[derive(Clone, Copy, Debug, PartialEq, Eq, Structural)]
pub enum EditFocus {
    Title,
    Description,
}

/// The mathematical content of a [`Task`]: both strings as character
/// sequences, plus the lane.
pub ghost struct TaskView {
    pub title: Seq<char>,
    pub description: Seq<char>,
    pub status: Status,
}

impl View for Task {
    type V = TaskView;

    open spec fn view(&self) -> TaskView {
        TaskView { title: self.title@, description: self.description@, status: self.status }
    }
}

impl Clone for Task {
    /// A clone has the same title, description and status.
    fn clone(&self) -> (res: Self)
        ensures
            res@ == self@,
    {
        Task {
            title: self.title.clone(),
            description: self.description.clone(),
            status: self.status,
        }
    }
}

/// The lane a task enters when its status is advanced:
/// Todo to Doing, Doing to Done, Done back to Todo.
pub open spec fn next_status(s: Status) -> Status {
    match s {
        Status::Todo => Status::Doing,
        Status::Doing => Status::Done,
        Status::Done => Status::Todo,
    }
}

/// Advancing a status is a cycle of length three through all lanes:
/// no transition other than Todo to Doing, Doing to Done and Done to Todo
/// is reachable, and three advances return every status to itself.
pub proof fn lemma_status_cycle()
    ensures
        next_status(Status::Todo) == Status::Doing,
        next_status(Status::Doing) == Status::Done,
        next_status(Status::Done) == Status::Todo,
        forall|s: Status| next_status(next_status(next_status(s))) == s,
        forall|s: Status| next_status(s) != s,
{
}

/// Executable form of [`next_status`].
pub fn advance_status(s: Status) -> (r: Status)
    ensures
        r == next_status(s),
{
    match s {
        Status::Todo => Status::Doing,
        Status::Doing => Status::Done,
        Status::Done => Status::Todo,
    }
}

/// The lane shown in the column with this index: column 0 holds Todo,
/// column 1 Doing, and every other index Done.
pub open spec fn status_of_col(col: int) -> Status {
    if col == 0 {
        Status::Todo
    } else if col == 1 {
        Status::Doing
    } else {
        Status::Done
    }
}

/// Executable form of [`status_of_col`].
pub fn col_status(col: usize) -> (r: Status)
    ensures
        r == status_of_col(col as int),
{
    match col {
        0 => Status::Todo,
        1 => Status::Doing,
        _ => Status::Done,
    }
}

/// The views of a sequence of tasks, element for element.
pub open spec fn tviews(ts: Seq<Task>) -> Seq<TaskView> {
    ts.map_values(|t: Task| t@)
}

} // verus!
