//! The orchestrator as mathematics: the tasks it tracks, the tasks that
//! hold one of its permits, and what each of its operations makes of them.

use super::{TaskInfo, TaskStatus, TaskType};
use crate::time::{is_more_than, Timestamp, NANOS_PER_SECOND};
use vstd::prelude::*;

verus! {

/// Seconds for which a task that has ended stays in the registry.
pub const RETENTION_SECONDS: i64 = 86_400;

/// Whether `task` has ended, and more than the retention time before `now`.
pub open spec fn expired(task: TaskInfo, now: Timestamp) -> bool {
    &&& task.status.is_terminal_spec()
    &&& task.completed_at matches Some(at)
    &&& is_more_than(now, at, RETENTION_SECONDS)
}

/// The task as it is entered into the registry.
pub open spec fn new_task(id: u128, task_type: TaskType, now: Timestamp) -> TaskInfo {
    TaskInfo {
        id,
        task_type,
        status: TaskStatus::Pending,
        created_at: now,
        started_at: None,
        completed_at: None,
        error_message: None,
    }
}

/// The task once it has been admitted.
pub open spec fn started(task: TaskInfo, now: Timestamp) -> TaskInfo {
    TaskInfo { status: TaskStatus::Running, started_at: Some(now), ..task }
}

/// The task once its work has returned, with or without an error.
pub open spec fn ended(task: TaskInfo, outcome: Result<(), String>, now: Timestamp) -> TaskInfo {
    match outcome {
        Ok(_) => TaskInfo { status: TaskStatus::Completed, completed_at: Some(now), ..task },
        Err(message) => TaskInfo {
            status: TaskStatus::Failed,
            error_message: Some(message),
            completed_at: Some(now),
            ..task
        },
    }
}

/// The task once it has been cancelled.
pub open spec fn called_off(task: TaskInfo, now: Timestamp) -> TaskInfo {
    TaskInfo { status: TaskStatus::Cancelled, completed_at: Some(now), ..task }
}

/// The state of an orchestrator.
pub struct Board {
    /// The registry: each tracked task under its identifier.
    pub tasks: Map<u128, TaskInfo>,
    /// The tasks that hold a permit.
    pub permits: Set<u128>,
    /// How many permits there are.
    pub capacity: nat,
}

impl Board {
    /// Every task is entered under its own identifier, no more permits are
    /// out than there are, and every running task holds one.
    pub open spec fn wf(self) -> bool {
        &&& self.tasks.dom().finite()
        &&& self.permits.finite()
        &&& self.permits.len() <= self.capacity
        &&& forall|id: u128| #[trigger] self.tasks.contains_key(id) ==> self.tasks[id].id == id
        &&& forall|id: u128|
            self.tasks.contains_key(id) && (#[trigger] self.tasks[id]).status is Running
                ==> self.permits.contains(id)
    }

    /// The tasks that are running.
    pub open spec fn running(self) -> Set<u128> {
        Set::new(|id: u128| self.tasks.contains_key(id) && self.tasks[id].status is Running)
    }

    /// The tasks that are due for removal at `now`.
    pub open spec fn expired_ids(self, now: Timestamp) -> Set<u128> {
        Set::new(|id: u128| self.tasks.contains_key(id) && expired(self.tasks[id], now))
    }

    /// After a task has been submitted under `id`. An identifier that is in
    /// use keeps the task it stands for.
    pub open spec fn submitted(self, id: u128, task_type: TaskType, now: Timestamp) -> Board {
        if self.tasks.contains_key(id) {
            self
        } else {
            Board { tasks: self.tasks.insert(id, new_task(id, task_type, now)), ..self }
        }
    }

    /// Whether task `id` may run: it holds a permit, or one is left.
    pub open spec fn admits(self, id: u128) -> bool {
        self.permits.contains(id) || self.permits.len() < self.capacity
    }

    /// After admission has been asked for task `id`. Where the task may run
    /// it holds a permit afterwards, and its entry, if it is pending, says
    /// that it runs since `now`. An entry that is past pending stays as it
    /// is: a task that was cancelled while it waited takes its permit and
    /// stays cancelled. Where the task may not run nothing changes.
    pub open spec fn admitted(self, id: u128, now: Timestamp) -> Board {
        if !self.admits(id) {
            self
        } else {
            Board {
                permits: self.permits.insert(id),
                tasks: if self.tasks.contains_key(id) && self.tasks[id].status is Pending {
                    self.tasks.insert(id, started(self.tasks[id], now))
                } else {
                    self.tasks
                },
                ..self
            }
        }
    }

    /// After the work of task `id` has returned: its entry, if it has one,
    /// says how, and its permit is free.
    pub open spec fn finished(self, id: u128, outcome: Result<(), String>, now: Timestamp) -> Board {
        Board {
            permits: self.permits.remove(id),
            tasks: if self.tasks.contains_key(id) {
                self.tasks.insert(id, ended(self.tasks[id], outcome, now))
            } else {
                self.tasks
            },
            ..self
        }
    }

    /// After task `id` has been cancelled. The permit stays where it is:
    /// cancelling is bookkeeping, and the work goes on.
    pub open spec fn cancelled(self, id: u128, now: Timestamp) -> Board {
        if self.tasks.contains_key(id) {
            Board { tasks: self.tasks.insert(id, called_off(self.tasks[id], now)), ..self }
        } else {
            self
        }
    }

    /// After the tasks due for removal at `now` have left the registry.
    pub open spec fn swept(self, now: Timestamp) -> Board {
        Board { tasks: self.tasks.remove_keys(self.expired_ids(now)), ..self }
    }
}

/// No more tasks are running than there are permits.
pub proof fn lemma_running_within_capacity(board: Board)
    requires
        board.wf(),
    ensures
        board.running().finite(),
        board.running().len() <= board.capacity,
{
    assert(board.running().subset_of(board.permits));
    vstd::set_lib::lemma_len_subset(board.running(), board.permits);
}

/// Every operation leaves the board well formed; so whatever is submitted,
/// admitted, finished, cancelled or swept, and in whatever order, the
/// running tasks stay within the capacity.
pub proof fn lemma_operations_keep_wf(
    board: Board,
    id: u128,
    task_type: TaskType,
    outcome: Result<(), String>,
    now: Timestamp,
)
    requires
        board.wf(),
    ensures
        board.submitted(id, task_type, now).wf(),
        board.admitted(id, now).wf(),
        board.finished(id, outcome, now).wf(),
        board.cancelled(id, now).wf(),
        board.swept(now).wf(),
{
    assert(board.swept(now).tasks.dom().subset_of(board.tasks.dom()));
    vstd::set_lib::lemma_len_subset(board.swept(now).tasks.dom(), board.tasks.dom());
    if board.permits.contains(id) {
        assert(board.permits.remove(id).len() < board.permits.len());
    }
    let after = board.finished(id, outcome, now);
    assert forall|other: u128|
        after.tasks.contains_key(other) && (#[trigger] after.tasks[other]).status
            is Running implies after.permits.contains(other) by {
        if other != id {
            assert(board.tasks[other].status is Running);
        }
    }
}

/// Sweeping twice at the same moment removes nothing the second time.
/// A sweep removes the tasks that had ended more than the retention time
/// before, and no others: a task that has not ended stays, however old,
/// and so does one that ended within the retention time.
pub proof fn lemma_sweep_is_idempotent(board: Board, now: Timestamp)
    ensures
        board.swept(now).expired_ids(now) == Set::<u128>::empty(),
        board.swept(now).swept(now) == board.swept(now),
        forall|id: u128|
            board.tasks.contains_key(id) && !expired(board.tasks[id], now) ==> (
            #[trigger] board.swept(now).tasks.contains_key(id)) && board.swept(now).tasks[id]
                == board.tasks[id],
        forall|id: u128| #[trigger]
            board.swept(now).tasks.contains_key(id) ==> board.tasks.contains_key(id) && !expired(
                board.tasks[id],
                now,
            ),
{
    let once = board.swept(now);
    assert(once.expired_ids(now) =~= Set::<u128>::empty());
    assert(once.tasks.remove_keys(Set::<u128>::empty()) =~= once.tasks);
}

/// Between plain instants the retention time is twenty-four hours to the
/// nanosecond: a task is due for removal exactly if it has ended and its
/// completion lies more than 86 400 seconds before `now`.
pub proof fn lemma_expiry_of_plain_instants(task: TaskInfo, at: Timestamp, now: Timestamp)
    requires
        task.completed_at == Some(at),
        at.is_plain(),
        now.is_plain(),
    ensures
        expired(task, now) <==> task.status.is_terminal_spec() && now.nanos_since_epoch()
            - at.nanos_since_epoch() > 86_400 * NANOS_PER_SECOND,
{
}

/// The status of a task never moves backward: whatever operation is applied,
/// a task that stays in the registry is as far along afterwards as it was
/// before.
pub proof fn lemma_status_moves_forward(
    board: Board,
    id: u128,
    task_type: TaskType,
    outcome: Result<(), String>,
    now: Timestamp,
    task: u128,
)
    requires
        board.tasks.contains_key(task),
    ensures
        board.submitted(id, task_type, now).tasks[task].status.rank()
            >= board.tasks[task].status.rank(),
        board.admitted(id, now).tasks[task].status.rank() >= board.tasks[task].status.rank(),
        board.finished(id, outcome, now).tasks[task].status.rank()
            >= board.tasks[task].status.rank(),
        board.cancelled(id, now).tasks[task].status.rank() >= board.tasks[task].status.rank(),
        board.swept(now).tasks.contains_key(task) ==> board.swept(now).tasks[task].status.rank()
            >= board.tasks[task].status.rank(),
{
}

/// A task that has ended is never seen pending or running again.
pub proof fn lemma_ended_stays_ended(
    board: Board,
    id: u128,
    task_type: TaskType,
    outcome: Result<(), String>,
    now: Timestamp,
    task: u128,
)
    requires
        board.tasks.contains_key(task),
        board.tasks[task].status.is_terminal_spec(),
    ensures
        board.submitted(id, task_type, now).tasks[task].status.is_terminal_spec(),
        board.admitted(id, now).tasks[task].status.is_terminal_spec(),
        board.finished(id, outcome, now).tasks[task].status.is_terminal_spec(),
        board.cancelled(id, now).tasks[task].status.is_terminal_spec(),
        board.swept(now).tasks.contains_key(task) ==> board.swept(now).tasks[
            task
        ].status.is_terminal_spec(),
{
}

} // verus!
