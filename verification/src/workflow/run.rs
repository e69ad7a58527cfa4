//! A run of a workflow, as a machine: it says what to do next, takes what
//! came of it, and keeps the record.
//!
//! The caller runs commands and sleeps; the machine decides. Steps are taken
//! in the order of execution, one at a time. A step whose condition does not
//! hold is recorded as skipped. A step whose attempt fails is tried again
//! after a delay, as often as its retry limit allows, and the first step to
//! fail for good ends the run.

use super::ordering::{depends_on, lemma_order_respects_dependencies};
use super::scheduler::{execution_order, positions, Walk};
use super::step::{backoff, backoff_seconds, condition_holds, retry_limit, time_limit, AttemptResult};
use super::{
    bindings, names_differ, records, ExecutionRecord, ExecutionStatus, Failure, StepExecution, StepRecord,
    Variable, Workflow, WorkflowEngine, WorkflowError, WorkflowExecution, WorkflowStep,
};
use crate::config::WorkflowConfig;
use crate::ident::fresh_id;
use crate::text::copy_text;
use crate::time::{current_time, Timestamp};
use vstd::prelude::*;

verus! {

/// Where a run stands.
#[derive(Debug)]
pub enum RunStage {
    /// The step at `position` of the order is being attempted.
    Attempting { position: usize, record: StepExecution },
    /// The last attempt of that step failed, and the next is due after a
    /// delay.
    BackingOff { position: usize, record: StepExecution },
    /// The run is over: completed, or failed with `error`.
    Finished { error: Option<WorkflowError> },
}

/// What a `RunStage` says.
pub enum Stage {
    Attempting { position: int, record: StepRecord },
    BackingOff { position: int, record: StepRecord },
    Finished { error: Option<Failure> },
}

impl View for RunStage {
    type V = Stage;

    open spec fn view(&self) -> Stage {
        match *self {
            RunStage::Attempting { position, record } => Stage::Attempting {
                position: position as int,
                record: record@,
            },
            RunStage::BackingOff { position, record } => Stage::BackingOff {
                position: position as int,
                record: record@,
            },
            RunStage::Finished { error } => Stage::Finished {
                error: match error {
                    Some(e) => Some(e@),
                    None => None,
                },
            },
        }
    }
}

/// The record of a run and the stage it is in.
pub struct RunState {
    pub execution: ExecutionRecord,
    pub stage: Stage,
}

/// What the caller reports to a run.
#[derive(Debug)]
pub enum RunEvent {
    /// The command has been tried, with this result.
    AttemptFinished(AttemptResult),
    /// The delay is over.
    BackoffElapsed,
}

/// What a run asks of the caller.
#[derive(Clone, Copy, Debug, PartialEq, Eq, Structural)]
pub enum RunAction {
    /// Run the command of the step at position `step` of the workflow, give
    /// it `timeout` seconds, and report `AttemptFinished`.
    RunCommand { step: usize, timeout: u64 },
    /// Wait `seconds`, then report `BackoffElapsed`.
    Sleep { seconds: u64 },
    /// Nothing more: the run is over and its record can be stored.
    Finish,
}

/// The position of the first failed record at or after `from`.
pub open spec fn first_failed(records: Seq<StepRecord>, from: int) -> Option<int>
    decreases records.len() - from,
{
    if from < 0 || from >= records.len() {
        None
    } else if records[from].status is Failed {
        Some(from)
    } else {
        first_failed(records, from + 1)
    }
}

/// The execution after `record` has joined it, and the error that ends the
/// run if a record of the execution is a failure.
pub open spec fn recorded(execution: ExecutionRecord, record: StepRecord) -> (
    ExecutionRecord,
    Option<Failure>,
) {
    let all = execution.steps_executed.push(record);
    match first_failed(all, 0) {
        Some(f) => (
            ExecutionRecord {
                steps_executed: all,
                status: ExecutionStatus::Failed,
                error_message: all[f].error_message,
                ..execution
            },
            Some(Failure::StepFailed { step_id: all[f].step_id, message: all[f].error_message }),
        ),
        None => (ExecutionRecord { steps_executed: all, ..execution }, None),
    }
}

/// The execution of `workflow` as it stands when its steps are about to be
/// taken up.
pub open spec fn opened(workflow: Workflow, id: u128, now: Timestamp) -> ExecutionRecord {
    ExecutionRecord {
        id,
        workflow_id: workflow.id,
        status: ExecutionStatus::Running,
        started_at: now,
        completed_at: None,
        steps_executed: Seq::empty(),
        variables: bindings(workflow.variables@),
        error_message: None,
    }
}

/// Whether the step runs under these variables.
pub open spec fn step_runs(step: WorkflowStep, variables: Seq<(Seq<char>, Seq<char>)>) -> bool {
    step.condition matches Some(condition) ==> condition_holds(condition@, variables)
}

/// The run once it has taken up the steps from `position` on: steps whose
/// condition does not hold are recorded as skipped, the first step that
/// runs is attempted, and with no step left the run completes.
pub open spec fn entered(
    steps: Seq<WorkflowStep>,
    order: Seq<int>,
    execution: ExecutionRecord,
    position: int,
    now: Timestamp,
) -> RunState
    decreases order.len() - position,
{
    if position < 0 || position >= order.len() {
        RunState {
            execution: ExecutionRecord {
                status: ExecutionStatus::Completed,
                completed_at: Some(now),
                ..execution
            },
            stage: Stage::Finished { error: None },
        }
    } else {
        let step = steps[order[position]];
        let record = StepRecord::opened(step.id@, now);
        if step_runs(step, execution.variables) {
            RunState { execution, stage: Stage::Attempting { position, record } }
        } else {
            let (next, error) = recorded(execution, record.closed(ExecutionStatus::Skipped, now));
            if error is Some {
                RunState { execution: next, stage: Stage::Finished { error } }
            } else {
                entered(steps, order, next, position + 1, now)
            }
        }
    }
}

/// The run after an attempt of the step at `position` has ended in `result`.
pub open spec fn attempted(
    config: WorkflowConfig,
    steps: Seq<WorkflowStep>,
    order: Seq<int>,
    execution: ExecutionRecord,
    position: int,
    record: StepRecord,
    result: AttemptResult,
    now: Timestamp,
) -> RunState {
    if result.succeeded() {
        let done = StepRecord { output: Some(result.output()), ..record }.closed(
            ExecutionStatus::Completed,
            now,
        );
        let (next, error) = recorded(execution, done);
        if error is Some {
            RunState { execution: next, stage: Stage::Finished { error } }
        } else {
            entered(steps, order, next, position + 1, now)
        }
    } else {
        let failed = StepRecord { error_message: Some(result.failure()), ..record };
        if record.retry_count < retry_limit(steps[order[position]], config) {
            RunState { execution, stage: Stage::BackingOff { position, record: failed } }
        } else {
            let (next, error) = recorded(execution, failed.closed(ExecutionStatus::Failed, now));
            RunState { execution: next, stage: Stage::Finished { error } }
        }
    }
}

/// The run after `event`. An event that the stage does not wait for changes
/// nothing.
pub open spec fn next_state(
    config: WorkflowConfig,
    steps: Seq<WorkflowStep>,
    order: Seq<int>,
    state: RunState,
    event: RunEvent,
    now: Timestamp,
) -> RunState {
    match (state.stage, event) {
        (Stage::Attempting { position, record }, RunEvent::AttemptFinished(result)) => attempted(
            config,
            steps,
            order,
            state.execution,
            position,
            record,
            result,
            now,
        ),
        (Stage::BackingOff { position, record }, RunEvent::BackoffElapsed) => RunState {
            execution: state.execution,
            stage: Stage::Attempting {
                position,
                record: StepRecord { retry_count: (record.retry_count + 1) as u32, ..record },
            },
        },
        _ => state,
    }
}

/// What a run in this stage asks of the caller.
pub open spec fn pending_action(
    config: WorkflowConfig,
    steps: Seq<WorkflowStep>,
    order: Seq<int>,
    stage: Stage,
) -> RunAction {
    match stage {
        Stage::Attempting { position, .. } => RunAction::RunCommand {
            step: order[position] as usize,
            timeout: time_limit(steps[order[position]], config),
        },
        Stage::BackingOff { record, .. } => RunAction::Sleep {
            seconds: backoff((record.retry_count + 1) as nat) as u64,
        },
        Stage::Finished { .. } => RunAction::Finish,
    }
}

/// Whether `record` is the record of step `i`, within the retries allowed
/// to that step.
pub open spec fn belongs(
    config: WorkflowConfig,
    steps: Seq<WorkflowStep>,
    i: int,
    record: StepRecord,
) -> bool {
    &&& 0 <= i < steps.len()
    &&& record.step_id == steps[i].id@
    &&& record.retry_count <= retry_limit(steps[i], config)
}

/// Whether a record is that of a step that is over: it is closed, it has
/// output exactly if the step completed, and it has the message of an error
/// if the step failed.
pub open spec fn settled(record: StepRecord) -> bool {
    &&& record.completed_at is Some
    &&& record.output is Some <==> record.status is Completed
    &&& record.status is Failed ==> record.error_message is Some
}

/// Whether a record is that of a step under way: running, not closed, and
/// without output.
pub open spec fn under_way(record: StepRecord) -> bool {
    record.status is Running && record.completed_at is None && record.output is None
}

/// Whether the records are those of the first steps of the order, one each
/// and in that order, each settled and within its retry limit.
pub open spec fn filed_in_order(
    config: WorkflowConfig,
    steps: Seq<WorkflowStep>,
    order: Seq<int>,
    records: Seq<StepRecord>,
) -> bool {
    &&& records.len() <= order.len()
    &&& forall|k: int|
        0 <= k < records.len() ==> belongs(config, steps, order[k], #[trigger] records[k])
            && settled(records[k])
}

/// Whether the first `n` records are those of steps that completed or were
/// skipped.
pub open spec fn all_passed(records: Seq<StepRecord>, n: int) -> bool {
    forall|k: int|
        0 <= k < n ==> (#[trigger] records[k]).status is Completed || records[k].status is Skipped
}

/// What holds of a run at every moment: its records are those of the first
/// steps of the order, one each and in that order, each settled and none
/// beyond its retry limit; all of them passed, but for the last one of a
/// run that failed; the step of the stage is the next of the order, its
/// record under way; and a run that completed says when.
pub open spec fn consistent(
    config: WorkflowConfig,
    steps: Seq<WorkflowStep>,
    order: Seq<int>,
    state: RunState,
) -> bool {
    let records = state.execution.steps_executed;
    &&& names_differ(state.execution.variables)
    &&& filed_in_order(config, steps, order, records)
    &&& match state.stage {
        Stage::Attempting { position, record } => {
            &&& position == records.len()
            &&& position < order.len()
            &&& all_passed(records, position)
            &&& belongs(config, steps, order[position], record)
            &&& under_way(record)
            &&& state.execution.status is Running
        },
        Stage::BackingOff { position, record } => {
            &&& position == records.len()
            &&& position < order.len()
            &&& all_passed(records, position)
            &&& belongs(config, steps, order[position], record)
            &&& record.retry_count < retry_limit(steps[order[position]], config)
            &&& under_way(record)
            &&& state.execution.status is Running
        },
        Stage::Finished { error: None } => {
            &&& records.len() == order.len()
            &&& all_passed(records, records.len() as int)
            &&& state.execution.status is Completed
            &&& state.execution.completed_at is Some
        },
        Stage::Finished { error: Some(failure) } => {
            &&& records.len() >= 1
            &&& all_passed(records, records.len() - 1)
            &&& records.last().status is Failed
            &&& state.execution.status is Failed
            &&& state.execution.error_message == records.last().error_message
            &&& failure == Failure::StepFailed {
                step_id: records.last().step_id,
                message: records.last().error_message,
            }
        },
    }
}

/// What `first_failed` finds is the first failed record, and it finds one
/// whenever there is one.
pub proof fn lemma_first_failed(records: Seq<StepRecord>, from: int)
    requires
        0 <= from,
    ensures
        match first_failed(records, from) {
            Some(f) => from <= f < records.len() && records[f].status is Failed && forall|j: int|
                from <= j < f ==> !((#[trigger] records[j]).status is Failed),
            None => forall|j: int|
                from <= j < records.len() ==> !((#[trigger] records[j]).status is Failed),
        },
    decreases records.len() - from,
{
    if from < records.len() && !(records[from].status is Failed) {
        lemma_first_failed(records, from + 1);
    }
}

/// A record that joins records that all passed ends the run exactly if it
/// is a failure, and then with its own message.
pub proof fn lemma_recorded(execution: ExecutionRecord, record: StepRecord)
    requires
        all_passed(execution.steps_executed, execution.steps_executed.len() as int),
    ensures
        recorded(execution, record).0.steps_executed == execution.steps_executed.push(record),
        record.status is Failed ==> recorded(execution, record) == (
            ExecutionRecord {
                steps_executed: execution.steps_executed.push(record),
                status: ExecutionStatus::Failed,
                error_message: record.error_message,
                ..execution
            },
            Some(
                Failure::StepFailed { step_id: record.step_id, message: record.error_message },
            ),
        ),
        !(record.status is Failed) ==> recorded(execution, record) == (
            ExecutionRecord { steps_executed: execution.steps_executed.push(record), ..execution },
            None::<Failure>,
        ),
{
    let all = execution.steps_executed.push(record);
    lemma_first_failed(all, 0);
    assert forall|j: int| 0 <= j < execution.steps_executed.len() implies !((
    #[trigger] all[j]).status is Failed) by {
        assert(all[j] == execution.steps_executed[j]);
    }
    assert(all[execution.steps_executed.len() as int] == record);
}

/// A settled record of the next step of the order, joining records that
/// are filed in order and all passed, leaves them filed in order; and all
/// passed, if the step passed.
pub proof fn lemma_joined(
    config: WorkflowConfig,
    steps: Seq<WorkflowStep>,
    order: Seq<int>,
    execution: ExecutionRecord,
    record: StepRecord,
)
    requires
        filed_in_order(config, steps, order, execution.steps_executed),
        all_passed(execution.steps_executed, execution.steps_executed.len() as int),
        execution.steps_executed.len() < order.len(),
        belongs(config, steps, order[execution.steps_executed.len() as int], record),
        settled(record),
    ensures
        ({
            let joined = recorded(execution, record).0.steps_executed;
            &&& joined == execution.steps_executed.push(record)
            &&& filed_in_order(config, steps, order, joined)
            &&& all_passed(joined, joined.len() - 1)
            &&& record.status is Completed || record.status is Skipped ==> all_passed(
                joined,
                joined.len() as int,
            )
        }),
{
    lemma_recorded(execution, record);
    let joined = recorded(execution, record).0.steps_executed;
    assert forall|k: int| 0 <= k < joined.len() - 1 implies #[trigger] joined[k]
        == execution.steps_executed[k] by {}
}

/// Taking up the steps from `position` on keeps a run consistent.
pub proof fn lemma_entered_consistent(
    config: WorkflowConfig,
    steps: Seq<WorkflowStep>,
    order: Seq<int>,
    execution: ExecutionRecord,
    position: int,
    now: Timestamp,
)
    requires
        forall|p: int| 0 <= p < order.len() ==> 0 <= #[trigger] order[p] < steps.len(),
        execution.steps_executed.len() == position,
        names_differ(execution.variables),
        filed_in_order(config, steps, order, execution.steps_executed),
        all_passed(execution.steps_executed, position),
        execution.status is Running,
    ensures
        consistent(config, steps, order, entered(steps, order, execution, position, now)),
    decreases order.len() - position,
{
    if position < order.len() {
        let step = steps[order[position]];
        let record = StepRecord::opened(step.id@, now);
        if !step_runs(step, execution.variables) {
            let skipped = record.closed(ExecutionStatus::Skipped, now);
            lemma_recorded(execution, skipped);
            lemma_joined(config, steps, order, execution, skipped);
            let next = recorded(execution, skipped).0;
            lemma_entered_consistent(config, steps, order, next, position + 1, now);
        }
    }
}

/// Whatever the caller reports, and whenever, a consistent run stays
/// consistent: no step is recorded out of order or beyond its retry limit,
/// and nothing is recorded after a failure.
pub proof fn lemma_run_stays_consistent(
    config: WorkflowConfig,
    steps: Seq<WorkflowStep>,
    order: Seq<int>,
    state: RunState,
    event: RunEvent,
    now: Timestamp,
)
    requires
        forall|p: int| 0 <= p < order.len() ==> 0 <= #[trigger] order[p] < steps.len(),
        consistent(config, steps, order, state),
    ensures
        consistent(config, steps, order, next_state(config, steps, order, state, event, now)),
{
    let execution = state.execution;
    match (state.stage, event) {
        (Stage::Attempting { position, record }, RunEvent::AttemptFinished(result)) => {
            if result.succeeded() {
                let done = StepRecord { output: Some(result.output()), ..record }.closed(
                    ExecutionStatus::Completed,
                    now,
                );
                lemma_recorded(execution, done);
                lemma_joined(config, steps, order, execution, done);
                let next = recorded(execution, done).0;
                lemma_entered_consistent(config, steps, order, next, position + 1, now);
            } else {
                let failed = StepRecord { error_message: Some(result.failure()), ..record };
                if record.retry_count >= retry_limit(steps[order[position]], config) {
                    let last = failed.closed(ExecutionStatus::Failed, now);
                    lemma_recorded(execution, last);
                    lemma_joined(config, steps, order, execution, last);
                }
            }
        },
        _ => {},
    }
}

/// A run that is over stays as it is: whatever is reported to it, no
/// further step is taken up and nothing joins its record.
pub proof fn lemma_finished_is_final(
    config: WorkflowConfig,
    steps: Seq<WorkflowStep>,
    order: Seq<int>,
    state: RunState,
    event: RunEvent,
    now: Timestamp,
)
    requires
        state.stage is Finished,
    ensures
        next_state(config, steps, order, state, event, now) == state,
{
}

/// The position in the order of the step that the run is busy with.
pub open spec fn current_position(stage: Stage) -> Option<int> {
    match stage {
        Stage::Attempting { position, .. } => Some(position),
        Stage::BackingOff { position, .. } => Some(position),
        Stage::Finished { .. } => None,
    }
}

/// While a step is attempted, every step that it depends on, directly or
/// through others, has its record, and the record says that the step
/// completed or was skipped.
pub proof fn lemma_dependencies_have_passed(
    config: WorkflowConfig,
    steps: Seq<WorkflowStep>,
    order: Seq<int>,
    state: RunState,
    dependency: int,
)
    requires
        execution_order(steps) == Walk::Placed(order),
        consistent(config, steps, order, state),
        current_position(state.stage) matches Some(position) && depends_on(
            steps,
            order[position],
            dependency,
        ),
    ensures
        exists|q: int|
            0 <= q < state.execution.steps_executed.len() && order[q] == dependency && (
            #[trigger] state.execution.steps_executed[q]).step_id == steps[dependency].id@ && (
            state.execution.steps_executed[q].status is Completed
                || state.execution.steps_executed[q].status is Skipped),
{
    let position = current_position(state.stage)->Some_0;
    lemma_order_respects_dependencies(steps, position, dependency);
    let q = choose|q: int| 0 <= q < position && order[q] == dependency;
    let record = state.execution.steps_executed[q];
    assert(belongs(config, steps, order[q], record) && settled(record));
    assert(record.status is Completed || record.status is Skipped);
}

/// A step fails for good only once it has used up its retries: the record
/// that ends a run in failure counts as many retries as the step is
/// allowed.
pub proof fn lemma_failure_uses_all_retries(
    config: WorkflowConfig,
    steps: Seq<WorkflowStep>,
    order: Seq<int>,
    state: RunState,
    result: AttemptResult,
    now: Timestamp,
)
    requires
        forall|p: int| 0 <= p < order.len() ==> 0 <= #[trigger] order[p] < steps.len(),
        consistent(config, steps, order, state),
        state.stage is Attempting,
    ensures
        ({
            let after = next_state(
                config,
                steps,
                order,
                state,
                RunEvent::AttemptFinished(result),
                now,
            );
            let position = current_position(state.stage)->Some_0;
            after.stage matches Stage::Finished { error: Some(_) } ==> {
                &&& !result.succeeded()
                &&& after.execution.steps_executed.len() == position + 1
                &&& after.execution.steps_executed.last().retry_count == retry_limit(
                    steps[order[position]],
                    config,
                )
                &&& after.execution.steps_executed.last().error_message == Some(result.failure())
            }
        }),
{
    let position = current_position(state.stage)->Some_0;
    let record = state.stage->Attempting_record;
    if result.succeeded() {
        let done = StepRecord { output: Some(result.output()), ..record }.closed(
            ExecutionStatus::Completed,
            now,
        );
        lemma_recorded(state.execution, done);
        lemma_joined(config, steps, order, state.execution, done);
        let next = recorded(state.execution, done).0;
        lemma_entered_never_fails(steps, order, next, position + 1, now);
    } else {
        let failed = StepRecord { error_message: Some(result.failure()), ..record };
        lemma_recorded(state.execution, failed.closed(ExecutionStatus::Failed, now));
    }
}

/// Taking up steps after records that all passed does not end in failure.
proof fn lemma_entered_never_fails(
    steps: Seq<WorkflowStep>,
    order: Seq<int>,
    execution: ExecutionRecord,
    position: int,
    now: Timestamp,
)
    requires
        0 <= position,
        all_passed(execution.steps_executed, execution.steps_executed.len() as int),
    ensures
        !(entered(steps, order, execution, position, now).stage matches Stage::Finished {
            error: Some(_),
        }),
    decreases order.len() - position,
{
    if position < order.len() {
        let step = steps[order[position]];
        if !step_runs(step, execution.variables) {
            let skipped = StepRecord::opened(step.id@, now).closed(ExecutionStatus::Skipped, now);
            lemma_recorded(execution, skipped);
            let next = recorded(execution, skipped).0;
            assert forall|k: int| 0 <= k < next.steps_executed.len() implies ((
            #[trigger] next.steps_executed[k]).status is Completed
                || next.steps_executed[k].status is Skipped) by {
                if k < execution.steps_executed.len() {
                    assert(next.steps_executed[k] == execution.steps_executed[k]);
                }
            }
            lemma_entered_never_fails(steps, order, next, position + 1, now);
        }
    }
}

/// A run of a workflow. `order` holds the positions of the workflow's steps
/// in the order of execution.
#[derive(Debug)]
pub struct WorkflowRun<'a> {
    pub engine: &'a WorkflowEngine,
    pub workflow: &'a Workflow,
    pub order: Vec<usize>,
    pub execution: WorkflowExecution,
    pub stage: RunStage,
}

impl<'a> View for WorkflowRun<'a> {
    type V = RunState;

    open spec fn view(&self) -> RunState {
        RunState { execution: self.execution@, stage: self.stage@ }
    }
}

/// A copy of the variables.
fn copy_variables(variables: &Vec<Variable>) -> (r: Vec<Variable>)
    ensures
        r@ == variables@,
{
    let mut copy: Vec<Variable> = Vec::new();
    let mut i: usize = 0;
    while i < variables.len()
        invariant
            i <= variables@.len(),
            copy@ == variables@.take(i as int),
        decreases variables@.len() - i,
    {
        copy.push(Variable { name: variables[i].name.clone(), value: variables[i].value.clone() });
        assert(copy@ == variables@.take(i + 1));
        i = i + 1;
    }
    assert(variables@.take(variables@.len() as int) == variables@);
    copy
}

/// Adds `record` to the execution. If a record of the execution is a
/// failure then, the execution fails with the message of the first such
/// record, and the error that ends the run comes back.
pub fn record_step(execution: &mut WorkflowExecution, record: StepExecution) -> (error: Option<
    WorkflowError,
>)
    ensures
        final(execution)@ == recorded(old(execution)@, record@).0,
        match error {
            Some(e) => recorded(old(execution)@, record@).1 == Some(e@),
            None => recorded(old(execution)@, record@).1 is None,
        },
{
    let ghost before = execution@;
    let ghost all = before.steps_executed.push(record@);
    execution.steps_executed.push(record);
    assert(records(execution.steps_executed@) == all);
    let mut f: usize = 0;
    while f < execution.steps_executed.len()
        invariant
            f <= execution.steps_executed@.len(),
            before == old(execution)@,
            all == before.steps_executed.push(record@),
            records(execution.steps_executed@) == all,
            execution@ == (ExecutionRecord { steps_executed: all, ..before }),
            first_failed(all, 0) == first_failed(all, f as int),
        decreases execution.steps_executed@.len() - f,
    {
        if let ExecutionStatus::Failed = execution.steps_executed[f].status {
            assert(all[f as int] == execution.steps_executed@[f as int]@);
            let message = copy_text(&execution.steps_executed[f].error_message);
            let error = WorkflowError::StepFailed {
                step_id: execution.steps_executed[f].step_id.clone(),
                message: copy_text(&execution.steps_executed[f].error_message),
            };
            execution.status = ExecutionStatus::Failed;
            execution.error_message = message;
            return Some(error);
        }
        assert(all[f as int] == execution.steps_executed@[f as int]@);
        f = f + 1;
    }
    None
}

impl<'a> WorkflowRun<'a> {
    /// The positions of the order as mathematical ones.
    pub open spec fn order_view(&self) -> Seq<int> {
        positions(self.order@)
    }

    /// The order is the order of execution of the workflow's steps, and the
    /// run is consistent.
    pub open spec fn wf(&self) -> bool {
        &&& execution_order(self.workflow.steps@) == Walk::Placed(self.order_view())
        &&& forall|p: int|
            0 <= p < self.order@.len() ==> (#[trigger] self.order@[p]) < self.workflow.steps@.len()
        &&& consistent(self.engine.config, self.workflow.steps@, self.order_view(), self@)
    }

    /// Takes up the steps from `position` on.
    fn enter(
        engine: &'a WorkflowEngine,
        workflow: &'a Workflow,
        order: Vec<usize>,
        initial: WorkflowExecution,
        from: usize,
        now: Timestamp,
    ) -> (run: Self)
        requires
            forall|p: int| 0 <= p < order@.len() ==> (#[trigger] order@[p]) < workflow.steps@.len(),
            from <= order@.len(),
        ensures
            run.engine == engine,
            run.workflow == workflow,
            run.order@ == order@,
            run@ == entered(workflow.steps@, positions(order@), initial@, from as int, now),
    {
        let ghost start = initial@;
        let mut execution = initial;
        let mut position = from;
        while position < order.len()
            invariant
                forall|p: int|
                    0 <= p < order@.len() ==> (#[trigger] order@[p]) < workflow.steps@.len(),
                position <= order@.len(),
                start == initial@,
                entered(workflow.steps@, positions(order@), start, from as int, now) == entered(
                    workflow.steps@,
                    positions(order@),
                    execution@,
                    position as int,
                    now,
                ),
            decreases order@.len() - position,
        {
            let step = &workflow.steps[order[position]];
            assert(*step == workflow.steps@[positions(order@)[position as int]]);
            let runs = match &step.condition {
                Some(condition) => engine.evaluate_condition(
                    condition.as_str(),
                    execution.variables.as_slice(),
                ),
                None => true,
            };
            if runs {
                let record = StepExecution {
                    step_id: step.id.clone(),
                    status: ExecutionStatus::Running,
                    started_at: now,
                    completed_at: None,
                    output: None,
                    error_message: None,
                    retry_count: 0,
                };
                return WorkflowRun {
                    engine,
                    workflow,
                    order,
                    execution,
                    stage: RunStage::Attempting { position, record },
                };
            }
            let record = StepExecution {
                step_id: step.id.clone(),
                status: ExecutionStatus::Skipped,
                started_at: now,
                completed_at: Some(now),
                output: None,
                error_message: None,
                retry_count: 0,
            };
            assert(record@ == StepRecord::opened(step.id@, now).closed(
                ExecutionStatus::Skipped,
                now,
            ));
            match record_step(&mut execution, record) {
                Some(error) => {
                    return WorkflowRun {
                        engine,
                        workflow,
                        order,
                        execution,
                        stage: RunStage::Finished { error: Some(error) },
                    };
                },
                None => {},
            }
            position = position + 1;
        }
        execution.status = ExecutionStatus::Completed;
        execution.completed_at = Some(now);
        WorkflowRun { engine, workflow, order, execution, stage: RunStage::Finished { error: None } }
    }

    /// What the run asks of the caller now.
    pub fn action(&self) -> (action: RunAction)
        requires
            self.wf(),
        ensures
            action == pending_action(
                self.engine.config,
                self.workflow.steps@,
                self.order_view(),
                self@.stage,
            ),
    {
        match &self.stage {
            RunStage::Attempting { position, .. } => {
                let step = self.order[*position];
                assert(step as int == self.order_view()[*position as int]);
                RunAction::RunCommand {
                    step,
                    timeout: self.engine.timeout_for(&self.workflow.steps[step]),
                }
            },
            RunStage::BackingOff { record, .. } => RunAction::Sleep {
                seconds: backoff_seconds(record.retry_count + 1),
            },
            RunStage::Finished { .. } => RunAction::Finish,
        }
    }

    /// Whether the run is over.
    pub fn is_finished(&self) -> (over: bool)
        ensures
            over == (self@.stage is Finished),
    {
        match &self.stage {
            RunStage::Finished { .. } => true,
            _ => false,
        }
    }

    /// The run after `event`, reported at `now`. An event that the run does
    /// not wait for changes nothing.
    pub fn advance_at(self, event: RunEvent, now: Timestamp) -> (next: Self)
        requires
            self.wf(),
        ensures
            next.wf(),
            next.engine == self.engine,
            next.workflow == self.workflow,
            next.order@ == self.order@,
            next@ == next_state(
                self.engine.config,
                self.workflow.steps@,
                self.order_view(),
                self@,
                event,
                now,
            ),
    {
        let ghost before = self@;
        let ghost config = self.engine.config;
        let ghost steps = self.workflow.steps@;
        let ghost spec_order = self.order_view();
        proof {
            assert forall|p: int| 0 <= p < spec_order.len() implies 0 <= #[trigger] spec_order[p]
                < steps.len() by {
                assert(self.order@[p] < steps.len());
            }
            lemma_run_stays_consistent(config, steps, spec_order, before, event, now);
        }
        let WorkflowRun { engine, workflow, order, execution, stage } = self;
        match (stage, event) {
            (RunStage::Attempting { position, record }, RunEvent::AttemptFinished(result)) => {
                let steps_in_order = order.len();
                assert(position < steps_in_order) by {
                    assert(spec_order.len() == order@.len());
                }
                let following = position + 1;
                let step = &workflow.steps[order[position]];
                assert(*step == steps[spec_order[position as int]]);
                let mut record = record;
                let mut execution = execution;
                match result.outcome() {
                    Ok(output) => {
                        record.output = Some(output);
                        record.status = ExecutionStatus::Completed;
                        record.completed_at = Some(now);
                        match record_step(&mut execution, record) {
                            Some(error) => WorkflowRun {
                                engine,
                                workflow,
                                order,
                                execution,
                                stage: RunStage::Finished { error: Some(error) },
                            },
                            None => Self::enter(engine, workflow, order, execution, following, now),
                        }
                    },
                    Err(message) => {
                        let limit = engine.max_retries(step);
                        record.error_message = Some(message);
                        if record.retry_count < limit {
                            WorkflowRun {
                                engine,
                                workflow,
                                order,
                                execution,
                                stage: RunStage::BackingOff { position, record },
                            }
                        } else {
                            record.status = ExecutionStatus::Failed;
                            record.completed_at = Some(now);
                            let error = record_step(&mut execution, record);
                            WorkflowRun {
                                engine,
                                workflow,
                                order,
                                execution,
                                stage: RunStage::Finished { error },
                            }
                        }
                    },
                }
            },
            (RunStage::BackingOff { position, record }, RunEvent::BackoffElapsed) => {
                let mut record = record;
                record.retry_count = record.retry_count + 1;
                WorkflowRun {
                    engine,
                    workflow,
                    order,
                    execution,
                    stage: RunStage::Attempting { position, record },
                }
            },
            (stage, _) => WorkflowRun { engine, workflow, order, execution, stage },
        }
    }

    /// The run after `event`, reported at the present time.
    pub fn advance(self, event: RunEvent) -> (next: Self)
        requires
            self.wf(),
        ensures
            next.wf(),
            next.engine == self.engine,
            next.workflow == self.workflow,
            next.order@ == self.order@,
            exists|now: Timestamp|
                next@ == next_state(
                    self.engine.config,
                    self.workflow.steps@,
                    self.order_view(),
                    self@,
                    event,
                    now,
                ),
    {
        let now = current_time();
        self.advance_at(event, now)
    }

    /// The record of the run, and the error it ended with, if any.
    pub fn into_result(self) -> (r: (WorkflowExecution, Option<WorkflowError>))
        ensures
            r.0 == self.execution,
            match self.stage {
                RunStage::Finished { error } => r.1 == error,
                _ => r.1 is None,
            },
    {
        let WorkflowRun { execution, stage, .. } = self;
        match stage {
            RunStage::Finished { error } => (execution, error),
            _ => (execution, None),
        }
    }
}

impl WorkflowEngine {
    /// Starts a run of `workflow` under the identifier `id` at `now`: orders
    /// the steps and takes up the first. Where the steps cannot be ordered
    /// there is no run, and no record of one. The workflow is well formed:
    /// `Workflow::is_well_formed` tells.
    pub fn start_run_at<'a>(&'a self, workflow: &'a Workflow, id: u128, now: Timestamp) -> (r:
        Result<WorkflowRun<'a>, WorkflowError>)
        requires
            workflow.wf(),
        ensures
            match execution_order(workflow.steps@) {
                Walk::Placed(order) => {
                    &&& r matches Ok(run)
                    &&& run.wf()
                    &&& run.engine == self
                    &&& run.workflow == workflow
                    &&& run@ == entered(workflow.steps@, order, opened(*workflow, id, now), 0, now)
                },
                Walk::Cycle(c) => {
                    &&& 0 <= c < workflow.steps@.len()
                    &&& r matches Err(e)
                    &&& e@ == Failure::CircularDependency(workflow.steps@[c].id@)
                },
                Walk::Unresolved(name) => {
                    &&& r matches Err(e)
                    &&& e@ == Failure::DependencyNotFound(name)
                },
            },
    {
        let order = match self.order_steps(workflow.steps.as_slice()) {
            Ok(order) => order,
            Err(e) => {
                return Err(e);
            },
        };
        let execution = WorkflowExecution {
            id,
            workflow_id: workflow.id,
            status: ExecutionStatus::Running,
            started_at: now,
            completed_at: None,
            steps_executed: Vec::new(),
            variables: copy_variables(&workflow.variables),
            error_message: None,
        };
        proof {
            let ghost spec_order = positions(order@);
            assert(execution@.steps_executed == Seq::<StepRecord>::empty());
            assert(execution@ == opened(*workflow, id, now));
            assert forall|p: int| 0 <= p < spec_order.len() implies 0 <= #[trigger] spec_order[p]
                < workflow.steps@.len() by {
                assert(order@[p] < workflow.steps@.len());
            }
            lemma_entered_consistent(
                self.config,
                workflow.steps@,
                spec_order,
                execution@,
                0,
                now,
            );
        }
        Ok(WorkflowRun::enter(self, workflow, order, execution, 0, now))
    }

    /// Starts a run of `workflow` at the present time, under a fresh
    /// identifier.
    pub fn start_run<'a>(&'a self, workflow: &'a Workflow) -> (r: Result<
        WorkflowRun<'a>,
        WorkflowError,
    >)
        requires
            workflow.wf(),
        ensures
            match execution_order(workflow.steps@) {
                Walk::Placed(order) => {
                    &&& r matches Ok(run)
                    &&& run.wf()
                    &&& run.engine == self
                    &&& run.workflow == workflow
                    &&& exists|id: u128, now: Timestamp|
                        run@ == entered(
                            workflow.steps@,
                            order,
                            opened(*workflow, id, now),
                            0,
                            now,
                        )
                },
                Walk::Cycle(c) => {
                    &&& 0 <= c < workflow.steps@.len()
                    &&& r matches Err(e)
                    &&& e@ == Failure::CircularDependency(workflow.steps@[c].id@)
                },
                Walk::Unresolved(name) => {
                    &&& r matches Err(e)
                    &&& e@ == Failure::DependencyNotFound(name)
                },
            },
    {
        let id = fresh_id();
        let now = current_time();
        self.start_run_at(workflow, id, now)
    }
}

} // verus!
