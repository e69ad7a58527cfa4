//! Workflows, their steps, and the records of their execution.

pub mod ordering;
pub mod run;
pub mod scheduler;
pub mod step;

use crate::config::WorkflowConfig;
use crate::text::{debug_form, debug_text, text};
use crate::time::Timestamp;
use vstd::prelude::*;
use vstd::string::StringExecFns;

verus! {

/// What kind of work a step does. The kind is informational: whatever it
/// says, a step runs its command with its arguments.
#[derive(Clone, Copy, Debug, PartialEq, Eq, Structural)]
pub enum StepType {
    Command,
    Script,
    Upload,
    Download,
    Transform,
    Validate,
    Notify,
}

#[derive(Clone, Copy, Debug, PartialEq, Eq, Structural)]
pub enum WorkflowPriority {
    Low,
    Normal,
    High,
    Critical,
}

/// Where a workflow run, or one step of it, stands.
#[derive(Clone, Copy, Debug, PartialEq, Eq, Structural)]
pub enum ExecutionStatus {
    Pending,
    Running,
    Completed,
    Failed,
    Cancelled,
    Skipped,
}

impl ExecutionStatus {
    /// `Completed`, `Failed`, `Cancelled` and `Skipped` are final.
    pub open spec fn is_terminal_spec(&self) -> bool {
        self is Completed || self is Failed || self is Cancelled || self is Skipped
    }

    #[verifier::when_used_as_spec(is_terminal_spec)]
    pub fn is_terminal(&self) -> (r: bool)
        ensures
            r == self.is_terminal_spec(),
    {
        match self {
            ExecutionStatus::Pending | ExecutionStatus::Running => false,
            _ => true,
        }
    }
}

#[derive(Clone, Copy, Debug, PartialEq, Eq, Structural)]
pub struct ResourceRequirements {
    pub cpu_cores: u32,
    pub memory_mb: u32,
    pub disk_space_mb: u32,
}

#[derive(Clone, Debug, PartialEq, Eq)]
pub struct WorkflowMetadata {
    pub author: String,
    pub tags: Vec<String>,
    pub priority: WorkflowPriority,
    pub estimated_duration: Option<u64>,
    pub resource_requirements: ResourceRequirements,
}

/// One command of a workflow, with its own retry, timeout and condition
/// policy. `id` names the step in the `depends_on` lists of the others.
#[derive(Clone, Debug, PartialEq, Eq)]
pub struct WorkflowStep {
    pub id: String,
    pub name: String,
    pub step_type: StepType,
    pub command: String,
    pub args: Vec<String>,
    /// Seconds; overrides the engine's default.
    pub timeout: Option<u64>,
    /// Retries after the first try; overrides the engine's default.
    pub retry_count: Option<u32>,
    pub depends_on: Vec<String>,
    pub condition: Option<String>,
    pub output: Option<String>,
}

/// A named binding of the run's environment.
#[derive(Clone, Debug, PartialEq, Eq)]
pub struct Variable {
    pub name: String,
    pub value: String,
}

/// A workflow definition. `variables` is a mapping from names to values: no
/// name occurs twice. It lists the bindings in the order in which they are
/// substituted into conditions.
#[derive(Clone, Debug, PartialEq, Eq)]
pub struct Workflow {
    pub id: u128,
    pub name: String,
    pub description: Option<String>,
    pub version: String,
    pub created_at: Timestamp,
    pub steps: Vec<WorkflowStep>,
    pub variables: Vec<Variable>,
    pub metadata: WorkflowMetadata,
}

/// The outcome of one step of a run.
#[derive(Clone, Debug, PartialEq, Eq)]
pub struct StepExecution {
    pub step_id: String,
    pub status: ExecutionStatus,
    pub started_at: Timestamp,
    pub completed_at: Option<Timestamp>,
    /// Standard output of the attempt that succeeded.
    pub output: Option<String>,
    /// The message of the last attempt that failed.
    pub error_message: Option<String>,
    /// Retries consumed: the index of the last attempt made.
    pub retry_count: u32,
}

/// One run of a workflow.
#[derive(Clone, Debug, PartialEq, Eq)]
pub struct WorkflowExecution {
    pub id: u128,
    pub workflow_id: u128,
    pub status: ExecutionStatus,
    pub started_at: Timestamp,
    pub completed_at: Option<Timestamp>,
    /// One record per step that ran, in the order in which they ran.
    pub steps_executed: Vec<StepExecution>,
    pub variables: Vec<Variable>,
    pub error_message: Option<String>,
}

/// Why a run could not be ordered, or why it stopped.
#[derive(Clone, Debug, PartialEq, Eq)]
pub enum WorkflowError {
    /// The walk came back to this step while it was still gathering the
    /// step's own dependencies.
    CircularDependency(String),
    /// A `depends_on` entry that names no step of the workflow.
    DependencyNotFound(String),
    /// A step used up its attempts.
    StepFailed { step_id: String, message: Option<String> },
}

/// Name and value of each variable, in their order.
pub open spec fn bindings(variables: Seq<Variable>) -> Seq<(Seq<char>, Seq<char>)> {
    Seq::new(variables.len(), |i: int| (variables[i].name@, variables[i].value@))
}

/// Whether no two bindings have the same name.
pub open spec fn names_differ(variables: Seq<(Seq<char>, Seq<char>)>) -> bool {
    forall|i: int, j: int| 0 <= i < j < variables.len() ==> variables[i].0 != variables[j].0
}

/// Whether no two variables have the same name.
pub fn have_distinct_names(variables: &[Variable]) -> (distinct: bool)
    ensures
        distinct == names_differ(bindings(variables@)),
{
    let mut j: usize = 0;
    while j < variables.len()
        invariant
            j <= variables@.len(),
            forall|a: int, b: int|
                0 <= a < b < j ==> bindings(variables@)[a].0 != bindings(variables@)[b].0,
        decreases variables@.len() - j,
    {
        let mut i: usize = 0;
        while i < j
            invariant
                i <= j < variables@.len(),
                forall|a: int| 0 <= a < i ==> bindings(variables@)[a].0 != bindings(variables@)[j as int].0,
            decreases j - i,
        {
            if variables[i].name == variables[j].name {
                assert(bindings(variables@)[i as int].0 == bindings(variables@)[j as int].0);
                return false;
            }
            i = i + 1;
        }
        j = j + 1;
    }
    true
}

impl Workflow {
    /// The variables of a workflow are a mapping: no name occurs twice.
    pub open spec fn wf(&self) -> bool {
        names_differ(bindings(self.variables@))
    }

    /// Whether the workflow is well formed.
    pub fn is_well_formed(&self) -> (r: bool)
        ensures
            r == self.wf(),
    {
        have_distinct_names(self.variables.as_slice())
    }
}

/// What a `StepExecution` says.
pub struct StepRecord {
    pub step_id: Seq<char>,
    pub status: ExecutionStatus,
    pub started_at: Timestamp,
    pub completed_at: Option<Timestamp>,
    pub output: Option<Seq<char>>,
    pub error_message: Option<Seq<char>>,
    pub retry_count: u32,
}

impl View for StepExecution {
    type V = StepRecord;

    open spec fn view(&self) -> StepRecord {
        StepRecord {
            step_id: self.step_id@,
            status: self.status,
            started_at: self.started_at,
            completed_at: self.completed_at,
            output: text(self.output),
            error_message: text(self.error_message),
            retry_count: self.retry_count,
        }
    }
}

/// The records of a sequence of step executions.
pub open spec fn records(steps_executed: Seq<StepExecution>) -> Seq<StepRecord> {
    Seq::new(steps_executed.len(), |i: int| steps_executed[i]@)
}

/// What a `WorkflowExecution` says.
pub struct ExecutionRecord {
    pub id: u128,
    pub workflow_id: u128,
    pub status: ExecutionStatus,
    pub started_at: Timestamp,
    pub completed_at: Option<Timestamp>,
    pub steps_executed: Seq<StepRecord>,
    pub variables: Seq<(Seq<char>, Seq<char>)>,
    pub error_message: Option<Seq<char>>,
}

impl View for WorkflowExecution {
    type V = ExecutionRecord;

    open spec fn view(&self) -> ExecutionRecord {
        ExecutionRecord {
            id: self.id,
            workflow_id: self.workflow_id,
            status: self.status,
            started_at: self.started_at,
            completed_at: self.completed_at,
            steps_executed: records(self.steps_executed@),
            variables: bindings(self.variables@),
            error_message: text(self.error_message),
        }
    }
}

/// What a `WorkflowError` says.
pub enum Failure {
    CircularDependency(Seq<char>),
    DependencyNotFound(Seq<char>),
    StepFailed { step_id: Seq<char>, message: Option<Seq<char>> },
}

impl View for WorkflowError {
    type V = Failure;

    open spec fn view(&self) -> Failure {
        match *self {
            WorkflowError::CircularDependency(id) => Failure::CircularDependency(id@),
            WorkflowError::DependencyNotFound(id) => Failure::DependencyNotFound(id@),
            WorkflowError::StepFailed { step_id, message } => Failure::StepFailed {
                step_id: step_id@,
                message: text(message),
            },
        }
    }
}

impl Failure {
    /// The message of the error, for people to read.
    pub open spec fn message(self) -> Seq<char> {
        match self {
            Failure::CircularDependency(id) => "Circular dependency detected for step: "@ + id,
            Failure::DependencyNotFound(id) => "Dependency step not found: "@ + id,
            Failure::StepFailed { step_id, message } => "Step "@ + step_id + " failed: "@
                + debug_form(message),
        }
    }
}

impl WorkflowError {
    /// The message of the error, for people to read. It names the step at
    /// fault.
    pub fn message(&self) -> (message: String)
        ensures
            message@ == self@.message(),
    {
        match self {
            WorkflowError::CircularDependency(id) => {
                let mut message = String::from_str("Circular dependency detected for step: ");
                message.append(id.as_str());
                message
            },
            WorkflowError::DependencyNotFound(id) => {
                let mut message = String::from_str("Dependency step not found: ");
                message.append(id.as_str());
                message
            },
            WorkflowError::StepFailed { step_id, message } => {
                let mut text = String::from_str("Step ");
                text.append(step_id.as_str());
                text.append(" failed: ");
                let detail = debug_text(message);
                text.append(detail.as_str());
                text
            },
        }
    }
}

#[derive(Debug)]
pub struct WorkflowEngine {
    pub config: WorkflowConfig,
}

impl WorkflowEngine {
    pub fn new(config: WorkflowConfig) -> (engine: Self)
        ensures
            engine.config == config,
    {
        Self { config }
    }
}

} // verus!
