use rust_automation_orchestrator::config::WorkflowConfig;
use rust_automation_orchestrator::workflow::step::{backoff_seconds, has_marker, reads_true, AttemptResult};
use rust_automation_orchestrator::workflow::{StepType, Variable, WorkflowEngine, WorkflowStep};

fn engine() -> WorkflowEngine {
    WorkflowEngine::new(WorkflowConfig::default())
}

fn var(name: &str, value: &str) -> Variable {
    Variable { name: name.to_string(), value: value.to_string() }
}

fn plain_step() -> WorkflowStep {
    WorkflowStep {
        id: "s".to_string(),
        name: "s".to_string(),
        step_type: StepType::Script,
        command: "true".to_string(),
        args: Vec::new(),
        timeout: None,
        retry_count: None,
        depends_on: Vec::new(),
        condition: None,
        output: None,
    }
}

#[test]
fn a_false_flag_skips() {
    assert!(!engine().evaluate_condition("$flag", &[var("flag", "false")]));
}

#[test]
fn a_true_flag_passes() {
    assert!(engine().evaluate_condition("$flag", &[var("flag", "true")]));
}

#[test]
fn the_case_of_true_does_not_matter() {
    assert!(engine().evaluate_condition("$flag", &[var("flag", "TRUE")]));
    assert!(engine().evaluate_condition("$flag", &[var("flag", "True")]));
    assert!(engine().evaluate_condition("$a$b", &[var("a", "tR"), var("b", "Ue")]));
}

#[test]
fn a_condition_without_marker_always_passes() {
    assert!(engine().evaluate_condition("false", &[var("flag", "false")]));
    assert!(engine().evaluate_condition("", &[]));
    assert!(engine().evaluate_condition("anything at all", &[]));
}

#[test]
fn an_unknown_variable_skips() {
    assert!(!engine().evaluate_condition("$other", &[var("flag", "true")]));
    assert!(!engine().evaluate_condition("$flag", &[]));
}

#[test]
fn only_the_exact_word_passes() {
    assert!(!engine().evaluate_condition("$flag ", &[var("flag", "true")]));
    assert!(!engine().evaluate_condition("$flag", &[var("flag", "yes")]));
    assert!(!engine().evaluate_condition("$flag", &[var("flag", "1")]));
    assert!(!engine().evaluate_condition("$flag && $flag", &[var("flag", "true")]));
}

#[test]
fn variables_are_substituted_in_their_order() {
    let variables = [var("a", "$b"), var("b", "true")];
    assert_eq!(engine().substitute("$a", &variables), "true");
    let variables = [var("b", "true"), var("a", "$b")];
    assert_eq!(engine().substitute("$a", &variables), "$b");
}

#[test]
fn every_occurrence_of_a_marker_is_replaced() {
    let variables = [var("x", "1")];
    assert_eq!(engine().substitute("$x-$x-$y", &variables), "1-1-$y");
}

#[test]
fn has_marker_looks_for_a_dollar() {
    assert!(has_marker("$"));
    assert!(has_marker("a $b c"));
    assert!(has_marker("été $"));
    assert!(!has_marker(""));
    assert!(!has_marker("plain"));
}

#[test]
fn reads_true_is_exact() {
    assert!(reads_true("true"));
    assert!(reads_true("TRUE"));
    assert!(reads_true("tRuE"));
    assert!(!reads_true("true "));
    assert!(!reads_true("tru"));
    assert!(!reads_true("trué"));
    assert!(!reads_true("false"));
    assert!(!reads_true(""));
}

#[test]
fn backoff_doubles_with_each_attempt() {
    assert_eq!(backoff_seconds(0), 1);
    assert_eq!(backoff_seconds(1), 2);
    assert_eq!(backoff_seconds(2), 4);
    assert_eq!(backoff_seconds(3), 8);
    assert_eq!(backoff_seconds(10), 1024);
    assert_eq!(backoff_seconds(63), 1 << 63);
}

#[test]
fn backoff_stops_at_the_largest_number() {
    assert_eq!(backoff_seconds(64), u64::MAX);
    assert_eq!(backoff_seconds(u32::MAX), u64::MAX);
}

#[test]
fn a_step_overrides_the_engines_limits() {
    let engine = engine();
    let mut step = plain_step();
    assert_eq!(engine.max_retries(&step), 3);
    assert_eq!(engine.timeout_for(&step), 3600);
    step.retry_count = Some(0);
    step.timeout = Some(5);
    assert_eq!(engine.max_retries(&step), 0);
    assert_eq!(engine.timeout_for(&step), 5);
}

#[test]
fn an_exit_in_success_gives_the_output() {
    let result = AttemptResult::Exited {
        success: true,
        stdout: "out".to_string(),
        stderr: "err".to_string(),
    };
    assert_eq!(result.outcome(), Ok("out".to_string()));
}

#[test]
fn an_exit_in_failure_gives_the_error_text() {
    let result = AttemptResult::Exited {
        success: false,
        stdout: "out".to_string(),
        stderr: "boom".to_string(),
    };
    assert_eq!(result.outcome(), Err("Command failed: boom".to_string()));
}

#[test]
fn an_interruption_gives_its_message() {
    let result = AttemptResult::Interrupted("deadline has elapsed".to_string());
    assert_eq!(result.outcome(), Err("deadline has elapsed".to_string()));
}
