use rust_automation_orchestrator::config::WorkflowConfig;
use rust_automation_orchestrator::workflow::scheduler::SortState;
use rust_automation_orchestrator::workflow::{StepType, WorkflowEngine, WorkflowError, WorkflowStep};

fn step(id: &str, depends_on: &[&str]) -> WorkflowStep {
    WorkflowStep {
        id: id.to_string(),
        name: format!("step {}", id),
        step_type: StepType::Command,
        command: "true".to_string(),
        args: Vec::new(),
        timeout: None,
        retry_count: None,
        depends_on: depends_on.iter().map(|d| d.to_string()).collect(),
        condition: None,
        output: None,
    }
}

fn engine() -> WorkflowEngine {
    WorkflowEngine::new(WorkflowConfig::default())
}

fn ids(sorted: &[&WorkflowStep]) -> Vec<String> {
    sorted.iter().map(|s| s.id.clone()).collect()
}

#[test]
fn no_steps_give_an_empty_order() {
    let steps: Vec<WorkflowStep> = Vec::new();
    assert_eq!(engine().order_steps(&steps), Ok(Vec::new()));
    assert!(engine().sort_steps_by_dependencies(&steps).unwrap().is_empty());
}

#[test]
fn a_chain_is_ordered_from_its_end() {
    let steps = vec![step("c", &["b"]), step("b", &["a"]), step("a", &[])];
    assert_eq!(engine().order_steps(&steps), Ok(vec![2, 1, 0]));
    let sorted = engine().sort_steps_by_dependencies(&steps).unwrap();
    assert_eq!(ids(&sorted), vec!["a", "b", "c"]);
}

#[test]
fn independent_steps_keep_their_declaration_order() {
    let steps = vec![step("x", &[]), step("y", &[]), step("z", &[])];
    assert_eq!(engine().order_steps(&steps), Ok(vec![0, 1, 2]));
}

#[test]
fn dependencies_are_placed_in_the_order_they_are_listed() {
    let steps = vec![step("a", &["c", "b"]), step("b", &[]), step("c", &[])];
    assert_eq!(engine().order_steps(&steps), Ok(vec![2, 1, 0]));
}

#[test]
fn a_diamond_places_the_shared_step_once() {
    let steps = vec![
        step("top", &["left", "right"]),
        step("left", &["base"]),
        step("right", &["base"]),
        step("base", &[]),
    ];
    assert_eq!(engine().order_steps(&steps), Ok(vec![3, 1, 2, 0]));
}

#[test]
fn every_step_comes_after_what_it_depends_on() {
    let steps = vec![
        step("deploy", &["build", "test"]),
        step("test", &["build"]),
        step("lint", &[]),
        step("build", &["fetch"]),
        step("fetch", &[]),
        step("notify", &["deploy", "lint"]),
    ];
    let order = engine().order_steps(&steps).unwrap();
    assert_eq!(order.len(), steps.len());
    for (place, &i) in order.iter().enumerate() {
        for dependency in &steps[i].depends_on {
            let j = steps.iter().position(|s| &s.id == dependency).unwrap();
            let before = order.iter().position(|&o| o == j).unwrap();
            assert!(before < place);
        }
    }
}

#[test]
fn a_cycle_is_reported_at_the_step_where_it_closes() {
    let steps = vec![step("a", &["b"]), step("b", &["c"]), step("c", &["a"])];
    assert_eq!(
        engine().order_steps(&steps),
        Err(WorkflowError::CircularDependency("a".to_string()))
    );
    assert_eq!(
        engine().sort_steps_by_dependencies(&steps).err(),
        Some(WorkflowError::CircularDependency("a".to_string()))
    );
}

#[test]
fn a_step_that_depends_on_itself_is_a_cycle() {
    let steps = vec![step("solo", &["solo"])];
    assert_eq!(
        engine().order_steps(&steps),
        Err(WorkflowError::CircularDependency("solo".to_string()))
    );
}

#[test]
fn a_cycle_behind_a_valid_step_names_a_step_on_the_cycle() {
    let steps = vec![step("entry", &["p"]), step("p", &["q"]), step("q", &["p"])];
    assert_eq!(
        engine().order_steps(&steps),
        Err(WorkflowError::CircularDependency("p".to_string()))
    );
}

#[test]
fn an_unknown_dependency_is_reported_by_name() {
    let steps = vec![step("a", &[]), step("b", &["a", "ghost"])];
    assert_eq!(
        engine().order_steps(&steps),
        Err(WorkflowError::DependencyNotFound("ghost".to_string()))
    );
}

#[test]
fn the_first_problem_of_the_walk_is_the_one_reported() {
    let steps = vec![step("a", &["missing", "a"])];
    assert_eq!(
        engine().order_steps(&steps),
        Err(WorkflowError::DependencyNotFound("missing".to_string()))
    );
    let steps = vec![step("a", &["a", "missing"])];
    assert_eq!(
        engine().order_steps(&steps),
        Err(WorkflowError::CircularDependency("a".to_string()))
    );
}

#[test]
fn a_repeated_name_stands_for_its_first_step() {
    let steps = vec![step("a", &[]), step("b", &["a"]), step("a", &["b"])];
    assert_eq!(engine().order_steps(&steps), Ok(vec![0, 1]));
}

#[test]
fn find_step_gives_the_first_of_a_name() {
    let steps = vec![step("a", &[]), step("b", &[]), step("b", &[])];
    assert_eq!(engine().find_step(&steps, &"b".to_string()), Some(1));
    assert_eq!(engine().find_step(&steps, &"a".to_string()), Some(0));
    assert_eq!(engine().find_step(&steps, &"c".to_string()), None);
}

#[test]
fn visit_step_places_a_step_after_its_dependencies() {
    let steps = vec![step("a", &["b"]), step("b", &[]), step("c", &[])];
    let mut state = SortState::new(steps.len());
    assert_eq!(engine().visit_step(0, &steps, &mut state), Ok(()));
    assert_eq!(state.sorted, vec![1, 0]);
    assert_eq!(state.visited, vec![true, true, false]);
    assert_eq!(state.visiting, vec![false, false, false]);
    assert_eq!(engine().visit_step(1, &steps, &mut state), Ok(()));
    assert_eq!(state.sorted, vec![1, 0]);
    assert_eq!(engine().visit_step(2, &steps, &mut state), Ok(()));
    assert_eq!(state.sorted, vec![1, 0, 2]);
}

#[test]
fn visit_step_fails_on_a_cycle() {
    let steps = vec![step("a", &["b"]), step("b", &["a"])];
    let mut state = SortState::new(steps.len());
    assert_eq!(
        engine().visit_step(1, &steps, &mut state),
        Err(WorkflowError::CircularDependency("b".to_string()))
    );
}

#[test]
fn error_messages_name_the_step() {
    assert_eq!(
        WorkflowError::CircularDependency("a".to_string()).message(),
        "Circular dependency detected for step: a"
    );
    assert_eq!(
        WorkflowError::DependencyNotFound("ghost".to_string()).message(),
        "Dependency step not found: ghost"
    );
    assert_eq!(
        WorkflowError::StepFailed {
            step_id: "b".to_string(),
            message: Some("Command failed: no".to_string())
        }
        .message(),
        "Step b failed: Some(\"Command failed: no\")"
    );
    assert_eq!(
        WorkflowError::StepFailed { step_id: "b".to_string(), message: None }.message(),
        "Step b failed: None"
    );
}

#[test]
fn a_step_on_the_path_leaves_the_marks_alone() {
    let steps = vec![step("a", &["b"]), step("b", &[]), step("c", &[])];
    let mut state = SortState::new(steps.len());
    assert_eq!(engine().visit_step(1, &steps, &mut state), Ok(()));
    state.visiting[0] = true;
    assert_eq!(
        engine().visit_step(0, &steps, &mut state),
        Err(WorkflowError::CircularDependency("a".to_string()))
    );
    assert_eq!(state.sorted, vec![1]);
    assert_eq!(state.visited, vec![false, true, false]);
    assert_eq!(state.visiting, vec![true, false, false]);
}

#[test]
fn the_path_is_looked_at_before_the_placed_steps() {
    let steps = vec![step("a", &[])];
    let mut state = SortState::new(steps.len());
    assert_eq!(engine().visit_step(0, &steps, &mut state), Ok(()));
    state.visiting[0] = true;
    assert_eq!(
        engine().visit_step(0, &steps, &mut state),
        Err(WorkflowError::CircularDependency("a".to_string()))
    );
    assert_eq!(state.sorted, vec![0]);
    assert_eq!(state.visited, vec![true]);
}

#[test]
fn a_placed_step_leaves_the_marks_alone() {
    let steps = vec![step("a", &["b"]), step("b", &[])];
    let mut state = SortState::new(steps.len());
    assert_eq!(engine().visit_step(0, &steps, &mut state), Ok(()));
    assert_eq!(engine().visit_step(0, &steps, &mut state), Ok(()));
    assert_eq!(engine().visit_step(1, &steps, &mut state), Ok(()));
    assert_eq!(state.sorted, vec![1, 0]);
    assert_eq!(state.visited, vec![true, true]);
    assert_eq!(state.visiting, vec![false, false]);
}
