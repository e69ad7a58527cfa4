//! Dependency resolution: the order in which the steps of a workflow run.
//!
//! The order is that of a depth-first walk. Steps are taken in the order of
//! their declaration; before a step is placed, its dependencies are walked in
//! the order in which the step lists them. A name stands for the first step
//! that bears it.

use super::{WorkflowEngine, WorkflowError, WorkflowStep};
use vstd::prelude::*;

verus! {

/// The position of the first step named `id` at or after `from`.
pub open spec fn first_named(steps: Seq<WorkflowStep>, id: Seq<char>, from: int) -> Option<int>
    decreases steps.len() - from,
{
    if from < 0 || from >= steps.len() {
        None
    } else if steps[from].id@ == id {
        Some(from)
    } else {
        first_named(steps, id, from + 1)
    }
}

/// The step that `id` stands for.
pub open spec fn resolve(steps: Seq<WorkflowStep>, id: Seq<char>) -> Option<int> {
    first_named(steps, id, 0)
}

/// The names of the steps, in the order of their declaration.
pub open spec fn step_ids(steps: Seq<WorkflowStep>) -> Seq<Seq<char>> {
    Seq::new(steps.len(), |i: int| steps[i].id@)
}

/// The names that step `i` depends on, in the order in which it lists them.
pub open spec fn dependency_ids(steps: Seq<WorkflowStep>, i: int) -> Seq<Seq<char>> {
    Seq::new(steps[i].depends_on@.len(), |k: int| steps[i].depends_on@[k]@)
}

/// How a walk ends.
pub enum Walk {
    /// The positions of the steps placed so far, each after its dependencies.
    Placed(Seq<int>),
    /// The position of the step at which the walk came back to its own path.
    Cycle(int),
    /// A dependency that names no step.
    Unresolved(Seq<char>),
}

/// Visits step `i`. `placed` holds the steps already placed and `path` the
/// steps whose dependencies are being gathered, outermost first.
///
/// No path of distinct steps is as long as the workflow, so the third branch
/// is never taken on one; it is there to bound the walk.
pub open spec fn walk_step(steps: Seq<WorkflowStep>, placed: Seq<int>, path: Seq<int>, i: int) -> Walk
    decreases steps.len() - path.len(), 0nat, 0nat,
{
    if path.contains(i) {
        Walk::Cycle(i)
    } else if placed.contains(i) {
        Walk::Placed(placed)
    } else if path.len() >= steps.len() {
        Walk::Placed(placed)
    } else {
        match walk_names(steps, placed, path.push(i), dependency_ids(steps, i), 0) {
            Walk::Placed(below) => Walk::Placed(below.push(i)),
            stopped => stopped,
        }
    }
}

/// Visits the steps that `names[k..]` stand for, one after the other, and
/// stops at the first name that stands for none.
pub open spec fn walk_names(
    steps: Seq<WorkflowStep>,
    placed: Seq<int>,
    path: Seq<int>,
    names: Seq<Seq<char>>,
    k: int,
) -> Walk
    decreases steps.len() - path.len(), 1nat, names.len() - k,
{
    if k < 0 || k >= names.len() {
        Walk::Placed(placed)
    } else {
        match resolve(steps, names[k]) {
            None => Walk::Unresolved(names[k]),
            Some(j) => match walk_step(steps, placed, path, j) {
                Walk::Placed(next) => walk_names(steps, next, path, names, k + 1),
                stopped => stopped,
            },
        }
    }
}

/// The order in which the steps run: the walk over all of them, started with
/// nothing placed.
pub open spec fn execution_order(steps: Seq<WorkflowStep>) -> Walk {
    walk_names(steps, Seq::empty(), Seq::empty(), step_ids(steps), 0)
}

/// What `resolve` finds is the first step of that name, and it finds one
/// whenever there is one.
pub proof fn lemma_first_named(steps: Seq<WorkflowStep>, id: Seq<char>, from: int)
    requires
        0 <= from,
    ensures
        match first_named(steps, id, from) {
            Some(i) => from <= i < steps.len() && steps[i].id@ == id && forall|j: int|
                from <= j < i ==> steps[j].id@ != id,
            None => forall|j: int| from <= j < steps.len() ==> steps[j].id@ != id,
        },
    decreases steps.len() - from,
{
    if from < steps.len() && steps[from].id@ != id {
        lemma_first_named(steps, id, from + 1);
    }
}

/// The marks of a walk in progress.
pub struct SortState {
    /// Whether the step at each position has been placed.
    pub visited: Vec<bool>,
    /// Whether the walk is gathering the dependencies of the step at each
    /// position.
    pub visiting: Vec<bool>,
    /// The positions of the steps placed so far.
    pub sorted: Vec<usize>,
    /// The steps marked in `visiting`, outermost first.
    pub path: Ghost<Seq<int>>,
}

/// Machine positions as mathematical ones.
pub open spec fn positions(order: Seq<usize>) -> Seq<int> {
    Seq::new(order.len(), |p: int| order[p] as int)
}

impl SortState {
    /// The placed steps as mathematical positions.
    pub open spec fn placed(&self) -> Seq<int> {
        positions(self.sorted@)
    }

    /// The marks agree with `sorted` and `path`, over a workflow of `n` steps.
    pub open spec fn wf(&self, n: int) -> bool {
        &&& self.visited@.len() == n
        &&& self.visiting@.len() == n
        &&& forall|i: int| 0 <= i < n ==> self.visited@[i] == self.placed().contains(i)
        &&& forall|i: int| 0 <= i < n ==> self.visiting@[i] == self.path@.contains(i)
        &&& forall|p: int| 0 <= p < self.sorted@.len() ==> self.sorted@[p] < n
        &&& forall|t: int| 0 <= t < self.path@.len() ==> 0 <= #[trigger] self.path@[t] < n
        &&& self.path@.no_duplicates()
    }

    /// The state before the walk: nothing placed, nothing under way.
    pub fn new(n: usize) -> (state: Self)
        ensures
            state.wf(n as int),
            state.placed() == Seq::<int>::empty(),
            state.path@ == Seq::<int>::empty(),
    {
        let mut visited: Vec<bool> = Vec::new();
        let mut visiting: Vec<bool> = Vec::new();
        let mut i: usize = 0;
        while i < n
            invariant
                i <= n,
                visited@.len() == i,
                visiting@.len() == i,
                forall|j: int| 0 <= j < i ==> !visited@[j] && !visiting@[j],
            decreases n - i,
        {
            visited.push(false);
            visiting.push(false);
            i = i + 1;
        }
        let state = SortState { visited, visiting, sorted: Vec::new(), path: Ghost(Seq::empty()) };
        assert(state.placed() =~= Seq::<int>::empty());
        state
    }
}

/// A path of distinct steps that leaves one step out is shorter than the
/// workflow.
pub proof fn lemma_path_is_short(path: Seq<int>, n: int, i: int)
    requires
        path.no_duplicates(),
        forall|t: int| 0 <= t < path.len() ==> 0 <= #[trigger] path[t] < n,
        0 <= i < n,
        !path.contains(i),
    ensures
        path.len() < n,
{
    let all = vstd::set_lib::set_int_range(0, n);
    vstd::set_lib::lemma_int_range(0, n);
    path.unique_seq_to_set();
    assert forall|x: int| path.to_set().contains(x) implies all.remove(i).contains(x) by {
        let t = choose|t: int| 0 <= t < path.len() && path[t] == x;
        assert(path.contains(x));
    }
    vstd::set_lib::lemma_len_subset(path.to_set(), all.remove(i));
}

impl WorkflowEngine {
    /// Finds the step that `id` stands for.
    pub fn find_step(&self, steps: &[WorkflowStep], id: &String) -> (found: Option<usize>)
        ensures
            match found {
                Some(i) => resolve(steps@, id@) == Some(i as int),
                None => resolve(steps@, id@) is None,
            },
    {
        let mut j: usize = 0;
        while j < steps.len()
            invariant
                j <= steps.len(),
                resolve(steps@, id@) == first_named(steps@, id@, j as int),
            decreases steps.len() - j,
        {
            if steps[j].id == *id {
                return Some(j);
            }
            j = j + 1;
        }
        None
    }

    /// Visits the step at position `step`: places its dependencies, then the
    /// step itself, unless it is placed already. Fails where the walk comes
    /// back to a step of its own path, or meets a name that no step bears.
    ///
    /// A step that is on the path already is a cycle, and a step that is
    /// placed already is done: in both cases the marks stay as they are.
    /// After a failure further down the marks are those of the abandoned
    /// walk.
    pub fn visit_step(&self, step: usize, all_steps: &[WorkflowStep], state: &mut SortState) -> (r:
        Result<(), WorkflowError>)
        requires
            step < all_steps.len(),
            old(state).wf(all_steps.len() as int),
        ensures
            match walk_step(all_steps@, old(state).placed(), old(state).path@, step as int) {
                Walk::Placed(order) => {
                    &&& r is Ok
                    &&& final(state).wf(all_steps.len() as int)
                    &&& final(state).placed() == order
                    &&& final(state).path@ == old(state).path@
                },
                Walk::Cycle(c) => {
                    &&& 0 <= c < all_steps.len()
                    &&& r matches Err(WorkflowError::CircularDependency(id))
                    &&& id@ == all_steps[c].id@
                },
                Walk::Unresolved(name) => {
                    &&& r matches Err(WorkflowError::DependencyNotFound(id))
                    &&& id@ == name
                },
            },
            old(state).path@.contains(step as int) || old(state).placed().contains(step as int)
                ==> *final(state) == *old(state),
        decreases all_steps.len() - old(state).path@.len(), 0nat, 0nat,
    {
        let ghost n = all_steps.len() as int;
        let ghost placed0 = state.placed();
        let ghost path0 = state.path@;
        if state.visiting[step] {
            return Err(WorkflowError::CircularDependency(all_steps[step].id.clone()));
        }
        if state.visited[step] {
            return Ok(());
        }
        proof {
            lemma_path_is_short(path0, n, step as int);
        }
        let ghost path1 = path0.push(step as int);
        state.visiting.set(step, true);
        proof {
            state.path = Ghost(path1);
            assert forall|i: int| 0 <= i < n implies state.visiting@[i] == path1.contains(i) by {
                if i == step as int {
                    assert(path1[path0.len() as int] == i);
                } else if path0.contains(i) {
                    let t = choose|t: int| 0 <= t < path0.len() && path0[t] == i;
                    assert(path1[t] == i);
                }
            }
            assert(state.placed() == placed0);
        }
        let ghost names = dependency_ids(all_steps@, step as int);
        let deps = &all_steps[step].depends_on;
        let mut k: usize = 0;
        while k < deps.len()
            invariant
                k <= deps.len(),
                step < all_steps.len(),
                n == all_steps.len(),
                *deps == all_steps[step as int].depends_on,
                names == dependency_ids(all_steps@, step as int),
                placed0 == old(state).placed(),
                path0 == old(state).path@,
                !path0.contains(step as int),
                !placed0.contains(step as int),
                path0.len() < n,
                path1 == path0.push(step as int),
                state.wf(n),
                state.path@ == path1,
                walk_names(all_steps@, placed0, path1, names, 0) == walk_names(
                    all_steps@,
                    state.placed(),
                    path1,
                    names,
                    k as int,
                ),
            ensures
                k == deps.len(),
                state.wf(n),
                state.path@ == path1,
                walk_names(all_steps@, placed0, path1, names, 0) == Walk::Placed(state.placed()),
            decreases deps.len() - k,
        {
            match self.find_step(all_steps, &deps[k]) {
                None => {
                    return Err(WorkflowError::DependencyNotFound(deps[k].clone()));
                },
                Some(j) => {
                    proof {
                        lemma_first_named(all_steps@, names[k as int], 0);
                    }
                    match self.visit_step(j, all_steps, state) {
                        Err(e) => {
                            return Err(e);
                        },
                        Ok(()) => {},
                    }
                },
            }
            k = k + 1;
        }
        state.visiting.set(step, false);
        state.visited.set(step, true);
        state.sorted.push(step);
        proof {
            let ghost below = walk_names(all_steps@, placed0, path1, names, 0)->Placed_0;
            state.path = Ghost(path0);
            assert(path1.drop_last() == path0);
            assert(state.placed() == below.push(step as int));
            assert forall|i: int| 0 <= i < n implies state.visiting@[i] == path0.contains(i) by {
                if i != step as int && path1.contains(i) {
                    let t = choose|t: int| 0 <= t < path1.len() && path1[t] == i;
                    assert(path0[t] == i);
                }
            }
            assert forall|i: int| 0 <= i < n implies state.visited@[i] == state.placed().contains(
                i,
            ) by {
                if i == step as int {
                    assert(state.placed()[below.len() as int] == i);
                } else if below.contains(i) {
                    let p = choose|p: int| 0 <= p < below.len() && below[p] == i;
                    assert(state.placed()[p] == i);
                }
            }
        }
        Ok(())
    }

    /// The positions of the steps in the order in which they run: each after
    /// the steps it depends on, directly or through others, and independent
    /// steps in the order of their declaration. Fails on a circular
    /// dependency and on a dependency that names no step.
    pub fn order_steps(&self, steps: &[WorkflowStep]) -> (r: Result<Vec<usize>, WorkflowError>)
        ensures
            match execution_order(steps@) {
                Walk::Placed(order) => {
                    &&& r matches Ok(sorted)
                    &&& positions(sorted@) == order
                    &&& forall|p: int| 0 <= p < sorted@.len() ==> sorted@[p] < steps.len()
                },
                Walk::Cycle(c) => {
                    &&& 0 <= c < steps.len()
                    &&& r matches Err(WorkflowError::CircularDependency(id))
                    &&& id@ == steps[c].id@
                },
                Walk::Unresolved(name) => {
                    &&& r matches Err(WorkflowError::DependencyNotFound(id))
                    &&& id@ == name
                },
            },
    {
        let n = steps.len();
        let mut state = SortState::new(n);
        let ghost names = step_ids(steps@);
        let ghost none = Seq::<int>::empty();
        let mut r: usize = 0;
        while r < n
            invariant
                r <= n,
                n == steps.len(),
                names == step_ids(steps@),
                none == Seq::<int>::empty(),
                state.wf(n as int),
                state.path@ == none,
                execution_order(steps@) == walk_names(
                    steps@,
                    state.placed(),
                    none,
                    names,
                    r as int,
                ),
            ensures
                r == n,
                state.wf(n as int),
                execution_order(steps@) == Walk::Placed(state.placed()),
            decreases n - r,
        {
            match self.find_step(steps, &steps[r].id) {
                None => {
                    return Err(WorkflowError::DependencyNotFound(steps[r].id.clone()));
                },
                Some(c) => {
                    proof {
                        lemma_first_named(steps@, names[r as int], 0);
                    }
                    match self.visit_step(c, steps, &mut state) {
                        Err(e) => {
                            return Err(e);
                        },
                        Ok(()) => {},
                    }
                },
            }
            r = r + 1;
        }
        Ok(state.sorted)
    }

    /// The steps in the order in which they run; see `order_steps`.
    pub fn sort_steps_by_dependencies<'a>(&self, steps: &'a [WorkflowStep]) -> (r: Result<
        Vec<&'a WorkflowStep>,
        WorkflowError,
    >)
        ensures
            match execution_order(steps@) {
                Walk::Placed(order) => {
                    &&& r matches Ok(sorted)
                    &&& sorted@.len() == order.len()
                    &&& forall|p: int|
                        0 <= p < order.len() ==> 0 <= order[p] < steps.len() && *sorted@[p]
                            == steps[order[p]]
                },
                Walk::Cycle(c) => {
                    &&& 0 <= c < steps.len()
                    &&& r matches Err(WorkflowError::CircularDependency(id))
                    &&& id@ == steps[c].id@
                },
                Walk::Unresolved(name) => {
                    &&& r matches Err(WorkflowError::DependencyNotFound(id))
                    &&& id@ == name
                },
            },
    {
        let order = match self.order_steps(steps) {
            Ok(order) => order,
            Err(e) => {
                return Err(e);
            },
        };
        let mut sorted: Vec<&'a WorkflowStep> = Vec::new();
        let mut p: usize = 0;
        while p < order.len()
            invariant
                p <= order@.len(),
                forall|q: int| 0 <= q < order@.len() ==> order@[q] < steps.len(),
                sorted@.len() == p,
                forall|q: int| 0 <= q < p ==> *sorted@[q] == steps[order@[q] as int],
            decreases order@.len() - p,
        {
            sorted.push(&steps[order[p]]);
            p = p + 1;
        }
        proof {
            let ghost spec_order = execution_order(steps@)->Placed_0;
            assert forall|q: int| 0 <= q < spec_order.len() implies 0 <= spec_order[q]
                < steps.len() && *sorted@[q] == steps[spec_order[q]] by {
                assert(positions(order@)[q] == order@[q] as int);
            }
        }
        Ok(sorted)
    }
}

} // verus!
