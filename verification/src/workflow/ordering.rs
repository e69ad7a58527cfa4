//! What the order of execution guarantees: every step after the steps it
//! depends on, and an error exactly where no such order exists.

use super::scheduler::{
    dependency_ids, execution_order, lemma_first_named, lemma_path_is_short, resolve, step_ids,
    walk_names, walk_step, Walk,
};
use super::WorkflowStep;
use vstd::prelude::*;

verus! {

/// The step that the `k`-th dependency of step `a` stands for.
pub open spec fn dependency(steps: Seq<WorkflowStep>, a: int, k: int) -> Option<int> {
    resolve(steps, dependency_ids(steps, a)[k])
}

/// Step `a` lists a name that stands for step `b`.
pub open spec fn depends_directly(steps: Seq<WorkflowStep>, a: int, b: int) -> bool {
    &&& 0 <= a < steps.len()
    &&& exists|k: int|
        0 <= k < dependency_ids(steps, a).len() && #[trigger] dependency(steps, a, k) == Some(b)
}

/// `chain` leads from step to step along direct dependencies.
pub open spec fn is_chain(steps: Seq<WorkflowStep>, chain: Seq<int>) -> bool {
    &&& chain.len() >= 1
    &&& forall|t: int|
        0 <= t < chain.len() - 1 ==> depends_directly(steps, #[trigger] chain[t], chain[t + 1])
}

/// Step `a` depends on step `b`, directly or through other steps.
pub open spec fn depends_on(steps: Seq<WorkflowStep>, a: int, b: int) -> bool {
    exists|chain: Seq<int>|
        #[trigger] is_chain(steps, chain) && chain.len() >= 2 && chain.first() == a && chain.last()
            == b
}

/// Step `c` depends on itself.
pub open spec fn on_cycle(steps: Seq<WorkflowStep>, c: int) -> bool {
    depends_on(steps, c, c)
}

/// Some step depends on itself.
pub open spec fn has_cycle(steps: Seq<WorkflowStep>) -> bool {
    exists|c: int| on_cycle(steps, c)
}

/// Step `a` lists `name`, and no step bears it.
pub open spec fn lists_unknown(steps: Seq<WorkflowStep>, a: int, name: Seq<char>) -> bool {
    &&& 0 <= a < steps.len()
    &&& dependency_ids(steps, a).contains(name)
    &&& resolve(steps, name) is None
}

/// Every name that a step lists stands for a step.
pub open spec fn all_names_resolve(steps: Seq<WorkflowStep>) -> bool {
    forall|a: int, name: Seq<char>| !lists_unknown(steps, a, name)
}

/// Step `i` is the one that its own name stands for: the first of that name.
pub open spec fn bears_its_name(steps: Seq<WorkflowStep>, i: int) -> bool {
    0 <= i < steps.len() && resolve(steps, steps[i].id@) == Some(i)
}

/// No two steps have the same name.
pub open spec fn names_are_distinct(steps: Seq<WorkflowStep>) -> bool {
    forall|i: int, j: int| 0 <= i < j < steps.len() ==> steps[i].id@ != steps[j].id@
}

/// The `k`-th dependency of the step at `order[p]` stands for a step that
/// comes before position `p`.
pub open spec fn comes_before(steps: Seq<WorkflowStep>, order: Seq<int>, p: int, k: int) -> bool {
    dependency(steps, order[p], k) matches Some(b) && exists|q: int|
        0 <= q < p && #[trigger] order[q] == b
}

/// `order` holds each step once, and each step after all that it lists.
pub open spec fn is_dependency_order(steps: Seq<WorkflowStep>, order: Seq<int>) -> bool {
    &&& order.no_duplicates()
    &&& forall|p: int| 0 <= p < order.len() ==> bears_its_name(steps, #[trigger] order[p])
    &&& forall|p: int, k: int|
        0 <= p < order.len() && 0 <= k < dependency_ids(steps, order[p]).len()
            ==> #[trigger] comes_before(steps, order, p, k)
}

/// What holds between two visits: `placed` is in dependency order, and `path`
/// is a chain of steps not yet placed.
spec fn walk_inv(steps: Seq<WorkflowStep>, placed: Seq<int>, path: Seq<int>) -> bool {
    &&& is_dependency_order(steps, placed)
    &&& path.no_duplicates()
    &&& forall|t: int|
        0 <= t < path.len() ==> bears_its_name(steps, #[trigger] path[t]) && !placed.contains(
            path[t],
        )
    &&& forall|t: int|
        0 <= t < path.len() - 1 ==> depends_directly(steps, #[trigger] path[t], path[t + 1])
}

/// What a walk that started from `placed` and `path` ends in.
spec fn walk_ok(steps: Seq<WorkflowStep>, placed: Seq<int>, path: Seq<int>, end: Walk) -> bool {
    match end {
        Walk::Placed(order) => {
            &&& walk_inv(steps, order, path)
            &&& forall|x: int| placed.contains(x) ==> order.contains(x)
        },
        Walk::Cycle(c) => on_cycle(steps, c),
        Walk::Unresolved(name) => exists|a: int| #[trigger] lists_unknown(steps, a, name),
    }
}

proof fn lemma_unresolved_ok(
    steps: Seq<WorkflowStep>,
    placed: Seq<int>,
    path: Seq<int>,
    a: int,
    name: Seq<char>,
)
    requires
        lists_unknown(steps, a, name),
    ensures
        walk_ok(steps, placed, path, Walk::Unresolved(name)),
{
    let end = Walk::Unresolved(name);
    assert(end->Unresolved_0 == name);
}

proof fn lemma_resolved_bears_its_name(steps: Seq<WorkflowStep>, name: Seq<char>)
    ensures
        resolve(steps, name) matches Some(j) ==> bears_its_name(steps, j) && steps[j].id@ == name,
{
    lemma_first_named(steps, name, 0);
    if let Some(j) = resolve(steps, name) {
        lemma_first_named(steps, steps[j].id@, 0);
    }
}

/// Coming back to a step of the path closes a cycle through that step.
proof fn lemma_path_closes(steps: Seq<WorkflowStep>, path: Seq<int>, i: int)
    requires
        forall|t: int|
            0 <= t < path.len() - 1 ==> depends_directly(steps, #[trigger] path[t], path[t + 1]),
        path.contains(i),
        depends_directly(steps, path.last(), i),
    ensures
        on_cycle(steps, i),
{
    let t0 = choose|t: int| 0 <= t < path.len() && path[t] == i;
    let chain = path.subrange(t0, path.len() as int).push(i);
    assert forall|t: int| 0 <= t < chain.len() - 1 implies depends_directly(
        steps,
        #[trigger] chain[t],
        chain[t + 1],
    ) by {
        assert(chain[t] == path[t0 + t]);
        if t + 1 < chain.len() - 1 {
            assert(chain[t + 1] == path[t0 + t + 1]);
        } else {
            assert(chain[t + 1] == i);
            assert(path[t0 + t] == path.last());
        }
    }
    assert(is_chain(steps, chain));
    assert(chain.first() == i && chain.last() == i);
}

/// Placing a step whose dependencies are all placed keeps the order.
proof fn lemma_place(steps: Seq<WorkflowStep>, below: Seq<int>, path: Seq<int>, i: int)
    requires
        walk_inv(steps, below, path.push(i)),
        forall|k: int|
            0 <= k < dependency_ids(steps, i).len() ==> (#[trigger] dependency(steps, i, k)
                matches Some(j) && below.contains(j)),
    ensures
        walk_inv(steps, below.push(i), path),
{
    let order = below.push(i);
    let longer = path.push(i);
    assert(longer[path.len() as int] == i);
    assert(!below.contains(i));
    assert(bears_its_name(steps, i));
    assert forall|p: int, q: int| 0 <= p < q < order.len() implies order[p] != order[q] by {
        if q == below.len() {
            assert(below.contains(order[p]));
        }
    }
    assert forall|p: int, k: int|
        0 <= p < order.len() && 0 <= k < dependency_ids(steps, order[p]).len() implies #[trigger] comes_before(
        steps,
        order,
        p,
        k,
    ) by {
        if p < below.len() {
            assert(comes_before(steps, below, p, k));
            let b = dependency(steps, below[p], k)->Some_0;
            let q = choose|q: int| 0 <= q < p && #[trigger] below[q] == b;
            assert(order[q] == b);
        } else {
            let j = dependency(steps, i, k)->Some_0;
            let q = choose|q: int| 0 <= q < below.len() && below[q] == j;
            assert(order[q] == j);
        }
    }
    assert forall|t: int| 0 <= t < path.len() implies bears_its_name(steps, #[trigger] path[t])
        && !order.contains(path[t]) by {
        assert(longer[t] == path[t]);
        if order.contains(path[t]) {
            let q = choose|q: int| 0 <= q < order.len() && order[q] == path[t];
            if q < below.len() {
                assert(below.contains(path[t]));
            }
        }
    }
    assert forall|t: int| 0 <= t < path.len() - 1 implies depends_directly(
        steps,
        #[trigger] path[t],
        path[t + 1],
    ) by {
        assert(longer[t] == path[t] && longer[t + 1] == path[t + 1]);
    }
    assert forall|s: int, t: int| 0 <= s < t < path.len() implies path[s] != path[t] by {
        assert(longer[s] == path[s] && longer[t] == path[t]);
    }
}

proof fn lemma_walk_step(steps: Seq<WorkflowStep>, placed: Seq<int>, path: Seq<int>, i: int)
    requires
        walk_inv(steps, placed, path),
        bears_its_name(steps, i),
        path.len() > 0 ==> depends_directly(steps, path.last(), i),
    ensures
        walk_ok(steps, placed, path, walk_step(steps, placed, path, i)),
        walk_step(steps, placed, path, i) matches Walk::Placed(order) ==> order.contains(i),
    decreases steps.len() - path.len(), 0nat, 0nat,
{
    if path.contains(i) {
        lemma_path_closes(steps, path, i);
    } else if placed.contains(i) {
    } else {
        lemma_path_is_short(path, steps.len() as int, i);
        let longer = path.push(i);
        let names = dependency_ids(steps, i);
        assert forall|s: int, t: int| 0 <= s < t < longer.len() implies longer[s] != longer[t] by {
            if t == path.len() {
                assert(path.contains(longer[s]));
            }
        }
        assert forall|t: int| 0 <= t < longer.len() - 1 implies depends_directly(
            steps,
            #[trigger] longer[t],
            longer[t + 1],
        ) by {
            if t + 1 == path.len() {
                assert(longer[t] == path.last());
            }
        }
        assert(walk_inv(steps, placed, longer));
        assert forall|k: int| 0 <= k < names.len() && resolve(steps, names[k]) is None implies exists|
            a: int,
        |
            lists_unknown(steps, a, names[k]) by {
            assert(lists_unknown(steps, i, names[k]));
        }
        lemma_walk_names(steps, placed, longer, names, 0);
        match walk_names(steps, placed, longer, names, 0) {
            Walk::Placed(below) => {
                assert forall|k: int| 0 <= k < names.len() implies (#[trigger] dependency(
                    steps,
                    i,
                    k,
                ) matches Some(j) && below.contains(j)) by {
                    assert(resolve(steps, names[k]) is Some);
                }
                lemma_place(steps, below, path, i);
                let order = below.push(i);
                assert(order[below.len() as int] == i);
                assert forall|x: int| placed.contains(x) implies order.contains(x) by {
                    let q = choose|q: int| 0 <= q < below.len() && below[q] == x;
                    assert(order[q] == x);
                }
            },
            _ => {},
        }
    }
}

proof fn lemma_walk_names(
    steps: Seq<WorkflowStep>,
    placed: Seq<int>,
    path: Seq<int>,
    names: Seq<Seq<char>>,
    k: int,
)
    requires
        walk_inv(steps, placed, path),
        0 <= k <= names.len(),
        path.len() > 0 ==> names == dependency_ids(steps, path.last()),
        forall|m: int|
            0 <= m < names.len() && resolve(steps, #[trigger] names[m]) is None ==> exists|a: int|
                #[trigger] lists_unknown(steps, a, names[m]),
    ensures
        walk_ok(steps, placed, path, walk_names(steps, placed, path, names, k)),
        walk_names(steps, placed, path, names, k) matches Walk::Placed(order) ==> forall|m: int|
            k <= m < names.len() ==> (resolve(steps, #[trigger] names[m]) matches Some(j)
                && order.contains(j)),
    decreases steps.len() - path.len(), 1nat, names.len() - k,
{
    if k < names.len() {
        match resolve(steps, names[k]) {
            None => {
                let a = choose|a: int| lists_unknown(steps, a, names[k]);
                lemma_unresolved_ok(steps, placed, path, a, names[k]);
            },
            Some(j) => {
                lemma_resolved_bears_its_name(steps, names[k]);
                if path.len() > 0 {
                    assert(dependency(steps, path.last(), k) == Some(j));
                }
                lemma_walk_step(steps, placed, path, j);
                match walk_step(steps, placed, path, j) {
                    Walk::Placed(next) => {
                        lemma_walk_names(steps, next, path, names, k + 1);
                    },
                    _ => {},
                }
            },
        }
    }
}

/// The walk over a whole workflow ends in one of three ways, and each says
/// what it seems to say: an order is a dependency order that holds every
/// step that bears its name; a reported cycle is a cycle through the step
/// reported; a name reported as unknown is listed by a step and borne by
/// none.
pub proof fn lemma_execution_order(steps: Seq<WorkflowStep>)
    ensures
        match execution_order(steps) {
            Walk::Placed(order) => {
                &&& is_dependency_order(steps, order)
                &&& forall|i: int| bears_its_name(steps, i) ==> order.contains(i)
            },
            Walk::Cycle(c) => on_cycle(steps, c),
            Walk::Unresolved(name) => exists|a: int| #[trigger] lists_unknown(steps, a, name),
        },
{
    let names = step_ids(steps);
    let none = Seq::<int>::empty();
    assert forall|m: int| 0 <= m < names.len() implies resolve(steps, #[trigger] names[m])
        is Some by {
        lemma_first_named(steps, names[m], 0);
    }
    lemma_walk_names(steps, none, none, names, 0);
    if let Walk::Placed(order) = execution_order(steps) {
        assert forall|i: int| bears_its_name(steps, i) implies order.contains(i) by {
            assert(resolve(steps, names[i]) == Some(i));
        }
    }
}

/// In a dependency order, a chain that starts at position `p` ends at or
/// before `p`; before it, if the chain has a dependency in it.
proof fn lemma_chain_leads_back(
    steps: Seq<WorkflowStep>,
    order: Seq<int>,
    chain: Seq<int>,
    p: int,
) -> (q: int)
    requires
        is_dependency_order(steps, order),
        is_chain(steps, chain),
        0 <= p < order.len(),
        order[p] == chain.first(),
    ensures
        0 <= q <= p,
        order[q] == chain.last(),
        chain.len() >= 2 ==> q < p,
    decreases chain.len(),
{
    if chain.len() == 1 {
        p
    } else {
        assert(depends_directly(steps, chain[0], chain[1]));
        let k = choose|k: int|
            0 <= k < dependency_ids(steps, chain[0]).len() && #[trigger] dependency(
                steps,
                chain[0],
                k,
            ) == Some(chain[1]);
        assert(comes_before(steps, order, p, k));
        let earlier = choose|q: int| 0 <= q < p && #[trigger] order[q] == chain[1];
        let rest = chain.drop_first();
        assert forall|t: int| 0 <= t < rest.len() - 1 implies depends_directly(
            steps,
            #[trigger] rest[t],
            rest[t + 1],
        ) by {
            assert(rest[t] == chain[t + 1] && rest[t + 1] == chain[t + 2]);
        }
        assert(rest.last() == chain.last());
        lemma_chain_leads_back(steps, order, rest, earlier)
    }
}

/// Where the steps can be ordered, every step of the order comes after all
/// the steps it depends on, directly or through others, and no step occurs
/// twice.
pub proof fn lemma_order_respects_dependencies(steps: Seq<WorkflowStep>, p: int, b: int)
    requires
        execution_order(steps) matches Walk::Placed(order) && 0 <= p < order.len() && depends_on(
            steps,
            order[p],
            b,
        ),
    ensures
        execution_order(steps) matches Walk::Placed(order) && order.no_duplicates() && exists|
            q: int,
        |
            0 <= q < p && order[q] == b,
{
    lemma_execution_order(steps);
    let order = execution_order(steps)->Placed_0;
    let chain = choose|chain: Seq<int>|
        #[trigger] is_chain(steps, chain) && chain.len() >= 2 && chain.first() == order[p]
            && chain.last() == b;
    let q = lemma_chain_leads_back(steps, order, chain, p);
    assert(order[q] == b);
}

/// Where the names are distinct and the steps can be ordered, the order
/// holds every step of the workflow exactly once.
pub proof fn lemma_order_holds_every_step(steps: Seq<WorkflowStep>)
    requires
        names_are_distinct(steps),
        execution_order(steps) is Placed,
    ensures
        execution_order(steps) matches Walk::Placed(order) && order.no_duplicates()
            && order.len() == steps.len() && forall|i: int|
            0 <= i < steps.len() <==> order.contains(i),
{
    lemma_execution_order(steps);
    let order = execution_order(steps)->Placed_0;
    let all = vstd::set_lib::set_int_range(0, steps.len() as int);
    assert forall|i: int| 0 <= i < steps.len() implies order.contains(i) by {
        lemma_first_named(steps, steps[i].id@, 0);
    }
    assert forall|i: int| order.contains(i) implies 0 <= i < steps.len() by {
        let q = choose|q: int| 0 <= q < order.len() && order[q] == i;
        assert(bears_its_name(steps, order[q]));
    }
    vstd::set_lib::lemma_int_range(0, steps.len() as int);
    order.unique_seq_to_set();
    assert(order.to_set() =~= all);
}

/// A workflow with a cycle among its steps has no order. Where all its names
/// resolve, the error names a step on a cycle.
pub proof fn lemma_cycle_is_reported(steps: Seq<WorkflowStep>)
    requires
        has_cycle(steps),
    ensures
        !(execution_order(steps) is Placed),
        all_names_resolve(steps) ==> (execution_order(steps) matches Walk::Cycle(c) && on_cycle(
            steps,
            c,
        )),
{
    lemma_execution_order(steps);
    if let Walk::Placed(order) = execution_order(steps) {
        let c = choose|c: int| on_cycle(steps, c);
        let chain = choose|chain: Seq<int>|
            #[trigger] is_chain(steps, chain) && chain.len() >= 2 && chain.first() == c
                && chain.last() == c;
        // `c` is the target of a dependency, so it bears its name and is placed
        let a = chain[chain.len() - 2];
        assert(depends_directly(steps, a, chain[chain.len() - 2 + 1]));
        let k = choose|k: int|
            0 <= k < dependency_ids(steps, a).len() && #[trigger] dependency(steps, a, k) == Some(
                c,
            );
        lemma_resolved_bears_its_name(steps, dependency_ids(steps, a)[k]);
        let p = choose|p: int| 0 <= p < order.len() && order[p] == c;
        let q = lemma_chain_leads_back(steps, order, chain, p);
        assert(order[q] == order[p] && q < p);
    }
}

/// A workflow whose names all resolve and whose steps form no cycle has an
/// order.
pub proof fn lemma_acyclic_is_ordered(steps: Seq<WorkflowStep>)
    requires
        all_names_resolve(steps),
        !has_cycle(steps),
    ensures
        execution_order(steps) is Placed,
{
    lemma_execution_order(steps);
}

} // verus!
