//! Every traversal comes to an end, import cycles or not.

use crate::order::{
    agrees, awaited, guarded, lemma_discovered_is_reached, lemma_seed, lemma_step, seeding, sound,
    waiting,
};
use crate::paths::relative_path;
use crate::project::Project;
use crate::reach::lemma_count_is_reachable;
use crate::syntax::{parsed_module, source_kind_of_path};
use crate::traversal::{
    drain, enqueue, initial_state, is_skipped, module_file, scan, seed, step, GraphState, Phase,
    RequestView, StepView,
};
use vstd::prelude::*;

verus! {

/// The work that a module on the work list stands for: one step to take
/// it from the list and, where it is read, two for each of its imports and
/// one more for the reading.
spec fn weight(project: Project, module: Seq<char>) -> nat {
    if project.is_counted(module) {
        2 * project.imports_of(module).len() + 2
    } else {
        1
    }
}

/// The work that a work list stands for.
spec fn load(project: Project, worklist: Seq<Seq<char>>) -> nat
    decreases worklist.len(),
{
    if worklist.len() == 0 {
        0
    } else {
        load(project, worklist.drop_last()) + weight(project, worklist.last())
    }
}

/// Import `t` of `module` leads to nothing that is still to be counted.
spec fn import_done(project: Project, visited: Set<Seq<char>>, module: Seq<char>, t: int) -> bool {
    match project.dependency(module, t) {
        Some(target) => project.is_counted(target) ==> visited.contains(target),
        None => true,
    }
}

/// No import of `module` leads to anything that is still to be counted.
spec fn is_done(project: Project, visited: Set<Seq<char>>, module: Seq<char>) -> bool {
    forall|t: int|
        0 <= t < project.imports_of(module).len() ==> #[trigger] import_done(
            project,
            visited,
            module,
            t,
        )
}

/// The entry points that are still to be resolved, the awaited one included.
spec fn left_to_seed(state: GraphState) -> nat {
    match state.phase {
        Phase::Seeding => state.entry_points.len() + 1,
        _ => 0,
    }
}

/// The number of reachable modules that are still to be counted.
spec fn left_to_count(project: Project, state: GraphState) -> nat {
    project.reachable().difference(state.visited).len()
}

/// Whether the imports of a module are looked at that lead to modules still
/// to be counted.
spec fn is_opening(project: Project, state: GraphState) -> bool {
    state.phase == Phase::Resolving && !is_done(project, state.visited, state.module)
}

/// One where imports are looked at that lead to modules still to be counted.
spec fn opening(project: Project, state: GraphState) -> nat {
    if is_opening(project, state) {
        1
    } else {
        0
    }
}

/// The steps that are left until the next module is counted for the first
/// time, at most.
spec fn left_to_do(project: Project, state: GraphState) -> nat {
    match state.phase {
        Phase::Seeding => 0,
        Phase::Reading => load(project, state.worklist) + 2 * project.imports_of(
            state.module,
        ).len() + 1,
        Phase::Resolving => if is_opening(project, state) {
            2 * state.imports.len() + 1
        } else {
            load(project, state.worklist) + 2 * state.imports.len() + 1
        },
    }
}

/// Whether `next` is closer to the end of the traversal than `state`.
spec fn is_closer(project: Project, next: GraphState, state: GraphState) -> bool {
    ||| left_to_seed(next) < left_to_seed(state)
    ||| {
        &&& left_to_seed(next) == left_to_seed(state)
        &&& left_to_count(project, next) < left_to_count(project, state)
    }
    ||| {
        &&& left_to_seed(next) == left_to_seed(state)
        &&& left_to_count(project, next) == left_to_count(project, state)
        &&& opening(project, next) < opening(project, state)
    }
    ||| {
        &&& left_to_seed(next) == left_to_seed(state)
        &&& left_to_count(project, next) == left_to_count(project, state)
        &&& opening(project, next) == opening(project, state)
        &&& left_to_do(project, next) < left_to_do(project, state)
    }
}

/// What draining leads to: a module of the work list is read, nothing new
/// is counted, and the work list has lost at least that module.
spec fn drained_to(project: Project, state: GraphState, next: GraphState) -> bool {
    &&& next.phase == Phase::Reading
    &&& next.visited == state.visited
    &&& project.is_counted(next.module)
    &&& load(project, next.worklist) + weight(project, next.module) <= load(
        project,
        state.worklist,
    )
}

/// Draining leads to what is said above.
proof fn lemma_drain_shape(project: Project, state: GraphState)
    requires
        agrees(project, state),
    ensures
        drain(state) matches StepView::Ask { state: next, .. } ==> drained_to(project, state, next),
    decreases state.worklist.len(),
{
    if state.worklist.len() > 0 {
        let rest = GraphState { worklist: state.worklist.drop_last(), ..state };
        lemma_drain_shape(project, rest);
    }
}

/// What looking at imports leads to: either an import of the same module is
/// resolved, with fewer imports left and the work list as it was, or the
/// work list is drained.
spec fn scanned_to(project: Project, state: GraphState, next: GraphState) -> bool {
    match next.phase {
        Phase::Seeding => false,
        Phase::Reading => drained_to(project, state, next),
        Phase::Resolving => {
            &&& next.visited == state.visited
            &&& next.module == state.module
            &&& next.worklist == state.worklist
            &&& next.imports.len() < state.imports.len()
        },
    }
}

/// Looking at imports leads to what is said above.
proof fn lemma_scan_shape(project: Project, state: GraphState)
    requires
        agrees(project, state),
    ensures
        scan(state) matches StepView::Ask { state: next, .. } ==> scanned_to(project, state, next),
    decreases state.imports.len(),
{
    if state.imports.len() == 0 {
        lemma_drain_shape(project, state);
    } else {
        let rest = GraphState { imports: state.imports.drop_first(), ..state };
        if is_skipped(state, state.imports[0]) {
            lemma_scan_shape(project, rest);
        }
    }
}

/// Every answer brings the traversal closer to its end.
proof fn lemma_step_closer(project: Project, state: GraphState, request: RequestView)
    requires
        project.reachable().finite(),
        waiting(project, state),
        request == awaited(project, state),
    ensures
        step(state, project.answer(request)) matches StepView::Ask { state: next, .. }
            ==> is_closer(project, next, state),
{
    match project.answer(request) {
        Err(message) => {},
        Ok(content) => match state.phase {
            Phase::Seeding => {
                match relative_path(content, state.base_path) {
                    None => {},
                    Some(module) => {
                        let after = GraphState { worklist: state.worklist.push(module), ..state };
                        if after.entry_points.len() == 0 {
                            lemma_drain_shape(project, after);
                        }
                    },
                }
            },
            Phase::Reading => {
                let rewound = GraphState {
                    worklist: state.worklist.push(state.module),
                    ..state
                };
                let top = state.worklist.len() as int;
                assert(rewound.worklist[top] == state.module);
                match source_kind_of_path(module_file(state, state.module)) {
                    None => {},
                    Some(kind) => match parsed_module(content, kind) {
                        None => {},
                        Some(parsed) => {
                            let after = GraphState {
                                visited: state.visited.insert(state.module),
                                imports: parsed.imports,
                                ..state
                            };
                            assert(project.imports_of(state.module) == parsed.imports);
                            lemma_scan_shape(project, after);
                            if state.visited.contains(state.module) {
                                assert(after.visited == state.visited);
                                assert(is_done(project, state.visited, state.module)) by {
                                    assert forall|t: int|
                                        0 <= t < project.imports_of(
                                            state.module,
                                        ).len() implies #[trigger] import_done(
                                        project,
                                        state.visited,
                                        state.module,
                                        t,
                                    ) by {
                                        assert(guarded(
                                            project,
                                            rewound.visited,
                                            rewound.worklist,
                                            top,
                                            t,
                                        ));
                                    }
                                }
                            } else {
                                assert(sound(project, rewound));
                                lemma_discovered_is_reached(project, state.module);
                                project.reachable().lemma_set_insert_diff_decreases(
                                    state.visited,
                                    state.module,
                                );
                            }
                        },
                    },
                }
            },
            Phase::Resolving => {
                let unscanned = GraphState {
                    imports: seq![Some(state.pending)] + state.imports,
                    ..state
                };
                let found = project.imports_of(state.module);
                let n = found.len() - unscanned.imports.len();
                assert(unscanned.imports[0] == Some(state.pending));
                assert(found[n] == Some(state.pending));
                match relative_path(content, state.base_path) {
                    None => {},
                    Some(module) => {
                        let after = GraphState { worklist: enqueue(state, module), ..state };
                        assert(project.dependency(state.module, n) == Some(module));
                        lemma_scan_shape(project, after);
                        if is_done(project, state.visited, state.module) {
                            assert(import_done(project, state.visited, state.module, n));
                            if !state.visited.contains(module) {
                                assert(after.worklist.drop_last() == state.worklist);
                                assert(load(project, after.worklist) == load(
                                    project,
                                    state.worklist,
                                ) + 1);
                            }
                        }
                    },
                }
            },
        },
    }
}

/// What the machine does from a state on comes to an end.
proof fn lemma_ends(project: Project, state: GraphState, request: RequestView)
    requires
        project.reachable().finite(),
        waiting(project, state),
        request == awaited(project, state),
    ensures
        exists|fuel: nat| !(project.run(StepView::Ask { state, request }, fuel) is Ask),
    decreases
            left_to_seed(state),
            left_to_count(project, state),
            opening(project, state),
            left_to_do(project, state),
{
    let current = StepView::Ask { state, request };
    let next = step(state, project.answer(request));
    lemma_step(project, state, request);
    lemma_step_closer(project, state, request);
    match next {
        StepView::Ask { state: after, request: asked } => {
            lemma_ends(project, after, asked);
            let fuel = choose|fuel: nat| !(project.run(next, fuel) is Ask);
            assert(project.run(current, fuel + 1) == project.run(next, fuel));
        },
        _ => {
            assert(project.run(next, 0) == next);
            assert(project.run(current, 1) == next);
        },
    }
}

/// The traversal of a project with finitely many reachable modules comes to
/// an end, however its modules import each other: after finitely many
/// answers it is complete or given up.
pub proof fn lemma_traversal_ends(project: Project)
    requires
        project.reachable().finite(),
    ensures
        exists|fuel: nat| !(project.outcome(fuel) is Ask),
{
    let start = initial_state(
        project.entry_points,
        project.base_path,
        project.ignored_extensions,
        project.builtin_modules,
    );
    assert(start.entry_points == project.entry_points.skip(0));
    assert(seeding(project, start));
    lemma_seed(project, start);
    match seed(start) {
        StepView::Ask { state, request } => {
            lemma_ends(project, state, request);
            let fuel = choose|fuel: nat|
                !(project.run(StepView::Ask { state, request }, fuel) is Ask);
            assert(project.outcome(fuel) == project.run(seed(start), fuel));
        },
        _ => {
            assert(project.outcome(0) == seed(start));
        },
    }
}

/// The traversal of a project with finitely many reachable modules ends
/// either given up or with the number of reachable modules as its count.
pub proof fn lemma_traversal_counts_or_fails(project: Project)
    requires
        project.reachable().finite(),
    ensures
        exists|fuel: nat|
            project.outcome(fuel) is Failed || project.outcome(fuel) == (StepView::Done {
                count: project.reachable().len(),
            }),
{
    lemma_traversal_ends(project);
    let fuel = choose|fuel: nat| !(project.outcome(fuel) is Ask);
    match project.outcome(fuel) {
        StepView::Done { count } => {
            lemma_count_is_reachable(project, fuel, count);
        },
        _ => {},
    }
}

} // verus!
