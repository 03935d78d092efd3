//! What holds of every state of a traversal that answers come to from the
//! project being traversed.

use crate::paths::{parent_directory, path_extension, relative_path};
use crate::project::Project;
use crate::specifier::builtin_name;
use crate::syntax::{parsed_module, source_kind_of_path};
use crate::traversal::{
    drain, enqueue, is_skipped, module_file, scan, seed, step, GraphState, Phase, RequestView,
    StepView,
};
use vstd::prelude::*;

verus! {

/// The state holds what the project prescribes.
pub(crate) open spec fn agrees(project: Project, state: GraphState) -> bool {
    &&& state.base_path == project.base_path
    &&& state.ignored_extensions == project.ignored_extensions
    &&& state.builtin_modules == project.builtin_modules
}

/// The module has been counted or awaits processing.
pub(crate) open spec fn known(
    visited: Set<Seq<char>>,
    worklist: Seq<Seq<char>>,
    module: Seq<char>,
) -> bool {
    visited.contains(module) || worklist.contains(module)
}

/// The module is an entry point or a dependency of a module that is reached.
pub(crate) open spec fn discovered(project: Project, module: Seq<char>) -> bool {
    project.is_entry(module) || exists|importer: Seq<char>|
        project.reaches(importer) && project.depends_on(importer, module)
}

/// Entry point `k` has been taken care of.
pub(crate) open spec fn entry_settled(
    project: Project,
    visited: Set<Seq<char>>,
    worklist: Seq<Seq<char>>,
    k: int,
) -> bool {
    match project.entry_module(k) {
        Some(module) => project.is_counted(module) ==> known(visited, worklist, module),
        None => true,
    }
}

/// Import `i` of `importer` has been taken care of.
pub(crate) open spec fn import_settled(
    project: Project,
    visited: Set<Seq<char>>,
    worklist: Seq<Seq<char>>,
    importer: Seq<char>,
    i: int,
) -> bool {
    match project.dependency(importer, i) {
        Some(module) => project.is_counted(module) ==> known(visited, worklist, module),
        None => true,
    }
}

/// The first `n` imports of `importer` have been taken care of.
pub(crate) open spec fn explored(
    project: Project,
    visited: Set<Seq<char>>,
    worklist: Seq<Seq<char>>,
    importer: Seq<char>,
    n: int,
) -> bool {
    forall|i: int| 0 <= i < n ==> #[trigger] import_settled(project, visited, worklist, importer, i)
}

/// The module, if it is one that is counted, has been counted or lies above
/// position `i` of the work list.
pub(crate) open spec fn covered(
    project: Project,
    visited: Set<Seq<char>>,
    worklist: Seq<Seq<char>>,
    i: int,
    module: Seq<char>,
) -> bool {
    project.is_counted(module) ==> visited.contains(module) || exists|j: int|
        i < j < worklist.len() && worklist[j] == module
}

/// What import `t` of the module at position `i` of the work list leads to
/// has been counted or lies above that position.
pub(crate) open spec fn guarded(
    project: Project,
    visited: Set<Seq<char>>,
    worklist: Seq<Seq<char>>,
    i: int,
    t: int,
) -> bool {
    match project.dependency(worklist[i], t) {
        Some(module) => covered(project, visited, worklist, i, module),
        None => true,
    }
}

/// The work list is layered: below a counted module there is none whose
/// dependencies are still to be counted, but for the imports of `current`
/// from `n` on.
pub(crate) open spec fn layered(
    project: Project,
    visited: Set<Seq<char>>,
    worklist: Seq<Seq<char>>,
    current: Seq<char>,
    n: int,
) -> bool {
    forall|i: int, t: int|
        0 <= i < worklist.len() && visited.contains(worklist[i]) && 0 <= t
            < project.imports_of(worklist[i]).len() && (worklist[i] != current || t < n)
            ==> #[trigger] guarded(project, visited, worklist, i, t)
}

/// The work list is layered throughout.
pub(crate) open spec fn stacked(
    project: Project,
    visited: Set<Seq<char>>,
    worklist: Seq<Seq<char>>,
) -> bool {
    forall|i: int, t: int|
        0 <= i < worklist.len() && visited.contains(worklist[i]) && 0 <= t
            < project.imports_of(worklist[i]).len() ==> #[trigger] guarded(
            project,
            visited,
            worklist,
            i,
            t,
        )
}

/// Nothing has been counted or queued that the entry points do not lead to.
pub(crate) open spec fn sound(project: Project, state: GraphState) -> bool {
    &&& agrees(project, state)
    &&& state.visited.finite()
    &&& forall|module: Seq<char>| state.visited.contains(module) ==> project.reaches(module)
    &&& forall|j: int|
        0 <= j < state.worklist.len() ==> discovered(project, #[trigger] state.worklist[j])
}

/// What holds while entry points are resolved: nothing is counted yet, and
/// the entry points before the remaining ones are taken care of.
pub(crate) open spec fn seeding(project: Project, state: GraphState) -> bool {
    let n = project.entry_points.len() - state.entry_points.len();
    &&& sound(project, state)
    &&& state.visited == Set::<Seq<char>>::empty()
    &&& 0 <= n
    &&& state.entry_points == project.entry_points.skip(n)
    &&& forall|k: int|
        0 <= k < n ==> #[trigger] entry_settled(project, state.visited, state.worklist, k)
}

/// All entry points are taken care of.
pub(crate) open spec fn seeded(project: Project, state: GraphState) -> bool {
    forall|k: int|
        0 <= k < project.entry_points.len() ==> #[trigger] entry_settled(
            project,
            state.visited,
            state.worklist,
            k,
        )
}

/// What holds while the work list is drained: every import of every counted
/// module is taken care of.
pub(crate) open spec fn draining(project: Project, state: GraphState) -> bool {
    &&& sound(project, state)
    &&& seeded(project, state)
    &&& stacked(project, state.visited, state.worklist)
    &&& forall|module: Seq<char>|
        state.visited.contains(module) ==> explored(
            project,
            state.visited,
            state.worklist,
            module,
            project.imports_of(module).len() as int,
        )
}

/// What holds while the imports of the current module are looked at: the
/// imports before the remaining ones are taken care of, and so is every
/// import of every other counted module.
pub(crate) open spec fn scanning(project: Project, state: GraphState) -> bool {
    let n = project.imports_of(state.module).len() - state.imports.len();
    &&& sound(project, state)
    &&& seeded(project, state)
    &&& state.visited.contains(state.module)
    &&& 0 <= n
    &&& state.imports == project.imports_of(state.module).skip(n)
    &&& layered(project, state.visited, state.worklist, state.module, n)
    &&& explored(project, state.visited, state.worklist, state.module, n)
    &&& forall|module: Seq<char>|
        state.visited.contains(module) && module != state.module ==> explored(
            project,
            state.visited,
            state.worklist,
            module,
            project.imports_of(module).len() as int,
        )
}

/// The request whose answer the state awaits.
pub(crate) open spec fn awaited(project: Project, state: GraphState) -> RequestView {
    match state.phase {
        Phase::Seeding => RequestView::Resolve {
            directory: state.base_path,
            specifier: state.pending,
        },
        Phase::Reading => RequestView::Read { path: project.file(state.module) },
        Phase::Resolving => RequestView::Resolve {
            directory: parent_directory(project.file(state.module)).unwrap(),
            specifier: state.pending,
        },
    }
}

/// What holds of a state that awaits an answer: with the awaited item put
/// back in front of the others, the state is as it was before asking.
pub(crate) open spec fn waiting(project: Project, state: GraphState) -> bool {
    match state.phase {
        Phase::Seeding => seeding(
            project,
            GraphState { entry_points: seq![state.pending] + state.entry_points, ..state },
        ),
        Phase::Reading => {
            &&& draining(
                project,
                GraphState { worklist: state.worklist.push(state.module), ..state },
            )
            &&& project.is_counted(state.module)
        },
        Phase::Resolving => {
            &&& scanning(
                project,
                GraphState { imports: seq![Some(state.pending)] + state.imports, ..state },
            )
            &&& !project.builtin_modules.contains(builtin_name(state.pending))
            &&& parent_directory(project.file(state.module)) is Some
        },
    }
}

/// A step is in order when its state is as described above, or when its
/// count is the number of modules that the entry points reach.
pub(crate) open spec fn in_order(project: Project, current: StepView) -> bool {
    match current {
        StepView::Ask { state, request } => waiting(project, state) && request == awaited(
            project,
            state,
        ),
        StepView::Done { count } => project.reachable().finite() && count
            == project.reachable().len(),
        StepView::Failed { failure } => true,
    }
}

/// What is discovered and counted is reached.
pub(crate) proof fn lemma_discovered_is_reached(project: Project, module: Seq<char>)
    requires
        discovered(project, module),
        project.is_counted(module),
    ensures
        project.reaches(module),
{
    if project.is_entry(module) {
        let route = seq![module];
        assert(route[0] == module);
        assert(project.is_route(route));
        assert(route.last() == module);
    } else {
        let importer = choose|importer: Seq<char>|
            project.reaches(importer) && project.depends_on(importer, module);
        let before = choose|route: Seq<Seq<char>>|
            project.is_route(route) && route.last() == importer;
        let route = before.push(module);
        assert(route[0] == before[0]);
        assert forall|j: int| 0 <= j < route.len() implies project.is_counted(
            #[trigger] route[j],
        ) by {
            if j < before.len() {
                assert(route[j] == before[j]);
            }
        }
        assert forall|j: int| 0 <= j < route.len() - 1 implies project.depends_on(
            #[trigger] route[j],
            route[j + 1],
        ) by {
            if j < before.len() - 1 {
                assert(route[j] == before[j]);
                assert(route[j + 1] == before[j + 1]);
            } else {
                assert(route[j] == importer);
                assert(route[j + 1] == module);
            }
        }
        assert(project.is_route(route));
        assert(route.last() == module);
    }
}

/// Once the work list is empty, every module on a route has been counted.
pub(crate) proof fn lemma_route_is_counted(
    project: Project,
    state: GraphState,
    route: Seq<Seq<char>>,
    j: int,
)
    requires
        draining(project, state),
        state.worklist.len() == 0,
        project.is_route(route),
        0 <= j < route.len(),
    ensures
        state.visited.contains(route[j]),
    decreases j,
{
    if j == 0 {
        let k = choose|k: int|
            0 <= k < project.entry_points.len() && project.entry_module(k) == Some(route[0]);
        assert(entry_settled(project, state.visited, state.worklist, k));
    } else {
        lemma_route_is_counted(project, state, route, j - 1);
        let importer = route[j - 1];
        assert(project.depends_on(importer, route[j - 1 + 1]));
        let i = choose|i: int|
            0 <= i < project.imports_of(importer).len() && project.dependency(importer, i)
                == Some(route[j]);
        assert(import_settled(project, state.visited, state.worklist, importer, i));
    }
}

/// Once the work list is empty, the counted modules are the reachable ones.
pub(crate) proof fn lemma_drained(project: Project, state: GraphState)
    requires
        draining(project, state),
        state.worklist.len() == 0,
    ensures
        state.visited == project.reachable(),
{
    assert forall|module: Seq<char>| project.reaches(module) implies state.visited.contains(
        module,
    ) by {
        let route = choose|route: Seq<Seq<char>>|
            project.is_route(route) && route.last() == module;
        lemma_route_is_counted(project, state, route, route.len() - 1);
    }
    assert(state.visited =~= project.reachable());
}

/// What is taken care of stays so while no counted module is forgotten.
pub(crate) proof fn lemma_settled_persists(
    project: Project,
    visited: Set<Seq<char>>,
    worklist: Seq<Seq<char>>,
    visited_after: Set<Seq<char>>,
    worklist_after: Seq<Seq<char>>,
)
    requires
        forall|module: Seq<char>|
            project.is_counted(module) && #[trigger] known(visited, worklist, module) ==> known(
                visited_after,
                worklist_after,
                module,
            ),
    ensures
        forall|k: int|
            entry_settled(project, visited, worklist, k) ==> #[trigger] entry_settled(
                project,
                visited_after,
                worklist_after,
                k,
            ),
        forall|importer: Seq<char>, i: int|
            import_settled(project, visited, worklist, importer, i) ==> #[trigger] import_settled(
                project,
                visited_after,
                worklist_after,
                importer,
                i,
            ),
        forall|importer: Seq<char>, n: int|
            explored(project, visited, worklist, importer, n) ==> #[trigger] explored(
                project,
                visited_after,
                worklist_after,
                importer,
                n,
            ),
{
    assert forall|importer: Seq<char>, n: int|
        explored(project, visited, worklist, importer, n) implies #[trigger] explored(
        project,
        visited_after,
        worklist_after,
        importer,
        n,
    ) by {
        assert forall|i: int| 0 <= i < n implies #[trigger] import_settled(
            project,
            visited_after,
            worklist_after,
            importer,
            i,
        ) by {
            assert(import_settled(project, visited, worklist, importer, i));
        }
    }
}

/// A work list with one more module holds what it held before.
pub(crate) proof fn lemma_push_keeps(worklist: Seq<Seq<char>>, added: Seq<char>)
    ensures
        forall|module: Seq<char>|
            worklist.contains(module) ==> #[trigger] worklist.push(added).contains(module),
        worklist.push(added).contains(added),
{
    assert forall|module: Seq<char>| worklist.contains(module) implies #[trigger] worklist.push(
        added,
    ).contains(module) by {
        let j = choose|j: int| 0 <= j < worklist.len() && worklist[j] == module;
        assert(worklist.push(added)[j] == module);
    }
    assert(worklist.push(added)[worklist.len() as int] == added);
}

/// A work list without its last module holds what it held before, but
/// perhaps that module.
pub(crate) proof fn lemma_drop_last_keeps(worklist: Seq<Seq<char>>)
    requires
        worklist.len() > 0,
    ensures
        forall|module: Seq<char>|
            worklist.contains(module) && module != worklist.last()
                ==> #[trigger] worklist.drop_last().contains(module),
{
    assert forall|module: Seq<char>|
        worklist.contains(module) && module != worklist.last()
        implies #[trigger] worklist.drop_last().contains(module) by {
        let j = choose|j: int| 0 <= j < worklist.len() && worklist[j] == module;
        assert(worklist.drop_last()[j] == module);
    }
}

/// Dropping a module that is not counted from the top of a layered work
/// list leaves the work list layered.
pub(crate) proof fn lemma_drop_last_stacked(
    project: Project,
    visited: Set<Seq<char>>,
    worklist: Seq<Seq<char>>,
)
    requires
        worklist.len() > 0,
        !project.is_counted(worklist.last()),
        stacked(project, visited, worklist),
    ensures
        stacked(project, visited, worklist.drop_last()),
{
    let rest = worklist.drop_last();
    assert forall|i: int, t: int|
        0 <= i < rest.len() && visited.contains(rest[i]) && 0 <= t < project.imports_of(
            rest[i],
        ).len() implies #[trigger] guarded(project, visited, rest, i, t) by {
        assert(rest[i] == worklist[i]);
        assert(guarded(project, visited, worklist, i, t));
        match project.dependency(worklist[i], t) {
            Some(module) => {
                if project.is_counted(module) && !visited.contains(module) {
                    let j = choose|j: int| i < j < worklist.len() && worklist[j] == module;
                    assert(rest[j] == module);
                }
            },
            None => {},
        }
    }
}

/// Adding a module on top of a layered work list leaves the work list
/// layered.
pub(crate) proof fn lemma_push_layered(
    project: Project,
    visited: Set<Seq<char>>,
    worklist: Seq<Seq<char>>,
    current: Seq<char>,
    n: int,
    added: Seq<char>,
)
    requires
        layered(project, visited, worklist, current, n),
        !visited.contains(added),
    ensures
        layered(project, visited, worklist.push(added), current, n),
        forall|i: int, module: Seq<char>|
            0 <= i < worklist.len() && module == added ==> #[trigger] covered(
                project,
                visited,
                worklist.push(added),
                i,
                module,
            ),
{
    let after = worklist.push(added);
    assert forall|i: int, t: int|
        0 <= i < after.len() && visited.contains(after[i]) && 0 <= t < project.imports_of(
            after[i],
        ).len() && (after[i] != current || t < n) implies #[trigger] guarded(
        project,
        visited,
        after,
        i,
        t,
    ) by {
        assert(i < worklist.len());
        assert(after[i] == worklist[i]);
        assert(guarded(project, visited, worklist, i, t));
        match project.dependency(worklist[i], t) {
            Some(module) => {
                if project.is_counted(module) && !visited.contains(module) {
                    let j = choose|j: int| i < j < worklist.len() && worklist[j] == module;
                    assert(after[j] == module);
                }
            },
            None => {},
        }
    }
    assert forall|i: int, module: Seq<char>|
        0 <= i < worklist.len() && module == added implies #[trigger] covered(
        project,
        visited,
        after,
        i,
        module,
    ) by {
        assert(after[worklist.len() as int] == module);
    }
}

/// Draining keeps the traversal in order.
pub(crate) proof fn lemma_drain(project: Project, state: GraphState)
    requires
        draining(project, state),
    ensures
        in_order(project, drain(state)),
    decreases state.worklist.len(),
{
    if state.worklist.len() == 0 {
        lemma_drained(project, state);
    } else {
        let module = state.worklist.last();
        let rest = GraphState { worklist: state.worklist.drop_last(), ..state };
        match path_extension(module_file(state, module)) {
            None => {},
            Some(extension) => {
                if state.ignored_extensions.contains(extension) {
                    assert(!project.is_counted(module));
                    lemma_drop_last_keeps(state.worklist);
                    lemma_settled_persists(
                        project,
                        state.visited,
                        state.worklist,
                        rest.visited,
                        rest.worklist,
                    );
                    assert forall|j: int| 0 <= j < rest.worklist.len() implies discovered(
                        project,
                        #[trigger] rest.worklist[j],
                    ) by {
                        assert(rest.worklist[j] == state.worklist[j]);
                    }
                    lemma_drop_last_stacked(project, state.visited, state.worklist);
                    assert(draining(project, rest));
                    lemma_drain(project, rest);
                } else {
                    let next = GraphState { module, phase: Phase::Reading, ..rest };
                    let rewound = GraphState { worklist: next.worklist.push(next.module), ..next };
                    assert(rewound.worklist == state.worklist);
                    assert(draining(project, rewound));
                    assert(project.is_counted(module));
                }
            },
        }
    }
}

/// Looking at the imports of the current module keeps the traversal in
/// order.
pub(crate) proof fn lemma_scan(project: Project, state: GraphState)
    requires
        scanning(project, state),
    ensures
        in_order(project, scan(state)),
    decreases state.imports.len(),
{
    let found = project.imports_of(state.module);
    let n = found.len() - state.imports.len();
    if state.imports.len() == 0 {
        assert(stacked(project, state.visited, state.worklist)) by {
            assert forall|i: int, t: int|
                0 <= i < state.worklist.len() && state.visited.contains(state.worklist[i]) && 0
                    <= t < project.imports_of(state.worklist[i]).len()
                implies #[trigger] guarded(project, state.visited, state.worklist, i, t) by {
                assert(state.worklist[i] != state.module || t < n);
            }
        }
        assert(draining(project, state));
        lemma_drain(project, state);
    } else {
        let rest = GraphState { imports: state.imports.drop_first(), ..state };
        assert(state.imports[0] == found[n]);
        assert(rest.imports == found.skip(n + 1));
        if is_skipped(state, state.imports[0]) {
            assert(project.dependency(state.module, n) is None);
            assert forall|i: int| 0 <= i < n + 1 implies #[trigger] import_settled(
                project,
                rest.visited,
                rest.worklist,
                rest.module,
                i,
            ) by {
                if i < n {
                    assert(import_settled(project, state.visited, state.worklist, state.module, i));
                }
            }
            assert(layered(project, rest.visited, rest.worklist, rest.module, n + 1)) by {
                assert forall|i: int, t: int|
                    0 <= i < rest.worklist.len() && rest.visited.contains(rest.worklist[i]) && 0
                        <= t < project.imports_of(rest.worklist[i]).len() && (rest.worklist[i]
                        != rest.module || t < n + 1) implies #[trigger] guarded(
                    project,
                    rest.visited,
                    rest.worklist,
                    i,
                    t,
                ) by {
                    if rest.worklist[i] != rest.module || t < n {
                        assert(guarded(project, state.visited, state.worklist, i, t));
                    }
                }
            }
            assert(scanning(project, rest));
            lemma_scan(project, rest);
        } else {
            let specifier = state.imports[0].unwrap();
            match parent_directory(module_file(state, state.module)) {
                None => {},
                Some(directory) => {
                    let next = GraphState {
                        pending: specifier,
                        phase: Phase::Resolving,
                        ..rest
                    };
                    let unscanned = GraphState {
                        imports: seq![Some(next.pending)] + next.imports,
                        ..next
                    };
                    assert(unscanned.imports == state.imports);
                    assert(scanning(project, unscanned));
                },
            }
        }
    }
}

/// Asking for the next entry point keeps the traversal in order.
pub(crate) proof fn lemma_seed(project: Project, state: GraphState)
    requires
        seeding(project, state),
    ensures
        in_order(project, seed(state)),
{
    let n = project.entry_points.len() - state.entry_points.len();
    if state.entry_points.len() == 0 {
        assert(stacked(project, state.visited, state.worklist));
        assert(draining(project, state));
        lemma_drain(project, state);
    } else {
        let next = GraphState {
            entry_points: state.entry_points.drop_first(),
            pending: state.entry_points[0],
            phase: Phase::Seeding,
            ..state
        };
        let reseeded = GraphState {
            entry_points: seq![next.pending] + next.entry_points,
            ..next
        };
        assert(reseeded.entry_points == state.entry_points);
        assert(seeding(project, reseeded));
    }
}

/// Every answer of the project keeps the traversal in order.
pub(crate) proof fn lemma_step(project: Project, state: GraphState, request: RequestView)
    requires
        waiting(project, state),
        request == awaited(project, state),
    ensures
        in_order(project, step(state, project.answer(request))),
{
    match project.answer(request) {
        Err(message) => {},
        Ok(content) => match state.phase {
            Phase::Seeding => {
                let reseeded = GraphState {
                    entry_points: seq![state.pending] + state.entry_points,
                    ..state
                };
                let n = project.entry_points.len() - reseeded.entry_points.len();
                assert(sound(project, reseeded));
                assert(reseeded.entry_points[0] == state.pending);
                assert(state.pending == project.entry_points[n]);
                assert(state.entry_points == project.entry_points.skip(n + 1)) by {
                    assert(state.entry_points == reseeded.entry_points.drop_first());
                }
                match relative_path(content, state.base_path) {
                    None => {},
                    Some(module) => {
                        let after = GraphState { worklist: state.worklist.push(module), ..state };
                        assert(project.entry_module(n) == Some(module));
                        assert(project.is_entry(module));
                        lemma_push_keeps(state.worklist, module);
                        lemma_settled_persists(
                            project,
                            state.visited,
                            state.worklist,
                            after.visited,
                            after.worklist,
                        );
                        assert forall|j: int| 0 <= j < after.worklist.len() implies discovered(
                            project,
                            #[trigger] after.worklist[j],
                        ) by {
                            if j < state.worklist.len() {
                                assert(after.worklist[j] == state.worklist[j]);
                            }
                        }
                        assert forall|k: int| 0 <= k < n + 1 implies #[trigger] entry_settled(
                            project,
                            after.visited,
                            after.worklist,
                            k,
                        ) by {
                            if k < n {
                                assert(entry_settled(project, state.visited, state.worklist, k));
                            }
                        }
                        assert(seeding(project, after));
                        lemma_seed(project, after);
                    },
                }
            },
            Phase::Reading => {
                let rewound = GraphState {
                    worklist: state.worklist.push(state.module),
                    ..state
                };
                let path = project.file(state.module);
                match source_kind_of_path(path) {
                    None => {},
                    Some(kind) => match parsed_module(content, kind) {
                        None => {},
                        Some(parsed) => {
                            let after = GraphState {
                                visited: state.visited.insert(state.module),
                                imports: parsed.imports,
                                ..state
                            };
                            assert(project.imports_of(state.module) == parsed.imports);
                            assert(after.imports == parsed.imports.skip(0));
                            assert(rewound.worklist[state.worklist.len() as int] == state.module);
                            lemma_discovered_is_reached(project, state.module);
                            assert forall|module: Seq<char>|
                                project.is_counted(module) && #[trigger] known(
                                    rewound.visited,
                                    rewound.worklist,
                                    module,
                                ) implies known(after.visited, after.worklist, module) by {
                                if rewound.worklist.contains(module) {
                                    let j = choose|j: int|
                                        0 <= j < rewound.worklist.len() && rewound.worklist[j]
                                            == module;
                                    if j < state.worklist.len() {
                                        assert(state.worklist[j] == module);
                                    }
                                }
                            }
                            lemma_settled_persists(
                                project,
                                rewound.visited,
                                rewound.worklist,
                                after.visited,
                                after.worklist,
                            );
                            assert forall|j: int| 0 <= j < after.worklist.len() implies discovered(
                                project,
                                #[trigger] after.worklist[j],
                            ) by {
                                assert(after.worklist[j] == rewound.worklist[j]);
                            }
                            assert(layered(
                                project,
                                after.visited,
                                after.worklist,
                                after.module,
                                0,
                            )) by {
                                assert forall|i: int, t: int|
                                    0 <= i < after.worklist.len() && after.visited.contains(
                                        after.worklist[i],
                                    ) && 0 <= t < project.imports_of(after.worklist[i]).len() && (
                                    after.worklist[i] != after.module || t < 0)
                                    implies #[trigger] guarded(
                                    project,
                                    after.visited,
                                    after.worklist,
                                    i,
                                    t,
                                ) by {
                                    assert(rewound.worklist[i] == after.worklist[i]);
                                    assert(guarded(
                                        project,
                                        rewound.visited,
                                        rewound.worklist,
                                        i,
                                        t,
                                    ));
                                    match project.dependency(after.worklist[i], t) {
                                        Some(module) => {
                                            if project.is_counted(module)
                                                && !after.visited.contains(module) {
                                                let j = choose|j: int|
                                                    i < j < rewound.worklist.len()
                                                        && rewound.worklist[j] == module;
                                                assert(after.worklist[j] == module);
                                            }
                                        },
                                        None => {},
                                    }
                                }
                            }
                            assert(scanning(project, after));
                            lemma_scan(project, after);
                        },
                    },
                }
            },
            Phase::Resolving => {
                let unscanned = GraphState {
                    imports: seq![Some(state.pending)] + state.imports,
                    ..state
                };
                let found = project.imports_of(state.module);
                let n = found.len() - unscanned.imports.len();
                assert(unscanned.imports[0] == Some(state.pending));
                assert(found[n] == Some(state.pending));
                assert(state.imports == found.skip(n + 1)) by {
                    assert(state.imports == unscanned.imports.drop_first());
                }
                match relative_path(content, state.base_path) {
                    None => {},
                    Some(module) => {
                        let after = GraphState { worklist: enqueue(state, module), ..state };
                        assert(project.dependency(state.module, n) == Some(module));
                        assert(project.depends_on(state.module, module));
                        assert(project.reaches(state.module));
                        assert(discovered(project, module));
                        lemma_push_keeps(state.worklist, module);
                        lemma_settled_persists(
                            project,
                            state.visited,
                            state.worklist,
                            after.visited,
                            after.worklist,
                        );
                        assert forall|j: int| 0 <= j < after.worklist.len() implies discovered(
                            project,
                            #[trigger] after.worklist[j],
                        ) by {
                            if j < state.worklist.len() {
                                assert(after.worklist[j] == state.worklist[j]);
                            }
                        }
                        assert forall|i: int| 0 <= i < n + 1 implies #[trigger] import_settled(
                            project,
                            after.visited,
                            after.worklist,
                            after.module,
                            i,
                        ) by {
                            if i < n {
                                assert(import_settled(
                                    project,
                                    state.visited,
                                    state.worklist,
                                    state.module,
                                    i,
                                ));
                            }
                        }
                        assert(layered(
                            project,
                            after.visited,
                            after.worklist,
                            after.module,
                            n + 1,
                        )) by {
                            if !state.visited.contains(module) {
                                lemma_push_layered(
                                    project,
                                    state.visited,
                                    state.worklist,
                                    state.module,
                                    n,
                                    module,
                                );
                            }
                            assert forall|i: int, t: int|
                                0 <= i < after.worklist.len() && after.visited.contains(
                                    after.worklist[i],
                                ) && 0 <= t < project.imports_of(after.worklist[i]).len() && (
                                after.worklist[i] != after.module || t < n + 1)
                                implies #[trigger] guarded(
                                project,
                                after.visited,
                                after.worklist,
                                i,
                                t,
                            ) by {
                                if after.worklist[i] == after.module && t == n {
                                    assert(i < state.worklist.len());
                                    if !state.visited.contains(module) {
                                        assert(covered(
                                            project,
                                            after.visited,
                                            after.worklist,
                                            i,
                                            module,
                                        ));
                                    }
                                }
                            }
                        }
                        assert(scanning(project, after));
                        lemma_scan(project, after);
                    },
                }
            },
        },
    }
}
} // verus!
