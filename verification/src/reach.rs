//! What a completed traversal has counted: the modules that the entry points
//! reach.

use crate::order::{in_order, lemma_seed, lemma_step, seeding};
use crate::project::Project;
use crate::paths::parent_directory;
use crate::syntax::{parsed_module, source_kind_of_path};
use crate::traversal::{
    drain, initial_state, scan, seed, step, GraphState, Phase, RequestView, StepView,
};
use vstd::prelude::*;

verus! {

/// A traversal that is in order stays in order.
proof fn lemma_run(project: Project, current: StepView, fuel: nat)
    requires
        in_order(project, current),
    ensures
        in_order(project, project.run(current, fuel)),
    decreases fuel,
{
    match current {
        StepView::Ask { state, request } => {
            if fuel > 0 {
                lemma_step(project, state, request);
                lemma_run(project, step(state, project.answer(request)), (fuel - 1) as nat);
            }
        },
        _ => {},
    }
}

/// A traversal that completes has counted exactly the modules that the
/// entry points reach: the modules at the end of a chain of imports that
/// starts at an entry point and passes only through modules whose extension
/// is not ignored, where imports of builtin modules and imports without a
/// static specifier are left out. The count depends on nothing else, so
/// neither on the order of the entry points nor on the order in which
/// modules were taken from the work list.
pub proof fn lemma_count_is_reachable(project: Project, fuel: nat, count: nat)
    requires
        project.outcome(fuel) == (StepView::Done { count }),
    ensures
        project.reachable().finite(),
        count == project.reachable().len(),
{
    let start = initial_state(
        project.entry_points,
        project.base_path,
        project.ignored_extensions,
        project.builtin_modules,
    );
    assert(start.entry_points == project.entry_points.skip(0));
    assert(seeding(project, start));
    lemma_seed(project, start);
    lemma_run(project, seed(start), fuel);
}

/// A single entry point that resolves to a module which is read and parsed
/// and imports nothing makes a traversal that completes after two answers
/// and counts one module.
pub proof fn lemma_single_module_counts_one(project: Project, module: Seq<char>)
    requires
        project.entry_points.len() == 1,
        project.entry_module(0) == Some(module),
        project.is_counted(module),
        (project.read)(project.file(module)) matches Ok(source) && source_kind_of_path(
            project.file(module),
        ) matches Some(kind) && parsed_module(source, kind) matches Some(parsed)
            && parsed.imports.len() == 0,
    ensures
        project.outcome(2) == (StepView::Done { count: 1 }),
{
    let start = initial_state(
        project.entry_points,
        project.base_path,
        project.ignored_extensions,
        project.builtin_modules,
    );
    let first = seed(start);
    let asked = GraphState {
        entry_points: start.entry_points.drop_first(),
        pending: project.entry_points[0],
        ..start
    };
    assert(first == (StepView::Ask {
        state: asked,
        request: RequestView::Resolve {
            directory: project.base_path,
            specifier: project.entry_points[0],
        },
    }));
    let queued = GraphState { worklist: asked.worklist.push(module), ..asked };
    let popped = GraphState { worklist: queued.worklist.drop_last(), ..queued };
    let reading = GraphState { module, phase: Phase::Reading, ..popped };
    assert(queued.worklist.last() == module);
    assert(popped.worklist.len() == 0);
    let second = step(asked, project.answer(first->request));
    assert(second == seed(queued));
    assert(drain(queued) == (StepView::Ask {
        state: reading,
        request: RequestView::Read { path: project.file(module) },
    }));
    assert(second == drain(queued));
    let counted = GraphState {
        visited: reading.visited.insert(module),
        imports: project.imports_of(module),
        ..reading
    };
    let third = step(reading, project.answer(second->request));
    assert(third == scan(counted));
    assert(scan(counted) == drain(counted));
    assert(counted.visited =~= set![module]);
    assert(drain(counted) == (StepView::Done { count: 1 }));
    assert(project.run(third, 0) == third);
    assert(project.run(second, 1) == project.run(third, 0));
    assert(project.run(first, 2) == project.run(second, 1));
}

/// Whether `module` is counted and has a single import, which leads to
/// `target`.
pub open spec fn imports_only(project: Project, module: Seq<char>, target: Seq<char>) -> bool {
    &&& project.is_counted(module)
    &&& project.imports_of(module).len() == 1
    &&& project.dependency(module, 0) == Some(target)
}

/// Two modules that import each other, the first of them the only entry
/// point, make a traversal that completes after five answers and counts
/// two modules.
pub proof fn lemma_cycle_of_two_counts_two(
    project: Project,
    one: Seq<char>,
    other: Seq<char>,
)
    requires
        project.entry_points.len() == 1,
        project.entry_module(0) == Some(one),
        one != other,
        imports_only(project, one, other),
        imports_only(project, other, one),
    ensures
        project.outcome(5) == (StepView::Done { count: 2 }),
{
    let start = initial_state(
        project.entry_points,
        project.base_path,
        project.ignored_extensions,
        project.builtin_modules,
    );
    let none = Seq::<Seq<char>>::empty();
    let rest = Seq::<Option<Seq<char>>>::empty();
    // The entry point is asked for.
    let seeding = GraphState {
        entry_points: start.entry_points.drop_first(),
        pending: project.entry_points[0],
        ..start
    };
    let first = seed(start);
    assert(first == (StepView::Ask {
        state: seeding,
        request: RequestView::Resolve {
            directory: project.base_path,
            specifier: project.entry_points[0],
        },
    }));
    // It resolves to the first module, which is read.
    let queued = GraphState { worklist: seeding.worklist.push(one), ..seeding };
    assert(queued.worklist.last() == one);
    assert(queued.worklist.drop_last() == none);
    let reading = GraphState { worklist: none, module: one, phase: Phase::Reading, ..queued };
    let second = step(seeding, project.answer(first->request));
    assert(second == seed(queued));
    assert(drain(queued) == (StepView::Ask {
        state: reading,
        request: RequestView::Read { path: project.file(one) },
    }));
    assert(second == drain(queued));
    // Its import is asked for.
    let found = project.imports_of(one);
    let wanted = found[0].unwrap();
    let counted = GraphState { visited: reading.visited.insert(one), imports: found, ..reading };
    assert(found.drop_first() == rest);
    let resolving = GraphState {
        imports: rest,
        pending: wanted,
        phase: Phase::Resolving,
        ..counted
    };
    let third = step(reading, project.answer(second->request));
    assert(third == scan(counted));
    assert(scan(counted) == (StepView::Ask {
        state: resolving,
        request: RequestView::Resolve {
            directory: parent_directory(project.file(one)).unwrap(),
            specifier: wanted,
        },
    }));
    // It resolves to the second module, which is read.
    let grown = GraphState { worklist: resolving.worklist.push(other), ..resolving };
    assert(!resolving.visited.contains(other));
    assert(grown.worklist.last() == other);
    assert(grown.worklist.drop_last() == none);
    let reading_other = GraphState {
        worklist: none,
        module: other,
        phase: Phase::Reading,
        ..grown
    };
    let fourth = step(resolving, project.answer(third->request));
    assert(fourth == scan(grown));
    assert(scan(grown) == drain(grown));
    assert(drain(grown) == (StepView::Ask {
        state: reading_other,
        request: RequestView::Read { path: project.file(other) },
    }));
    // Its import is asked for.
    let back = project.imports_of(other);
    let wanted_back = back[0].unwrap();
    let counted_other = GraphState {
        visited: reading_other.visited.insert(other),
        imports: back,
        ..reading_other
    };
    assert(back.drop_first() == rest);
    let resolving_back = GraphState {
        imports: rest,
        pending: wanted_back,
        phase: Phase::Resolving,
        ..counted_other
    };
    let fifth = step(reading_other, project.answer(fourth->request));
    assert(fifth == scan(counted_other));
    assert(scan(counted_other) == (StepView::Ask {
        state: resolving_back,
        request: RequestView::Resolve {
            directory: parent_directory(project.file(other)).unwrap(),
            specifier: wanted_back,
        },
    }));
    // It resolves to the first module, which has been counted: nothing is
    // queued, and the traversal is complete.
    let sixth = step(resolving_back, project.answer(fifth->request));
    assert(resolving_back.visited.contains(one));
    assert(sixth == scan(resolving_back));
    assert(scan(resolving_back) == drain(resolving_back));
    assert(resolving_back.visited =~= set![one, other]);
    assert(set![one, other].len() == 2) by {
        assert(set![one].insert(other) =~= set![one, other]);
    }
    assert(drain(resolving_back) == (StepView::Done { count: 2 }));
    assert(project.run(sixth, 0) == sixth);
    assert(project.run(fifth, 1) == project.run(sixth, 0));
    assert(project.run(fourth, 2) == project.run(fifth, 1));
    assert(project.run(third, 3) == project.run(fourth, 2));
    assert(project.run(second, 4) == project.run(third, 3));
    assert(project.run(first, 5) == project.run(second, 4));
}

/// Whether two projects differ in nothing but the order, and the number of
/// mentions, of their entry points.
pub open spec fn same_but_entry_order(one: Project, other: Project) -> bool {
    &&& one.entry_points.to_set() == other.entry_points.to_set()
    &&& one.base_path == other.base_path
    &&& one.ignored_extensions == other.ignored_extensions
    &&& one.builtin_modules == other.builtin_modules
    &&& one.resolve == other.resolve
    &&& one.read == other.read
}

/// What is an entry of one project is an entry of the other.
proof fn lemma_same_entries(one: Project, other: Project, module: Seq<char>)
    requires
        same_but_entry_order(one, other),
        one.is_entry(module),
    ensures
        other.is_entry(module),
{
    let k = choose|k: int| 0 <= k < one.entry_points.len() && one.entry_module(k) == Some(module);
    let entry = one.entry_points[k];
    assert(one.entry_points.contains(entry));
    assert(one.entry_points.to_set().contains(entry));
    assert(other.entry_points.contains(entry));
    let j = choose|j: int| 0 <= j < other.entry_points.len() && other.entry_points[j] == entry;
    assert(other.entry_module(j) == Some(module));
}

/// What is a route of one project is a route of the other.
proof fn lemma_same_routes(one: Project, other: Project, route: Seq<Seq<char>>)
    requires
        same_but_entry_order(one, other),
        one.is_route(route),
    ensures
        other.is_route(route),
{
    lemma_same_entries(one, other, route[0]);
    assert forall|j: int| 0 <= j < route.len() implies other.is_counted(#[trigger] route[j]) by {
        assert(one.is_counted(route[j]));
    }
    assert forall|j: int| 0 <= j < route.len() - 1 implies other.depends_on(
        #[trigger] route[j],
        route[j + 1],
    ) by {
        assert(one.depends_on(route[j], route[j + 1]));
        let i = choose|i: int|
            0 <= i < one.imports_of(route[j]).len() && one.dependency(route[j], i) == Some(
                route[j + 1],
            );
        assert(other.imports_of(route[j]) == one.imports_of(route[j]));
        assert(other.dependency(route[j], i) == Some(route[j + 1]));
    }
}

/// The order of the entry points, and how often each is given, does not
/// change what is reached; so it does not change the count of a traversal
/// that completes.
pub proof fn lemma_entry_order_is_immaterial(one: Project, other: Project)
    requires
        same_but_entry_order(one, other),
    ensures
        one.reachable() == other.reachable(),
        forall|fuel: nat, more: nat, count: nat, tally: nat|
            one.outcome(fuel) == (StepView::Done { count }) && other.outcome(more) == (
            StepView::Done { count: tally }) ==> count == tally,
{
    assert forall|module: Seq<char>| one.reaches(module) == other.reaches(module) by {
        if one.reaches(module) {
            let route = choose|route: Seq<Seq<char>>|
                one.is_route(route) && route.last() == module;
            lemma_same_routes(one, other, route);
        }
        if other.reaches(module) {
            let route = choose|route: Seq<Seq<char>>|
                other.is_route(route) && route.last() == module;
            lemma_same_routes(other, one, route);
        }
    }
    assert(one.reachable() =~= other.reachable());
    assert forall|fuel: nat, more: nat, count: nat, tally: nat|
        one.outcome(fuel) == (StepView::Done { count }) && other.outcome(more) == (
        StepView::Done { count: tally }) implies count == tally by {
        lemma_count_is_reachable(one, fuel, count);
        lemma_count_is_reachable(other, more, tally);
    }
}

} // verus!
