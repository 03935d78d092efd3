//! The traversal of a module graph as a state machine. The machine asks for
//! one piece of outside work at a time, a resolution or a file's content,
//! and decides from the answer what to ask next. This file holds its
//! mathematical description.

use crate::failure::GraphFailureView;
use crate::paths::{joined_path, parent_directory, path_extension, relative_path};
use crate::specifier::builtin_name;
use crate::syntax::{parsed_module, source_kind_of_path};
use vstd::prelude::*;

verus! {

/// What the machine is waiting for.
#[derive(Clone, Copy, Debug, PartialEq, Eq, Structural)]
pub enum Phase {
    /// The resolution of an entry point.
    Seeding,
    /// The content of the module that was taken from the work list.
    Reading,
    /// The resolution of an import of the module that was read.
    Resolving,
}

/// The state of a traversal.
pub struct GraphState {
    /// The directory that module paths are relative to.
    pub base_path: Seq<char>,
    /// Modules with one of these extensions are neither read nor counted.
    pub ignored_extensions: Set<Seq<char>>,
    /// Imports of these names are never resolved.
    pub builtin_modules: Set<Seq<char>>,
    /// The entry points that have not been asked for yet.
    pub entry_points: Seq<Seq<char>>,
    /// The modules that await processing; the last one is taken first.
    pub worklist: Seq<Seq<char>>,
    /// The modules that have been counted.
    pub visited: Set<Seq<char>>,
    /// The module that was taken from the work list last.
    pub module: Seq<char>,
    /// The imports of that module that have not been looked at yet.
    pub imports: Seq<Option<Seq<char>>>,
    /// The specifier whose resolution is awaited.
    pub pending: Seq<char>,
    /// What the machine is waiting for.
    pub phase: Phase,
}

/// Outside work that the machine asks for.
pub enum RequestView {
    /// Resolve `specifier` from `directory`.
    Resolve { directory: Seq<char>, specifier: Seq<char> },
    /// Read the file at `path`.
    Read { path: Seq<char> },
}

/// Where one step of the machine leads.
pub enum StepView {
    /// The machine goes on in `state` once `request` is answered.
    Ask { state: GraphState, request: RequestView },
    /// The traversal is complete and has counted `count` modules.
    Done { count: nat },
    /// The traversal was given up.
    Failed { failure: GraphFailureView },
}

/// The state before anything was asked.
pub open spec fn initial_state(
    entry_points: Seq<Seq<char>>,
    base_path: Seq<char>,
    ignored_extensions: Set<Seq<char>>,
    builtin_modules: Set<Seq<char>>,
) -> GraphState {
    GraphState {
        base_path,
        ignored_extensions,
        builtin_modules,
        entry_points,
        worklist: Seq::empty(),
        visited: Set::empty(),
        module: Seq::empty(),
        imports: Seq::empty(),
        pending: Seq::empty(),
        phase: Phase::Seeding,
    }
}

/// The path of a module's file: the module below the base directory.
pub open spec fn module_file(state: GraphState, module: Seq<char>) -> Seq<char> {
    joined_path(state.base_path, module)
}

/// Whether an import is passed over: it has no static specifier, or it names
/// a builtin module.
pub open spec fn is_skipped(state: GraphState, import: Option<Seq<char>>) -> bool {
    match import {
        None => true,
        Some(specifier) => state.builtin_modules.contains(builtin_name(specifier)),
    }
}

/// Takes modules from the work list until one is to be read. Modules with
/// an ignored extension are dropped; with an empty work list the traversal
/// is complete.
pub open spec fn drain(state: GraphState) -> StepView
    decreases state.worklist.len(),
{
    if state.worklist.len() == 0 {
        StepView::Done { count: state.visited.len() }
    } else {
        let module = state.worklist.last();
        let rest = GraphState { worklist: state.worklist.drop_last(), ..state };
        let path = module_file(state, module);
        match path_extension(path) {
            None => StepView::Failed { failure: GraphFailureView::MissingExtension { path } },
            Some(extension) => if state.ignored_extensions.contains(extension) {
                drain(rest)
            } else {
                StepView::Ask {
                    state: GraphState { module, phase: Phase::Reading, ..rest },
                    request: RequestView::Read { path },
                }
            },
        }
    }
}

/// Looks for the next import of the current module that needs resolving.
/// When none is left the work list is drained.
pub open spec fn scan(state: GraphState) -> StepView
    decreases state.imports.len(),
{
    if state.imports.len() == 0 {
        drain(state)
    } else {
        let rest = GraphState { imports: state.imports.drop_first(), ..state };
        if is_skipped(state, state.imports[0]) {
            scan(rest)
        } else {
            let specifier = state.imports[0].unwrap();
            let importer = module_file(state, state.module);
            match parent_directory(importer) {
                None => StepView::Failed { failure: GraphFailureView::NoParent { importer } },
                Some(directory) => StepView::Ask {
                    state: GraphState { pending: specifier, phase: Phase::Resolving, ..rest },
                    request: RequestView::Resolve { directory, specifier },
                },
            }
        }
    }
}

/// Asks for the next entry point, or starts draining when all are seeded.
pub open spec fn seed(state: GraphState) -> StepView {
    if state.entry_points.len() == 0 {
        drain(state)
    } else {
        let specifier = state.entry_points[0];
        StepView::Ask {
            state: GraphState {
                entry_points: state.entry_points.drop_first(),
                pending: specifier,
                phase: Phase::Seeding,
                ..state
            },
            request: RequestView::Resolve { directory: state.base_path, specifier },
        }
    }
}

/// The work list after a dependency was found: the dependency is added
/// unless it has been counted already.
pub open spec fn enqueue(state: GraphState, module: Seq<char>) -> Seq<Seq<char>> {
    if state.visited.contains(module) {
        state.worklist
    } else {
        state.worklist.push(module)
    }
}

/// What the machine does with a resolved path: the path relative to the
/// base directory joins the work list, and the machine looks for the next
/// thing to ask.
pub open spec fn resolved(state: GraphState, path: Seq<char>) -> StepView {
    match relative_path(path, state.base_path) {
        None => StepView::Failed {
            failure: GraphFailureView::Unrelated { path, base_path: state.base_path },
        },
        Some(module) => match state.phase {
            Phase::Seeding => seed(GraphState { worklist: state.worklist.push(module), ..state }),
            _ => scan(GraphState { worklist: enqueue(state, module), ..state }),
        },
    }
}

/// What the machine does with the content of the current module: the module
/// is counted, and its imports are looked at in order.
pub open spec fn loaded(state: GraphState, source: Seq<char>) -> StepView {
    let path = module_file(state, state.module);
    match source_kind_of_path(path) {
        None => StepView::Failed { failure: GraphFailureView::UnknownSourceKind { path } },
        Some(kind) => match parsed_module(source, kind) {
            None => StepView::Failed { failure: GraphFailureView::Parse { path } },
            Some(module) => scan(
                GraphState {
                    visited: state.visited.insert(state.module),
                    imports: module.imports,
                    ..state
                },
            ),
        },
    }
}

/// The importer that a failed resolution is reported for: the base
/// directory for an entry point, the file of the current module for an
/// import.
pub open spec fn importer_of(state: GraphState) -> Seq<char> {
    match state.phase {
        Phase::Seeding => state.base_path,
        _ => module_file(state, state.module),
    }
}

/// What the machine does when the outside work failed.
pub open spec fn refused(state: GraphState, message: Seq<char>) -> StepView {
    match state.phase {
        Phase::Reading => StepView::Failed {
            failure: GraphFailureView::Read { base_path: state.base_path, module: state.module },
        },
        _ => StepView::Failed {
            failure: GraphFailureView::Resolve {
                importer: importer_of(state),
                importee: state.pending,
                message,
            },
        },
    }
}

/// One step of the machine: from a state and the answer to what it asked
/// last, to what it asks next or how the traversal ends.
pub open spec fn step(state: GraphState, answer: Result<Seq<char>, Seq<char>>) -> StepView {
    match answer {
        Err(message) => refused(state, message),
        Ok(content) => match state.phase {
            Phase::Reading => loaded(state, content),
            _ => resolved(state, content),
        },
    }
}

/// The first step of a traversal.
pub open spec fn begin(
    entry_points: Seq<Seq<char>>,
    base_path: Seq<char>,
    ignored_extensions: Set<Seq<char>>,
    builtin_modules: Set<Seq<char>>,
) -> StepView {
    seed(initial_state(entry_points, base_path, ignored_extensions, builtin_modules))
}

/// Whether a step hands out a request that fits the state it goes on in:
/// a file is read for the module that was taken from the work list, and a
/// specifier that is resolved is the one the state holds as pending.
pub open spec fn asks_consistently(next: StepView) -> bool {
    match next {
        StepView::Ask { state, request } => match request {
            RequestView::Read { path } => state.phase == Phase::Reading && path == module_file(
                state,
                state.module,
            ),
            RequestView::Resolve { directory, specifier } => state.phase != Phase::Reading
                && specifier == state.pending,
        },
        _ => true,
    }
}

/// Whether a step keeps away from what the configuration excludes: no file
/// with an ignored extension is read, and no builtin module is resolved
/// for an import.
pub open spec fn asks_nothing_excluded(next: StepView) -> bool {
    match next {
        StepView::Ask { state, request } => match request {
            RequestView::Read { path } => match path_extension(path) {
                Some(extension) => !state.ignored_extensions.contains(extension),
                None => false,
            },
            RequestView::Resolve { directory, specifier } => state.phase == Phase::Resolving
                ==> !state.builtin_modules.contains(builtin_name(specifier)),
        },
        _ => true,
    }
}

/// Draining asks only for files to be read, and never for one with an
/// ignored extension: such a module leaves the work list without being read
/// or counted.
pub proof fn lemma_drain_reads_nothing_ignored(state: GraphState)
    ensures
        asks_consistently(drain(state)),
        asks_nothing_excluded(drain(state)),
        drain(state) matches StepView::Ask { request, .. } ==> request is Read,
    decreases state.worklist.len(),
{
    if state.worklist.len() > 0 {
        lemma_drain_reads_nothing_ignored(
            GraphState { worklist: state.worklist.drop_last(), ..state },
        );
    }
}

/// A module with an ignored extension on top of the work list is dropped:
/// the traversal goes on as if it had never been queued.
pub proof fn lemma_ignored_module_is_dropped(state: GraphState)
    requires
        state.worklist.len() > 0,
        path_extension(module_file(state, state.worklist.last())) matches Some(extension)
            && state.ignored_extensions.contains(extension),
    ensures
        drain(state) == drain(GraphState { worklist: state.worklist.drop_last(), ..state }),
{
}

/// Looking at imports never asks for a builtin module to be resolved.
pub proof fn lemma_scan_resolves_nothing_builtin(state: GraphState)
    ensures
        asks_consistently(scan(state)),
        asks_nothing_excluded(scan(state)),
    decreases state.imports.len(),
{
    if state.imports.len() == 0 {
        lemma_drain_reads_nothing_ignored(state);
    } else {
        lemma_scan_resolves_nothing_builtin(
            GraphState { imports: state.imports.drop_first(), ..state },
        );
    }
}

/// An import that names a builtin module, or that has no static specifier,
/// is passed over: nothing is asked for it, and neither the work list nor
/// the count changes.
pub proof fn lemma_skipped_import_changes_nothing(state: GraphState)
    requires
        state.imports.len() > 0,
        is_skipped(state, state.imports[0]),
    ensures
        scan(state) == scan(GraphState { imports: state.imports.drop_first(), ..state }),
{
}

/// Every step asks consistently and for nothing that is excluded.
pub proof fn lemma_step_asks_properly(
    state: GraphState,
    answer: Result<Seq<char>, Seq<char>>,
)
    ensures
        asks_consistently(step(state, answer)),
        asks_nothing_excluded(step(state, answer)),
{
    match answer {
        Err(_) => {},
        Ok(content) => match state.phase {
            Phase::Reading => {
                let path = module_file(state, state.module);
                match source_kind_of_path(path) {
                    None => {},
                    Some(kind) => match parsed_module(content, kind) {
                        None => {},
                        Some(module) => {
                            lemma_scan_resolves_nothing_builtin(
                                GraphState {
                                    visited: state.visited.insert(state.module),
                                    imports: module.imports,
                                    ..state
                                },
                            );
                        },
                    },
                }
            },
            _ => {
                match relative_path(content, state.base_path) {
                    None => {},
                    Some(module) => {
                        if state.phase == Phase::Seeding {
                            let after = GraphState {
                                worklist: state.worklist.push(module),
                                ..state
                            };
                            if after.entry_points.len() == 0 {
                                lemma_drain_reads_nothing_ignored(after);
                            }
                        } else {
                            lemma_scan_resolves_nothing_builtin(
                                GraphState { worklist: enqueue(state, module), ..state },
                            );
                        }
                    },
                }
            },
        },
    }
}

/// The first step asks consistently and for nothing that is excluded.
pub proof fn lemma_begin_asks_properly(
    entry_points: Seq<Seq<char>>,
    base_path: Seq<char>,
    ignored_extensions: Set<Seq<char>>,
    builtin_modules: Set<Seq<char>>,
)
    ensures
        asks_consistently(begin(entry_points, base_path, ignored_extensions, builtin_modules)),
        asks_nothing_excluded(begin(entry_points, base_path, ignored_extensions, builtin_modules)),
{
    let start = initial_state(entry_points, base_path, ignored_extensions, builtin_modules);
    if entry_points.len() == 0 {
        lemma_drain_reads_nothing_ignored(start);
    }
}

/// A failed resolution ends the traversal with a failure that names the
/// importer and the importee that was asked for, and hands on what the
/// resolver said.
pub proof fn lemma_failed_resolution_names_both(state: GraphState, message: Seq<char>)
    requires
        state.phase != Phase::Reading,
    ensures
        step(state, Err(message)) == (StepView::Failed {
            failure: GraphFailureView::Resolve {
                importer: importer_of(state),
                importee: state.pending,
                message,
            },
        }),
{
}

/// A dependency that has been counted already is not queued again, and
/// counting a module a second time does not change what is counted.
pub proof fn lemma_counted_once(state: GraphState, module: Seq<char>)
    requires
        state.visited.contains(module),
    ensures
        enqueue(state, module) == state.worklist,
        state.visited.insert(module) == state.visited,
{
    assert(state.visited.insert(module) =~= state.visited);
}

} // verus!
