//! Counting the modules that a set of entry points reaches. The counter
//! decides; its caller does the outside work: it resolves what the counter
//! asks to have resolved, reads what it asks to have read, and hands each
//! answer back.

use crate::failure::GraphFailure;
use crate::paths::{extension, join, parent, relative_to};
use crate::resolve::answer_view;
use crate::specifier::builtin_module_name;
use crate::syntax::{import_specifiers, source_kind_from_path};
use crate::text::{reversed, string_set};
use crate::traversal::{
    asks_consistently, asks_nothing_excluded, begin, drain, lemma_begin_asks_properly,
    lemma_step_asks_properly, loaded, refused, resolved, scan, seed, step, GraphState, Phase,
    RequestView, StepView,
};
use vstd::hash_set::StringHashSet;
use vstd::prelude::*;

verus! {

/// Outside work that the counter asks for.
#[derive(Debug, PartialEq, Eq)]
pub enum Request {
    /// Resolve `specifier` from `directory`.
    Resolve { directory: String, specifier: String },
    /// Read the file at `path`.
    Read { path: String },
}

impl View for Request {
    type V = RequestView;

    open spec fn view(&self) -> RequestView {
        match self {
            Request::Resolve { directory, specifier } => RequestView::Resolve {
                directory: directory@,
                specifier: specifier@,
            },
            Request::Read { path } => RequestView::Read { path: path@ },
        }
    }
}

/// A traversal in progress.
pub struct GraphCounter {
    base_path: String,
    ignored_extensions: StringHashSet,
    builtin_modules: StringHashSet,
    /// The entry points still to be asked for, the next one last.
    entry_points: Vec<String>,
    worklist: Vec<String>,
    visited: StringHashSet,
    module: String,
    /// The imports still to be looked at, the next one last.
    imports: Vec<Option<String>>,
    pending: String,
    phase: Phase,
}

/// Where one step of the counter leads.
pub enum Step {
    /// The counter goes on once `request` is answered.
    Ask { counter: GraphCounter, request: Request },
    /// The traversal is complete and has counted `count` modules.
    Done { count: usize },
    /// The traversal was given up.
    Failed { failure: GraphFailure },
}

impl View for GraphCounter {
    type V = GraphState;

    closed spec fn view(&self) -> GraphState {
        GraphState {
            base_path: self.base_path@,
            ignored_extensions: self.ignored_extensions@,
            builtin_modules: self.builtin_modules@,
            entry_points: self.entry_points.deep_view().reverse(),
            worklist: self.worklist.deep_view(),
            visited: self.visited@,
            module: self.module@,
            imports: self.imports.deep_view().reverse(),
            pending: self.pending@,
            phase: self.phase,
        }
    }
}

impl View for Step {
    type V = StepView;

    open spec fn view(&self) -> StepView {
        match self {
            Step::Ask { counter, request } => StepView::Ask { state: counter@, request: request@ },
            Step::Done { count } => StepView::Done { count: *count as nat },
            Step::Failed { failure } => StepView::Failed { failure: failure@ },
        }
    }
}

impl GraphCounter {
    /// Begins a traversal from `entry_points`, which are resolved from
    /// `base_path`. Modules whose extension is among
    /// `ignore_module_extensions` are left out, and imports of
    /// `builtin_modules` are passed over. The step that is returned asks for
    /// the first entry point to be resolved; without entry points the
    /// traversal is complete at once, with nothing counted.
    pub fn start(
        entry_points: Vec<String>,
        base_path: String,
        ignore_module_extensions: Vec<String>,
        builtin_modules: Vec<String>,
    ) -> (next: Step)
        ensures
            next@ == begin(
                entry_points.deep_view(),
                base_path@,
                ignore_module_extensions.deep_view().to_set(),
                builtin_modules.deep_view().to_set(),
            ),
            asks_consistently(next@),
            asks_nothing_excluded(next@),
    {
        proof {
            lemma_begin_asks_properly(
                entry_points.deep_view(),
                base_path@,
                ignore_module_extensions.deep_view().to_set(),
                builtin_modules.deep_view().to_set(),
            );
        }
        let ghost entries = entry_points.deep_view();
        let counter = GraphCounter {
            base_path,
            ignored_extensions: string_set(&ignore_module_extensions),
            builtin_modules: string_set(&builtin_modules),
            entry_points: reversed(entry_points),
            worklist: Vec::new(),
            visited: StringHashSet::new(),
            module: String::new(),
            imports: Vec::new(),
            pending: String::new(),
            phase: Phase::Seeding,
        };
        assert(counter.entry_points.deep_view().reverse() == entries);
        assert(counter.worklist.deep_view() == Seq::<Seq<char>>::empty());
        assert(counter.imports.deep_view().reverse() == Seq::<Option<Seq<char>>>::empty());
        counter.seed()
    }

    /// What the counter is waiting for.
    pub fn phase(&self) -> (phase: Phase)
        ensures
            phase == self@.phase,
    {
        self.phase
    }

    /// Takes the answer to what the counter asked last and decides what
    /// comes next. `Ok` holds a resolved path or a file's content, `Err`
    /// what went wrong. The counter never asks for a file with an ignored
    /// extension to be read, nor for an import of a builtin module to be
    /// resolved.
    pub fn advance(self, answer: Result<String, String>) -> (next: Step)
        ensures
            next@ == step(self@, answer_view(answer)),
            asks_consistently(next@),
            asks_nothing_excluded(next@),
    {
        proof {
            lemma_step_asks_properly(self@, answer_view(answer));
        }
        match answer {
            Err(message) => self.refused(message),
            Ok(content) => match self.phase {
                Phase::Reading => self.loaded(content),
                _ => self.resolved(content),
            },
        }
    }

    fn refused(self, message: String) -> (next: Step)
        ensures
            next@ == refused(self@, message@),
    {
        match self.phase {
            Phase::Reading => Step::Failed {
                failure: GraphFailure::Read { base_path: self.base_path, module: self.module },
            },
            Phase::Seeding => Step::Failed {
                failure: GraphFailure::Resolve {
                    importer: self.base_path,
                    importee: self.pending,
                    message,
                },
            },
            Phase::Resolving => Step::Failed {
                failure: GraphFailure::Resolve {
                    importer: join(self.base_path.as_str(), self.module.as_str()),
                    importee: self.pending,
                    message,
                },
            },
        }
    }

    fn resolved(self, path: String) -> (next: Step)
        ensures
            next@ == resolved(self@, path@),
    {
        let mut counter = self;
        let ghost before = counter@;
        match relative_to(path.as_str(), counter.base_path.as_str()) {
            None => Step::Failed {
                failure: GraphFailure::Unrelated { path, base_path: counter.base_path },
            },
            Some(module) => match counter.phase {
                Phase::Seeding => {
                    counter.worklist.push(module);
                    assert(counter.worklist.deep_view() == before.worklist.push(module@));
                    counter.seed()
                },
                _ => {
                    if !counter.visited.contains(module.as_str()) {
                        counter.worklist.push(module);
                        assert(counter.worklist.deep_view() == before.worklist.push(module@));
                    }
                    counter.scan()
                },
            },
        }
    }

    fn loaded(self, source: String) -> (next: Step)
        ensures
            next@ == loaded(self@, source@),
    {
        let mut counter = self;
        let path = join(counter.base_path.as_str(), counter.module.as_str());
        match source_kind_from_path(path.as_str()) {
            None => Step::Failed { failure: GraphFailure::UnknownSourceKind { path } },
            Some(kind) => match import_specifiers(source.as_str(), kind) {
                None => Step::Failed { failure: GraphFailure::Parse { path } },
                Some(imports) => {
                    let ghost found = imports.deep_view();
                    let counted = counter.module.clone();
                    counter.visited.insert(counted);
                    counter.imports = reversed(imports);
                    assert(counter.imports.deep_view().reverse() == found);
                    counter.scan()
                },
            },
        }
    }

    fn seed(self) -> (next: Step)
        ensures
            next@ == seed(self@),
    {
        let mut counter = self;
        let ghost entries = counter.entry_points.deep_view();
        match counter.entry_points.pop() {
            Some(specifier) => {
                assert(counter.entry_points.deep_view().reverse()
                    == entries.reverse().drop_first());
                assert(specifier@ == entries.reverse()[0]);
                counter.pending = specifier.clone();
                counter.phase = Phase::Seeding;
                let directory = counter.base_path.clone();
                Step::Ask { counter, request: Request::Resolve { directory, specifier } }
            },
            None => {
                assert(entries.reverse().len() == 0);
                counter.drain()
            },
        }
    }

    fn scan(self) -> (next: Step)
        ensures
            next@ == scan(self@),
    {
        let mut counter = self;
        loop
            invariant
                scan(counter@) == scan(self@),
            decreases counter.imports.len(),
        {
            let ghost imports = counter.imports.deep_view();
            match counter.imports.pop() {
                None => {
                    assert(imports.reverse().len() == 0);
                    return counter.drain();
                },
                Some(import) => {
                    assert(counter.imports.deep_view().reverse() == imports.reverse().drop_first());
                    assert(import.deep_view() == imports.reverse()[0]);
                    match import {
                        None => {},
                        Some(specifier) => {
                            let name = builtin_module_name(specifier.as_str());
                            if !counter.builtin_modules.contains(name.as_str()) {
                                let importer = join(
                                    counter.base_path.as_str(),
                                    counter.module.as_str(),
                                );
                                match parent(importer.as_str()) {
                                    None => {
                                        return Step::Failed {
                                            failure: GraphFailure::NoParent { importer },
                                        };
                                    },
                                    Some(directory) => {
                                        counter.pending = specifier.clone();
                                        counter.phase = Phase::Resolving;
                                        return Step::Ask {
                                            counter,
                                            request: Request::Resolve { directory, specifier },
                                        };
                                    },
                                }
                            }
                        },
                    }
                },
            }
        }
    }

    fn drain(self) -> (next: Step)
        ensures
            next@ == drain(self@),
    {
        broadcast use vstd::hash_set::group_hash_set_axioms;

        let mut counter = self;
        loop
            invariant
                drain(counter@) == drain(self@),
            decreases counter.worklist.len(),
        {
            let ghost modules = counter.worklist.deep_view();
            match counter.worklist.pop() {
                None => {
                    return Step::Done { count: counter.visited.len() };
                },
                Some(module) => {
                    assert(counter.worklist.deep_view() == modules.drop_last());
                    assert(module@ == modules.last());
                    let path = join(counter.base_path.as_str(), module.as_str());
                    match extension(path.as_str()) {
                        None => {
                            return Step::Failed {
                                failure: GraphFailure::MissingExtension { path },
                            };
                        },
                        Some(found) => {
                            if !counter.ignored_extensions.contains(found.as_str()) {
                                counter.module = module;
                                counter.phase = Phase::Reading;
                                return Step::Ask {
                                    counter,
                                    request: Request::Read { path },
                                };
                            }
                        },
                    }
                },
            }
        }
    }
}

} // verus!
