//! A project to be traversed, seen from outside: what its files hold and
//! where its specifiers lead, and what its entry points reach.

use crate::paths::{joined_path, parent_directory, path_extension, relative_path};
use crate::specifier::builtin_name;
use crate::syntax::{parsed_module, source_kind_of_path};
use crate::traversal::{begin, step, RequestView, StepView};
use vstd::prelude::*;

verus! {

/// A project to be traversed: the arguments of a traversal together with the
/// files and the path resolver that it meets.
pub struct Project {
    /// The specifiers of the entry points.
    pub entry_points: Seq<Seq<char>>,
    /// The directory that module paths are relative to.
    pub base_path: Seq<char>,
    /// Modules with one of these extensions are neither read nor counted.
    pub ignored_extensions: Set<Seq<char>>,
    /// Imports of these names are never resolved.
    pub builtin_modules: Set<Seq<char>>,
    /// Where a specifier leads from a directory, or why it leads nowhere.
    pub resolve: spec_fn(Seq<char>, Seq<char>) -> Result<Seq<char>, Seq<char>>,
    /// The content of the file at a path, or why it cannot be read.
    pub read: spec_fn(Seq<char>) -> Result<Seq<char>, Seq<char>>,
}

impl Project {
    /// The path of a module's file.
    pub open spec fn file(self, module: Seq<char>) -> Seq<char> {
        joined_path(self.base_path, module)
    }

    /// Whether a module is one that is read and counted: its file has an
    /// extension, and the extension is not ignored.
    pub open spec fn is_counted(self, module: Seq<char>) -> bool {
        match path_extension(self.file(module)) {
            Some(extension) => !self.ignored_extensions.contains(extension),
            None => false,
        }
    }

    /// The imports found in a module, in order; none where the module cannot
    /// be read or parsed.
    pub open spec fn imports_of(self, module: Seq<char>) -> Seq<Option<Seq<char>>> {
        match (self.read)(self.file(module)) {
            Ok(source) => match source_kind_of_path(self.file(module)) {
                Some(kind) => match parsed_module(source, kind) {
                    Some(parsed) => parsed.imports,
                    None => Seq::empty(),
                },
                None => Seq::empty(),
            },
            Err(_) => Seq::empty(),
        }
    }

    /// The module that a resolved path stands for.
    pub open spec fn module_at(self, found: Result<Seq<char>, Seq<char>>) -> Option<Seq<char>> {
        match found {
            Ok(path) => relative_path(path, self.base_path),
            Err(_) => None,
        }
    }

    /// The module that entry point `k` stands for, if it resolves.
    pub open spec fn entry_module(self, k: int) -> Option<Seq<char>> {
        self.module_at((self.resolve)(self.base_path, self.entry_points[k]))
    }

    /// Whether some entry point stands for `module`.
    pub open spec fn is_entry(self, module: Seq<char>) -> bool {
        exists|k: int| 0 <= k < self.entry_points.len() && self.entry_module(k) == Some(module)
    }

    /// The module that import `i` of `module` leads to. It leads nowhere
    /// where it has no static specifier or names a builtin module.
    pub open spec fn dependency(self, module: Seq<char>, i: int) -> Option<Seq<char>> {
        match self.imports_of(module)[i] {
            None => None,
            Some(specifier) => if self.builtin_modules.contains(builtin_name(specifier)) {
                None
            } else {
                match parent_directory(self.file(module)) {
                    None => None,
                    Some(directory) => self.module_at((self.resolve)(directory, specifier)),
                }
            },
        }
    }

    /// Whether some import of `module` leads to `target`.
    pub open spec fn depends_on(self, module: Seq<char>, target: Seq<char>) -> bool {
        exists|i: int|
            0 <= i < self.imports_of(module).len() && self.dependency(module, i) == Some(target)
    }

    /// A route starts at an entry point and follows imports; every module
    /// on it is one that is counted.
    pub open spec fn is_route(self, route: Seq<Seq<char>>) -> bool {
        &&& route.len() > 0
        &&& self.is_entry(route[0])
        &&& forall|j: int| 0 <= j < route.len() ==> self.is_counted(#[trigger] route[j])
        &&& forall|j: int|
            0 <= j < route.len() - 1 ==> self.depends_on(#[trigger] route[j], route[j + 1])
    }

    /// Whether a route leads to `module`.
    pub open spec fn reaches(self, module: Seq<char>) -> bool {
        exists|route: Seq<Seq<char>>| self.is_route(route) && route.last() == module
    }

    /// The modules that the entry points reach.
    pub open spec fn reachable(self) -> Set<Seq<char>> {
        Set::new(|module: Seq<char>| self.reaches(module))
    }

    /// The answer of the outside world to a request.
    pub open spec fn answer(self, request: RequestView) -> Result<Seq<char>, Seq<char>> {
        match request {
            RequestView::Resolve { directory, specifier } => (self.resolve)(directory, specifier),
            RequestView::Read { path } => (self.read)(path),
        }
    }

    /// Where the machine stands after at most `fuel` more answers.
    pub open spec fn run(self, current: StepView, fuel: nat) -> StepView
        decreases fuel,
    {
        match current {
            StepView::Ask { state, request } => if fuel == 0 {
                current
            } else {
                self.run(step(state, self.answer(request)), (fuel - 1) as nat)
            },
            _ => current,
        }
    }

    /// Where the traversal of the project stands after at most `fuel`
    /// answers.
    pub open spec fn outcome(self, fuel: nat) -> StepView {
        self.run(
            begin(
                self.entry_points,
                self.base_path,
                self.ignored_extensions,
                self.builtin_modules,
            ),
            fuel,
        )
    }
}
} // verus!
