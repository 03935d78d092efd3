use module_graph::GraphFailure;
use module_graph::graph::{GraphCounter, Request, Step};
use module_graph::traversal::Phase;

fn texts(list: &[&str]) -> Vec<String> {
    list.iter().map(|text| text.to_string()).collect()
}

fn normalize(path: &str) -> String {
    let mut parts: Vec<&str> = Vec::new();
    for part in path.split('/') {
        match part {
            "" | "." => {}
            ".." => {
                parts.pop();
            }
            other => parts.push(other),
        }
    }
    format!("/{}", parts.join("/"))
}

struct Disk {
    files: Vec<(String, Option<String>)>,
    resolutions: Vec<(String, String)>,
    reads: Vec<String>,
}

impl Disk {
    fn new(files: &[(&str, &str)]) -> Disk {
        Disk {
            files: files.iter().map(|(path, text)| (path.to_string(), Some(text.to_string()))).collect(),
            resolutions: Vec::new(),
            reads: Vec::new(),
        }
    }

    fn with_unreadable(mut self, path: &str) -> Disk {
        self.files.push((path.to_string(), None));
        self
    }

    fn resolve(&mut self, directory: &str, specifier: &str) -> Result<String, String> {
        self.resolutions.push((directory.to_string(), specifier.to_string()));
        let path = if specifier.starts_with('/') {
            normalize(specifier)
        } else {
            normalize(&format!("{}/{}", directory, specifier))
        };
        if self.files.iter().any(|(name, _)| *name == path) {
            Ok(path)
        } else {
            Err(format!("Cannot find module '{}'", specifier))
        }
    }

    fn read(&mut self, path: &str) -> Result<String, String> {
        self.reads.push(path.to_string());
        let place = normalize(path);
        match self.files.iter().find(|(name, _)| *name == place) {
            Some((_, Some(text))) => Ok(text.clone()),
            _ => Err("No such file".to_string()),
        }
    }

    fn answer(&mut self, request: &Request) -> Result<String, String> {
        match request {
            Request::Resolve { directory, specifier } => self.resolve(directory, specifier),
            Request::Read { path } => self.read(path),
        }
    }
}

fn count_with(
    disk: &mut Disk,
    entry_points: &[&str],
    ignored: &[&str],
    builtins: &[&str],
) -> Result<usize, GraphFailure> {
    let mut step =
        GraphCounter::start(texts(entry_points), "/project".to_string(), texts(ignored), texts(builtins));
    for _ in 0..10_000 {
        step = match step {
            Step::Done { count } => return Ok(count),
            Step::Failed { failure } => return Err(failure),
            Step::Ask { counter, request } => counter.advance(disk.answer(&request)),
        };
    }
    panic!("the traversal does not end");
}

fn count(files: &[(&str, &str)], entry_points: &[&str]) -> Result<usize, GraphFailure> {
    count_with(&mut Disk::new(files), entry_points, &[], &[])
}

#[test]
fn single_entry_without_imports_counts_one() {
    assert_eq!(count(&[("/project/a.js", "const a = 1;")], &["./a.js"]), Ok(1));
}

#[test]
fn no_entry_points_count_nothing() {
    assert_eq!(count(&[("/project/a.js", "")], &[]), Ok(0));
}

#[test]
fn the_first_request_resolves_the_first_entry_from_the_base() {
    match GraphCounter::start(texts(&["./a.js", "./b.js"]), "/project".to_string(), vec![], vec![]) {
        Step::Ask { request, .. } => assert_eq!(
            request,
            Request::Resolve { directory: "/project".to_string(), specifier: "./a.js".to_string() }
        ),
        _ => panic!("a resolution is asked for first"),
    }
}

#[test]
fn cyclic_imports_end_and_count_two() {
    let files = [
        ("/project/a.js", "import './b.js';"),
        ("/project/b.js", "import './a.js';"),
    ];
    assert_eq!(count(&files, &["./a.js"]), Ok(2));
}

#[test]
fn a_module_that_imports_itself_counts_once() {
    assert_eq!(count(&[("/project/a.js", "import './a.js';")], &["./a.js"]), Ok(1));
}

#[test]
fn a_chain_is_followed_to_its_end() {
    let files = [
        ("/project/a.js", "import './lib/b.js';"),
        ("/project/lib/b.js", "import './deep/c.js';"),
        ("/project/lib/deep/c.js", "import '../../d.js';"),
        ("/project/d.js", "export const d = 1;"),
        ("/project/unused.js", ""),
    ];
    assert_eq!(count(&files, &["./a.js"]), Ok(4));
}

#[test]
fn a_dependency_of_two_importers_counts_once() {
    let files = [
        ("/project/a.js", "import './shared.js';"),
        ("/project/b.js", "import './shared.js';"),
        ("/project/shared.js", "export const s = 1;"),
    ];
    assert_eq!(count(&files, &["./a.js", "./b.js"]), Ok(3));
}

#[test]
fn a_dependency_imported_twice_by_one_module_counts_once() {
    let files = [
        ("/project/a.js", "import './b.js';\nimport { b } from './b.js';\nimport('./b.js');"),
        ("/project/b.js", "export const b = 1;"),
    ];
    assert_eq!(count(&files, &["./a.js"]), Ok(2));
}

#[test]
fn an_entry_point_given_twice_counts_once() {
    assert_eq!(count(&[("/project/a.js", "")], &["./a.js", "./a.js", "/project/a.js"]), Ok(1));
}

#[test]
fn different_spellings_of_one_path_are_one_module() {
    let files = [
        ("/project/a.js", "import './lib/../b.js';\nimport './b.js';\nimport '/project/b.js';"),
        ("/project/b.js", ""),
    ];
    assert_eq!(count(&files, &["./a.js"]), Ok(2));
}

#[test]
fn the_last_entry_point_is_read_first() {
    let mut disk = Disk::new(&[("/project/a.js", ""), ("/project/b.js", "")]);
    assert_eq!(count_with(&mut disk, &["./a.js", "./b.js"], &[], &[]), Ok(2));
    assert_eq!(disk.reads, texts(&["/project/b.js", "/project/a.js"]));
}

#[test]
fn imports_are_resolved_from_the_directory_of_the_importer() {
    let mut disk = Disk::new(&[
        ("/project/src/a.js", "import './b.js';"),
        ("/project/src/b.js", ""),
    ]);
    assert_eq!(count_with(&mut disk, &["./src/a.js"], &[], &[]), Ok(2));
    assert_eq!(
        disk.resolutions,
        vec![
            ("/project".to_string(), "./src/a.js".to_string()),
            ("/project/src".to_string(), "./b.js".to_string()),
        ]
    );
}

#[test]
fn builtin_imports_add_nothing_and_are_never_resolved() {
    let mut disk = Disk::new(&[(
        "/project/a.js",
        "import fs from 'fs';\nimport path from 'node:path';\nimport('node:fs');",
    )]);
    assert_eq!(count_with(&mut disk, &["./a.js"], &[], &["fs", "path"]), Ok(1));
    assert_eq!(disk.resolutions, vec![("/project".to_string(), "./a.js".to_string())]);
}

#[test]
fn a_builtin_name_must_match_as_a_whole() {
    let mut disk = Disk::new(&[("/project/a.js", "import 'node:fs/promises';")]);
    assert_eq!(
        count_with(&mut disk, &["./a.js"], &[], &["fs"]),
        Err(GraphFailure::Resolve {
            importer: "/project/a.js".to_string(),
            importee: "node:fs/promises".to_string(),
            message: "Cannot find module 'node:fs/promises'".to_string(),
        })
    );
}

#[test]
fn modules_with_an_ignored_extension_are_neither_counted_nor_read() {
    let mut disk = Disk::new(&[
        ("/project/a.js", "import './style.css';\nimport './b.js';"),
        ("/project/b.js", "import './style.css';"),
        ("/project/style.css", "import './missing.js';"),
    ]);
    assert_eq!(count_with(&mut disk, &["./a.js"], &["css"], &[]), Ok(2));
    assert!(!disk.reads.contains(&"/project/style.css".to_string()));
    assert!(disk.resolutions.iter().all(|(_, specifier)| specifier != "./missing.js"));
}

#[test]
fn an_ignored_entry_point_counts_nothing() {
    let mut disk = Disk::new(&[("/project/a.css", "")]);
    assert_eq!(count_with(&mut disk, &["./a.css"], &["css"], &[]), Ok(0));
    assert!(disk.reads.is_empty());
}

#[test]
fn ignored_extensions_are_given_without_the_dot() {
    let mut disk = Disk::new(&[("/project/a.js", "")]);
    assert_eq!(count_with(&mut disk, &["./a.js"], &[".js"], &[]), Ok(1));
}

#[test]
fn imports_without_a_static_specifier_are_passed_over() {
    let files = [("/project/a.js", "const name = './b.js';\nimport(name);\nconsole.log(import.meta.url);")];
    assert_eq!(count(&files, &["./a.js"]), Ok(1));
}

#[test]
fn reexports_are_followed() {
    let files = [
        ("/project/index.js", "export * from './a.js';\nexport { b } from './b.js';"),
        ("/project/a.js", "export const a = 1;"),
        ("/project/b.js", "export const b = 1;"),
    ];
    assert_eq!(count(&files, &["./index.js"]), Ok(3));
}

#[test]
fn typescript_modules_are_read_as_typescript() {
    let files = [
        ("/project/a.ts", "import type { B } from './b.ts';\nconst x: number = 1;\nexport type A = B;"),
        ("/project/b.ts", "export interface B { b: string }"),
        ("/project/c.tsx", "import './a.ts';\nexport const C = () => <div />;"),
    ];
    assert_eq!(count(&files, &["./c.tsx"]), Ok(3));
}

#[test]
fn a_failed_import_resolution_names_importer_and_importee() {
    let files = [
        ("/project/a.js", "import './lib/b.js';"),
        ("/project/lib/b.js", "import './missing.js';"),
    ];
    let failure = count(&files, &["./a.js"]).unwrap_err();
    assert_eq!(
        failure,
        GraphFailure::Resolve {
            importer: "/project/lib/b.js".to_string(),
            importee: "./missing.js".to_string(),
            message: "Cannot find module './missing.js'".to_string(),
        }
    );
    assert_eq!(
        failure.message(),
        "Failed to resolve importer: \"/project/lib/b.js\", importee: \"./missing.js\", message: \"Cannot find module './missing.js'\""
    );
}

#[test]
fn a_failed_entry_resolution_names_base_and_entry() {
    assert_eq!(
        count(&[("/project/a.js", "")], &["./a.js", "./nowhere.js"]),
        Err(GraphFailure::Resolve {
            importer: "/project".to_string(),
            importee: "./nowhere.js".to_string(),
            message: "Cannot find module './nowhere.js'".to_string(),
        })
    );
}

#[test]
fn the_first_failing_import_ends_the_traversal() {
    let mut disk = Disk::new(&[
        ("/project/a.js", "import './missing.js';\nimport './b.js';"),
        ("/project/b.js", ""),
    ]);
    assert!(count_with(&mut disk, &["./a.js"], &[], &[]).is_err());
    assert_eq!(disk.reads, texts(&["/project/a.js"]));
    assert_eq!(disk.resolutions.len(), 2);
}

#[test]
fn an_unreadable_module_is_a_read_failure() {
    let mut disk = Disk::new(&[("/project/a.js", "import './b.js';")]).with_unreadable("/project/b.js");
    let failure = count_with(&mut disk, &["./a.js"], &[], &[]).unwrap_err();
    assert_eq!(
        failure,
        GraphFailure::Read { base_path: "/project".to_string(), module: "b.js".to_string() }
    );
    assert_eq!(failure.message(), "Failed to read file: \"/projectb.js\"");
}

#[test]
fn a_module_without_extension_is_a_failure() {
    let files = [("/project/a.js", "import './LICENSE';"), ("/project/LICENSE", "")];
    let failure = count(&files, &["./a.js"]).unwrap_err();
    assert_eq!(failure, GraphFailure::MissingExtension { path: "/project/LICENSE".to_string() });
    assert_eq!(failure.message(), "Failed to get extension of: \"/project/LICENSE\"");
}

#[test]
fn an_entry_point_without_extension_is_a_failure() {
    assert_eq!(
        count(&[("/project/bin", "")], &["./bin"]),
        Err(GraphFailure::MissingExtension { path: "/project/bin".to_string() })
    );
}

#[test]
fn a_module_of_unknown_kind_is_a_failure() {
    let files = [("/project/a.js", "import './data.json';"), ("/project/data.json", "{}")];
    let failure = count(&files, &["./a.js"]).unwrap_err();
    assert_eq!(failure, GraphFailure::UnknownSourceKind { path: "/project/data.json".to_string() });
    assert_eq!(failure.message(), "Failed to get source type of: \"/project/data.json\"");
}

#[test]
fn a_module_of_unknown_kind_is_read_before_it_fails() {
    let mut disk = Disk::new(&[("/project/a.js", "import './data.json';")]).with_unreadable("/project/data.json");
    assert_eq!(
        count_with(&mut disk, &["./a.js"], &[], &[]),
        Err(GraphFailure::Read { base_path: "/project".to_string(), module: "data.json".to_string() })
    );
}

#[test]
fn an_unparseable_module_is_a_failure() {
    let files = [("/project/a.js", "import './b.js';"), ("/project/b.js", "export {")];
    let failure = count(&files, &["./a.js"]).unwrap_err();
    assert_eq!(failure, GraphFailure::Parse { path: "/project/b.js".to_string() });
    assert_eq!(failure.message(), "Failed to parse file: \"/project/b.js\"");
}

#[test]
fn a_path_that_cannot_be_related_to_the_base_is_a_failure() {
    let step = GraphCounter::start(texts(&["./a.js"]), "/project".to_string(), vec![], vec![]);
    let step = match step {
        Step::Ask { counter, .. } => counter.advance(Ok("relative/a.js".to_string())),
        _ => panic!("a resolution is asked for first"),
    };
    match step {
        Step::Failed { failure } => {
            assert_eq!(
                failure,
                GraphFailure::Unrelated {
                    path: "relative/a.js".to_string(),
                    base_path: "/project".to_string(),
                }
            );
            assert_eq!(
                failure.message(),
                "Failed to relate path: \"relative/a.js\", base: \"/project\""
            );
        }
        _ => panic!("the traversal is given up"),
    }
}

#[test]
fn a_missing_parent_is_put_in_words() {
    let failure = GraphFailure::NoParent { importer: "/".to_string() };
    assert_eq!(failure.message(), "Failed to get parent path of: \"/\"");
}

#[test]
fn modules_outside_the_base_are_counted_by_their_relative_path() {
    let files = [
        ("/project/a.js", "import '../shared/b.js';"),
        ("/shared/b.js", "import '../project/a.js';"),
    ];
    assert_eq!(count(&files, &["./a.js"]), Ok(2));
}

#[test]
fn the_order_of_entry_points_does_not_change_the_count() {
    let files = [
        ("/project/a.js", "import './c.js';\nimport './d.js';"),
        ("/project/b.js", "import './d.js';\nimport './e.js';"),
        ("/project/c.js", "import './b.js';"),
        ("/project/d.js", ""),
        ("/project/e.js", "import './a.js';"),
    ];
    assert_eq!(count(&files, &["./a.js", "./b.js"]), Ok(5));
    assert_eq!(count(&files, &["./b.js", "./a.js"]), Ok(5));
    assert_eq!(count(&files, &["./e.js"]), Ok(5));
    assert_eq!(count(&files, &["./d.js"]), Ok(1));
}

#[test]
fn the_counter_tells_what_it_waits_for() {
    let step = GraphCounter::start(texts(&["./a.js"]), "/project".to_string(), vec![], vec![]);
    let step = match step {
        Step::Ask { counter, request } => {
            assert_eq!(counter.phase(), Phase::Seeding);
            assert_eq!(
                request,
                Request::Resolve {
                    directory: "/project".to_string(),
                    specifier: "./a.js".to_string(),
                }
            );
            counter.advance(Ok("/project/a.js".to_string()))
        }
        _ => panic!("a resolution is asked for first"),
    };
    let step = match step {
        Step::Ask { counter, request } => {
            assert_eq!(counter.phase(), Phase::Reading);
            assert_eq!(request, Request::Read { path: "/project/a.js".to_string() });
            counter.advance(Ok("import './b.js';\nimport 'fs';".to_string()))
        }
        _ => panic!("the entry point is read"),
    };
    let step = match step {
        Step::Ask { counter, request } => {
            assert_eq!(counter.phase(), Phase::Resolving);
            assert_eq!(
                request,
                Request::Resolve { directory: "/project".to_string(), specifier: "./b.js".to_string() }
            );
            counter.advance(Ok("/project/a.js".to_string()))
        }
        _ => panic!("the first import is resolved"),
    };
    let step = match step {
        Step::Ask { counter, request } => {
            assert_eq!(counter.phase(), Phase::Resolving);
            assert_eq!(
                request,
                Request::Resolve { directory: "/project".to_string(), specifier: "fs".to_string() }
            );
            counter.advance(Ok("/project/sub/fs.js".to_string()))
        }
        _ => panic!("the second import is resolved"),
    };
    let step = match step {
        Step::Ask { counter, request } => {
            assert_eq!(counter.phase(), Phase::Reading);
            assert_eq!(request, Request::Read { path: "/project/sub/fs.js".to_string() });
            counter.advance(Ok(String::new()))
        }
        _ => panic!("the dependency is read"),
    };
    match step {
        Step::Done { count } => assert_eq!(count, 2),
        _ => panic!("the traversal is complete"),
    }
}
