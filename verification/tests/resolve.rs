use module_graph::resolve::{resolve_outcome, resolve_request, ResolutionFailure, ResolveRequest};

#[test]
fn a_request_looks_from_the_directory_of_the_importer() {
    assert_eq!(
        resolve_request("/project/src/a.js", "./b.js"),
        Ok(ResolveRequest { directory: "/project/src".to_string(), specifier: "./b.js".to_string() })
    );
    assert_eq!(
        resolve_request("a.js", "react"),
        Ok(ResolveRequest { directory: "".to_string(), specifier: "react".to_string() })
    );
}

#[test]
fn an_importer_without_parent_cannot_import() {
    let failure = resolve_request("/", "./b.js").unwrap_err();
    assert_eq!(failure, ResolutionFailure { importer: "/".to_string(), importee: "./b.js".to_string() });
    assert!(resolve_request("", "./b.js").is_err());
}

#[test]
fn a_resolved_path_is_handed_on() {
    assert_eq!(
        resolve_outcome("/project/a.js", "./b.js", Ok("/project/b.js".to_string())),
        Ok("/project/b.js".to_string())
    );
}

#[test]
fn a_failed_resolution_names_importer_and_importee() {
    let failure =
        resolve_outcome("/project/a.js", "./b.js", Err("not found".to_string())).unwrap_err();
    assert_eq!(
        failure,
        ResolutionFailure { importer: "/project/a.js".to_string(), importee: "./b.js".to_string() }
    );
    assert_eq!(
        failure.message(),
        "Failed to resolve importer: \"/project/a.js\", importee: \"./b.js\""
    );
}
