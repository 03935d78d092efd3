use module_graph::barrel::{is_barrel, is_barrel_file_rs, ParseFailure};
use module_graph::syntax::{Declaration, ModuleOutline};

fn names(list: &[&str]) -> Vec<String> {
    list.iter().map(|name| name.to_string()).collect()
}

fn outline(declarations: Vec<Declaration>, exports: &[&str]) -> ModuleOutline {
    ModuleOutline { declarations, exports: names(exports) }
}

#[test]
fn reexports_above_the_threshold_make_a_barrel() {
    let module = outline(vec![], &["a", "b", "c", "d", "e"]);
    assert!(is_barrel(&module, 3));
    assert!(is_barrel(&module, 4));
}

#[test]
fn exports_equal_to_the_threshold_make_no_barrel() {
    let module = outline(vec![], &["a", "b", "c", "d", "e"]);
    assert!(!is_barrel(&module, 5));
    assert!(!is_barrel(&module, 6));
}

#[test]
fn equal_counts_never_make_a_barrel() {
    let module = outline(
        vec![Declaration::Variable { declarators: 2 }, Declaration::Function],
        &["a", "b", "c"],
    );
    for threshold in [0, 1, 2, 3, 4, 100, u32::MAX] {
        assert!(!is_barrel(&module, threshold));
    }
}

#[test]
fn each_kind_of_declaration_counts() {
    let exports = ["a", "b", "c", "d"];
    let three = vec![
        Declaration::Variable { declarators: 1 },
        Declaration::Function,
        Declaration::Class,
        Declaration::Other,
        Declaration::Other,
    ];
    assert!(is_barrel(&outline(three, &exports), 0));
    let four = vec![
        Declaration::Variable { declarators: 2 },
        Declaration::Function,
        Declaration::Class,
    ];
    assert!(!is_barrel(&outline(four, &exports), 0));
}

#[test]
fn a_variable_statement_without_declarators_counts_nothing() {
    let module = outline(vec![Declaration::Variable { declarators: 0 }], &["a"]);
    assert!(is_barrel(&module, 0));
}

#[test]
fn repeated_export_names_count_once() {
    let two = vec![Declaration::Function, Declaration::Class];
    assert!(!is_barrel(&outline(two.clone(), &["a", "a", "b"]), 0));
    assert!(is_barrel(&outline(two, &["a", "a", "b", "c"]), 0));
    assert!(!is_barrel(&outline(vec![], &["a", "a", "a"]), 1));
}

#[test]
fn a_module_without_exports_is_no_barrel() {
    assert!(!is_barrel(&outline(vec![], &[]), 0));
    assert!(!is_barrel(&outline(vec![Declaration::Other], &[]), 0));
}

#[test]
fn huge_declarator_counts_do_not_overflow() {
    let module = outline(
        vec![
            Declaration::Variable { declarators: usize::MAX },
            Declaration::Variable { declarators: usize::MAX },
            Declaration::Function,
        ],
        &["a", "b"],
    );
    assert!(!is_barrel(&module, 0));
}

#[test]
fn barrel_file_with_five_reexports() {
    let source = "export { a, b, c, d, e } from './lib.js';".to_string();
    assert_eq!(is_barrel_file_rs(source.clone(), 3), Ok(true));
    assert_eq!(is_barrel_file_rs(source.clone(), 4), Ok(true));
    assert_eq!(is_barrel_file_rs(source, 5), Ok(false));
}

#[test]
fn file_with_three_declarations_and_three_exports() {
    let source = "const a = 1, b = 2;\nfunction c() {}\nexport { a, b, c };".to_string();
    for threshold in [0, 1, 2, 3, 10] {
        assert_eq!(is_barrel_file_rs(source.clone(), threshold), Ok(false));
    }
}

#[test]
fn exported_declarations_are_not_top_level_declarations() {
    let source = "export const a = 1;\nexport function b() {}\nexport class C {}".to_string();
    assert_eq!(is_barrel_file_rs(source.clone(), 2), Ok(true));
    assert_eq!(is_barrel_file_rs(source, 3), Ok(false));
}

#[test]
fn declarators_are_counted_one_by_one() {
    let source = "let a, b;\nexport { a, b };\nexport { c } from './c.js';".to_string();
    assert_eq!(is_barrel_file_rs(source, 0), Ok(true));
    let source = "let a, b, d;\nexport { a, b };\nexport { c } from './c.js';".to_string();
    assert_eq!(is_barrel_file_rs(source, 0), Ok(false));
}

#[test]
fn classes_and_functions_count_one_each() {
    let source = "class A {}\nfunction b() {}\nexport { A, b };\nexport { c } from './c.js';".to_string();
    assert_eq!(is_barrel_file_rs(source, 0), Ok(true));
    let source = "class A {}\nfunction b() {}\nvar d;\nexport { A, b };\nexport { c } from './c.js';".to_string();
    assert_eq!(is_barrel_file_rs(source, 0), Ok(false));
}

#[test]
fn an_empty_file_is_no_barrel() {
    assert_eq!(is_barrel_file_rs(String::new(), 0), Ok(false));
}

#[test]
fn default_and_namespace_exports_count() {
    let source = "export default 1;\nexport * as ns from './ns.js';".to_string();
    assert_eq!(is_barrel_file_rs(source.clone(), 1), Ok(true));
    assert_eq!(is_barrel_file_rs(source, 2), Ok(false));
}

#[test]
fn unparseable_source_is_a_parse_failure() {
    let source = "export {".to_string();
    assert_eq!(is_barrel_file_rs(source, 0), Err(ParseFailure {}));
}
