use module_graph::is_bare_module_specifier;
use module_graph::specifier::builtin_module_name;

#[test]
fn test_is_bare_module_specifier() {
    assert!(is_bare_module_specifier("@foo"));
    assert!(is_bare_module_specifier("bar"));
    assert!(!is_bare_module_specifier("/baz"));
    assert!(!is_bare_module_specifier("./qux"));
}

#[test]
fn quotes_are_stripped_before_classification() {
    assert!(is_bare_module_specifier("'@scope/pkg'"));
    assert!(is_bare_module_specifier("'react'"));
    assert!(is_bare_module_specifier("''lodash"));
    assert!(!is_bare_module_specifier("'./local'"));
    assert!(!is_bare_module_specifier("'/abs'"));
}

#[test]
fn empty_specifiers_are_not_bare() {
    assert!(!is_bare_module_specifier(""));
    assert!(!is_bare_module_specifier("'"));
    assert!(!is_bare_module_specifier("''"));
}

#[test]
fn every_ascii_letter_opens_a_bare_specifier() {
    for c in ('a'..='z').chain('A'..='Z') {
        let specifier = format!("{}x", c);
        assert!(is_bare_module_specifier(&specifier), "{}", specifier);
    }
    assert!(is_bare_module_specifier("@"));
}

#[test]
fn other_first_characters_are_not_bare() {
    for specifier in [".", "..", "../up", "/", "#internal", "1abc", "_private", "~home", " lead", "[x]", "`tick", "{x}"] {
        assert!(!is_bare_module_specifier(specifier), "{}", specifier);
    }
}

#[test]
fn non_ascii_first_characters_are_not_bare() {
    assert!(!is_bare_module_specifier("électron"));
    assert!(!is_bare_module_specifier("日本語"));
    assert!(!is_bare_module_specifier("'ß'"));
}

#[test]
fn only_the_first_character_counts() {
    assert!(is_bare_module_specifier("a/./../b"));
    assert!(is_bare_module_specifier("a日本語"));
    assert!(!is_bare_module_specifier("./a"));
    assert!(!is_bare_module_specifier(".'a"));
}

#[test]
fn builtin_prefix_is_stripped() {
    assert_eq!(builtin_module_name("node:fs"), "fs");
    assert_eq!(builtin_module_name("node:fs/promises"), "fs/promises");
    assert_eq!(builtin_module_name("node:"), "");
}

#[test]
fn names_without_the_builtin_prefix_are_kept() {
    assert_eq!(builtin_module_name("fs"), "fs");
    assert_eq!(builtin_module_name(""), "");
    assert_eq!(builtin_module_name("node"), "node");
    assert_eq!(builtin_module_name("nodes:fs"), "nodes:fs");
    assert_eq!(builtin_module_name("./node:fs"), "./node:fs");
    assert_eq!(builtin_module_name("Node:fs"), "Node:fs");
}

#[test]
fn builtin_prefix_is_stripped_once() {
    assert_eq!(builtin_module_name("node:node:fs"), "node:fs");
}
