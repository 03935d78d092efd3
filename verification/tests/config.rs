use module_graph::config::{
    create_alias_option, create_tsconfig_option, AliasTarget, ProjectReferences, ResolveConfig,
    TsconfigSetting,
};

fn texts(list: &[&str]) -> Vec<String> {
    list.iter().map(|text| text.to_string()).collect()
}

#[test]
fn tsconfig_without_references_discovers_them() {
    assert_eq!(
        create_tsconfig_option("tsconfig.json".to_string(), None),
        TsconfigSetting {
            config_file: "tsconfig.json".to_string(),
            references: ProjectReferences::Auto,
        }
    );
}

#[test]
fn tsconfig_with_references_uses_exactly_those() {
    assert_eq!(
        create_tsconfig_option("/p/tsconfig.json".to_string(), Some(texts(&["./a", "./b"]))),
        TsconfigSetting {
            config_file: "/p/tsconfig.json".to_string(),
            references: ProjectReferences::Paths(texts(&["./a", "./b"])),
        }
    );
}

#[test]
fn tsconfig_with_an_empty_list_refers_to_nothing() {
    assert_eq!(
        create_tsconfig_option("tsconfig.json".to_string(), Some(vec![])).references,
        ProjectReferences::Paths(vec![])
    );
}

#[test]
fn an_alias_without_replacements_is_ignored() {
    assert_eq!(
        create_alias_option(vec![("fs".to_string(), vec![])]),
        vec![("fs".to_string(), vec![AliasTarget::Ignore])]
    );
}

#[test]
fn alias_replacements_are_paths_in_order() {
    assert_eq!(
        create_alias_option(vec![
            ("@app".to_string(), texts(&["./src", "./generated"])),
            ("empty".to_string(), vec![]),
            ("@lib".to_string(), texts(&["./lib"])),
        ]),
        vec![
            (
                "@app".to_string(),
                vec![
                    AliasTarget::Path("./src".to_string()),
                    AliasTarget::Path("./generated".to_string()),
                ],
            ),
            ("empty".to_string(), vec![AliasTarget::Ignore]),
            ("@lib".to_string(), vec![AliasTarget::Path("./lib".to_string())]),
        ]
    );
}

#[test]
fn no_aliases_give_no_rules() {
    assert_eq!(create_alias_option(vec![]), vec![]);
}

#[test]
fn a_config_without_tsconfig_file_has_no_path_mapping() {
    let config = ResolveConfig::new(
        texts(&["import", "node"]),
        texts(&["module", "main"]),
        texts(&[".js", ".ts"]),
        None,
        Some(texts(&["./ignored"])),
        vec![],
    );
    assert_eq!(
        config,
        ResolveConfig {
            condition_names: texts(&["import", "node"]),
            main_fields: texts(&["module", "main"]),
            extensions: texts(&[".js", ".ts"]),
            tsconfig: None,
            alias: vec![],
        }
    );
}

#[test]
fn a_config_with_tsconfig_file_and_aliases() {
    let config = ResolveConfig::new(
        vec![],
        vec![],
        texts(&[".js"]),
        Some("tsconfig.json".to_string()),
        None,
        vec![("@".to_string(), texts(&["./src"]))],
    );
    assert_eq!(
        config.tsconfig,
        Some(TsconfigSetting {
            config_file: "tsconfig.json".to_string(),
            references: ProjectReferences::Auto,
        })
    );
    assert_eq!(config.alias, vec![("@".to_string(), vec![AliasTarget::Path("./src".to_string())])]);
}
