//! The configuration that governs how a specifier is mapped to a file.

use vstd::prelude::*;

verus! {

/// The projects that a TypeScript configuration file refers to.
#[derive(Debug, PartialEq, Eq)]
pub enum ProjectReferences {
    /// The references are read from the configuration file itself.
    Auto,
    /// Exactly these configuration files are referred to.
    Paths(Vec<String>),
}

/// The mathematical content of [`ProjectReferences`].
pub enum ProjectReferencesView {
    Auto,
    Paths(Seq<Seq<char>>),
}

impl DeepView for ProjectReferences {
    type V = ProjectReferencesView;

    open spec fn deep_view(&self) -> ProjectReferencesView {
        match self {
            ProjectReferences::Auto => ProjectReferencesView::Auto,
            ProjectReferences::Paths(paths) => ProjectReferencesView::Paths(paths.deep_view()),
        }
    }
}

/// Path mapping taken from a TypeScript configuration file.
#[derive(Debug, PartialEq, Eq)]
pub struct TsconfigSetting {
    /// The configuration file.
    pub config_file: String,
    /// The projects it refers to.
    pub references: ProjectReferences,
}

/// The mathematical content of a [`TsconfigSetting`].
pub struct TsconfigSettingView {
    pub config_file: Seq<char>,
    pub references: ProjectReferencesView,
}

impl DeepView for TsconfigSetting {
    type V = TsconfigSettingView;

    open spec fn deep_view(&self) -> TsconfigSettingView {
        TsconfigSettingView {
            config_file: self.config_file@,
            references: self.references.deep_view(),
        }
    }
}

/// What a request that matches an alias is replaced by.
#[derive(Debug, PartialEq, Eq)]
pub enum AliasTarget {
    /// The path to try in place of the matched prefix.
    Path(String),
    /// The request resolves to an intentionally empty module.
    Ignore,
}

/// The mathematical content of an [`AliasTarget`].
pub enum AliasTargetView {
    Path(Seq<char>),
    Ignore,
}

impl DeepView for AliasTarget {
    type V = AliasTargetView;

    open spec fn deep_view(&self) -> AliasTargetView {
        match self {
            AliasTarget::Path(path) => AliasTargetView::Path(path@),
            AliasTarget::Ignore => AliasTargetView::Ignore,
        }
    }
}

/// The rules by which specifiers are resolved. It is built once for a
/// traversal and only read afterwards.
#[derive(Debug, PartialEq, Eq)]
pub struct ResolveConfig {
    /// The conditions by which conditional exports are picked, in order.
    pub condition_names: Vec<String>,
    /// The package description fields that name an entry file, in order.
    pub main_fields: Vec<String>,
    /// The extensions tried for a specifier without one, in order.
    pub extensions: Vec<String>,
    /// TypeScript path mapping, if any.
    pub tsconfig: Option<TsconfigSetting>,
    /// The alias rules: a specifier prefix and its replacements, in order.
    pub alias: Vec<(String, Vec<AliasTarget>)>,
}

/// The mathematical content of a [`ResolveConfig`].
pub struct ResolveConfigView {
    pub condition_names: Seq<Seq<char>>,
    pub main_fields: Seq<Seq<char>>,
    pub extensions: Seq<Seq<char>>,
    pub tsconfig: Option<TsconfigSettingView>,
    pub alias: Seq<(Seq<char>, Seq<AliasTargetView>)>,
}

impl DeepView for ResolveConfig {
    type V = ResolveConfigView;

    open spec fn deep_view(&self) -> ResolveConfigView {
        ResolveConfigView {
            condition_names: self.condition_names.deep_view(),
            main_fields: self.main_fields.deep_view(),
            extensions: self.extensions.deep_view(),
            tsconfig: self.tsconfig.deep_view(),
            alias: self.alias.deep_view(),
        }
    }
}

/// The references that go with an optional explicit list: the list itself,
/// or automatic discovery where there is none.
pub open spec fn references_for(listed: Option<Seq<Seq<char>>>) -> ProjectReferencesView {
    match listed {
        None => ProjectReferencesView::Auto,
        Some(paths) => ProjectReferencesView::Paths(paths),
    }
}

/// The setting for a configuration file and an optional list of references.
pub open spec fn tsconfig_setting(
    config_file: Seq<char>,
    listed: Option<Seq<Seq<char>>>,
) -> TsconfigSettingView {
    TsconfigSettingView { config_file, references: references_for(listed) }
}

/// The setting for an optional configuration file: none without a file.
pub open spec fn optional_tsconfig_setting(
    config_file: Option<Seq<char>>,
    listed: Option<Seq<Seq<char>>>,
) -> Option<TsconfigSettingView> {
    match config_file {
        None => None,
        Some(file) => Some(tsconfig_setting(file, listed)),
    }
}

/// The targets that stand for a list of replacements: each replacement as a
/// path, in order, or the one target `Ignore` for an empty list.
pub open spec fn alias_targets(replacements: Seq<Seq<char>>) -> Seq<AliasTargetView> {
    if replacements.len() == 0 {
        seq![AliasTargetView::Ignore]
    } else {
        Seq::new(replacements.len(), |i: int| AliasTargetView::Path(replacements[i]))
    }
}

/// The alias rules that stand for a list of prefixes with their
/// replacements: the same prefixes in the same order, each with its targets.
pub open spec fn alias_rules(aliases: Seq<(Seq<char>, Seq<Seq<char>>)>) -> Seq<
    (Seq<char>, Seq<AliasTargetView>),
> {
    Seq::new(aliases.len(), |i: int| (aliases[i].0, alias_targets(aliases[i].1)))
}

/// Builds the path mapping setting for `config_file`. Without a list of
/// references the referenced projects are discovered automatically; with one,
/// exactly the listed projects are used.
pub fn create_tsconfig_option(
    config_file: String,
    tsconfig_references: Option<Vec<String>>,
) -> (setting: TsconfigSetting)
    ensures
        setting.deep_view() == tsconfig_setting(config_file@, tsconfig_references.deep_view()),
{
    let references = match tsconfig_references {
        None => ProjectReferences::Auto,
        Some(paths) => ProjectReferences::Paths(paths),
    };
    TsconfigSetting { config_file, references }
}

/// Turns a list of replacements into alias targets.
fn create_alias_targets(replacements: &Vec<String>) -> (targets: Vec<AliasTarget>)
    ensures
        targets.deep_view() == alias_targets(replacements.deep_view()),
{
    let mut targets: Vec<AliasTarget> = Vec::new();
    if replacements.len() == 0 {
        targets.push(AliasTarget::Ignore);
        assert(targets.deep_view() =~= alias_targets(replacements.deep_view()));
        return targets;
    }
    let mut i: usize = 0;
    while i < replacements.len()
        invariant
            i <= replacements.len(),
            targets.len() == i,
            forall|k: int|
                0 <= k < i ==> (#[trigger] targets[k]).deep_view() == AliasTargetView::Path(
                    replacements[k]@,
                ),
        decreases replacements.len() - i,
    {
        targets.push(AliasTarget::Path(replacements[i].clone()));
        i = i + 1;
    }
    assert(targets.deep_view() =~= alias_targets(replacements.deep_view()));
    targets
}

/// Builds the alias rules for a list of prefixes with their replacements. A
/// prefix without replacements makes matching requests resolve to an empty
/// module; otherwise each replacement is tried as a path, in order.
pub fn create_alias_option(aliases: Vec<(String, Vec<String>)>) -> (rules: Vec<
    (String, Vec<AliasTarget>),
>)
    ensures
        rules.deep_view() == alias_rules(aliases.deep_view()),
{
    let mut rules: Vec<(String, Vec<AliasTarget>)> = Vec::new();
    let mut i: usize = 0;
    while i < aliases.len()
        invariant
            i <= aliases.len(),
            rules.len() == i,
            forall|k: int|
                0 <= k < i ==> (#[trigger] rules[k]).deep_view() == (
                    aliases[k].0@,
                    alias_targets(aliases[k].1.deep_view()),
                ),
        decreases aliases.len() - i,
    {
        let prefix = aliases[i].0.clone();
        let targets = create_alias_targets(&aliases[i].1);
        rules.push((prefix, targets));
        i = i + 1;
    }
    assert(rules.deep_view() =~= alias_rules(aliases.deep_view()));
    rules
}

impl ResolveConfig {
    /// Gathers the resolution rules. Path mapping is configured exactly
    /// where a configuration file is given.
    pub fn new(
        condition_names: Vec<String>,
        main_fields: Vec<String>,
        extensions: Vec<String>,
        tsconfig_config_file: Option<String>,
        tsconfig_references: Option<Vec<String>>,
        alias: Vec<(String, Vec<String>)>,
    ) -> (config: ResolveConfig)
        ensures
            config.deep_view() == (ResolveConfigView {
                condition_names: condition_names.deep_view(),
                main_fields: main_fields.deep_view(),
                extensions: extensions.deep_view(),
                tsconfig: optional_tsconfig_setting(
                    tsconfig_config_file.deep_view(),
                    tsconfig_references.deep_view(),
                ),
                alias: alias_rules(alias.deep_view()),
            }),
    {
        let tsconfig = match tsconfig_config_file {
            None => None,
            Some(config_file) => Some(create_tsconfig_option(config_file, tsconfig_references)),
        };
        let alias = create_alias_option(alias);
        ResolveConfig { condition_names, main_fields, extensions, tsconfig, alias }
    }
}

} // verus!
