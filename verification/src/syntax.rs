//! What the analysis reads from a module's source text: its top-level
//! declarations and the imports and exports that can be told statically.

use oxc_allocator::Allocator;
use oxc_ast::ast::Statement;
use oxc_module_lexer::ModuleLexer;
use oxc_parser::Parser;
use oxc_span::SourceType;
use vstd::prelude::*;

verus! {

/// How a source text is to be read.
#[derive(Clone, Copy, Debug, PartialEq, Eq, Structural)]
pub struct SourceKind {
    /// TypeScript rather than JavaScript.
    pub typescript: bool,
    /// A TypeScript definition file.
    pub definitions: bool,
    /// An ES module rather than a script.
    pub module: bool,
    /// JSX syntax is accepted.
    pub jsx: bool,
}

/// A top-level statement, as far as counting declarations needs it.
#[derive(Clone, Copy, Debug, PartialEq, Eq, Structural)]
pub enum Declaration {
    /// A `var`, `let` or `const` statement with its number of declarators.
    Variable { declarators: usize },
    /// A function declaration.
    Function,
    /// A class declaration.
    Class,
    /// Any other statement.
    Other,
}

/// What barrel detection reads from a parsed module.
#[derive(Debug, PartialEq, Eq)]
pub struct ModuleOutline {
    /// The top-level statements, in source order.
    pub declarations: Vec<Declaration>,
    /// The name of each export.
    pub exports: Vec<String>,
}

/// The mathematical content of a [`ModuleOutline`].
pub struct OutlineView {
    pub declarations: Seq<Declaration>,
    pub exports: Seq<Seq<char>>,
}

impl View for ModuleOutline {
    type V = OutlineView;

    open spec fn view(&self) -> OutlineView {
        OutlineView { declarations: self.declarations@, exports: self.exports.deep_view() }
    }
}

/// A parsed module: its top-level statements in source order, the specifier
/// of each import where it is a plain string, and the name of each export.
pub struct ModuleView {
    pub declarations: Seq<Declaration>,
    pub imports: Seq<Option<Seq<char>>>,
    pub exports: Seq<Seq<char>>,
}

impl ModuleView {
    /// The part that barrel detection reads.
    pub open spec fn outline(self) -> OutlineView {
        OutlineView { declarations: self.declarations, exports: self.exports }
    }
}

/// The kind that a source text has when nothing else is known of it: a
/// JavaScript module without JSX.
pub open spec fn plain_module_kind() -> SourceKind {
    SourceKind { typescript: false, definitions: false, module: true, jsx: false }
}

/// The kind that `oxc_span::SourceType::from_path` reads off the file name
/// of `path`, if it knows the extension.
pub uninterp spec fn source_kind_of_path(path: Seq<char>) -> Option<SourceKind>;

/// What `oxc_parser` and `oxc_module_lexer` find in `source` read as `kind`,
/// or nothing where the parser gives up.
pub uninterp spec fn parsed_module(source: Seq<char>, kind: SourceKind) -> Option<ModuleView>;

/// `oxc_span::SourceType::default`, which is documented as a JavaScript
/// module without JSX.
#[verifier::external_body]
pub(crate) fn default_source_kind() -> (kind: SourceKind)
    ensures
        kind == plain_module_kind(),
{
    let ty = SourceType::default();
    SourceKind {
        typescript: ty.is_typescript(),
        definitions: ty.is_typescript_definition(),
        module: ty.is_module(),
        jsx: ty.is_jsx(),
    }
}

/// `oxc_span::SourceType::from_path`: the kind that goes with the
/// extension of the file name, or nothing for a path without a file name or
/// with an extension that is none of JavaScript's or TypeScript's.
#[verifier::external_body]
pub(crate) fn source_kind_from_path(path: &str) -> (kind: Option<SourceKind>)
    ensures
        kind == source_kind_of_path(path@),
{
    SourceType::from_path(path).ok().map(|ty| SourceKind {
        typescript: ty.is_typescript(),
        definitions: ty.is_typescript_definition(),
        module: ty.is_module(),
        jsx: ty.is_jsx(),
    })
}

/// `oxc_parser::Parser::parse` on `source`, then
/// `oxc_module_lexer::ModuleLexer::build` on the program: the top-level
/// statements and the exported names. The result depends on the text and the
/// kind alone. It is nothing exactly where the parser reports that it could
/// not recover.
#[verifier::external_body]
pub(crate) fn outline_source(source: &str, kind: SourceKind) -> (outline: Option<ModuleOutline>)
    ensures
        match parsed_module(source@, kind) {
            Some(module) => outline.is_some() && outline.unwrap()@ == module.outline(),
            None => outline.is_none(),
        },
{
    let allocator = Allocator::default();
    let ty = SourceType::default().with_typescript(kind.typescript)
        .with_typescript_definition(kind.definitions).with_module(kind.module).with_jsx(kind.jsx);
    let ret = Parser::new(&allocator, source, ty).parse();
    let lexer = ModuleLexer::new().build(&ret.program);
    (!ret.panicked).then_some(ModuleOutline {
        declarations: ret.program.body.iter().map(|statement| match statement {
            Statement::VariableDeclaration(v) =>
                Declaration::Variable { declarators: v.declarations.len() },
            Statement::FunctionDeclaration(_) => Declaration::Function,
            Statement::ClassDeclaration(_) => Declaration::Class,
            _ => Declaration::Other,
        }).collect(),
        exports: lexer.exports.iter().map(|e| e.n.to_string()).collect(),
    })
}

/// `oxc_parser::Parser::parse` on `source`, then
/// `oxc_module_lexer::ModuleLexer::build` on the program: the specifier of
/// each import in the order found, or nothing in its place where it is no
/// plain string. The result depends on the text and the kind alone. It is
/// nothing exactly where the parser reports that it could not recover.
#[verifier::external_body]
pub(crate) fn import_specifiers(source: &str, kind: SourceKind) -> (imports: Option<
    Vec<Option<String>>,
>)
    ensures
        match parsed_module(source@, kind) {
            Some(module) => imports.is_some() && imports.unwrap().deep_view() == module.imports,
            None => imports.is_none(),
        },
{
    let allocator = Allocator::default();
    let ty = SourceType::default().with_typescript(kind.typescript)
        .with_typescript_definition(kind.definitions).with_module(kind.module).with_jsx(kind.jsx);
    let ret = Parser::new(&allocator, source, ty).parse();
    let lexer = ModuleLexer::new().build(&ret.program);
    (!ret.panicked).then_some(
        lexer.imports.iter().map(|i| i.n.as_ref().map(|n| n.to_string())).collect(),
    )
}

} // verus!
