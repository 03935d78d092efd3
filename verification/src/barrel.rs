//! Detection of barrel files: modules that mostly pass on what other modules
//! export.

use crate::syntax::{
    default_source_kind, outline_source, parsed_module, plain_module_kind, Declaration,
    ModuleOutline, OutlineView,
};
use crate::text::string_set;
use vstd::prelude::*;

verus! {

/// The source text could not be parsed.
#[derive(Clone, Copy, Debug, PartialEq, Eq, Structural)]
pub struct ParseFailure {}

/// The number of bindings that one top-level statement declares.
pub open spec fn bindings_declared(declaration: Declaration) -> nat {
    match declaration {
        Declaration::Variable { declarators } => declarators as nat,
        Declaration::Function => 1,
        Declaration::Class => 1,
        Declaration::Other => 0,
    }
}

/// The number of bindings that the top-level statements declare together.
pub open spec fn declaration_count(declarations: Seq<Declaration>) -> nat
    decreases declarations.len(),
{
    if declarations.len() == 0 {
        0
    } else {
        declaration_count(declarations.drop_last()) + bindings_declared(declarations.last())
    }
}

/// The number of distinct names among the exports.
pub open spec fn export_count(exports: Seq<Seq<char>>) -> nat {
    exports.to_set().len()
}

/// A module is a barrel when it exports more names than it declares bindings
/// and more names than the threshold.
pub open spec fn is_barrel_module(module: OutlineView, threshold: nat) -> bool {
    declaration_count(module.declarations) < export_count(module.exports) && export_count(
        module.exports,
    ) > threshold
}

/// A module that declares as many bindings as it exports names is no barrel,
/// whatever the threshold.
pub proof fn lemma_equal_counts_never_barrel(module: OutlineView, threshold: nat)
    requires
        declaration_count(module.declarations) == export_count(module.exports),
    ensures
        !is_barrel_module(module, threshold),
{
}

/// A module without declarations is a barrel exactly when its distinct
/// exports outnumber the threshold; one more than the threshold is enough,
/// the threshold itself is not.
pub proof fn lemma_threshold_is_strict(module: OutlineView, threshold: nat)
    requires
        declaration_count(module.declarations) == 0,
    ensures
        is_barrel_module(module, threshold) <==> export_count(module.exports) > threshold,
        export_count(module.exports) == threshold + 1 ==> is_barrel_module(module, threshold),
        export_count(module.exports) == threshold ==> !is_barrel_module(module, threshold),
{
}

/// Counting more statements never lowers the count.
proof fn lemma_declaration_count_grows(declarations: Seq<Declaration>, n: int)
    requires
        0 <= n <= declarations.len(),
    ensures
        declaration_count(declarations.take(n)) <= declaration_count(declarations),
    decreases declarations.len() - n,
{
    if n == declarations.len() {
        assert(declarations.take(n) == declarations);
    } else {
        lemma_declaration_count_grows(declarations, n + 1);
        assert(declarations.take(n + 1).drop_last() == declarations.take(n));
    }
}

/// Whether the statements declare fewer than `limit` bindings.
fn declares_fewer_than(declarations: &Vec<Declaration>, limit: usize) -> (fewer: bool)
    ensures
        fewer == (declaration_count(declarations@) < limit),
{
    let mut counted: usize = 0;
    let mut i: usize = 0;
    while i < declarations.len()
        invariant
            i <= declarations.len(),
            counted == declaration_count(declarations@.take(i as int)),
            counted < limit || (i == 0 && limit == 0),
        decreases declarations.len() - i,
    {
        let declared: usize = match declarations[i] {
            Declaration::Variable { declarators } => declarators,
            Declaration::Function => 1,
            Declaration::Class => 1,
            Declaration::Other => 0,
        };
        proof {
            assert(declarations@.take(i + 1).drop_last() == declarations@.take(i as int));
            lemma_declaration_count_grows(declarations@, i + 1);
        }
        if limit == 0 || declared >= limit - counted {
            return false;
        }
        counted = counted + declared;
        i = i + 1;
    }
    proof {
        assert(declarations@.take(i as int) == declarations@);
    }
    counted < limit
}

/// The number of distinct names in `exports`.
fn count_distinct(exports: &Vec<String>) -> (count: usize)
    ensures
        count == export_count(exports.deep_view()),
{
    broadcast use vstd::hash_set::group_hash_set_axioms;

    string_set(exports).len()
}

/// Applies the barrel heuristic to a parsed module.
pub fn is_barrel(module: &ModuleOutline, threshold: u32) -> (barrel: bool)
    ensures
        barrel == is_barrel_module(module@, threshold as nat),
{
    let exports = count_distinct(&module.exports);
    declares_fewer_than(&module.declarations, exports) && exports > threshold as usize
}

/// Parses `source` as a JavaScript module and tells whether it is a barrel
/// file: one that exports more names than it declares bindings, and more
/// than `amount_of_exports_to_consider_module_as_barrel`.
pub fn is_barrel_file_rs(
    source: String,
    amount_of_exports_to_consider_module_as_barrel: u32,
) -> (outcome: Result<bool, ParseFailure>)
    ensures
        match parsed_module(source@, plain_module_kind()) {
            Some(module) => outcome == Ok::<bool, ParseFailure>(
                is_barrel_module(
                    module.outline(),
                    amount_of_exports_to_consider_module_as_barrel as nat,
                ),
            ),
            None => outcome == Err::<bool, ParseFailure>(ParseFailure {  }),
        },
{
    match outline_source(source.as_str(), default_source_kind()) {
        Some(module) => Ok(is_barrel(&module, amount_of_exports_to_consider_module_as_barrel)),
        None => Err(ParseFailure {  }),
    }
}

} // verus!
