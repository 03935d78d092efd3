//! Classification of import specifiers.

use regex::Regex;
use vstd::prelude::*;

verus! {

/// The character class that the first character of a bare specifier lies in.
pub const PACKAGE_INITIAL_CLASS: &'static str = "[@a-zA-Z]";

/// The specifier with every single quote taken out.
pub open spec fn strip_quotes(specifier: Seq<char>) -> Seq<char> {
    specifier.filter(|c: char| c != '\'')
}

/// Whether `c` can open a package name: `@` or an ASCII letter.
pub open spec fn is_package_initial(c: char) -> bool {
    c == '@' || ('a' <= c && c <= 'z') || ('A' <= c && c <= 'Z')
}

/// A specifier is bare when, quotes aside, it is not empty and opens with
/// `@` or an ASCII letter.
pub open spec fn is_bare(specifier: Seq<char>) -> bool {
    let stripped = strip_quotes(specifier);
    stripped.len() > 0 && is_package_initial(stripped[0])
}

/// The prefix that marks a specifier as naming a module of the runtime.
pub const BUILTIN_PREFIX: &'static str = "node:";

/// Whether `text` opens with `prefix`.
pub open spec fn opens_with(text: Seq<char>, prefix: Seq<char>) -> bool {
    prefix.len() <= text.len() && text.take(prefix.len() as int) == prefix
}

/// The name under which a specifier is looked up among the builtin modules:
/// the specifier without the builtin prefix, where it opens with it.
pub open spec fn builtin_name(specifier: Seq<char>) -> Seq<char> {
    if opens_with(specifier, BUILTIN_PREFIX@) {
        specifier.skip(BUILTIN_PREFIX@.len() as int)
    } else {
        specifier
    }
}

/// The first character that is no quote decides: a specifier that opens
/// with a letter or `@` is bare, one that opens with `.` or `/` is not.
pub proof fn lemma_first_character_decides(specifier: Seq<char>)
    requires
        strip_quotes(specifier).len() > 0,
    ensures
        is_bare(specifier) == is_package_initial(strip_quotes(specifier)[0]),
        strip_quotes(specifier)[0] == '@' ==> is_bare(specifier),
        'a' <= strip_quotes(specifier)[0] <= 'z' ==> is_bare(specifier),
        'A' <= strip_quotes(specifier)[0] <= 'Z' ==> is_bare(specifier),
        strip_quotes(specifier)[0] == '.' ==> !is_bare(specifier),
        strip_quotes(specifier)[0] == '/' ==> !is_bare(specifier),
{
}

/// An empty specifier, or one made of quotes alone, is not bare.
pub proof fn lemma_empty_is_not_bare(specifier: Seq<char>)
    requires
        strip_quotes(specifier).len() == 0,
    ensures
        !is_bare(specifier),
{
}

/// Compiles `class` with `regex::Regex::new` and searches the text that
/// consists of `c` alone with `regex::Regex::is_match`. The contract speaks
/// of one pattern only, the class of package initials: it compiles, and the
/// search succeeds exactly where `c` is `@` or an ASCII letter.
#[verifier::external_body]
fn class_matches(class: &str, c: char) -> (matched: bool)
    requires
        class@ == PACKAGE_INITIAL_CLASS@,
    ensures
        matched == is_package_initial(c),
{
    Regex::new(class).unwrap().is_match(&c.to_string())
}

/// Quotes in front of the first other character leave no trace in the
/// stripped text, which then opens with that character.
proof fn lemma_strip_leading_quotes(specifier: Seq<char>, n: int)
    requires
        0 <= n <= specifier.len(),
        forall|i: int| 0 <= i < n ==> specifier[i] == '\'',
    ensures
        n == specifier.len() ==> strip_quotes(specifier).len() == 0,
        n < specifier.len() && specifier[n] != '\'' ==> strip_quotes(specifier).len() > 0
            && strip_quotes(specifier)[0] == specifier[n],
    decreases specifier.len(),
{
    reveal(Seq::filter);
    if specifier.len() > 0 {
        let front = specifier.drop_last();
        if n <= front.len() {
            lemma_strip_leading_quotes(front, n);
        } else {
            lemma_strip_leading_quotes(front, n - 1);
        }
    }
}

/// Tells a package-style specifier from a relative or absolute one.
pub fn is_bare_module_specifier(specifier: &str) -> (bare: bool)
    ensures
        bare == is_bare(specifier@),
{
    let len: usize = specifier.unicode_len();
    let mut i: usize = 0;
    while i < len
        invariant
            len == specifier@.len(),
            i <= len,
            forall|k: int| 0 <= k < i ==> specifier@[k] == '\'',
        decreases len - i,
    {
        let c = specifier.get_char(i);
        if c != '\'' {
            proof {
                lemma_strip_leading_quotes(specifier@, i as int);
            }
            return class_matches(PACKAGE_INITIAL_CLASS, c);
        }
        i = i + 1;
    }
    proof {
        lemma_strip_leading_quotes(specifier@, len as int);
    }
    false
}

/// Whether `text` opens with `prefix`.
fn has_prefix(text: &str, prefix: &str) -> (found: bool)
    ensures
        found == opens_with(text@, prefix@),
{
    let text_len: usize = text.unicode_len();
    let prefix_len: usize = prefix.unicode_len();
    if prefix_len > text_len {
        return false;
    }
    let mut i: usize = 0;
    while i < prefix_len
        invariant
            text_len == text@.len(),
            prefix_len == prefix@.len(),
            prefix_len <= text_len,
            i <= prefix_len,
            forall|k: int| 0 <= k < i ==> text@[k] == prefix@[k],
        decreases prefix_len - i,
    {
        if text.get_char(i) != prefix.get_char(i) {
            assert(text@.take(prefix_len as int)[i as int] != prefix@[i as int]);
            return false;
        }
        i = i + 1;
    }
    assert(text@.take(prefix_len as int) =~= prefix@);
    true
}

/// The name under which `specifier` is looked up among the builtin modules.
pub fn builtin_module_name(specifier: &str) -> (name: String)
    ensures
        name@ == builtin_name(specifier@),
{
    if has_prefix(specifier, BUILTIN_PREFIX) {
        let from: usize = BUILTIN_PREFIX.unicode_len();
        let to: usize = specifier.unicode_len();
        assert(specifier@.subrange(from as int, to as int) == specifier@.skip(from as int));
        String::from_str(specifier.substring_char(from, to))
    } else {
        String::from_str(specifier)
    }
}

} // verus!
