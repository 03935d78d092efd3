//! Collections of text.

use vstd::hash_set::StringHashSet;
use vstd::prelude::*;

verus! {

/// Gathers the texts of `list` in a set.
pub(crate) fn string_set(list: &Vec<String>) -> (set: StringHashSet)
    ensures
        set@ == list.deep_view().to_set(),
{
    let mut set = StringHashSet::new();
    let mut i: usize = 0;
    while i < list.len()
        invariant
            i <= list.len(),
            set@ == list.deep_view().take(i as int).to_set(),
        decreases list.len() - i,
    {
        let text = list[i].clone();
        set.insert(text);
        proof {
            let texts = list.deep_view();
            assert(texts.take(i + 1) == texts.take(i as int).push(texts[i as int]));
            texts.take(i as int).lemma_push_to_set_commute(texts[i as int]);
        }
        i = i + 1;
    }
    proof {
        assert(list.deep_view().take(i as int) == list.deep_view());
    }
    set
}

/// The items of `list` in reverse order.
pub(crate) fn reversed<T>(list: Vec<T>) -> (turned: Vec<T>)
    ensures
        turned@ == list@.reverse(),
{
    let mut rest = list;
    let mut turned: Vec<T> = Vec::new();
    loop
        invariant
            rest.len() + turned.len() == list.len(),
            forall|k: int| 0 <= k < rest.len() ==> rest[k] == list[k],
            forall|k: int| 0 <= k < turned.len() ==> turned[k] == list[list.len() - 1 - k],
        decreases rest.len(),
    {
        match rest.pop() {
            None => {
                assert(turned@ =~= list@.reverse());
                return turned;
            },
            Some(item) => {
                turned.push(item);
            },
        }
    }
}

} // verus!
