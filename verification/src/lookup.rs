//! Lookup in lists of pairs that are keyed by strings.

use vstd::prelude::*;

verus! {

/// The place of the first pair that goes by `key`; the length when there is
/// none.
pub open spec fn first_named<T>(pairs: Seq<(String, T)>, key: Seq<char>) -> int
    decreases pairs.len(),
{
    if pairs.len() == 0 {
        0
    } else if pairs[0].0@ == key {
        0
    } else {
        1 + first_named(pairs.drop_first(), key)
    }
}

/// Where `first_named` points: at the first pair that goes by the key, or past
/// the end when no pair does.
pub proof fn lemma_first_named<T>(pairs: Seq<(String, T)>, key: Seq<char>)
    ensures
        0 <= first_named(pairs, key) <= pairs.len(),
        first_named(pairs, key) < pairs.len() ==> pairs[first_named(pairs, key)].0@ == key,
        forall|j: int| 0 <= j < first_named(pairs, key) ==> (#[trigger] pairs[j]).0@ != key,
    decreases pairs.len(),
{
    if pairs.len() > 0 && pairs[0].0@ != key {
        let rest = pairs.drop_first();
        lemma_first_named(rest, key);
        let at = first_named(pairs, key);
        assert forall|j: int| 0 <= j < at implies (#[trigger] pairs[j]).0@ != key by {
            if j > 0 {
                assert(rest[j - 1] == pairs[j]);
            }
        }
        if at < pairs.len() {
            assert(rest[at - 1] == pairs[at]);
        }
    }
}

/// Looks a key up in a list of pairs: the value of the first pair that goes
/// by it.
pub fn find_named<'a, T>(pairs: &'a Vec<(String, T)>, key: &str) -> (res: Option<&'a T>)
    ensures
        match res {
            Some(value) => first_named(pairs@, key@) < pairs.len() && *value == pairs@[first_named(
                pairs@,
                key@,
            )].1,
            None => first_named(pairs@, key@) == pairs.len(),
        },
{
    let wanted = key.to_owned();
    let mut i: usize = 0;
    proof {
        lemma_first_named(pairs@, key@);
    }
    while i < pairs.len()
        invariant
            i <= pairs.len(),
            wanted@ == key@,
            i <= first_named(pairs@, key@) <= pairs.len(),
            first_named(pairs@, key@) < pairs.len() ==> pairs@[first_named(pairs@, key@)].0@
                == key@,
            forall|j: int| 0 <= j < first_named(pairs@, key@) ==> (#[trigger] pairs@[j]).0@ != key@,
        decreases pairs.len() - i,
    {
        if pairs[i].0 == wanted {
            return Some(&pairs[i].1);
        }
        i += 1;
    }
    None
}

} // verus!
