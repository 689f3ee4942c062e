//! Lists of named values in which a later entry replaces an earlier one of the
//! same name.

use vstd::prelude::*;

verus! {

/// The mapping that a list of named values stands for.
pub open spec fn bindings(entries: Seq<(String, String)>) -> Map<Seq<char>, Seq<char>>
    decreases entries.len(),
{
    if entries.len() == 0 {
        Map::empty()
    } else {
        bindings(entries.drop_last()).insert(entries.last().0@, entries.last().1@)
    }
}

/// A list followed by another stands for the first mapping overridden by the
/// second.
pub proof fn lemma_bindings_concat(first: Seq<(String, String)>, second: Seq<(String, String)>)
    ensures
        bindings(first + second) == bindings(first).union_prefer_right(bindings(second)),
    decreases second.len(),
{
    if second.len() == 0 {
        assert(first + second =~= first);
        assert(bindings(first).union_prefer_right(bindings(second)) =~= bindings(first));
    } else {
        let whole = first + second;
        assert(whole.drop_last() =~= first + second.drop_last());
        assert(whole.last() == second.last());
        lemma_bindings_concat(first, second.drop_last());
        assert(bindings(whole) =~= bindings(first).union_prefer_right(bindings(second)));
    }
}

/// Looks a name up: the value of the last entry with that name.
pub fn lookup<'a>(entries: &'a Vec<(String, String)>, key: &String) -> (r: Option<&'a String>)
    ensures
        match r {
            Some(value) => bindings(entries@).contains_key(key@) && bindings(entries@)[key@]
                == value@,
            None => !bindings(entries@).contains_key(key@),
        },
{
    let mut i: usize = entries.len();
    assert(entries@.take(i as int) =~= entries@);
    while i > 0
        invariant
            i <= entries.len(),
            bindings(entries@).contains_key(key@) == bindings(
                entries@.take(i as int),
            ).contains_key(key@),
            bindings(entries@).contains_key(key@) ==> bindings(entries@)[key@] == bindings(
                entries@.take(i as int),
            )[key@],
        decreases i,
    {
        i -= 1;
        proof {
            let upto = entries@.take(i + 1);
            assert(upto.drop_last() =~= entries@.take(i as int));
            assert(upto.last() == entries@[i as int]);
        }
        if entries[i].0 == *key {
            return Some(&entries[i].1);
        }
    }
    None
}

} // verus!
