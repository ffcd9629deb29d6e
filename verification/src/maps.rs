//! Key-unique association lists behind the column maps, with their
//! mathematical `Map` models.

use vstd::prelude::*;

use crate::value::Value;

verus! {

/// The map described by a string-keyed entry list, later entries winning.
pub open spec fn str_assoc_map(entries: Seq<(String, Value)>) -> Map<Seq<char>, Value>
    decreases entries.len(),
{
    if entries.len() == 0 {
        Map::empty()
    } else {
        str_assoc_map(entries.drop_last()).insert(entries.last().0@, entries.last().1)
    }
}

pub open spec fn str_keys_unique(entries: Seq<(String, Value)>) -> bool {
    forall|i: int, j: int|
        0 <= i < j < entries.len() ==> (#[trigger] entries[i]).0@ != (#[trigger] entries[j]).0@
}

/// A key is in the map exactly when some entry carries it.
pub proof fn lemma_str_assoc_dom(entries: Seq<(String, Value)>, k: Seq<char>)
    ensures
        str_assoc_map(entries).contains_key(k) <==> exists|i: int|
            0 <= i < entries.len() && (#[trigger] entries[i]).0@ == k,
    decreases entries.len(),
{
    if entries.len() > 0 {
        lemma_str_assoc_dom(entries.drop_last(), k);
        if entries.last().0@ != k && (exists|i: int|
            0 <= i < entries.len() && (#[trigger] entries[i]).0@ == k) {
            let i = choose|i: int| 0 <= i < entries.len() && (#[trigger] entries[i]).0@ == k;
            assert(entries.drop_last()[i] == entries[i]);
        }
    }
}

/// With pairwise distinct keys, the entry carrying a key gives its value.
pub proof fn lemma_str_assoc_index(entries: Seq<(String, Value)>, i: int)
    requires
        str_keys_unique(entries),
        0 <= i < entries.len(),
    ensures
        str_assoc_map(entries).contains_key(entries[i].0@),
        str_assoc_map(entries)[entries[i].0@] == entries[i].1,
    decreases entries.len(),
{
    if i + 1 < entries.len() {
        lemma_str_assoc_index(entries.drop_last(), i);
        assert(entries.drop_last()[i] == entries[i]);
    }
}

/// Replacing the entry that carries a key updates the map at that key alone.
pub proof fn lemma_str_assoc_update(entries: Seq<(String, Value)>, j: int, key: String, value: Value)
    requires
        str_keys_unique(entries),
        0 <= j < entries.len(),
        entries[j].0@ == key@,
    ensures
        str_assoc_map(entries.update(j, (key, value))) == str_assoc_map(entries).insert(key@, value),
    decreases entries.len(),
{
    let updated = entries.update(j, (key, value));
    if j + 1 == entries.len() {
        assert(updated.drop_last() =~= entries.drop_last());
        lemma_str_assoc_dom(entries.drop_last(), key@);
        assert(forall|i: int| 0 <= i < entries.len() - 1 ==> entries.drop_last()[i] == entries[i]);
        assert(!str_assoc_map(entries.drop_last()).contains_key(key@));
        assert(str_assoc_map(updated) =~= str_assoc_map(entries).insert(key@, value));
    } else {
        assert(updated.drop_last() =~= entries.drop_last().update(j, (key, value)));
        lemma_str_assoc_update(entries.drop_last(), j, key, value);
        assert(entries.drop_last()[j] == entries[j]);
        assert(updated.last() == entries.last());
        assert(entries.last().0@ != key@);
        assert(str_assoc_map(updated) =~= str_assoc_map(entries).insert(key@, value));
    }
}

/// Puts `(key, value)` into a key-unique entry list: replaces the entry
/// already carrying an equal key, else appends a new one.
pub fn str_map_insert(entries: &mut Vec<(String, Value)>, key: String, value: Value)
    requires
        str_keys_unique(old(entries)@),
    ensures
        str_keys_unique(final(entries)@),
        str_assoc_map(final(entries)@) == str_assoc_map(old(entries)@).insert(key@, value),
        !str_assoc_map(old(entries)@).contains_key(key@) ==> final(entries)@ == old(entries)@.push(
            (key, value),
        ),
        str_assoc_map(old(entries)@).contains_key(key@) ==> exists|j: int|
            0 <= j < old(entries)@.len() && old(entries)@[j].0@ == key@ && final(entries)@ == old(
                entries,
            )@.update(j, (key, value)),
    {
    let n = entries.len();
    for i in 0..n
        invariant
            n == entries@.len(),
            *entries == *old(entries),
            str_keys_unique(entries@),
            forall|j: int| 0 <= j < i ==> (#[trigger] entries@[j]).0@ != key@,
    {
        if entries[i].0 == key {
            proof {
                lemma_str_assoc_update(entries@, i as int, key, value);
                lemma_str_assoc_dom(entries@, key@);
            }
            let ghost pre = entries@;
            entries.set(i, (key, value));
            proof {
                assert(forall|j: int|
                    0 <= j < entries@.len() ==> (#[trigger] entries@[j]).0@ == pre[j].0@);
                assert(str_keys_unique(entries@));
            }
            return ;
        }
    }
    proof {
        lemma_str_assoc_dom(entries@, key@);
    }
    let ghost pre = entries@;
    entries.push((key, value));
    proof {
        assert(entries@.drop_last() =~= pre);
        assert(forall|a: int, b: int|
            0 <= a < b < entries@.len() - 1 ==> (#[trigger] entries@[a]) == pre[a]
                && (#[trigger] entries@[b]) == pre[b]);
        assert(str_keys_unique(entries@));
    }
}

} // verus!
