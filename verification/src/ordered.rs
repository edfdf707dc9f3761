//! Association lists keyed by name and kept in the order of names.

use crate::text::{
    lemma_name_less_connected, lemma_name_less_transitive, name_less, name_precedes, same_name,
};
use vstd::prelude::*;

verus! {

/// The first index at which `p` holds, or the length if there is none.
pub open spec fn first_index<T>(s: Seq<T>, p: spec_fn(T) -> bool) -> int
    decreases s.len(),
{
    if s.len() == 0 || p(s[0]) {
        0
    } else {
        1 + first_index(s.drop_first(), p)
    }
}

/// The first index at which `p` holds is in range, `p` holds there, and `p` holds nowhere
/// before.
pub proof fn lemma_first_index<T>(s: Seq<T>, p: spec_fn(T) -> bool)
    ensures
        0 <= first_index(s, p) <= s.len(),
        forall|j: int| 0 <= j < first_index(s, p) ==> !p(#[trigger] s[j]),
        first_index(s, p) < s.len() ==> p(s[first_index(s, p)]),
    decreases s.len(),
{
    if s.len() > 0 && !p(s[0]) {
        let rest = s.drop_first();
        lemma_first_index(rest, p);
        assert forall|j: int| 0 <= j < first_index(s, p) implies !p(#[trigger] s[j]) by {
            if j > 0 {
                assert(s[j] == rest[j - 1]);
            }
        }
    }
}

/// An index at which `p` holds, and before which it does not, is the first.
pub proof fn lemma_first_index_is<T>(s: Seq<T>, p: spec_fn(T) -> bool, i: int)
    requires
        0 <= i <= s.len(),
        forall|j: int| 0 <= j < i ==> !p(#[trigger] s[j]),
        i < s.len() ==> p(s[i]),
    ensures
        first_index(s, p) == i,
    decreases s.len(),
{
    if s.len() > 0 && !p(s[0]) {
        let rest = s.drop_first();
        lemma_first_index_is(rest, p, i - 1);
    }
}

/// The entries that carry the given key.
pub open spec fn key_is<V>(key: Seq<char>) -> spec_fn((Seq<char>, V)) -> bool {
    |e: (Seq<char>, V)| e.0 == key
}

/// The entries whose key does not precede the given key.
pub open spec fn key_not_before<V>(key: Seq<char>) -> spec_fn((Seq<char>, V)) -> bool {
    |e: (Seq<char>, V)| !name_less(e.0, key)
}

/// The names equal to the given name.
pub open spec fn name_is(name: Seq<char>) -> spec_fn(Seq<char>) -> bool {
    |n: Seq<char>| n == name
}

/// Index of the first entry with the given key, or the length if there is none.
pub open spec fn key_index<V>(entries: Seq<(Seq<char>, V)>, key: Seq<char>) -> int {
    first_index(entries, key_is(key))
}

/// Whether some entry carries the given key.
pub open spec fn has_key<V>(entries: Seq<(Seq<char>, V)>, key: Seq<char>) -> bool {
    key_index(entries, key) < entries.len()
}

/// Index of the first entry whose key does not precede `key`.
pub open spec fn key_position<V>(entries: Seq<(Seq<char>, V)>, key: Seq<char>) -> int {
    first_index(entries, key_not_before(key))
}

/// The list with a new entry put before the first entry whose key does not precede `key`.
pub open spec fn insert_entry<V>(entries: Seq<(Seq<char>, V)>, key: Seq<char>, value: V) -> Seq<
    (Seq<char>, V),
> {
    entries.insert(key_position(entries, key), (key, value))
}

/// The list in which `key` carries `value`: in place of what it carried, or as a new entry
/// in the order of keys.
pub open spec fn set_entry<V>(entries: Seq<(Seq<char>, V)>, key: Seq<char>, value: V) -> Seq<
    (Seq<char>, V),
> {
    let i = key_index(entries, key);
    if i < entries.len() {
        entries.update(i, (key, value))
    } else {
        insert_entry(entries, key, value)
    }
}

/// The keys increase strictly from entry to entry.
pub open spec fn sorted_by_key<V>(entries: Seq<(Seq<char>, V)>) -> bool {
    forall|i: int, j: int|
        0 <= i < j < entries.len() ==> name_less(
            (#[trigger] entries[i]).0,
            (#[trigger] entries[j]).0,
        )
}

/// Index of the first occurrence of a name in a list of names, or the length.
pub open spec fn name_index(names: Seq<Seq<char>>, name: Seq<char>) -> int {
    first_index(names, name_is(name))
}

/// A key is present exactly if some entry carries it.
pub proof fn lemma_has_key<V>(entries: Seq<(Seq<char>, V)>, key: Seq<char>)
    ensures
        has_key(entries, key) <==> exists|i: int|
            0 <= i < entries.len() && (#[trigger] entries[i]).0 == key,
        has_key(entries, key) ==> 0 <= key_index(entries, key) < entries.len()
            && entries[key_index(entries, key)].0 == key,
{
    let p = key_is::<V>(key);
    lemma_first_index(entries, p);
}

/// Inserting an absent key into a sorted list leaves it sorted.
pub proof fn lemma_insert_entry_sorted<V>(entries: Seq<(Seq<char>, V)>, key: Seq<char>, value: V)
    requires
        sorted_by_key(entries),
        !has_key(entries, key),
    ensures
        sorted_by_key(insert_entry(entries, key, value)),
{
    let p = key_not_before::<V>(key);
    let pos = key_position(entries, key);
    let out = insert_entry(entries, key, value);
    lemma_first_index(entries, p);
    lemma_has_key(entries, key);
    assert forall|i: int, j: int| 0 <= i < j < out.len() implies name_less(
        (#[trigger] out[i]).0,
        (#[trigger] out[j]).0,
    ) by {
        if i == pos {
            if !name_less(entries[pos].0, key) && !name_less(key, entries[pos].0) {
                lemma_name_less_connected(key, entries[pos].0);
            }
            if j - 1 > pos {
                lemma_name_less_transitive(key, entries[pos].0, entries[j - 1].0);
            }
        }
    }
}

/// An entry that was in a list is found in the list with a new entry under another key.
pub proof fn lemma_insert_entry_keeps<V>(
    entries: Seq<(Seq<char>, V)>,
    key: Seq<char>,
    value: V,
    other: Seq<char>,
)
    requires
        has_key(entries, other),
        other != key,
    ensures
        has_key(insert_entry(entries, key, value), other),
        insert_entry(entries, key, value)[key_index(insert_entry(entries, key, value), other)]
            == entries[key_index(entries, other)],
{
    let out = insert_entry(entries, key, value);
    let position = key_position(entries, key);
    let i = key_index(entries, other);
    lemma_first_index(entries, key_not_before::<V>(key));
    lemma_first_index(entries, key_is::<V>(other));
    let j = if i < position {
        i
    } else {
        i + 1
    };
    lemma_first_index_is(out, key_is::<V>(other), j);
}

/// Index of the first entry with the given key, or the length if there is none.
pub fn find_key<V: DeepView>(entries: &Vec<(String, V)>, key: &String) -> (r: usize)
    ensures
        r as int == key_index(entries.deep_view(), key@),
        r <= entries.len(),
        r < entries.len() ==> entries[r as int].0@ == key@,
{
    let mut i: usize = 0;
    while i < entries.len() && !same_name(&entries[i].0, key)
        invariant
            i <= entries.len(),
            forall|j: int| 0 <= j < i ==> (#[trigger] entries[j]).0@ != key@,
        decreases entries.len() - i,
    {
        i += 1;
    }
    proof {
        let s = entries.deep_view();
        let p = key_is::<V::V>(key@);
        lemma_first_index_is(s, p, i as int);
    }
    i
}

/// Index of the first occurrence of a name, or the length if there is none.
pub fn find_name(names: &Vec<String>, name: &String) -> (r: usize)
    ensures
        r as int == name_index(names.deep_view(), name@),
        r <= names.len(),
        r < names.len() ==> names[r as int]@ == name@,
{
    let mut i: usize = 0;
    while i < names.len() && !same_name(&names[i], name)
        invariant
            i <= names.len(),
            forall|j: int| 0 <= j < i ==> (#[trigger] names[j])@ != name@,
        decreases names.len() - i,
    {
        i += 1;
    }
    proof {
        let s = names.deep_view();
        let p = name_is(name@);
        lemma_first_index_is(s, p, i as int);
    }
    i
}

/// Puts a new entry before the first entry whose key does not precede `key`.
pub fn insert_sorted<V: DeepView>(entries: &mut Vec<(String, V)>, key: String, value: V)
    ensures
        final(entries).deep_view() == insert_entry(
            old(entries).deep_view(),
            key@,
            value.deep_view(),
        ),
{
    let mut i: usize = 0;
    while i < entries.len() && name_precedes(&entries[i].0, &key)
        invariant
            i <= entries.len(),
            *entries == *old(entries),
            forall|j: int| 0 <= j < i ==> name_less((#[trigger] entries[j]).0@, key@),
        decreases entries.len() - i,
    {
        i += 1;
    }
    proof {
        let s = entries.deep_view();
        let p = key_not_before::<V::V>(key@);
        lemma_first_index_is(s, p, i as int);
    }
    entries.insert(i, (key, value));
}

/// Lets `key` carry `value`: in place of what it carried, or as a new entry in the order
/// of keys.
pub fn set_sorted<V: DeepView>(entries: &mut Vec<(String, V)>, key: String, value: V)
    ensures
        final(entries).deep_view() == set_entry(
            old(entries).deep_view(),
            key@,
            value.deep_view(),
        ),
{
    let i = find_key(entries, &key);
    if i < entries.len() {
        entries[i].1 = value;
    } else {
        insert_sorted(entries, key, value);
    }
}

} // verus!
