//! Association lists keyed by text, used as small maps with distinct keys.

use vstd::prelude::*;

verus! {

/// Every key of the list occurs once.
pub open spec fn keys_distinct<V>(s: Seq<(String, V)>) -> bool {
    forall|i: int, j: int|
        0 <= i < s.len() && 0 <= j < s.len() && i != j ==> (#[trigger] s[i]).0@ != (
        #[trigger] s[j]).0@
}

/// The map that the list stands for; a later entry shadows an earlier one.
pub open spec fn assoc_map<V>(s: Seq<(String, V)>) -> Map<Seq<char>, V>
    decreases s.len(),
{
    if s.len() == 0 {
        Map::empty()
    } else {
        assoc_map(s.drop_last()).insert(s.last().0@, s.last().1)
    }
}

/// A key is mapped exactly when some entry carries it.
pub proof fn lemma_assoc_contains<V>(s: Seq<(String, V)>, k: Seq<char>)
    ensures
        assoc_map(s).contains_key(k) <==> exists|i: int| 0 <= i < s.len() && (#[trigger] s[i]).0@ == k,
    decreases s.len(),
{
    if s.len() > 0 {
        lemma_assoc_contains(s.drop_last(), k);
        if assoc_map(s.drop_last()).contains_key(k) {
            let i = choose|i: int| 0 <= i < s.drop_last().len() && (#[trigger] s.drop_last()[i]).0@ == k;
            assert(s[i] == s.drop_last()[i]);
        }
        if exists|i: int| 0 <= i < s.len() && (#[trigger] s[i]).0@ == k {
            let i = choose|i: int| 0 <= i < s.len() && (#[trigger] s[i]).0@ == k;
            if i < s.len() - 1 {
                assert(s.drop_last()[i] == s[i]);
            }
        }
    }
}

/// With distinct keys, each entry's key maps to that entry's value.
pub proof fn lemma_assoc_index<V>(s: Seq<(String, V)>, i: int)
    requires
        keys_distinct(s),
        0 <= i < s.len(),
    ensures
        assoc_map(s).contains_key(s[i].0@),
        assoc_map(s)[s[i].0@] == s[i].1,
    decreases s.len(),
{
    if i < s.len() - 1 {
        assert(keys_distinct(s.drop_last())) by {
            assert forall|a: int, b: int|
                0 <= a < s.drop_last().len() && 0 <= b < s.drop_last().len() && a != b
                implies (#[trigger] s.drop_last()[a]).0@ != (#[trigger] s.drop_last()[b]).0@ by {
                assert(s.drop_last()[a] == s[a]);
                assert(s.drop_last()[b] == s[b]);
            }
        }
        assert(s.drop_last()[i] == s[i]);
        lemma_assoc_index(s.drop_last(), i);
        assert(s[i].0@ != s.last().0@);
    }
}

/// Removing one entry of a list with distinct keys removes its key from the map.
pub proof fn lemma_assoc_remove<V>(s: Seq<(String, V)>, i: int)
    requires
        keys_distinct(s),
        0 <= i < s.len(),
    ensures
        keys_distinct(s.remove(i)),
        assoc_map(s.remove(i)) =~= assoc_map(s).remove(s[i].0@),
    decreases s.len(),
{
    let r = s.remove(i);
    assert(keys_distinct(r)) by {
        assert forall|a: int, b: int| 0 <= a < r.len() && 0 <= b < r.len() && a != b implies (
        #[trigger] r[a]).0@ != (#[trigger] r[b]).0@ by {
            let a2 = if a < i { a } else { a + 1 };
            let b2 = if b < i { b } else { b + 1 };
            assert(r[a] == s[a2]);
            assert(r[b] == s[b2]);
        }
    }
    let k = s[i].0@;
    assert forall|key: Seq<char>| #[trigger] assoc_map(r).contains_key(key) <==> assoc_map(
        s,
    ).remove(k).contains_key(key) by {
        lemma_assoc_contains(r, key);
        lemma_assoc_contains(s, key);
        if exists|j: int| 0 <= j < r.len() && (#[trigger] r[j]).0@ == key {
            let j = choose|j: int| 0 <= j < r.len() && (#[trigger] r[j]).0@ == key;
            let j2 = if j < i { j } else { j + 1 };
            assert(r[j] == s[j2]);
        }
        if key != k && exists|j: int| 0 <= j < s.len() && (#[trigger] s[j]).0@ == key {
            let j = choose|j: int| 0 <= j < s.len() && (#[trigger] s[j]).0@ == key;
            assert(j != i);
            let j2 = if j < i { j } else { j - 1 };
            assert(r[j2] == s[j]);
        }
    }
    assert forall|key: Seq<char>| #[trigger] assoc_map(r).contains_key(key) implies assoc_map(r)[key]
        == assoc_map(s)[key] by {
        lemma_assoc_contains(r, key);
        let j = choose|j: int| 0 <= j < r.len() && (#[trigger] r[j]).0@ == key;
        let j2 = if j < i { j } else { j + 1 };
        assert(r[j] == s[j2]);
        lemma_assoc_index(r, j);
        lemma_assoc_index(s, j2);
    }
}

/// The position of the entry whose key is `key`, if any.
pub fn assoc_find<V>(entries: &Vec<(String, V)>, key: &String) -> (r: Option<usize>)
    ensures
        match r {
            Some(i) => i < entries.len() && entries@[i as int].0@ == key@,
            None => !assoc_map(entries@).contains_key(key@),
        },
{
    let mut i: usize = 0;
    while i < entries.len()
        invariant
            i <= entries.len(),
            forall|j: int| 0 <= j < i ==> (#[trigger] entries@[j]).0@ != key@,
        decreases entries.len() - i,
    {
        if entries[i].0 == *key {
            return Some(i);
        }
        i = i + 1;
    }
    proof {
        lemma_assoc_contains(entries@, key@);
    }
    None
}

/// Removes the entry for `key`, returning its value.
pub fn assoc_remove<V>(entries: &mut Vec<(String, V)>, key: &String) -> (r: Option<V>)
    requires
        keys_distinct(old(entries)@),
    ensures
        keys_distinct(final(entries)@),
        assoc_map(final(entries)@) == assoc_map(old(entries)@).remove(key@),
        match r {
            Some(v) => assoc_map(old(entries)@).contains_key(key@) && assoc_map(old(entries)@)[key@]
                == v,
            None => !assoc_map(old(entries)@).contains_key(key@),
        },
{
    match assoc_find(entries, key) {
        Some(i) => {
            proof {
                lemma_assoc_index(entries@, i as int);
                lemma_assoc_remove(entries@, i as int);
            }
            let (_, v) = entries.remove(i);
            Some(v)
        },
        None => {
            assert(assoc_map(entries@).remove(key@) =~= assoc_map(entries@));
            None
        },
    }
}

/// Maps `key` to `value`, replacing an existing entry for the key.
pub fn assoc_insert<V>(entries: &mut Vec<(String, V)>, key: String, value: V)
    requires
        keys_distinct(old(entries)@),
    ensures
        keys_distinct(final(entries)@),
        assoc_map(final(entries)@) == assoc_map(old(entries)@).insert(key@, value),
{
    let _ = assoc_remove(entries, &key);
    let ghost before = entries@;
    proof {
        lemma_assoc_contains(before, key@);
    }
    entries.push((key, value));
    proof {
        assert(entries@.drop_last() == before);
        assert(keys_distinct(entries@)) by {
            assert forall|a: int, b: int|
                0 <= a < entries@.len() && 0 <= b < entries@.len() && a != b implies (
            #[trigger] entries@[a]).0@ != (#[trigger] entries@[b]).0@ by {
                if a < before.len() && b < before.len() {
                    assert(entries@[a] == before[a]);
                    assert(entries@[b] == before[b]);
                } else if a < before.len() {
                    assert(entries@[a] == before[a]);
                } else {
                    assert(entries@[b] == before[b]);
                }
            }
        }
        assert(assoc_map(entries@) =~= assoc_map(old(entries)@).insert(key@, value));
    }
}

} // verus!
