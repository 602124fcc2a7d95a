//! Ordered association lists keyed by text.
//!
//! Objects of the host keep their members in insertion order, and so do the
//! attachment tables of a document. Both are held as a vector of pairs; the
//! functions here say what looking a key up and storing under a key mean on
//! such a list: the first pair with a key is the one that counts.

use vstd::prelude::*;

verus! {

/// The value stored under `key`: that of the first pair carrying it.
pub open spec fn lookup<T>(entries: Seq<(Seq<char>, T)>, key: Seq<char>) -> Option<T>
    decreases entries.len(),
{
    if entries.len() == 0 {
        None
    } else if entries[0].0 == key {
        Some(entries[0].1)
    } else {
        lookup(entries.drop_first(), key)
    }
}

/// The list after storing `value` under `key`: the first pair with that key
/// is overwritten in place, and a key not yet present is added at the end.
pub open spec fn upsert<T>(entries: Seq<(Seq<char>, T)>, key: Seq<char>, value: T) -> Seq<
    (Seq<char>, T),
>
    decreases entries.len(),
{
    if entries.len() == 0 {
        seq![(key, value)]
    } else if entries[0].0 == key {
        entries.update(0, (key, value))
    } else {
        seq![entries[0]] + upsert(entries.drop_first(), key, value)
    }
}

/// No key occurs twice.
pub open spec fn unique_keys<T>(entries: Seq<(Seq<char>, T)>) -> bool {
    forall|i: int, j: int|
        0 <= i < j < entries.len() ==> (#[trigger] entries[i]).0 != (#[trigger] entries[j]).0
}

/// `key` occurs in the list.
pub open spec fn has_key<T>(entries: Seq<(Seq<char>, T)>, key: Seq<char>) -> bool {
    exists|i: int| 0 <= i < entries.len() && (#[trigger] entries[i]).0 == key
}

/// `i` is the first position that carries `key`.
pub open spec fn first_at<T>(entries: Seq<(Seq<char>, T)>, key: Seq<char>, i: int) -> bool {
    &&& 0 <= i < entries.len()
    &&& entries[i].0 == key
    &&& forall|j: int| 0 <= j < i ==> (#[trigger] entries[j]).0 != key
}

/// The view of a list whose keys are strings: each key and each value by its
/// own view.
pub open spec fn view_of<T: View>(entries: Seq<(String, T)>) -> Seq<(Seq<char>, T::V)> {
    Seq::new(entries.len(), |i: int| (entries[i].0@, entries[i].1@))
}

/// Where the first pair with `key` stands, `lookup` finds its value and
/// `upsert` overwrites exactly that pair.
pub proof fn lemma_found<T>(entries: Seq<(Seq<char>, T)>, key: Seq<char>, i: int)
    requires
        first_at(entries, key, i),
    ensures
        lookup(entries, key) == Some(entries[i].1),
        has_key(entries, key),
        forall|value: T| #[trigger] upsert(entries, key, value) == entries.update(i, (key, value)),
    decreases i,
{
    if i > 0 {
        let rest = entries.drop_first();
        assert forall|j: int| 0 <= j < i - 1 implies (#[trigger] rest[j]).0 != key by {
            assert(rest[j] == entries[j + 1]);
        }
        lemma_found(rest, key, i - 1);
        assert forall|value: T| #[trigger]
            upsert(entries, key, value) == entries.update(i, (key, value)) by {
            assert(entries[0].0 != key);
            assert(upsert(rest, key, value) == rest.update(i - 1, (key, value)));
            assert(seq![entries[0]] + rest.update(i - 1, (key, value)) =~= entries.update(
                i,
                (key, value),
            ));
        }
    }
}

/// Where no pair carries `key`, `lookup` finds nothing and `upsert` appends.
pub proof fn lemma_missing<T>(entries: Seq<(Seq<char>, T)>, key: Seq<char>)
    requires
        !has_key(entries, key),
    ensures
        lookup(entries, key) is None,
        forall|value: T| #[trigger] upsert(entries, key, value) == entries.push((key, value)),
    decreases entries.len(),
{
    if entries.len() == 0 {
        assert forall|value: T| #[trigger]
            upsert(entries, key, value) == entries.push((key, value)) by {
            assert(seq![(key, value)] =~= entries.push((key, value)));
        }
    } else {
        let rest = entries.drop_first();
        assert(entries[0].0 != key);
        assert(!has_key(rest, key)) by {
            if has_key(rest, key) {
                let i = choose|i: int| 0 <= i < rest.len() && (#[trigger] rest[i]).0 == key;
                assert(0 <= i + 1 < entries.len() && entries[i + 1].0 == key);
            }
        }
        lemma_missing(rest, key);
        assert forall|value: T| #[trigger]
            upsert(entries, key, value) == entries.push((key, value)) by {
            assert(upsert(rest, key, value) == rest.push((key, value)));
            assert(seq![entries[0]] + rest.push((key, value)) =~= entries.push((key, value)));
        }
    }
}

/// Storing under a key makes that key's value the stored one, and keeps the
/// length or adds one.
pub proof fn lemma_upsert_same<T>(entries: Seq<(Seq<char>, T)>, key: Seq<char>, value: T)
    ensures
        lookup(upsert(entries, key, value), key) == Some(value),
        has_key(upsert(entries, key, value), key),
        upsert(entries, key, value).len() == if has_key(entries, key) {
            entries.len()
        } else {
            entries.len() + 1
        },
    decreases entries.len(),
{
    let after = upsert(entries, key, value);
    if entries.len() == 0 {
        assert(after[0].0 == key);
    } else if entries[0].0 == key {
        assert(after[0].0 == key);
        assert(has_key(entries, key));
    } else {
        let rest = entries.drop_first();
        lemma_upsert_same(rest, key, value);
        assert(after.drop_first() =~= upsert(rest, key, value));
        let i = choose|i: int|
            0 <= i < upsert(rest, key, value).len() && (#[trigger] upsert(rest, key, value)[i]).0
                == key;
        assert(after[i + 1].0 == key);
        if has_key(rest, key) {
            let j = choose|j: int| 0 <= j < rest.len() && (#[trigger] rest[j]).0 == key;
            assert(entries[j + 1].0 == key);
        }
        if has_key(entries, key) {
            let j = choose|j: int| 0 <= j < entries.len() && (#[trigger] entries[j]).0 == key;
            assert(rest[j - 1].0 == key);
        }
    }
}

/// Storing under one key leaves every other key's value as it was.
pub proof fn lemma_upsert_other<T>(
    entries: Seq<(Seq<char>, T)>,
    key: Seq<char>,
    value: T,
    other: Seq<char>,
)
    requires
        other != key,
    ensures
        lookup(upsert(entries, key, value), other) == lookup(entries, other),
        has_key(upsert(entries, key, value), other) == has_key(entries, other),
    decreases entries.len(),
{
    let after = upsert(entries, key, value);
    if entries.len() == 0 {
        assert(after.drop_first() =~= entries);
        if has_key(after, other) {
            let i = choose|i: int| 0 <= i < after.len() && (#[trigger] after[i]).0 == other;
            assert(false);
        }
    } else if entries[0].0 == key {
        assert(after.drop_first() =~= entries.drop_first());
        if has_key(after, other) {
            let i = choose|i: int| 0 <= i < after.len() && (#[trigger] after[i]).0 == other;
            assert(entries[i].0 == other);
        }
        if has_key(entries, other) {
            let i = choose|i: int| 0 <= i < entries.len() && (#[trigger] entries[i]).0 == other;
            assert(after[i].0 == other);
        }
    } else {
        let rest = entries.drop_first();
        lemma_upsert_other(rest, key, value, other);
        assert(after.drop_first() =~= upsert(rest, key, value));
        assert(after[0] == entries[0]);
        if has_key(after, other) {
            let i = choose|i: int| 0 <= i < after.len() && (#[trigger] after[i]).0 == other;
            if i > 0 {
                assert(upsert(rest, key, value)[i - 1].0 == other);
                let j = choose|j: int| 0 <= j < rest.len() && (#[trigger] rest[j]).0 == other;
                assert(entries[j + 1].0 == other);
            } else {
                assert(entries[0].0 == other);
            }
        }
        if has_key(entries, other) {
            let i = choose|i: int| 0 <= i < entries.len() && (#[trigger] entries[i]).0 == other;
            if i > 0 {
                assert(rest[i - 1].0 == other);
                let j = choose|j: int|
                    0 <= j < upsert(rest, key, value).len() && (#[trigger] upsert(
                        rest,
                        key,
                        value,
                    )[j]).0 == other;
                assert(after[j + 1].0 == other);
            } else {
                assert(after[0].0 == other);
            }
        }
    }
}

/// Storing under a key keeps a list free of repeated keys.
pub proof fn lemma_upsert_unique<T>(entries: Seq<(Seq<char>, T)>, key: Seq<char>, value: T)
    requires
        unique_keys(entries),
    ensures
        unique_keys(upsert(entries, key, value)),
{
    let after = upsert(entries, key, value);
    if has_key(entries, key) {
        let i = choose|i: int| 0 <= i < entries.len() && (#[trigger] entries[i]).0 == key;
        assert forall|j: int| 0 <= j < i implies (#[trigger] entries[j]).0 != key by {
            assert(entries[j].0 != entries[i].0);
        }
        lemma_found(entries, key, i);
        assert(after == entries.update(i, (key, value)));
        assert forall|a: int, b: int| 0 <= a < b < after.len() implies (#[trigger] after[a]).0 != (
        #[trigger] after[b]).0 by {
            assert(after[a].0 == entries[a].0);
            assert(after[b].0 == entries[b].0);
        }
    } else {
        lemma_missing(entries, key);
        assert(after == entries.push((key, value)));
        assert forall|a: int, b: int| 0 <= a < b < after.len() implies (#[trigger] after[a]).0 != (
        #[trigger] after[b]).0 by {
            if b < entries.len() {
                assert(after[a] == entries[a]);
                assert(after[b] == entries[b]);
            } else {
                assert(after[a] == entries[a]);
            }
        }
    }
}

/// Where the first pair with `key` stands in a list, or `None` if no pair
/// carries it.
pub fn position<T: View>(entries: &Vec<(String, T)>, key: &String) -> (r: Option<usize>)
    ensures
        match r {
            Some(i) => first_at(view_of(entries@), key@, i as int) && lookup(
                view_of(entries@),
                key@,
            ) == Some(entries@[i as int].1@),
            None => !has_key(view_of(entries@), key@) && lookup(view_of(entries@), key@) is None,
        },
{
    let ghost members = view_of(entries@);
    let mut i: usize = 0;
    while i < entries.len()
        invariant
            i <= entries.len(),
            members == view_of(entries@),
            forall|j: int| 0 <= j < i ==> (#[trigger] members[j]).0 != key@,
        decreases entries.len() - i,
    {
        if entries[i].0 == *key {
            proof {
                lemma_found(members, key@, i as int);
            }
            return Some(i);
        }
        i += 1;
    }
    proof {
        lemma_missing(members, key@);
    }
    None
}

/// Stores `value` under `key`: in place of the first pair with that key, or
/// at the end where there is none.
pub fn store<T: View>(entries: &mut Vec<(String, T)>, key: String, value: T)
    ensures
        view_of(final(entries)@) == upsert(view_of(old(entries)@), key@, value@),
{
    let ghost before = view_of(entries@);
    match position(entries, &key) {
        Some(i) => {
            proof {
                lemma_found(before, key@, i as int);
            }
            entries[i] = (key, value);
            assert(view_of(entries@) =~= before.update(i as int, (key@, value@)));
        },
        None => {
            proof {
                lemma_missing(before, key@);
            }
            entries.push((key, value));
            assert(view_of(entries@) =~= before.push((key@, value@)));
        },
    }
}

} // verus!
