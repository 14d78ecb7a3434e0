//! Lookup in sequences: the position of a key, and maps written as keys
//! with their values.

use vstd::prelude::*;

verus! {

/// The position of the first occurrence of `key`, or the length of `keys`
/// if it does not occur.
pub open spec fn index_in<K>(keys: Seq<K>, key: K) -> nat
    decreases keys.len(),
{
    if keys.len() == 0 {
        0
    } else if keys[0] == key {
        0
    } else {
        1 + index_in(keys.skip(1), key)
    }
}

/// No key occurs twice.
pub open spec fn all_different<K>(keys: Seq<K>) -> bool {
    forall|i: int, j: int| 0 <= i < j < keys.len() ==> keys[i] != keys[j]
}

/// The map that takes each key to the value at its position.
pub open spec fn map_of<K, V>(keys: Seq<K>, values: Seq<V>) -> Map<K, V> {
    Map::new(
        |key: K| index_in(keys, key) < keys.len(),
        |key: K| values[index_in(keys, key) as int],
    )
}

/// The first occurrence is where no earlier key is `key` and the key
/// there, if any, is.
pub proof fn lemma_index_in<K>(keys: Seq<K>, key: K, at: int)
    requires
        0 <= at <= keys.len(),
        forall|k: int| 0 <= k < at ==> keys[k] != key,
        at < keys.len() ==> keys[at] == key,
    ensures
        index_in(keys, key) == at,
    decreases keys.len(),
{
    if keys.len() == 0 {
    } else if at == 0 {
    } else {
        let rest = keys.skip(1);
        assert forall|k: int| 0 <= k < at - 1 implies rest[k] != key by {
            assert(rest[k] == keys[k + 1]);
        }
        lemma_index_in(rest, key, at - 1);
    }
}

/// Before the first occurrence the key does not occur; at it, if it lies
/// within, it does.
pub proof fn lemma_index_in_is_first<K>(keys: Seq<K>, key: K)
    ensures
        index_in(keys, key) <= keys.len(),
        forall|k: int| 0 <= k < index_in(keys, key) ==> keys[k] != key,
        index_in(keys, key) < keys.len() ==> keys[index_in(keys, key) as int] == key,
    decreases keys.len(),
{
    if keys.len() == 0 {
    } else if keys[0] == key {
    } else {
        let rest = keys.skip(1);
        lemma_index_in_is_first(rest, key);
        assert forall|k: int| 0 <= k < index_in(keys, key) implies keys[k] != key by {
            if k > 0 {
                assert(rest[k - 1] == keys[k]);
            }
        }
        if index_in(keys, key) < keys.len() {
            assert(rest[index_in(rest, key) as int] == keys[index_in(keys, key) as int]);
        }
    }
}

/// Among different keys each stands at its own position.
pub proof fn lemma_index_of_each<K>(keys: Seq<K>, at: int)
    requires
        all_different(keys),
        0 <= at < keys.len(),
    ensures
        index_in(keys, keys[at]) == at,
{
    lemma_index_in(keys, keys[at], at);
}

/// A key that stands nowhere has no position.
pub proof fn lemma_index_of_none<K>(keys: Seq<K>, key: K)
    requires
        forall|k: int| 0 <= k < keys.len() ==> keys[k] != key,
    ensures
        index_in(keys, key) == keys.len(),
{
    lemma_index_in(keys, key, keys.len() as int);
}

/// A new value at the position of a key is the map with that key set.
pub proof fn lemma_map_of_update<K, V>(keys: Seq<K>, values: Seq<V>, at: int, value: V)
    requires
        all_different(keys),
        keys.len() == values.len(),
        0 <= at < keys.len(),
    ensures
        map_of(keys, values.update(at, value)) == map_of(keys, values).insert(keys[at], value),
{
    lemma_index_of_each(keys, at);
    assert forall|key: K| index_in(keys, key) < keys.len() && key != keys[at] implies index_in(
        keys,
        key,
    ) != at by {
        lemma_index_in_is_first(keys, key);
    }
    assert(map_of(keys, values.update(at, value)) =~= map_of(keys, values).insert(
        keys[at],
        value,
    ));
}

/// A new key with its value at any position is the map with that key set.
pub proof fn lemma_map_of_insert<K, V>(keys: Seq<K>, values: Seq<V>, at: int, key: K, value: V)
    requires
        all_different(keys),
        keys.len() == values.len(),
        0 <= at <= keys.len(),
        forall|k: int| 0 <= k < keys.len() ==> keys[k] != key,
    ensures
        all_different(keys.insert(at, key)),
        map_of(keys.insert(at, key), values.insert(at, value)) == map_of(keys, values).insert(
            key,
            value,
        ),
{
    let new_keys = keys.insert(at, key);
    let new_values = values.insert(at, value);
    assert forall|i: int, j: int| 0 <= i < j < new_keys.len() implies new_keys[i]
        != new_keys[j] by {
        let a = if i < at {
            i
        } else {
            i - 1
        };
        let b = if j < at {
            j
        } else {
            j - 1
        };
        if i != at && j != at {
            assert(new_keys[i] == keys[a] && new_keys[j] == keys[b]);
        } else if i == at {
            assert(new_keys[j] == keys[b]);
        } else {
            assert(new_keys[i] == keys[a]);
        }
    }
    lemma_index_of_each(new_keys, at);
    assert forall|other: K| other != key implies (index_in(new_keys, other) < new_keys.len()) == (
    index_in(keys, other) < keys.len()) && (index_in(keys, other) < keys.len()
        ==> new_values[index_in(new_keys, other) as int] == values[index_in(
        keys,
        other,
    ) as int]) by {
        lemma_index_in_is_first(keys, other);
        let p = index_in(keys, other) as int;
        if p < keys.len() {
            let q = if p < at {
                p
            } else {
                p + 1
            };
            assert(new_keys[q] == keys[p]);
            lemma_index_of_each(new_keys, q);
        } else {
            assert forall|k: int| 0 <= k < new_keys.len() implies new_keys[k] != other by {
                if k < at {
                    assert(new_keys[k] == keys[k]);
                } else if k > at {
                    assert(new_keys[k] == keys[k - 1]);
                }
            }
            lemma_index_of_none(new_keys, other);
        }
    }
    assert(map_of(new_keys, new_values) =~= map_of(keys, values).insert(key, value));
}

/// Without the key at a position and its value the map is without that
/// key.
pub proof fn lemma_map_of_remove<K, V>(keys: Seq<K>, values: Seq<V>, at: int)
    requires
        all_different(keys),
        keys.len() == values.len(),
        0 <= at < keys.len(),
    ensures
        all_different(keys.remove(at)),
        map_of(keys.remove(at), values.remove(at)) == map_of(keys, values).remove(keys[at]),
{
    let new_keys = keys.remove(at);
    let new_values = values.remove(at);
    assert forall|i: int, j: int| 0 <= i < j < new_keys.len() implies new_keys[i]
        != new_keys[j] by {
        let a = if i < at {
            i
        } else {
            i + 1
        };
        let b = if j < at {
            j
        } else {
            j + 1
        };
        assert(new_keys[i] == keys[a] && new_keys[j] == keys[b]);
    }
    assert forall|k: int| 0 <= k < new_keys.len() implies new_keys[k] != keys[at] by {
        let a = if k < at {
            k
        } else {
            k + 1
        };
        assert(new_keys[k] == keys[a]);
    }
    lemma_index_of_none(new_keys, keys[at]);
    assert forall|other: K| other != keys[at] implies (index_in(new_keys, other) < new_keys.len())
        == (index_in(keys, other) < keys.len()) && (index_in(keys, other) < keys.len()
        ==> new_values[index_in(new_keys, other) as int] == values[index_in(
        keys,
        other,
    ) as int]) by {
        lemma_index_in_is_first(keys, other);
        let p = index_in(keys, other) as int;
        if p < keys.len() {
            let q = if p < at {
                p
            } else {
                p - 1
            };
            assert(new_keys[q] == keys[p]);
            lemma_index_of_each(new_keys, q);
        } else {
            assert forall|k: int| 0 <= k < new_keys.len() implies new_keys[k] != other by {
                let a = if k < at {
                    k
                } else {
                    k + 1
                };
                assert(new_keys[k] == keys[a]);
            }
            lemma_index_of_none(new_keys, other);
        }
    }
    assert(map_of(new_keys, new_values) =~= map_of(keys, values).remove(keys[at]));
}

} // verus!
