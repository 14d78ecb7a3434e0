//! Rows by key, kept in the order of their encoded keys.

use crate::byte_order::{
    bytes_before, bytes_lt, bytes_same, lemma_bytes_lt_irreflexive, lemma_bytes_lt_total,
    lemma_bytes_lt_transitive,
};
use crate::error::{result_view, DbErrorView, DbResult};
use crate::key::{key_has_prefix, KeyPartView, OndoKey};
use crate::key_codec::{encode_key, lemma_encode_injective, lemma_key_order};
use crate::key_order::key_lt;
use crate::lookup::{
    all_different, index_in, lemma_index_of_each, lemma_index_of_none, lemma_map_of_insert,
    lemma_map_of_remove, lemma_map_of_update, map_of,
};
use crate::store::Rows;
use crate::value::{TableValue, TableValueView};
use vstd::prelude::*;

verus! {

/// A row with its key and the bytes of the key.
struct Entry {
    code: Vec<u8>,
    key: OndoKey,
    value: TableValue,
}

/// Rows by key, in ascending order of the encoded keys.
pub struct Entries {
    items: Vec<Entry>,
}

/// The values among the first `count` whose keys are wanted, in order.
pub open spec fn picked(
    keys: Seq<Seq<KeyPartView>>,
    values: Seq<TableValueView>,
    wanted: spec_fn(Seq<KeyPartView>) -> bool,
    count: nat,
) -> Seq<TableValueView>
    decreases count,
{
    if count == 0 {
        Seq::empty()
    } else if wanted(keys[count - 1]) {
        picked(keys, values, wanted, (count - 1) as nat).push(values[count - 1])
    } else {
        picked(keys, values, wanted, (count - 1) as nat)
    }
}

/// Every key is wanted.
pub open spec fn any_key() -> spec_fn(Seq<KeyPartView>) -> bool {
    |key: Seq<KeyPartView>| true
}

/// The keys that start with `prefix` are wanted.
pub open spec fn keys_with_prefix(prefix: Seq<KeyPartView>) -> spec_fn(Seq<KeyPartView>) -> bool {
    |key: Seq<KeyPartView>| key_has_prefix(key, prefix)
}

/// The keys from `start`, inclusive, up to `end`, exclusive, are wanted.
pub open spec fn keys_in_range(start: Seq<KeyPartView>, end: Seq<KeyPartView>) -> spec_fn(
    Seq<KeyPartView>,
) -> bool {
    |key: Seq<KeyPartView>| !key_lt(key, start) && key_lt(key, end)
}

impl Entries {
    /// The keys, in stored order.
    pub closed spec fn keys(&self) -> Seq<Seq<KeyPartView>> {
        Seq::new(self.items@.len(), |i: int| self.items@[i].key@)
    }

    /// The rows, in stored order.
    pub closed spec fn values(&self) -> Seq<TableValueView> {
        Seq::new(self.items@.len(), |i: int| self.items@[i].value@)
    }

    /// Each entry holds the bytes of its key, and the entries ascend by
    /// these bytes.
    #[verifier::type_invariant]
    spec fn wf(&self) -> bool {
        &&& forall|i: int|
            0 <= i < self.items@.len() ==> (#[trigger] self.items@[i]).code@ == encode_key(
                self.items@[i].key@,
            )
        &&& forall|i: int, j: int|
            0 <= i < j < self.items@.len() ==> bytes_lt(
                (#[trigger] self.items@[i]).code@,
                (#[trigger] self.items@[j]).code@,
            )
    }

    /// The rows by key.
    pub closed spec fn view(&self) -> Rows {
        map_of(self.keys(), self.values())
    }

    /// The rows by key are the keys and rows in stored order; the keys are
    /// all different and ascend in the order of keys.
    pub open spec fn in_order(&self) -> bool {
        &&& self@ == map_of(self.keys(), self.values())
        &&& self.keys().len() == self.values().len()
        &&& all_different(self.keys())
        &&& forall|i: int, j: int|
            0 <= i < j < self.keys().len() ==> key_lt(
                #[trigger] self.keys()[i],
                #[trigger] self.keys()[j],
            )
    }

    /// Entries that ascend by their bytes are in order.
    proof fn lemma_in_order(&self)
        requires
            self.wf(),
        ensures
            self.in_order(),
    {
        assert forall|i: int, j: int| 0 <= i < j < self.keys().len() implies key_lt(
            #[trigger] self.keys()[i],
            #[trigger] self.keys()[j],
        ) by {
            lemma_key_order(self.items@[i].key, self.items@[j].key);
            assert(bytes_lt(self.items@[i].code@, self.items@[j].code@));
        }
        assert forall|i: int, j: int| 0 <= i < j < self.keys().len() implies self.keys()[i]
            != self.keys()[j] by {
            assert(bytes_lt(self.items@[i].code@, self.items@[j].code@));
            lemma_bytes_lt_irreflexive(self.items@[i].code@);
        }
    }

    /// Learns that the rows are in order.
    pub fn ordered(&self)
        ensures
            self.in_order(),
    {
        proof {
            use_type_invariant(self);
            self.lemma_in_order();
        }
    }

    /// No rows: no key and no row in stored order, and nothing by key.
    pub fn new() -> (r: Self)
        ensures
            r@ == Map::<Seq<KeyPartView>, TableValueView>::empty(),
            r.keys() == Seq::<Seq<KeyPartView>>::empty(),
            r.values() == Seq::<TableValueView>::empty(),
    {
        let r = Entries { items: Vec::new() };
        assert(r.keys() =~= Seq::<Seq<KeyPartView>>::empty());
        assert(r.values() =~= Seq::<TableValueView>::empty());
        assert(r@ =~= Map::<Seq<KeyPartView>, TableValueView>::empty());
        r
    }

    /// How many rows there are.
    pub fn len(&self) -> (r: usize)
        ensures
            r == self.keys().len(),
    {
        self.items.len()
    }

    /// The first position whose bytes do not come before `code`.
    fn find(&self, code: &[u8]) -> (at: usize)
        ensures
            at <= self.items@.len(),
            forall|k: int| 0 <= k < at ==> bytes_lt(self.items@[k].code@, code@),
            at < self.items@.len() ==> !bytes_lt(self.items@[at as int].code@, code@),
    {
        let mut i: usize = 0;
        while i < self.items.len()
            invariant
                i <= self.items@.len(),
                forall|k: int| 0 <= k < i ==> bytes_lt(self.items@[k].code@, code@),
            decreases self.items@.len() - i,
        {
            if !bytes_before(self.items[i].code.as_slice(), code) {
                return i;
            }
            i += 1;
        }
        i
    }

    /// Where `key` stands, given the position that `find` gave for its
    /// bytes.
    proof fn lemma_found(&self, key: OndoKey, at: int)
        requires
            self.wf(),
            0 <= at <= self.items@.len(),
            forall|k: int| 0 <= k < at ==> bytes_lt(self.items@[k].code@, encode_key(key@)),
            at < self.items@.len() ==> !bytes_lt(self.items@[at].code@, encode_key(key@)),
        ensures
            all_different(self.keys()),
            self.keys().len() == self.values().len() == self.items@.len(),
            at < self.items@.len() && self.items@[at].code@ == encode_key(key@) ==> self.keys()[at]
                == key@ && index_in(self.keys(), key@) == at,
            !(at < self.items@.len() && self.items@[at].code@ == encode_key(key@)) ==> index_in(
                self.keys(),
                key@,
            ) == self.keys().len() && (forall|k: int|
                0 <= k < self.keys().len() ==> self.keys()[k] != key@),
            forall|k: int|
                at <= k < self.items@.len() && self.items@[at].code@ != encode_key(key@)
                    ==> bytes_lt(encode_key(key@), #[trigger] self.items@[k].code@),
    {
        self.lemma_in_order();
        let code = encode_key(key@);
        if at < self.items@.len() && self.items@[at].code@ == code {
            lemma_encode_injective(self.items@[at].key, key);
            lemma_index_of_each(self.keys(), at);
        } else {
            assert forall|k: int| 0 <= k < self.keys().len() implies self.keys()[k] != key@ by {
                if self.keys()[k] == key@ {
                    assert(self.items@[k].code@ == code);
                    if k < at {
                        lemma_bytes_lt_irreflexive(code);
                    } else {
                        assert(k > at);
                        assert(bytes_lt(self.items@[at].code@, self.items@[k].code@));
                    }
                }
            }
            lemma_index_of_none(self.keys(), key@);
            assert forall|k: int|
                at <= k < self.items@.len() && self.items@[at].code@ != code implies bytes_lt(
                code,
                #[trigger] self.items@[k].code@,
            ) by {
                lemma_bytes_lt_total(self.items@[at].code@, code);
                if k > at {
                    assert(bytes_lt(self.items@[at].code@, self.items@[k].code@));
                    lemma_bytes_lt_transitive(code, self.items@[at].code@, self.items@[k].code@);
                }
            }
        }
    }

    /// The row under `key`.
    pub fn get(&self, key: &OndoKey) -> (r: Option<&TableValue>)
        ensures
            r is Some <==> self@.dom().contains(key@),
            r matches Some(value) ==> value@ == self@[key@],
    {
        let code = key.encode();
        let at = self.find(code.as_slice());
        proof {
            use_type_invariant(self);
            self.lemma_found(*key, at as int);
        }
        if at < self.items.len() && bytes_same(self.items[at].code.as_slice(), code.as_slice()) {
            Some(&self.items[at].value)
        } else {
            None
        }
    }

    /// Puts `value` under `key`, in place of the row that was there.
    pub fn put(&mut self, key: OndoKey, value: TableValue)
        ensures
            final(self)@ == old(self)@.insert(key@, value@),
    {
        let code = key.encode();
        let at = self.find(code.as_slice());
        let ghost before = *self;
        proof {
            use_type_invariant(&*self);
            self.lemma_found(key, at as int);
        }
        let found = at < self.items.len() && bytes_same(
            self.items[at].code.as_slice(),
            code.as_slice(),
        );
        let mut items: Vec<Entry> = Vec::new();
        core::mem::swap(&mut self.items, &mut items);
        if found {
            items.set(at, Entry { code, key, value });
        } else {
            items.insert(at, Entry { code, key, value });
            proof {
                assert forall|i: int, j: int| 0 <= i < j < items@.len() implies bytes_lt(
                    (#[trigger] items@[i]).code@,
                    (#[trigger] items@[j]).code@,
                ) by {
                    let a = if i < at {
                        i
                    } else {
                        i - 1
                    };
                    let b = if j < at {
                        j
                    } else {
                        j - 1
                    };
                    if i != at && j != at {
                        assert(items@[i] == before.items@[a]);
                        assert(items@[j] == before.items@[b]);
                    } else if i == at {
                        assert(items@[j] == before.items@[b]);
                    } else {
                        assert(items@[i] == before.items@[a]);
                    }
                }
                assert forall|i: int| 0 <= i < items@.len() implies (#[trigger] items@[i]).code@
                    == encode_key(items@[i].key@) by {
                    if i < at {
                        assert(items@[i] == before.items@[i]);
                    } else if i > at {
                        assert(items@[i] == before.items@[i - 1]);
                    }
                }
            }
        }
        self.items = items;
        proof {
            if found {
                assert(self.keys() =~= before.keys());
                assert(self.values() =~= before.values().update(at as int, value@));
                lemma_map_of_update(before.keys(), before.values(), at as int, value@);
            } else {
                assert(self.keys() =~= before.keys().insert(at as int, key@));
                assert(self.values() =~= before.values().insert(at as int, value@));
                lemma_map_of_insert(before.keys(), before.values(), at as int, key@, value@);
            }
        }
    }

    /// Removes the row under `key`, if there is one.
    pub fn remove(&mut self, key: &OndoKey)
        ensures
            final(self)@ == old(self)@.remove(key@),
    {
        let code = key.encode();
        let at = self.find(code.as_slice());
        let ghost before = *self;
        proof {
            use_type_invariant(&*self);
            self.lemma_found(*key, at as int);
        }
        if at < self.items.len() && bytes_same(self.items[at].code.as_slice(), code.as_slice()) {
            let mut items: Vec<Entry> = Vec::new();
            core::mem::swap(&mut self.items, &mut items);
            items.remove(at);
            proof {
                assert forall|i: int, j: int| 0 <= i < j < items@.len() implies bytes_lt(
                    (#[trigger] items@[i]).code@,
                    (#[trigger] items@[j]).code@,
                ) by {
                    let a = if i < at {
                        i
                    } else {
                        i + 1
                    };
                    let b = if j < at {
                        j
                    } else {
                        j + 1
                    };
                    assert(items@[i] == before.items@[a]);
                    assert(items@[j] == before.items@[b]);
                }
                assert forall|i: int| 0 <= i < items@.len() implies (#[trigger] items@[i]).code@
                    == encode_key(items@[i].key@) by {
                    let a = if i < at {
                        i
                    } else {
                        i + 1
                    };
                    assert(items@[i] == before.items@[a]);
                }
            }
            self.items = items;
            proof {
                assert(self.keys() =~= before.keys().remove(at as int));
                assert(self.values() =~= before.values().remove(at as int));
                lemma_map_of_remove(before.keys(), before.values(), at as int);
            }
        } else {
            proof {
                assert(self@ =~= before@.remove(key@));
            }
        }
    }

    /// All rows, in ascending order of their keys.
    pub fn all(&self) -> (r: Vec<DbResult<TableValue>>)
        ensures
            self.in_order(),
            r@.len() == picked(self.keys(), self.values(), any_key(), self.keys().len()).len(),
            forall|i: int|
                0 <= i < r@.len() ==> result_view(#[trigger] r@[i]) == Ok::<
                    TableValueView,
                    DbErrorView,
                >(picked(self.keys(), self.values(), any_key(), self.keys().len())[i]),
    {
        let mut out: Vec<DbResult<TableValue>> = Vec::new();
        let mut i: usize = 0;
        proof {
            use_type_invariant(self);
            self.lemma_in_order();
        }
        while i < self.items.len()
            invariant
                i <= self.items@.len(),
                out@.len() == picked(self.keys(), self.values(), any_key(), i as nat).len(),
                forall|k: int|
                    0 <= k < out@.len() ==> result_view(#[trigger] out@[k]) == Ok::<
                        TableValueView,
                        DbErrorView,
                    >(picked(self.keys(), self.values(), any_key(), i as nat)[k]),
            decreases self.items@.len() - i,
        {
            out.push(Ok(self.items[i].value.clone()));
            i += 1;
        }
        out
    }

    /// The rows whose keys start with `prefix`, in ascending order of
    /// their keys.
    pub fn with_prefix(&self, prefix: &OndoKey) -> (r: Vec<DbResult<TableValue>>)
        ensures
            self.in_order(),
            r@.len() == picked(
                self.keys(),
                self.values(),
                keys_with_prefix(prefix@),
                self.keys().len(),
            ).len(),
            forall|i: int|
                0 <= i < r@.len() ==> result_view(#[trigger] r@[i]) == Ok::<
                    TableValueView,
                    DbErrorView,
                >(
                    picked(
                        self.keys(),
                        self.values(),
                        keys_with_prefix(prefix@),
                        self.keys().len(),
                    )[i],
                ),
    {
        let mut out: Vec<DbResult<TableValue>> = Vec::new();
        let mut i: usize = 0;
        proof {
            use_type_invariant(self);
            self.lemma_in_order();
        }
        while i < self.items.len()
            invariant
                i <= self.items@.len(),
                out@.len() == picked(
                    self.keys(),
                    self.values(),
                    keys_with_prefix(prefix@),
                    i as nat,
                ).len(),
                forall|k: int|
                    0 <= k < out@.len() ==> result_view(#[trigger] out@[k]) == Ok::<
                        TableValueView,
                        DbErrorView,
                    >(picked(self.keys(), self.values(), keys_with_prefix(prefix@), i as nat)[k]),
            decreases self.items@.len() - i,
        {
            if self.items[i].key.has_prefix(prefix) {
                out.push(Ok(self.items[i].value.clone()));
            }
            i += 1;
        }
        out
    }

    /// The rows whose keys lie from `start`, inclusive, up to `end`,
    /// exclusive, in ascending order of their keys.
    pub fn in_range(&self, start: &OndoKey, end: &OndoKey) -> (r: Vec<DbResult<TableValue>>)
        ensures
            self.in_order(),
            r@.len() == picked(
                self.keys(),
                self.values(),
                keys_in_range(start@, end@),
                self.keys().len(),
            ).len(),
            forall|i: int|
                0 <= i < r@.len() ==> result_view(#[trigger] r@[i]) == Ok::<
                    TableValueView,
                    DbErrorView,
                >(
                    picked(
                        self.keys(),
                        self.values(),
                        keys_in_range(start@, end@),
                        self.keys().len(),
                    )[i],
                ),
    {
        let from = start.encode();
        let to = end.encode();
        let mut out: Vec<DbResult<TableValue>> = Vec::new();
        let mut i: usize = 0;
        proof {
            use_type_invariant(self);
            self.lemma_in_order();
        }
        while i < self.items.len()
            invariant
                i <= self.items@.len(),
                from@ == encode_key(start@),
                to@ == encode_key(end@),
                out@.len() == picked(
                    self.keys(),
                    self.values(),
                    keys_in_range(start@, end@),
                    i as nat,
                ).len(),
                forall|k: int|
                    0 <= k < out@.len() ==> result_view(#[trigger] out@[k]) == Ok::<
                        TableValueView,
                        DbErrorView,
                    >(picked(self.keys(), self.values(), keys_in_range(start@, end@), i as nat)[k]),
            decreases self.items@.len() - i,
        {
            proof {
                use_type_invariant(self);
                lemma_key_order(self.items@[i as int].key, *start);
                lemma_key_order(self.items@[i as int].key, *end);
            }
            let code = self.items[i].code.as_slice();
            if !bytes_before(code, from.as_slice()) && bytes_before(code, to.as_slice()) {
                out.push(Ok(self.items[i].value.clone()));
            }
            i += 1;
        }
        out
    }
}

} // verus!
