//! Index maintenance: the index entry that a row has in an index.
//!
//! The key of the entry holds the values of the index's fields, in declared
//! order, followed by the row's primary key as the row carries it in `_id`;
//! the payload of the entry is that primary key. A missing field counts as
//! null. A row with an array or an object where a scalar is needed has no
//! entry.

use crate::entity::{Index, IndexView};
use crate::key::{key_of_value, part_of_value, value_of_key, KeyPart, KeyPartView, OndoKey};
use crate::reference::cf_name_maker::CfNameMaker;
use crate::reference::effect::{Effect, EffectView, Effects, TableValueEffect, TableValueEffectView};
use crate::value::{id_field, TableValue, TableValueView};
use vstd::prelude::*;

verus! {

/// The primary key that a row carries: what its `_id` stands for; a row
/// without `_id` carries the key whose one part is null.
pub open spec fn primary_key(value: TableValueView) -> Option<Seq<KeyPartView>> {
    match value.member(id_field()) {
        Some(id) => key_of_value(id),
        None => Some(seq![KeyPartView::Null]),
    }
}

/// The key part that a row has at a dotted path: null where the path leads
/// nowhere, none where it leads to an array or an object.
pub open spec fn field_part(value: TableValueView, path: Seq<char>) -> Option<KeyPartView> {
    match value.at_path(path) {
        Some(found) => part_of_value(found),
        None => Some(KeyPartView::Null),
    }
}

/// The key parts that a row has at the paths `fields`, if it has one at each.
pub open spec fn field_parts(value: TableValueView, fields: Seq<Seq<char>>) -> Option<
    Seq<KeyPartView>,
> {
    if forall|i: int| 0 <= i < fields.len() ==> field_part(value, #[trigger] fields[i]).is_some() {
        Some(Seq::new(fields.len(), |i: int| field_part(value, fields[i]).unwrap()))
    } else {
        None
    }
}

/// The key of the entry that a row has in an index: the parts at the index's
/// fields, then the parts of the row's primary key.
pub open spec fn index_key(value: TableValueView, index: IndexView) -> Option<Seq<KeyPartView>> {
    match (field_parts(value, index.fields), primary_key(value)) {
        (Some(parts), Some(id)) => Some(parts + id),
        _ => None,
    }
}

/// The effects that enter a row into an index: one put of the entry, or none
/// for a row that has no entry.
pub open spec fn index_effects(value: TableValueView, index: IndexView) -> Seq<EffectView> {
    match index_key(value, index) {
        Some(key) => seq![
            EffectView::TableValueEffect(
                TableValueEffectView::Put(
                    CfNameMaker::spec_for_index_values(index.reference),
                    key,
                    value_of_key(primary_key(value).unwrap()),
                ),
            ),
        ],
        None => seq![],
    }
}

/// The effects that take a row out of an index: one delete of the entry, or
/// none for a row that has no entry.
pub open spec fn deindex_effects(value: TableValueView, index: IndexView) -> Seq<EffectView> {
    match index_key(value, index) {
        Some(key) => seq![
            EffectView::TableValueEffect(
                TableValueEffectView::Delete(
                    CfNameMaker::spec_for_index_values(index.reference),
                    key,
                ),
            ),
        ],
        None => seq![],
    }
}

/// The primary key that a row carries in `_id`.
pub fn primary_key_of(value: &TableValue) -> (r: Option<OndoKey>)
    ensures
        r.deep_view() == primary_key(value@),
{
    match value.get("_id") {
        Some(id) => OndoKey::from_table_value(id),
        None => {
            let mut values: Vec<KeyPart> = Vec::new();
            values.push(KeyPart::Null);
            assert(values.deep_view() =~= seq![KeyPartView::Null]);
            Some(OndoKey::new(values))
        },
    }
}

/// The key of the entry that a row has in an index.
pub fn index_key_of(value: &TableValue, index: &Index) -> (r: Option<OndoKey>)
    ensures
        r.deep_view() == index_key(value@, index@),
{
    let mut parts: Vec<KeyPart> = Vec::new();
    let mut i: usize = 0;
    while i < index.fields.len()
        invariant
            i <= index.fields.len(),
            parts.len() == i,
            forall|j: int| 0 <= j < i ==> field_part(value@, index.fields@[j]@).is_some(),
            forall|j: int|
                0 <= j < i ==> parts@[j]@ == field_part(value@, index.fields@[j]@).unwrap(),
        decreases index.fields.len() - i,
    {
        let part = match value.at_path(index.fields[i].as_str()) {
            Some(found) => KeyPart::from_table_value(found),
            None => Some(KeyPart::Null),
        };
        match part {
            Some(part) => {
                parts.push(part);
            },
            None => {
                assert(field_part(value@, #[trigger] index@.fields[i as int]).is_none());
                return None;
            },
        }
        i += 1;
    }
    proof {
        assert forall|j: int| 0 <= j < index@.fields.len() implies field_part(
            value@,
            #[trigger] index@.fields[j],
        ).is_some() by {
            assert(field_part(value@, index.fields@[j]@).is_some());
        }
        assert(parts.deep_view() =~= field_parts(value@, index@.fields).unwrap());
    }
    match primary_key_of(value) {
        Some(id) => Some(OndoKey::new(parts).concat(&id)),
        None => None,
    }
}

/// The effects that enter `value` into `index`.
pub fn do_index_table_value(value: &TableValue, index: &Index) -> (r: Effects)
    ensures
        r.deep_view() == index_effects(value@, index@),
{
    let mut effects: Effects = Vec::new();
    match index_key_of(value, index) {
        Some(key) => {
            match primary_key_of(value) {
                Some(id) => {
                    effects.push(
                        Effect::TableValueEffect(
                            TableValueEffect::Put(
                                CfNameMaker::for_index_values(&index.reference),
                                key,
                                id.to_table_value(),
                            ),
                        ),
                    );
                },
                None => {},
            }
        },
        None => {},
    }
    assert(effects.deep_view() =~= index_effects(value@, index@));
    effects
}

/// The effects that take `value` out of `index`.
pub fn do_deindex_table_value(value: &TableValue, index: &Index) -> (r: Effects)
    ensures
        r.deep_view() == deindex_effects(value@, index@),
{
    let mut effects: Effects = Vec::new();
    match index_key_of(value, index) {
        Some(key) => {
            effects.push(
                Effect::TableValueEffect(
                    TableValueEffect::Delete(CfNameMaker::for_index_values(&index.reference), key),
                ),
            );
        },
        None => {},
    }
    assert(effects.deep_view() =~= deindex_effects(value@, index@));
    effects
}

/// Writes `key` into the row as its `_id`.
pub fn insert_key_into_table_value(value: &mut TableValue, key: &OndoKey)
    ensures
        final(value)@ == old(value)@.with_member(id_field(), value_of_key(key@)),
{
    value.set_member("_id", key.to_table_value());
}

} // verus!
