//! Composite keys: ordered sequences of scalar parts.
//!
//! A key stands for a primary key of a row or for the key of an index entry.
//! Its length tag is the number of its parts.

use crate::value::{lemma_array_view, Number, TableValue, TableValueView};
use vstd::prelude::*;

verus! {

/// One scalar part of a key.
#[derive(Debug, PartialEq, Eq)]
pub enum KeyPart {
    Null,
    Bool(bool),
    Number(Number),
    Text(String),
}

/// The mathematical value of a [`KeyPart`].
pub enum KeyPartView {
    Null,
    Bool(bool),
    Number(Number),
    Text(Seq<char>),
}

/// A composite key.
#[derive(Debug, PartialEq, Eq)]
pub struct OndoKey {
    pub values: Vec<KeyPart>,
}

/// The identifier of a row that may still have to be assigned.
pub type OptionalOndoKey = Option<OndoKey>;

impl DeepView for KeyPart {
    type V = KeyPartView;

    open spec fn deep_view(&self) -> KeyPartView {
        match self {
            KeyPart::Null => KeyPartView::Null,
            KeyPart::Bool(b) => KeyPartView::Bool(*b),
            KeyPart::Number(n) => KeyPartView::Number(*n),
            KeyPart::Text(s) => KeyPartView::Text(s@),
        }
    }
}

impl View for KeyPart {
    type V = KeyPartView;

    open spec fn view(&self) -> KeyPartView {
        self.deep_view()
    }
}

impl DeepView for OndoKey {
    type V = Seq<KeyPartView>;

    open spec fn deep_view(&self) -> Seq<KeyPartView> {
        self.values.deep_view()
    }
}

impl View for OndoKey {
    type V = Seq<KeyPartView>;

    open spec fn view(&self) -> Seq<KeyPartView> {
        self.deep_view()
    }
}

impl KeyPartView {
    /// The part as a table value.
    pub open spec fn to_value(self) -> TableValueView {
        match self {
            KeyPartView::Null => TableValueView::Null,
            KeyPartView::Bool(b) => TableValueView::Bool(b),
            KeyPartView::Number(n) => TableValueView::Number(n),
            KeyPartView::Text(s) => TableValueView::String(s),
        }
    }
}

/// The key part that a scalar value stands for; arrays and objects stand for
/// none.
pub open spec fn part_of_value(value: TableValueView) -> Option<KeyPartView> {
    match value {
        TableValueView::Null => Some(KeyPartView::Null),
        TableValueView::Bool(b) => Some(KeyPartView::Bool(b)),
        TableValueView::Number(n) => Some(KeyPartView::Number(n)),
        TableValueView::String(s) => Some(KeyPartView::Text(s)),
        _ => None,
    }
}

/// The parts that a list of scalar values stands for; `None` as soon as one
/// of them is no scalar.
pub open spec fn parts_of_values(items: Seq<TableValueView>) -> Option<Seq<KeyPartView>> {
    if forall|i: int| 0 <= i < items.len() ==> (#[trigger] items[i]).is_scalar() {
        Some(Seq::new(items.len(), |i: int| part_of_value(items[i]).unwrap()))
    } else {
        None
    }
}

/// The key that a value stands for: a scalar is a key of one part, an array
/// of scalars a key of as many parts, anything else no key.
pub open spec fn key_of_value(value: TableValueView) -> Option<Seq<KeyPartView>> {
    match value {
        TableValueView::Array(items) => parts_of_values(items),
        TableValueView::Object(_) => None,
        _ => Some(seq![part_of_value(value).unwrap()]),
    }
}

/// The value that stands for a key: its one part, or the array of its parts.
pub open spec fn value_of_key(key: Seq<KeyPartView>) -> TableValueView {
    if key.len() == 1 {
        key[0].to_value()
    } else {
        TableValueView::Array(Seq::new(key.len(), |i: int| key[i].to_value()))
    }
}

/// A key written as a value reads back as the same key.
pub proof fn lemma_key_value_round_trip(key: Seq<KeyPartView>)
    ensures
        key_of_value(value_of_key(key)) == Some(key),
{
    if key.len() == 1 {
        assert(seq![part_of_value(key[0].to_value()).unwrap()] =~= key);
    } else {
        let items = Seq::new(key.len(), |i: int| key[i].to_value());
        assert forall|i: int| 0 <= i < items.len() implies (#[trigger] items[i]).is_scalar() by {}
        assert(parts_of_values(items).unwrap() =~= key);
    }
}

impl Clone for KeyPart {
    fn clone(&self) -> (r: Self)
        ensures
            r@ == self@,
    {
        match self {
            KeyPart::Null => KeyPart::Null,
            KeyPart::Bool(b) => KeyPart::Bool(*b),
            KeyPart::Number(n) => KeyPart::Number(*n),
            KeyPart::Text(s) => KeyPart::Text(s.clone()),
        }
    }
}

impl Clone for OndoKey {
    fn clone(&self) -> (r: Self)
        ensures
            r@ == self@,
    {
        let mut values: Vec<KeyPart> = Vec::new();
        let mut i: usize = 0;
        while i < self.values.len()
            invariant
                i <= self.values.len(),
                values.len() == i,
                forall|j: int| 0 <= j < i ==> values@[j]@ == self.values@[j]@,
            decreases self.values.len() - i,
        {
            values.push(self.values[i].clone());
            i += 1;
        }
        assert(values.deep_view() =~= self.values.deep_view());
        OndoKey { values }
    }
}

impl KeyPart {
    /// The part as a table value.
    pub fn to_table_value(&self) -> (r: TableValue)
        ensures
            r@ == self@.to_value(),
    {
        match self {
            KeyPart::Null => TableValue::Null,
            KeyPart::Bool(b) => TableValue::Bool(*b),
            KeyPart::Number(n) => TableValue::Number(*n),
            KeyPart::Text(s) => TableValue::String(s.clone()),
        }
    }

    /// The part that a scalar value stands for.
    pub fn from_table_value(value: &TableValue) -> (r: Option<KeyPart>)
        ensures
            r.deep_view() == part_of_value(value@),
    {
        match value {
            TableValue::Null => Some(KeyPart::Null),
            TableValue::Bool(b) => Some(KeyPart::Bool(*b)),
            TableValue::Number(n) => Some(KeyPart::Number(*n)),
            TableValue::String(s) => Some(KeyPart::Text(s.clone())),
            _ => None,
        }
    }
}

impl OndoKey {
    /// The key with these parts.
    pub fn new(values: Vec<KeyPart>) -> (r: Self)
        ensures
            r@ == values.deep_view(),
    {
        OndoKey { values }
    }

    /// The length tag: how many parts the key has.
    pub fn len(&self) -> (r: usize)
        ensures
            r == self@.len(),
    {
        self.values.len()
    }

    /// The key whose one part is the integer `id`.
    pub fn from_u64(id: u64) -> (r: Self)
        ensures
            r@ == seq![KeyPartView::Number(Number::PosInt(id))],
    {
        let mut values: Vec<KeyPart> = Vec::new();
        values.push(KeyPart::Number(Number::PosInt(id)));
        assert(values.deep_view() =~= seq![KeyPartView::Number(Number::PosInt(id))]);
        OndoKey { values }
    }

    /// The key whose one part is the text `text`.
    pub fn from_text(text: &str) -> (r: Self)
        ensures
            r@ == seq![KeyPartView::Text(text@)],
    {
        let mut values: Vec<KeyPart> = Vec::new();
        values.push(KeyPart::Text(String::from_str(text)));
        assert(values.deep_view() =~= seq![KeyPartView::Text(text@)]);
        OndoKey { values }
    }

    /// This key followed by the parts of `tail`.
    pub fn concat(&self, tail: &OndoKey) -> (r: Self)
        ensures
            r@ == self@ + tail@,
    {
        let mut values: Vec<KeyPart> = Vec::new();
        let mut i: usize = 0;
        while i < self.values.len()
            invariant
                i <= self.values.len(),
                values.len() == i,
                forall|j: int| 0 <= j < i ==> values@[j]@ == self.values@[j]@,
            decreases self.values.len() - i,
        {
            values.push(self.values[i].clone());
            i += 1;
        }
        let mut k: usize = 0;
        while k < tail.values.len()
            invariant
                k <= tail.values.len(),
                values.len() == self.values.len() + k,
                forall|j: int| 0 <= j < self.values.len() ==> values@[j]@ == self.values@[j]@,
                forall|j: int|
                    0 <= j < k ==> values@[self.values.len() + j]@ == tail.values@[j]@,
            decreases tail.values.len() - k,
        {
            values.push(tail.values[k].clone());
            k += 1;
        }
        assert(values.deep_view() =~= self@ + tail@);
        OndoKey { values }
    }

    /// The value that stands for this key: its one part, or the array of its
    /// parts.
    pub fn to_table_value(&self) -> (r: TableValue)
        ensures
            r@ == value_of_key(self@),
    {
        if self.values.len() == 1 {
            self.values[0].to_table_value()
        } else {
            let mut items: Vec<TableValue> = Vec::new();
            let mut i: usize = 0;
            while i < self.values.len()
                invariant
                    i <= self.values.len(),
                    items.len() == i,
                    forall|j: int| 0 <= j < i ==> items@[j]@ == self.values@[j]@.to_value(),
                decreases self.values.len() - i,
            {
                items.push(self.values[i].to_table_value());
                i += 1;
            }
            proof {
                lemma_array_view(items);
                assert(items.deep_view() =~= Seq::new(
                    self@.len(),
                    |i: int| self@[i].to_value(),
                ));
            }
            TableValue::Array(items)
        }
    }

    /// The key that a value stands for, if it stands for one.
    pub fn from_table_value(value: &TableValue) -> (r: Option<OndoKey>)
        ensures
            r.deep_view() == key_of_value(value@),
    {
        match value {
            TableValue::Array(items) => {
                proof {
                    lemma_array_view(*items);
                }
                let mut values: Vec<KeyPart> = Vec::new();
                let mut i: usize = 0;
                while i < items.len()
                    invariant
                        i <= items.len(),
                        values.len() == i,
                        value@ == TableValueView::Array(items.deep_view()),
                        forall|j: int| 0 <= j < i ==> items@[j]@.is_scalar(),
                        forall|j: int|
                            0 <= j < i ==> values@[j]@ == part_of_value(items@[j]@).unwrap(),
                    decreases items.len() - i,
                {
                    match KeyPart::from_table_value(&items[i]) {
                        Some(part) => {
                            values.push(part);
                        },
                        None => {
                            assert(!(#[trigger] items.deep_view()[i as int]).is_scalar());
                            return None;
                        },
                    }
                    i += 1;
                }
                proof {
                    assert forall|j: int| 0 <= j < items.len() implies (
                    #[trigger] items.deep_view()[j]).is_scalar() by {
                        assert(items@[j]@.is_scalar());
                    }
                    assert(values.deep_view() =~= parts_of_values(items.deep_view()).unwrap());
                }
                Some(OndoKey { values })
            },
            TableValue::Object(_) => None,
            _ => {
                match KeyPart::from_table_value(value) {
                    Some(part) => {
                        let mut values: Vec<KeyPart> = Vec::new();
                        values.push(part);
                        assert(values.deep_view() =~= seq![part_of_value(value@).unwrap()]);
                        Some(OndoKey { values })
                    },
                    None => None,
                }
            },
        }
    }
}

/// `key` starts with the parts of `prefix`.
pub open spec fn key_has_prefix(key: Seq<KeyPartView>, prefix: Seq<KeyPartView>) -> bool {
    prefix.len() <= key.len() && key.take(prefix.len() as int) == prefix
}

impl Number {
    /// Whether this is the same number as `other`, kind and value.
    pub fn same(&self, other: &Number) -> (r: bool)
        ensures
            r == (*self == *other),
    {
        match (self, other) {
            (Number::PosInt(a), Number::PosInt(b)) => *a == *b,
            (Number::NegInt(a), Number::NegInt(b)) => *a == *b,
            (Number::Float(a), Number::Float(b)) => *a == *b,
            _ => false,
        }
    }
}

impl KeyPart {
    /// Whether this is the same part as `other`.
    pub fn same(&self, other: &KeyPart) -> (r: bool)
        ensures
            r == (self@ == other@),
    {
        match (self, other) {
            (KeyPart::Null, KeyPart::Null) => true,
            (KeyPart::Bool(a), KeyPart::Bool(b)) => *a == *b,
            (KeyPart::Number(a), KeyPart::Number(b)) => a.same(b),
            (KeyPart::Text(a), KeyPart::Text(b)) => *a == *b,
            _ => false,
        }
    }
}

impl OndoKey {
    /// Whether this key starts with the parts of `prefix`.
    pub fn has_prefix(&self, prefix: &OndoKey) -> (r: bool)
        ensures
            r == key_has_prefix(self@, prefix@),
    {
        if prefix.values.len() > self.values.len() {
            return false;
        }
        let mut i: usize = 0;
        while i < prefix.values.len()
            invariant
                i <= prefix.values.len(),
                prefix.values.len() <= self.values.len(),
                forall|k: int| 0 <= k < i ==> self.values@[k]@ == prefix.values@[k]@,
            decreases prefix.values.len() - i,
        {
            if !self.values[i].same(&prefix.values[i]) {
                assert(self@.take(prefix@.len() as int)[i as int] != prefix@[i as int]);
                return false;
            }
            i += 1;
        }
        assert(self@.take(prefix@.len() as int) =~= prefix@);
        true
    }
}

} // verus!
