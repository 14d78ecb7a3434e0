//! The address of a row.

use crate::entity::{IndexView, TableStored};
use crate::error::{found, result_view, DbError, DbErrorView, DbResult};
use crate::indexing::{
    deindex_effects, do_deindex_table_value, do_index_table_value, index_effects,
    insert_key_into_table_value,
};
use crate::key::{value_of_key, KeyPartView, OndoKey, OptionalOndoKey};
use crate::reference::cf_name_maker::CfNameMaker;
use crate::reference::column_value_reference::{
    counted_view, ColumnValueReference, ColumnValueReferenceView,
};
use crate::reference::effect::{
    extend_effects, push_effect, Effect, EffectView, Effects, TableValueEffect,
    TableValueEffectView,
};
use crate::reference::requests::{
    increment_answer, table_stored_answer, table_value_answer, ColumnValueRequests,
    TableStoredRequests, TableValueRequests,
};
use crate::reference::table_reference::{
    Plan, TableReference, TableReferenceView, TableStoredAnswer,
};
use crate::value::{id_field, Number, TableValue, TableValueView};
use vstd::prelude::*;

verus! {

/// The key of a row.
pub type TableKey = OndoKey;

/// Identifies a row of a table by its primary key.
#[derive(Debug, PartialEq, Eq)]
pub struct TableValueReference {
    pub table_reference: TableReference,
    pub id: OndoKey,
}

/// Identifies a row that is about to be created; without an `id` the table's
/// counter assigns one.
#[derive(Debug, PartialEq, Eq)]
pub struct CreateTableValueReference {
    pub table_reference: TableReference,
    pub id: OptionalOndoKey,
}

/// The mathematical value of a [`TableValueReference`].
pub struct TableValueReferenceView {
    pub table_reference: TableReferenceView,
    pub id: Seq<KeyPartView>,
}

/// The mathematical value of a [`CreateTableValueReference`].
pub struct CreateTableValueReferenceView {
    pub table_reference: TableReferenceView,
    pub id: Option<Seq<KeyPartView>>,
}

impl DeepView for TableValueReference {
    type V = TableValueReferenceView;

    open spec fn deep_view(&self) -> TableValueReferenceView {
        TableValueReferenceView { table_reference: self.table_reference@, id: self.id@ }
    }
}

impl View for TableValueReference {
    type V = TableValueReferenceView;

    open spec fn view(&self) -> TableValueReferenceView {
        self.deep_view()
    }
}

impl DeepView for CreateTableValueReference {
    type V = CreateTableValueReferenceView;

    open spec fn deep_view(&self) -> CreateTableValueReferenceView {
        CreateTableValueReferenceView {
            table_reference: self.table_reference@,
            id: self.id.deep_view(),
        }
    }
}

impl View for CreateTableValueReference {
    type V = CreateTableValueReferenceView;

    open spec fn view(&self) -> CreateTableValueReferenceView {
        self.deep_view()
    }
}

impl Clone for TableValueReference {
    fn clone(&self) -> (r: Self)
        ensures
            r@ == self@,
    {
        TableValueReference { table_reference: self.table_reference.clone(), id: self.id.clone() }
    }
}

impl Clone for CreateTableValueReference {
    fn clone(&self) -> (r: Self)
        ensures
            r@ == self@,
    {
        let id = match &self.id {
            Some(key) => Some(key.clone()),
            None => None,
        };
        CreateTableValueReference { table_reference: self.table_reference.clone(), id }
    }
}

impl TableValueReference {
    /// The address of the row `id` of the table `table_name` of the domain
    /// `domain_name`.
    pub fn build(domain_name: &str, table_name: &str, id: OndoKey) -> (r: Self)
        ensures
            r@.table_reference.domain_reference.domain_name == domain_name@,
            r@.table_reference.table_name == table_name@,
            r@.id == id@,
    {
        TableValueReference { table_reference: TableReference::build(domain_name, table_name), id }
    }

    /// The address of the row `id` of the table at `table_reference`.
    pub fn new(table_reference: TableReference, id: OndoKey) -> (r: Self)
        ensures
            r@.table_reference == table_reference@,
            r@.id == id@,
    {
        TableValueReference { table_reference, id }
    }

    /// The address of the row's table.
    pub fn to_table_reference(&self) -> (r: TableReference)
        ensures
            r@ == self@.table_reference,
    {
        self.table_reference.clone()
    }
}

impl CreateTableValueReference {
    /// The address of the row's table.
    pub fn to_table_reference(&self) -> (r: TableReference)
        ensures
            r@ == self@.table_reference,
    {
        self.table_reference.clone()
    }
}

/// What a lookup of a row may answer.
pub type TableValueAnswer = Result<Option<TableValueView>, DbErrorView>;

/// What an increment of a counter may answer: the new value and the
/// effects that persist it.
pub type IncrementAnswer = Result<(u64, Seq<EffectView>), DbErrorView>;

/// The effects that enter `value` into the first `count` of `indexes`, in
/// stored order.
pub open spec fn all_index_effects(
    value: TableValueView,
    indexes: Seq<(Seq<char>, IndexView)>,
    count: nat,
) -> Seq<EffectView>
    decreases count,
{
    if count == 0 {
        Seq::empty()
    } else {
        all_index_effects(value, indexes, (count - 1) as nat) + index_effects(
            value,
            indexes[count - 1].1,
        )
    }
}

/// The effects that take `value` out of the first `count` of `indexes`, in
/// stored order.
pub open spec fn all_deindex_effects(
    value: TableValueView,
    indexes: Seq<(Seq<char>, IndexView)>,
    count: nat,
) -> Seq<EffectView>
    decreases count,
{
    if count == 0 {
        Seq::empty()
    } else {
        all_deindex_effects(value, indexes, (count - 1) as nat) + deindex_effects(
            value,
            indexes[count - 1].1,
        )
    }
}

/// The effects that enter `value` into every index of its table.
pub open spec fn indexing_plan(value: TableValueView, response: TableStoredAnswer) -> Plan {
    match response {
        Err(e) => Err(e),
        Ok(None) => Err(DbErrorView::TableNotInitialized),
        Ok(Some(stored)) => Ok(all_index_effects(value, stored.indexes, stored.indexes.len())),
    }
}

/// The effects that take `value` out of every index of its table.
pub open spec fn deindexing_plan(value: TableValueView, response: TableStoredAnswer) -> Plan {
    match response {
        Err(e) => Err(e),
        Ok(None) => Err(DbErrorView::TableNotInitialized),
        Ok(Some(stored)) => Ok(all_deindex_effects(value, stored.indexes, stored.indexes.len())),
    }
}

impl TableValueReferenceView {
    /// The column family that holds the row.
    pub open spec fn container_cf_name(self) -> Seq<char> {
        self.table_reference.values_cf()
    }

    /// The effect that writes `value` as this row.
    pub open spec fn put_row(self, value: TableValueView) -> EffectView {
        EffectView::TableValueEffect(
            TableValueEffectView::Put(self.container_cf_name(), self.id, value),
        )
    }

    /// The effect that deletes this row.
    pub open spec fn delete_row(self) -> EffectView {
        EffectView::TableValueEffect(
            TableValueEffectView::Delete(self.container_cf_name(), self.id),
        )
    }

    /// Replaces the row: the put of the new value, the old value out of
    /// every index, the new value into every index.
    pub open spec fn put_table_value_plan(
        self,
        value: TableValueView,
        old: TableValueAnswer,
        for_deindex: TableStoredAnswer,
        for_index: TableStoredAnswer,
    ) -> Plan {
        match old {
            Err(e) => Err(e),
            Ok(None) => Err(DbErrorView::NotFound),
            Ok(Some(old_value)) => match deindexing_plan(old_value, for_deindex) {
                Err(e) => Err(e),
                Ok(out) => match indexing_plan(value, for_index) {
                    Err(e) => Err(e),
                    Ok(into) => Ok(seq![self.put_row(value)] + out + into),
                },
            },
        }
    }

    /// Deletes the row: the delete of the row, then the old value out of
    /// every index.
    pub open spec fn delete_table_value_plan(
        self,
        old: TableValueAnswer,
        for_deindex: TableStoredAnswer,
    ) -> Plan {
        match old {
            Err(e) => Err(e),
            Ok(None) => Err(DbErrorView::NotFound),
            Ok(Some(old_value)) => match deindexing_plan(old_value, for_deindex) {
                Err(e) => Err(e),
                Ok(out) => Ok(seq![self.delete_row()] + out),
            },
        }
    }
}

impl CreateTableValueReferenceView {
    /// The column family that holds the row.
    pub open spec fn container_cf_name(self) -> Seq<char> {
        self.table_reference.values_cf()
    }

    /// The counter that assigns identifiers to the rows of the table.
    pub open spec fn counter(self) -> ColumnValueReferenceView {
        ColumnValueReferenceView {
            column_reference: CfNameMaker::spec_for_table_counters(
                self.table_reference.domain_reference,
            ),
            id: seq![KeyPartView::Text(self.table_reference.table_name)],
        }
    }

    /// The key under which the row is created: the given one, or the one
    /// that the counter assigned.
    pub open spec fn assigned_id(self, counter: IncrementAnswer) -> Result<
        Seq<KeyPartView>,
        DbErrorView,
    > {
        match self.id {
            Some(id) => Ok(id),
            None => match counter {
                Err(e) => Err(e),
                Ok((n, _)) => Ok(seq![KeyPartView::Number(Number::PosInt(n))]),
            },
        }
    }

    /// The row as it is stored: with the assigned key as its `_id`, or as it
    /// was given where the key was given too.
    pub open spec fn stored_value(
        self,
        value: TableValueView,
        counter: IncrementAnswer,
    ) -> TableValueView {
        match (self.id, counter) {
            (None, Ok((n, _))) => value.with_member(
                id_field(),
                value_of_key(seq![KeyPartView::Number(Number::PosInt(n))]),
            ),
            _ => value,
        }
    }

    /// Creates the row: the effects that persist the counter, where it
    /// assigned the key; the put of the row; the row into every index.
    pub open spec fn post_table_value_plan(
        self,
        value: TableValueView,
        counter: IncrementAnswer,
        for_index: TableStoredAnswer,
    ) -> Result<(Seq<KeyPartView>, Seq<EffectView>), DbErrorView> {
        match self.assigned_id(counter) {
            Err(e) => Err(e),
            Ok(id) => {
                let row = TableValueReferenceView { table_reference: self.table_reference, id };
                let stored = self.stored_value(value, counter);
                let counted = if self.id is None {
                    counter->Ok_0.1
                } else {
                    Seq::empty()
                };
                match indexing_plan(stored, for_index) {
                    Err(e) => Err(e),
                    Ok(into) => Ok((id, counted + seq![row.put_row(stored)] + into)),
                }
            },
        }
    }
}

/// The value of what the creation of a row hands back.
pub open spec fn created_view(r: DbResult<(OndoKey, Effects)>) -> Result<
    (Seq<KeyPartView>, Seq<EffectView>),
    DbErrorView,
> {
    match r {
        Ok((id, effects)) => Ok((id@, effects.deep_view())),
        Err(e) => Err(e@),
    }
}

/// The effects that enter `value` into every index of its table, once the
/// table's record has been read.
pub fn plan_indexing(value: &TableValue, response: DbResult<Option<TableStored>>) -> (r: DbResult<
    Effects,
>)
    ensures
        result_view(r) == indexing_plan(value@, result_view(response)),
{
    match response {
        Err(e) => Err(e),
        Ok(None) => Err(DbError::TableNotInitialized),
        Ok(Some(stored)) => {
            let mut effects: Effects = Vec::new();
            let mut i: usize = 0;
            assert(effects.deep_view() =~= all_index_effects(value@, stored@.indexes, 0));
            while i < stored.indexes.len()
                invariant
                    i <= stored.indexes.len(),
                    effects.deep_view() == all_index_effects(value@, stored@.indexes, i as nat),
                decreases stored.indexes.len() - i,
            {
                extend_effects(&mut effects, do_index_table_value(value, &stored.indexes[i].1));
                i += 1;
            }
            Ok(effects)
        },
    }
}

/// The effects that take `value` out of every index of its table, once the
/// table's record has been read.
pub fn plan_deindexing(value: &TableValue, response: DbResult<Option<TableStored>>) -> (r:
    DbResult<Effects>)
    ensures
        result_view(r) == deindexing_plan(value@, result_view(response)),
{
    match response {
        Err(e) => Err(e),
        Ok(None) => Err(DbError::TableNotInitialized),
        Ok(Some(stored)) => {
            let mut effects: Effects = Vec::new();
            let mut i: usize = 0;
            assert(effects.deep_view() =~= all_deindex_effects(value@, stored@.indexes, 0));
            while i < stored.indexes.len()
                invariant
                    i <= stored.indexes.len(),
                    effects.deep_view() == all_deindex_effects(value@, stored@.indexes, i as nat),
                decreases stored.indexes.len() - i,
            {
                extend_effects(&mut effects, do_deindex_table_value(value, &stored.indexes[i].1));
                i += 1;
            }
            Ok(effects)
        },
    }
}

/// The effects that enter `table_value` into every index of the row's
/// table; fails with `TableNotInitialized` if the table has no record.
pub fn do_indexing<R: TableStoredRequests + ?Sized>(
    table_value_reference: &TableValueReference,
    table_value: &TableValue,
    table_stored_requests: &R,
) -> (r: DbResult<Effects>)
    ensures
        exists|response: DbResult<Option<TableStored>>|
            table_stored_answer(
                table_stored_requests,
                table_value_reference@.table_reference.tables_cf(),
                table_value_reference@.table_reference.table_name,
                response,
            ) && result_view(r) == indexing_plan(table_value@, result_view(response)),
{
    let table_reference = table_value_reference.to_table_reference();
    let response = table_reference.get_table_stored(table_stored_requests);
    let ghost asked = response;
    assert(table_stored_answer(
        table_stored_requests,
        table_value_reference@.table_reference.tables_cf(),
        table_value_reference@.table_reference.table_name,
        asked,
    ));
    let r = plan_indexing(table_value, response);
    assert(result_view(r) == indexing_plan(table_value@, result_view(asked)));
    r
}

/// The effects that take `table_value` out of every index of the row's
/// table; fails with `TableNotInitialized` if the table has no record.
pub fn do_deindexing<R: TableStoredRequests + ?Sized>(
    table_value_reference: &TableValueReference,
    table_value: &TableValue,
    table_stored_requests: &R,
) -> (r: DbResult<Effects>)
    ensures
        exists|response: DbResult<Option<TableStored>>|
            table_stored_answer(
                table_stored_requests,
                table_value_reference@.table_reference.tables_cf(),
                table_value_reference@.table_reference.table_name,
                response,
            ) && result_view(r) == deindexing_plan(table_value@, result_view(response)),
{
    let table_reference = table_value_reference.to_table_reference();
    let response = table_reference.get_table_stored(table_stored_requests);
    let ghost asked = response;
    assert(table_stored_answer(
        table_stored_requests,
        table_value_reference@.table_reference.tables_cf(),
        table_value_reference@.table_reference.table_name,
        asked,
    ));
    let r = plan_deindexing(table_value, response);
    assert(result_view(r) == deindexing_plan(table_value@, result_view(asked)));
    r
}

impl TableValueReference {
    /// The column family that holds the row.
    pub fn container_cf_name(&self) -> (r: String)
        ensures
            r@ == self@.container_cf_name(),
    {
        CfNameMaker::for_table_values(&self.table_reference)
    }

    /// Looks the row up.
    pub fn get_table_value<R: TableValueRequests + ?Sized>(&self, request: &R) -> (response:
        DbResult<Option<TableValue>>)
        ensures
            table_value_answer(request, self@.container_cf_name(), self@, response),
    {
        let cf_name = self.container_cf_name();
        request.get_table_value(cf_name.as_str(), self)
    }

    /// The replacement of the row, once the old row and the table's record
    /// (once to take the old row out, once to enter the new one) have been
    /// read.
    pub fn plan_put_table_value(
        &self,
        value: &TableValue,
        old: DbResult<Option<TableValue>>,
        for_deindex: DbResult<Option<TableStored>>,
        for_index: DbResult<Option<TableStored>>,
    ) -> (r: DbResult<Effects>)
        ensures
            result_view(r) == self@.put_table_value_plan(
                value@,
                result_view(old),
                result_view(for_deindex),
                result_view(for_index),
            ),
    {
        match old {
            Err(e) => Err(e),
            Ok(None) => Err(DbError::NotFound),
            Ok(Some(old_value)) => match plan_deindexing(&old_value, for_deindex) {
                Err(e) => Err(e),
                Ok(out) => match plan_indexing(value, for_index) {
                    Err(e) => Err(e),
                    Ok(into) => {
                        let mut effects: Effects = Vec::new();
                        push_effect(
                            &mut effects,
                            Effect::TableValueEffect(
                                TableValueEffect::Put(
                                    self.container_cf_name(),
                                    self.id.clone(),
                                    value.clone(),
                                ),
                            ),
                        );
                        extend_effects(&mut effects, out);
                        extend_effects(&mut effects, into);
                        assert(effects.deep_view() =~= seq![self@.put_row(value@)]
                            + out.deep_view() + into.deep_view());
                        Ok(effects)
                    },
                },
            },
        }
    }

    /// Replaces the row; fails with `NotFound` if there is no row and with
    /// `TableNotInitialized` if the table has no record. The table's record
    /// is read once to take the old row out of the indexes and once more to
    /// enter the new one, each time only if nothing failed before.
    pub fn put_table_value<S: TableStoredRequests + ?Sized, V: TableValueRequests + ?Sized>(
        &self,
        value: &TableValue,
        table_stored_requests: &S,
        table_value_requests: &V,
    ) -> (r: DbResult<Effects>)
        ensures
            exists|
                old: DbResult<Option<TableValue>>,
                for_deindex: DbResult<Option<TableStored>>,
                for_index: DbResult<Option<TableStored>>,
            |
                #[trigger] put_table_value_reads(
                    self@,
                    table_stored_requests,
                    table_value_requests,
                    old,
                    for_deindex,
                    for_index,
                ) && result_view(r) == self@.put_table_value_plan(
                    value@,
                    result_view(old),
                    result_view(for_deindex),
                    result_view(for_index),
                ),
    {
        let old = self.get_table_value(table_value_requests);
        let ghost asked = old;
        match &old {
            Ok(Some(_)) => {
                let for_deindex = self.table_reference.get_table_stored(table_stored_requests);
                let ghost first = for_deindex;
                match &for_deindex {
                    Ok(Some(_)) => {
                        let for_index = self.table_reference.get_table_stored(
                            table_stored_requests,
                        );
                        let ghost second = for_index;
                        let r = self.plan_put_table_value(value, old, for_deindex, for_index);
                        assert(put_table_value_reads(
                            self@,
                            table_stored_requests,
                            table_value_requests,
                            asked,
                            first,
                            second,
                        ));
                        r
                    },
                    _ => {
                        let r = self.plan_put_table_value(value, old, for_deindex, Ok(None));
                        assert(put_table_value_reads(
                            self@,
                            table_stored_requests,
                            table_value_requests,
                            asked,
                            first,
                            Ok(None),
                        ));
                        r
                    },
                }
            },
            _ => {
                let r = self.plan_put_table_value(value, old, Ok(None), Ok(None));
                assert(put_table_value_reads(
                    self@,
                    table_stored_requests,
                    table_value_requests,
                    asked,
                    Ok(None),
                    Ok(None),
                ));
                r
            },
        }
    }

    /// The deletion of the row, once the old row and the table's record have
    /// been read.
    pub fn plan_delete_table_value(
        &self,
        old: DbResult<Option<TableValue>>,
        for_deindex: DbResult<Option<TableStored>>,
    ) -> (r: DbResult<Effects>)
        ensures
            result_view(r) == self@.delete_table_value_plan(
                result_view(old),
                result_view(for_deindex),
            ),
    {
        match old {
            Err(e) => Err(e),
            Ok(None) => Err(DbError::NotFound),
            Ok(Some(old_value)) => match plan_deindexing(&old_value, for_deindex) {
                Err(e) => Err(e),
                Ok(out) => {
                    let mut effects: Effects = Vec::new();
                    push_effect(
                        &mut effects,
                        Effect::TableValueEffect(
                            TableValueEffect::Delete(self.container_cf_name(), self.id.clone()),
                        ),
                    );
                    extend_effects(&mut effects, out);
                    assert(effects.deep_view() =~= seq![self@.delete_row()] + out.deep_view());
                    Ok(effects)
                },
            },
        }
    }

    /// Deletes the row; fails with `NotFound` if there is no row and with
    /// `TableNotInitialized` if the table has no record. The table's record
    /// is read only for a row that exists.
    pub fn delete_table_value<S: TableStoredRequests + ?Sized, V: TableValueRequests + ?Sized>(
        &self,
        table_stored_requests: &S,
        table_value_requests: &V,
    ) -> (r: DbResult<Effects>)
        ensures
            exists|old: DbResult<Option<TableValue>>, for_deindex: DbResult<Option<TableStored>>|
                #[trigger] delete_table_value_reads(
                    self@,
                    table_stored_requests,
                    table_value_requests,
                    old,
                    for_deindex,
                ) && result_view(r) == self@.delete_table_value_plan(
                    result_view(old),
                    result_view(for_deindex),
                ),
    {
        let old = self.get_table_value(table_value_requests);
        let ghost asked = old;
        match &old {
            Ok(Some(_)) => {
                let for_deindex = self.table_reference.get_table_stored(table_stored_requests);
                let ghost first = for_deindex;
                let r = self.plan_delete_table_value(old, for_deindex);
                assert(delete_table_value_reads(
                    self@,
                    table_stored_requests,
                    table_value_requests,
                    asked,
                    first,
                ));
                r
            },
            _ => {
                let r = self.plan_delete_table_value(old, Ok(None));
                assert(delete_table_value_reads(
                    self@,
                    table_stored_requests,
                    table_value_requests,
                    asked,
                    Ok(None),
                ));
                r
            },
        }
    }
}

impl CreateTableValueReference {
    /// The column family that holds the row.
    pub fn container_cf_name(&self) -> (r: String)
        ensures
            r@ == self@.container_cf_name(),
    {
        CfNameMaker::for_table_values(&self.table_reference)
    }

    /// The counter that assigns identifiers to the rows of the table.
    pub fn counter(&self) -> (r: ColumnValueReference)
        ensures
            r@ == self@.counter(),
    {
        ColumnValueReference {
            column_reference: CfNameMaker::for_table_counters(
                &self.table_reference.domain_reference,
            ),
            id: OndoKey::from_text(self.table_reference.table_name.as_str()),
        }
    }

    /// The creation of the row, once the counter (where no key was given)
    /// and the table's record have been read. Where the counter assigned the
    /// key, `value` gets it as its `_id`.
    pub fn plan_post_table_value(
        &self,
        value: &mut TableValue,
        counter: DbResult<(u64, Effects)>,
        for_index: DbResult<Option<TableStored>>,
    ) -> (r: DbResult<(OndoKey, Effects)>)
        ensures
            created_view(r) == self@.post_table_value_plan(
                old(value)@,
                counted_view(counter),
                result_view(for_index),
            ),
            final(value)@ == self@.stored_value(old(value)@, counted_view(counter)),
    {
        let mut effects: Effects = Vec::new();
        assert(effects.deep_view() =~= Seq::empty());
        let id_used: OndoKey = match &self.id {
            None => match counter {
                Err(e) => {
                    return Err(e);
                },
                Ok((new_id_int, counter_effects)) => {
                    extend_effects(&mut effects, counter_effects);
                    let new_ondo_key = OndoKey::from_u64(new_id_int);
                    insert_key_into_table_value(value, &new_ondo_key);
                    new_ondo_key
                },
            },
            Some(user_key) => user_key.clone(),
        };
        let new_reference = TableValueReference {
            table_reference: self.table_reference.clone(),
            id: id_used.clone(),
        };
        let ghost counted = effects.deep_view();
        push_effect(
            &mut effects,
            Effect::TableValueEffect(
                TableValueEffect::Put(
                    self.container_cf_name(),
                    new_reference.id.clone(),
                    value.clone(),
                ),
            ),
        );
        match plan_indexing(value, for_index) {
            Err(e) => Err(e),
            Ok(into) => {
                extend_effects(&mut effects, into);
                assert(effects.deep_view() =~= counted + seq![new_reference@.put_row(value@)]
                    + into.deep_view());
                Ok((id_used, effects))
            },
        }
    }

    /// Creates the row. Without a given key the table's counter is
    /// incremented, the new count is the key, and `value` gets it as its
    /// `_id`. Fails with the counter's error, and with `TableNotInitialized`
    /// if the table has no record. The table's record is read only once a
    /// key is there.
    pub fn post_table_value<
        C: ColumnValueRequests + ?Sized,
        S: TableStoredRequests + ?Sized,
        V: TableValueRequests + ?Sized,
    >(
        &self,
        value: &mut TableValue,
        column_value_requests: &C,
        table_stored_requests: &S,
        _table_value_requests: &V,
    ) -> (r: DbResult<(OndoKey, Effects)>)
        ensures
            exists|counter: DbResult<(u64, Effects)>, for_index: DbResult<Option<TableStored>>|
                #[trigger] post_table_value_reads(
                    self@,
                    column_value_requests,
                    table_stored_requests,
                    counter,
                    for_index,
                ) && created_view(r) == self@.post_table_value_plan(
                    old(value)@,
                    counted_view(counter),
                    result_view(for_index),
                ) && final(value)@ == self@.stored_value(old(value)@, counted_view(counter)),
    {
        let counter: DbResult<(u64, Effects)> = match &self.id {
            None => {
                let reference = self.counter();
                column_value_requests.increment_column_value(&reference)
            },
            Some(_) => Err(DbError::NotFound),
        };
        let ghost counted = counter;
        let has_id = match (&self.id, &counter) {
            (Some(_), _) => true,
            (None, Ok(_)) => true,
            _ => false,
        };
        if has_id {
            let for_index = self.table_reference.get_table_stored(table_stored_requests);
            let ghost asked = for_index;
            let r = self.plan_post_table_value(value, counter, for_index);
            assert(post_table_value_reads(
                self@,
                column_value_requests,
                table_stored_requests,
                counted,
                asked,
            ));
            r
        } else {
            let r = self.plan_post_table_value(value, counter, Ok(None));
            assert(post_table_value_reads(
                self@,
                column_value_requests,
                table_stored_requests,
                counted,
                Ok(None),
            ));
            r
        }
    }
}

/// The reads that `put_table_value` makes: the old row; then, for a row that
/// is there, the table's record; then, if that is there too, the record
/// once more.
pub open spec fn put_table_value_reads<
    S: TableStoredRequests + ?Sized,
    V: TableValueRequests + ?Sized,
>(
    reference: TableValueReferenceView,
    table_stored_requests: &S,
    table_value_requests: &V,
    old: DbResult<Option<TableValue>>,
    for_deindex: DbResult<Option<TableStored>>,
    for_index: DbResult<Option<TableStored>>,
) -> bool {
    &&& table_value_answer(table_value_requests, reference.container_cf_name(), reference, old)
    &&& found(old) ==> table_stored_answer(
        table_stored_requests,
        reference.table_reference.tables_cf(),
        reference.table_reference.table_name,
        for_deindex,
    )
    &&& found(old) && found(for_deindex) ==> table_stored_answer(
        table_stored_requests,
        reference.table_reference.tables_cf(),
        reference.table_reference.table_name,
        for_index,
    )
}

/// The reads that `delete_table_value` makes: the old row; then, for a row
/// that is there, the table's record.
pub open spec fn delete_table_value_reads<
    S: TableStoredRequests + ?Sized,
    V: TableValueRequests + ?Sized,
>(
    reference: TableValueReferenceView,
    table_stored_requests: &S,
    table_value_requests: &V,
    old: DbResult<Option<TableValue>>,
    for_deindex: DbResult<Option<TableStored>>,
) -> bool {
    &&& table_value_answer(table_value_requests, reference.container_cf_name(), reference, old)
    &&& found(old) ==> table_stored_answer(
        table_stored_requests,
        reference.table_reference.tables_cf(),
        reference.table_reference.table_name,
        for_deindex,
    )
}

/// The reads that `post_table_value` makes: the counter, where no key was
/// given; then, once a key is there, the table's record.
pub open spec fn post_table_value_reads<
    C: ColumnValueRequests + ?Sized,
    S: TableStoredRequests + ?Sized,
>(
    reference: CreateTableValueReferenceView,
    column_value_requests: &C,
    table_stored_requests: &S,
    counter: DbResult<(u64, Effects)>,
    for_index: DbResult<Option<TableStored>>,
) -> bool {
    &&& reference.id is None ==> increment_answer(
        column_value_requests,
        reference.counter(),
        counter,
    )
    &&& reference.assigned_id(counted_view(counter)) is Ok ==> table_stored_answer(
        table_stored_requests,
        reference.table_reference.tables_cf(),
        reference.table_reference.table_name,
        for_index,
    )
}

} // verus!
