//! The address of a secondary index.

use crate::entity::{Index, IndexView, TableStored};
use crate::error::{found, result_view, DbError, DbErrorView, DbResult};
use crate::indexing::{do_index_table_value, index_effects};
use crate::key::{key_of_value, KeyPartView, OndoKey};
use crate::reference::cf_name_maker::CfNameMaker;
use crate::reference::domain_reference::DomainReference;
use crate::reference::effect::{extend_effects, push_effect, Effect, EffectView, Effects};
use crate::reference::requests::{
    index_scan_answer, items_view, scan_view, table_scan_answer, table_stored_answer,
    table_value_answer, IndexIteratorRequests, ScanView, TableStoredIteratorRequests,
    TableStoredRequests, TableValueRequests,
};
use crate::reference::table_reference::{
    Plan, TableReference, TableReferenceView, TableStoredAnswer,
};
use crate::reference::table_value_reference::{TableValueReference, TableValueReferenceView};
use crate::value::{TableValue, TableValueView};
use vstd::prelude::*;

verus! {

/// The name of an index.
pub type IndexName = String;

/// Identifies a secondary index of a table.
#[derive(Debug, PartialEq, Eq)]
pub struct IndexReference {
    pub table_reference: TableReference,
    pub index_name: IndexName,
}

/// The mathematical value of an [`IndexReference`].
pub struct IndexReferenceView {
    pub table_reference: TableReferenceView,
    pub index_name: Seq<char>,
}

impl DeepView for IndexReference {
    type V = IndexReferenceView;

    open spec fn deep_view(&self) -> IndexReferenceView {
        IndexReferenceView { table_reference: self.table_reference@, index_name: self.index_name@ }
    }
}

impl View for IndexReference {
    type V = IndexReferenceView;

    open spec fn view(&self) -> IndexReferenceView {
        self.deep_view()
    }
}

impl Clone for IndexReference {
    fn clone(&self) -> (r: Self)
        ensures
            r@ == self@,
    {
        IndexReference {
            table_reference: self.table_reference.clone(),
            index_name: self.index_name.clone(),
        }
    }
}

impl IndexReference {
    /// The address of the index `index_name` of the table `table_name` of
    /// the domain `domain_name`.
    pub fn new(domain_name: &str, table_name: &str, index_name: &str) -> (r: Self)
        ensures
            r@.table_reference.domain_reference.domain_name == domain_name@,
            r@.table_reference.table_name == table_name@,
            r@.index_name == index_name@,
    {
        IndexReference {
            table_reference: TableReference {
                domain_reference: DomainReference::new(domain_name),
                table_name: String::from_str(table_name),
            },
            index_name: String::from_str(index_name),
        }
    }

    /// The address of the indexed table.
    pub fn to_table_reference(&self) -> (r: TableReference)
        ensures
            r@ == self@.table_reference,
    {
        self.table_reference.clone()
    }
}

/// What a scan may answer: items in order, each a value or an error, or the
/// error that stopped the scan before it began.
pub type ScanAnswer = Result<Seq<Result<TableValueView, DbErrorView>>, DbErrorView>;

/// What a lookup of a row may answer.
pub type TableValueAnswer = Result<Option<TableValueView>, DbErrorView>;

/// The error of an index entry whose payload is no key.
pub open spec fn payload_error() -> DbErrorView {
    DbErrorView::Other("Failed to deserialize OndoKey from index value"@)
}

/// The primary key that the payload of an index entry stands for.
pub open spec fn key_of_payload(item: Result<TableValueView, DbErrorView>) -> Result<
    Seq<KeyPartView>,
    DbErrorView,
> {
    match item {
        Err(e) => Err(e),
        Ok(payload) => match key_of_value(payload) {
            Some(key) => Ok(key),
            None => Err(payload_error()),
        },
    }
}

/// The row that a lookup found; a row that is not there is `NotFound`.
pub open spec fn row_of_lookup(lookup: TableValueAnswer) -> Result<TableValueView, DbErrorView> {
    match lookup {
        Err(e) => Err(e),
        Ok(None) => Err(DbErrorView::NotFound),
        Ok(Some(row)) => Ok(row),
    }
}

/// The effects that enter the rows `items` into `index`, in scan order; the
/// first item that is an error stops the plan.
pub open spec fn reindex_effects(
    index: IndexView,
    items: Seq<Result<TableValueView, DbErrorView>>,
) -> Plan
    decreases items.len(),
{
    if items.len() == 0 {
        Ok(Seq::empty())
    } else {
        match reindex_effects(index, items.drop_last()) {
            Err(e) => Err(e),
            Ok(effects) => match items.last() {
                Err(e) => Err(e),
                Ok(row) => Ok(effects + index_effects(row, index)),
            },
        }
    }
}

impl IndexReferenceView {
    /// The column family that holds the entries of this index.
    pub open spec fn value_cf_name(self) -> Seq<char> {
        CfNameMaker::spec_for_index_values(self)
    }

    /// The address of the row `id` of the indexed table.
    pub open spec fn row(self, id: Seq<KeyPartView>) -> TableValueReferenceView {
        TableValueReferenceView { table_reference: self.table_reference, id }
    }

    /// The definition of the index, if the table has one of this name.
    pub open spec fn get_index_plan(self, response: TableStoredAnswer) -> Result<
        Option<IndexView>,
        DbErrorView,
    > {
        match response {
            Err(e) => Err(e),
            Ok(None) => Err(DbErrorView::TableNotInitialized),
            Ok(Some(stored)) => Ok(stored.index(self.index_name)),
        }
    }

    /// Creates the index: its column family, then the table's record with
    /// the index added.
    pub open spec fn post_index_plan(self, index: IndexView, response: TableStoredAnswer) -> Plan {
        match response {
            Err(e) => Err(e),
            Ok(None) => Err(DbErrorView::TableNotInitialized),
            Ok(Some(stored)) => if stored.index(self.index_name).is_some() {
                Err(DbErrorView::AlreadyExists)
            } else {
                Ok(
                    seq![
                        EffectView::CreateCf(self.value_cf_name()),
                        self.table_reference.put_stored(
                            stored.with_index(self.index_name, index),
                        ),
                    ],
                )
            },
        }
    }

    /// Replaces the definition of the index: drops and creates its column
    /// family, writes the table's record with the new definition, then
    /// enters every row of the table, in scan order.
    pub open spec fn put_index_plan(
        self,
        index: IndexView,
        response: TableStoredAnswer,
        rows: ScanAnswer,
    ) -> Plan {
        match response {
            Err(e) => Err(e),
            Ok(None) => Err(DbErrorView::TableNotInitialized),
            Ok(Some(stored)) => if stored.index(self.index_name).is_none() {
                Err(DbErrorView::IndexNotInitialized)
            } else {
                match rows {
                    Err(e) => Err(e),
                    Ok(items) => match reindex_effects(index, items) {
                        Err(e) => Err(e),
                        Ok(entries) => Ok(
                            seq![
                                EffectView::DeleteCf(self.value_cf_name()),
                                EffectView::CreateCf(self.value_cf_name()),
                                self.table_reference.put_stored(
                                    stored.with_index(self.index_name, index),
                                ),
                            ] + entries,
                        ),
                    },
                }
            },
        }
    }

    /// Deletes the index: the table's record without it, then the drop of
    /// its column family.
    pub open spec fn delete_index_plan(self, response: TableStoredAnswer) -> Plan {
        match response {
            Err(e) => Err(e),
            Ok(None) => Err(DbErrorView::TableNotInitialized),
            Ok(Some(stored)) => Ok(
                self.table_reference.delete_index_effects(stored, self.index_name),
            ),
        }
    }

    /// The primary keys that the entries of a scan stand for, item by item.
    pub open spec fn index_values_plan(self, scan: ScanAnswer) -> Result<
        Seq<Result<Seq<KeyPartView>, DbErrorView>>,
        DbErrorView,
    > {
        match scan {
            Err(e) => Err(e),
            Ok(items) => Ok(Seq::new(items.len(), |i: int| key_of_payload(items[i]))),
        }
    }

    /// The rows that the entries of a scan point to, item by item: the
    /// error of an entry that has no key, else what the lookup of its row
    /// gave.
    pub open spec fn values_plan(
        self,
        scan: ScanAnswer,
        lookups: Seq<TableValueAnswer>,
    ) -> ScanAnswer {
        match scan {
            Err(e) => Err(e),
            Ok(items) => Ok(
                Seq::new(
                    items.len(),
                    |i: int|
                        match key_of_payload(items[i]) {
                            Err(e) => Err(e),
                            Ok(_) => row_of_lookup(lookups[i]),
                        },
                ),
            ),
        }
    }
}

/// The values of the keys that a scan of an index handed out.
pub open spec fn keys_view(response: DbResult<Vec<DbResult<OndoKey>>>) -> Result<
    Seq<Result<Seq<KeyPartView>, DbErrorView>>,
    DbErrorView,
> {
    match response {
        Ok(items) => Ok(Seq::new(items@.len(), |i: int| result_view(items@[i]))),
        Err(e) => Err(e@),
    }
}

/// The values of the answers that lookups of rows gave.
pub open spec fn lookups_view(lookups: Seq<DbResult<Option<TableValue>>>) -> Seq<TableValueAnswer> {
    Seq::new(lookups.len(), |i: int| result_view(lookups[i]))
}

impl IndexReference {
    /// The column family that holds the entries of this index.
    pub fn value_cf_name(&self) -> (r: String)
        ensures
            r@ == self@.value_cf_name(),
    {
        CfNameMaker::for_index_values(self)
    }

    /// The column families that this index needs.
    pub fn required_cf_names(&self) -> (r: Vec<String>)
        ensures
            r.deep_view() == seq![self@.value_cf_name()],
    {
        let mut names: Vec<String> = Vec::new();
        names.push(self.value_cf_name());
        assert(names.deep_view() =~= seq![self@.value_cf_name()]);
        names
    }

    /// The effects that create the column families that this index needs.
    pub fn create_required_cfs(&self) -> (r: Effects)
        ensures
            r.deep_view() == seq![EffectView::CreateCf(self@.value_cf_name())],
    {
        let names = self.required_cf_names();
        let mut effects: Effects = Vec::new();
        let mut i: usize = 0;
        while i < names.len()
            invariant
                i <= names.len(),
                effects.len() == i,
                forall|k: int| 0 <= k < i ==> effects@[k]@ == EffectView::CreateCf(names@[k]@),
            decreases names.len() - i,
        {
            effects.push(Effect::CreateCf(names[i].clone()));
            i += 1;
        }
        assert(names.deep_view().len() == 1);
        assert(names.deep_view()[0] == self@.value_cf_name());
        assert(effects.deep_view() =~= seq![EffectView::CreateCf(self@.value_cf_name())]);
        effects
    }

    /// The effects that drop the column families that this index needs.
    pub fn delete_required_cfs(&self) -> (r: Effects)
        ensures
            r.deep_view() == seq![EffectView::DeleteCf(self@.value_cf_name())],
    {
        let names = self.required_cf_names();
        let mut effects: Effects = Vec::new();
        let mut i: usize = 0;
        while i < names.len()
            invariant
                i <= names.len(),
                effects.len() == i,
                forall|k: int| 0 <= k < i ==> effects@[k]@ == EffectView::DeleteCf(names@[k]@),
            decreases names.len() - i,
        {
            effects.push(Effect::DeleteCf(names[i].clone()));
            i += 1;
        }
        assert(names.deep_view().len() == 1);
        assert(names.deep_view()[0] == self@.value_cf_name());
        assert(effects.deep_view() =~= seq![EffectView::DeleteCf(self@.value_cf_name())]);
        effects
    }

    /// The effects that drop the column family of the index's entries and
    /// create it anew.
    pub fn recreate_index_values_cf(&self) -> (r: Effects)
        ensures
            r.deep_view() == seq![
                EffectView::DeleteCf(self@.value_cf_name()),
                EffectView::CreateCf(self@.value_cf_name()),
            ],
    {
        let mut effects: Effects = Vec::new();
        push_effect(&mut effects, Effect::DeleteCf(self.value_cf_name()));
        push_effect(&mut effects, Effect::CreateCf(self.value_cf_name()));
        assert(effects.deep_view() =~= seq![
            EffectView::DeleteCf(self@.value_cf_name()),
            EffectView::CreateCf(self@.value_cf_name()),
        ]);
        effects
    }

    /// The definition, once the table's record has been read.
    pub fn plan_get_index(&self, response: DbResult<Option<TableStored>>) -> (r: DbResult<
        Option<Index>,
    >)
        ensures
            result_view(r) == self@.get_index_plan(result_view(response)),
    {
        match response {
            Err(e) => Err(e),
            Ok(None) => Err(DbError::TableNotInitialized),
            Ok(Some(stored)) => match stored.get_index(self.index_name.as_str()) {
                Some(index) => Ok(Some(index.clone())),
                None => Ok(None),
            },
        }
    }

    /// The definition of the index, if the table has one of this name; fails
    /// with `TableNotInitialized` if the table has no record.
    pub fn get_index<R: TableStoredRequests + ?Sized>(&self, parent_requests: &R) -> (r: DbResult<
        Option<Index>,
    >)
        ensures
            exists|response: DbResult<Option<TableStored>>|
                table_stored_answer(
                    parent_requests,
                    self@.table_reference.tables_cf(),
                    self@.table_reference.table_name,
                    response,
                ) && result_view(r) == self@.get_index_plan(result_view(response)),
    {
        let response = self.table_reference.get_table_stored(parent_requests);
        let ghost asked = response;
        assert(table_stored_answer(
            parent_requests,
            self@.table_reference.tables_cf(),
            self@.table_reference.table_name,
            asked,
        ));
        let r = self.plan_get_index(response);
        assert(result_view(r) == self@.get_index_plan(result_view(asked)));
        r
    }

    /// The creation of the index, once the table's record has been read.
    pub fn plan_post_index(&self, index: &Index, response: DbResult<Option<TableStored>>) -> (r:
        DbResult<Effects>)
        ensures
            result_view(r) == self@.post_index_plan(index@, result_view(response)),
    {
        match response {
            Err(e) => Err(e),
            Ok(None) => Err(DbError::TableNotInitialized),
            Ok(Some(stored)) => {
                let mut table_stored = stored;
                let was_there = table_stored.insert_index(self.index_name.as_str(), index.clone());
                if was_there {
                    Err(DbError::AlreadyExists)
                } else {
                    let mut effects = self.create_required_cfs();
                    push_effect(&mut effects, self.table_reference.put_table_stored(table_stored));
                    assert(effects.deep_view() =~= self@.post_index_plan(
                        index@,
                        result_view(response),
                    )->Ok_0);
                    Ok(effects)
                }
            },
        }
    }

    /// Creates the index; fails with `TableNotInitialized` if the table has
    /// no record and with `AlreadyExists` if it has an index of this name.
    pub fn post_index<R: TableStoredRequests + ?Sized>(
        &self,
        index: &Index,
        parent_requests: &R,
    ) -> (r: DbResult<Effects>)
        ensures
            exists|response: DbResult<Option<TableStored>>|
                table_stored_answer(
                    parent_requests,
                    self@.table_reference.tables_cf(),
                    self@.table_reference.table_name,
                    response,
                ) && result_view(r) == self@.post_index_plan(index@, result_view(response)),
    {
        let response = self.table_reference.get_table_stored(parent_requests);
        let ghost asked = response;
        assert(table_stored_answer(
            parent_requests,
            self@.table_reference.tables_cf(),
            self@.table_reference.table_name,
            asked,
        ));
        let r = self.plan_post_index(index, response);
        assert(result_view(r) == self@.post_index_plan(index@, result_view(asked)));
        r
    }

    /// The effects that enter the scanned rows into `index`; the first item
    /// that is an error stops the plan.
    pub fn index_related_table_values(index: &Index, rows: Vec<DbResult<TableValue>>) -> (r:
        DbResult<Effects>)
        ensures
            result_view(r) == reindex_effects(index@, items_view(rows@)),
    {
        let mut effects: Effects = Vec::new();
        let ghost all = items_view(rows@);
        let mut i: usize = 0;
        let n = rows.len();
        assert(all.take(0) =~= Seq::empty());
        assert(effects.deep_view() =~= Seq::empty());
        while i < n
            invariant
                i <= n,
                n == rows.len(),
                all == items_view(rows@),
                reindex_effects(index@, all.take(i as int)) == Ok::<
                    Seq<EffectView>,
                    DbErrorView,
                >(effects.deep_view()),
            decreases n - i,
        {
            proof {
                assert(all.take(i + 1).drop_last() =~= all.take(i as int));
                assert(all.take(i + 1).last() == all[i as int]);
            }
            match &rows[i] {
                Err(e) => {
                    proof {
                        lemma_reindex_error(index@, all, i as int);
                    }
                    return Err(e.clone());
                },
                Ok(row) => {
                    extend_effects(&mut effects, do_index_table_value(row, index));
                },
            }
            i += 1;
        }
        assert(all.take(n as int) =~= all);
        Ok(effects)
    }

    /// The replacement of the index, once the table's record and the rows
    /// have been read.
    pub fn plan_put_index(
        &self,
        index: &Index,
        response: DbResult<Option<TableStored>>,
        rows: DbResult<Vec<DbResult<TableValue>>>,
    ) -> (r: DbResult<Effects>)
        ensures
            result_view(r) == self@.put_index_plan(
                index@,
                result_view(response),
                scan_view(rows),
            ),
    {
        match response {
            Err(e) => Err(e),
            Ok(None) => Err(DbError::TableNotInitialized),
            Ok(Some(stored)) => {
                let mut table_stored = stored;
                let was_there = table_stored.insert_index(self.index_name.as_str(), index.clone());
                if !was_there {
                    Err(DbError::IndexNotInitialized)
                } else {
                    match rows {
                        Err(e) => Err(e),
                        Ok(items) => match Self::index_related_table_values(index, items) {
                            Err(e) => Err(e),
                            Ok(entries) => {
                                let mut effects = self.recreate_index_values_cf();
                                push_effect(
                                    &mut effects,
                                    self.table_reference.put_table_stored(table_stored),
                                );
                                extend_effects(&mut effects, entries);
                                assert(effects.deep_view() =~= self@.put_index_plan(
                                    index@,
                                    result_view(response),
                                    scan_view(rows),
                                )->Ok_0);
                                Ok(effects)
                            },
                        },
                    }
                }
            },
        }
    }

    /// Replaces the definition of the index and rebuilds its entries from
    /// the rows of the table; fails with `TableNotInitialized` if the table
    /// has no record and with `IndexNotInitialized` if it has no index of
    /// this name. The rows are scanned only for an index that exists.
    pub fn put_index<R: TableStoredRequests + ?Sized, S: TableStoredIteratorRequests + ?Sized>(
        &self,
        index: &Index,
        parent_requests: &R,
        row_requests: &S,
    ) -> (r: DbResult<Effects>)
        ensures
            exists|
                response: DbResult<Option<TableStored>>,
                rows: DbResult<Vec<DbResult<TableValue>>>,
            |
                #[trigger] put_index_reads(self@, parent_requests, row_requests, response, rows)
                    && result_view(r) == self@.put_index_plan(
                    index@,
                    result_view(response),
                    scan_view(rows),
                ),
    {
        let response = self.table_reference.get_table_stored(parent_requests);
        let ghost asked = response;
        let exists = match &response {
            Ok(Some(stored)) => stored.get_index(self.index_name.as_str()).is_some(),
            _ => false,
        };
        if exists {
            let rows = self.table_reference.all_values(row_requests);
            let ghost scanned = rows;
            let r = self.plan_put_index(index, response, rows);
            assert(put_index_reads(self@, parent_requests, row_requests, asked, scanned));
            r
        } else {
            let r = self.plan_put_index(index, response, Err(DbError::IndexNotInitialized));
            assert(put_index_reads(
                self@,
                parent_requests,
                row_requests,
                asked,
                Err(DbError::IndexNotInitialized),
            ));
            r
        }
    }

    /// The deletion of the index, once the table's record has been read.
    pub fn plan_delete_index(&self, response: DbResult<Option<TableStored>>) -> (r: DbResult<
        Effects,
    >)
        ensures
            result_view(r) == self@.delete_index_plan(result_view(response)),
    {
        match response {
            Err(e) => Err(e),
            Ok(None) => Err(DbError::TableNotInitialized),
            Ok(Some(stored)) => {
                let mut table_stored = stored;
                table_stored.remove_index(self.index_name.as_str());
                let mut effects: Effects = Vec::new();
                push_effect(&mut effects, self.table_reference.put_table_stored(table_stored));
                extend_effects(&mut effects, self.delete_required_cfs());
                assert(effects.deep_view() =~= self@.delete_index_plan(
                    result_view(response),
                )->Ok_0);
                Ok(effects)
            },
        }
    }

    /// Deletes the index; fails with `TableNotInitialized` if the table has
    /// no record.
    pub fn delete_index<R: TableStoredRequests + ?Sized>(&self, parent_requests: &R) -> (r:
        DbResult<Effects>)
        ensures
            exists|response: DbResult<Option<TableStored>>|
                table_stored_answer(
                    parent_requests,
                    self@.table_reference.tables_cf(),
                    self@.table_reference.table_name,
                    response,
                ) && result_view(r) == self@.delete_index_plan(result_view(response)),
    {
        let response = self.table_reference.get_table_stored(parent_requests);
        let ghost asked = response;
        assert(table_stored_answer(
            parent_requests,
            self@.table_reference.tables_cf(),
            self@.table_reference.table_name,
            asked,
        ));
        let r = self.plan_delete_index(response);
        assert(result_view(r) == self@.delete_index_plan(result_view(asked)));
        r
    }
}

impl IndexReference {
    /// The error of an index entry whose payload is no key.
    fn payload_error() -> (r: DbError)
        ensures
            r@ == payload_error(),
    {
        DbError::Other(String::from_str("Failed to deserialize OndoKey from index value"))
    }

    /// The primary key that one scanned entry stands for.
    fn key_of_item(item: &DbResult<TableValue>) -> (r: DbResult<OndoKey>)
        ensures
            result_view(r) == key_of_payload(result_view(*item)),
    {
        match item {
            Err(e) => Err(e.clone()),
            Ok(payload) => match OndoKey::from_table_value(payload) {
                Some(key) => Ok(key),
                None => Err(Self::payload_error()),
            },
        }
    }

    /// The primary keys that scanned entries stand for, item by item: an
    /// entry whose payload is no key gives an error in its place.
    pub fn plan_index_values(&self, scan: DbResult<Vec<DbResult<TableValue>>>) -> (r: DbResult<
        Vec<DbResult<OndoKey>>,
    >)
        ensures
            keys_view(r) == self@.index_values_plan(scan_view(scan)),
    {
        match scan {
            Err(e) => Err(e),
            Ok(items) => {
                let mut keys: Vec<DbResult<OndoKey>> = Vec::new();
                let mut i: usize = 0;
                while i < items.len()
                    invariant
                        i <= items.len(),
                        keys.len() == i,
                        forall|j: int|
                            0 <= j < i ==> result_view(keys@[j]) == key_of_payload(
                                result_view(items@[j]),
                            ),
                    decreases items.len() - i,
                {
                    keys.push(Self::key_of_item(&items[i]));
                    i += 1;
                }
                assert(keys_view(Ok(keys))->Ok_0 =~= self@.index_values_plan(
                    scan_view(scan),
                )->Ok_0);
                Ok(keys)
            },
        }
    }

    /// The primary keys of the entries whose key starts with `key_prefix`,
    /// in scan order.
    pub fn all_index_values_with_key_prefix<R: IndexIteratorRequests + ?Sized>(
        &self,
        key_prefix: OndoKey,
        requests: &R,
    ) -> (r: DbResult<Vec<DbResult<OndoKey>>>)
        ensures
            exists|scan: DbResult<Vec<DbResult<TableValue>>>|
                #[trigger] index_scan_answer(
                    requests,
                    self@.value_cf_name(),
                    ScanView::Prefix(key_prefix@),
                    scan,
                ) && keys_view(r) == self@.index_values_plan(scan_view(scan)),
    {
        let cf_name = self.value_cf_name();
        let scan = requests.all_values_with_key_prefix(cf_name.as_str(), key_prefix);
        let ghost scanned = scan;
        assert(index_scan_answer(
            requests,
            self@.value_cf_name(),
            ScanView::Prefix(key_prefix@),
            scanned,
        ));
        self.plan_index_values(scan)
    }

    /// The primary keys of the entries whose key lies between
    /// `start_key_prefix` and `end_key_prefix`, in scan order.
    pub fn all_index_values_with_key_range<R: IndexIteratorRequests + ?Sized>(
        &self,
        start_key_prefix: OndoKey,
        end_key_prefix: OndoKey,
        requests: &R,
    ) -> (r: DbResult<Vec<DbResult<OndoKey>>>)
        ensures
            exists|scan: DbResult<Vec<DbResult<TableValue>>>|
                #[trigger] index_scan_answer(
                    requests,
                    self@.value_cf_name(),
                    ScanView::Range(start_key_prefix@, end_key_prefix@),
                    scan,
                ) && keys_view(r) == self@.index_values_plan(scan_view(scan)),
    {
        let cf_name = self.value_cf_name();
        let scan = requests.all_values_with_key_range(
            cf_name.as_str(),
            start_key_prefix,
            end_key_prefix,
        );
        let ghost scanned = scan;
        assert(index_scan_answer(
            requests,
            self@.value_cf_name(),
            ScanView::Range(start_key_prefix@, end_key_prefix@),
            scanned,
        ));
        self.plan_index_values(scan)
    }

    /// The rows that scanned entries point to, item by item: for an entry
    /// that has a key the row is looked up, and a row that is not there is
    /// `NotFound`; an entry without a key gives its error.
    pub fn rows_of_entries<V: TableValueRequests + ?Sized>(
        &self,
        scan: DbResult<Vec<DbResult<TableValue>>>,
        table_value_requests: &V,
    ) -> (r: DbResult<Vec<DbResult<TableValue>>>)
        ensures
            exists|lookups: Seq<DbResult<Option<TableValue>>>|
                #[trigger] row_lookups(self@, table_value_requests, scan_view(scan), lookups)
                    && scan_view(r) == self@.values_plan(scan_view(scan), lookups_view(lookups)),
    {
        match scan {
            Err(e) => {
                assert(row_lookups(self@, table_value_requests, scan_view(scan), Seq::empty()));
                Err(e)
            },
            Ok(items) => {
                let ghost all = items_view(items@);
                let mut rows: Vec<DbResult<TableValue>> = Vec::new();
                let ghost mut lookups: Seq<DbResult<Option<TableValue>>> = Seq::empty();
                let mut i: usize = 0;
                while i < items.len()
                    invariant
                        i <= items.len(),
                        rows.len() == i,
                        lookups.len() == i,
                        all == items_view(items@),
                        forall|j: int|
                            0 <= j < i && key_of_payload(all[j]) is Ok ==> table_value_answer(
                                table_value_requests,
                                self@.table_reference.values_cf(),
                                self@.row(key_of_payload(all[j])->Ok_0),
                                #[trigger] lookups[j],
                            ),
                        forall|j: int|
                            0 <= j < i ==> result_view(#[trigger] rows@[j]) == (
                            match key_of_payload(all[j]) {
                                Err(e) => Err(e),
                                Ok(_) => row_of_lookup(result_view(lookups[j])),
                            }),
                    decreases items.len() - i,
                {
                    match Self::key_of_item(&items[i]) {
                        Err(e) => {
                            rows.push(Err(e));
                            proof {
                                lookups = lookups.push(Ok(None));
                            }
                        },
                        Ok(key) => {
                            let reference = TableValueReference {
                                table_reference: self.table_reference.clone(),
                                id: key,
                            };
                            let lookup = reference.get_table_value(table_value_requests);
                            proof {
                                lookups = lookups.push(lookup);
                            }
                            match lookup {
                                Err(e) => {
                                    rows.push(Err(e));
                                },
                                Ok(None) => {
                                    rows.push(Err(DbError::NotFound));
                                },
                                Ok(Some(row)) => {
                                    rows.push(Ok(row));
                                },
                            }
                        },
                    }
                    i += 1;
                }
                proof {
                    assert(row_lookups(self@, table_value_requests, scan_view(scan), lookups));
                    assert(scan_view(Ok(rows))->Ok_0 =~= self@.values_plan(
                        scan_view(scan),
                        lookups_view(lookups),
                    )->Ok_0);
                }
                Ok(rows)
            },
        }
    }

    /// The rows of the entries whose key starts with `key_prefix`, in scan
    /// order.
    pub fn all_values_with_key_prefix<
        V: TableValueRequests + ?Sized,
        R: IndexIteratorRequests + ?Sized,
    >(
        &self,
        key_prefix: OndoKey,
        table_value_requests: &V,
        requests: &R,
    ) -> (r: DbResult<Vec<DbResult<TableValue>>>)
        ensures
            exists|
                scan: DbResult<Vec<DbResult<TableValue>>>,
                lookups: Seq<DbResult<Option<TableValue>>>,
            |
                #[trigger] values_reads(
                    self@,
                    table_value_requests,
                    requests,
                    ScanView::Prefix(key_prefix@),
                    scan,
                    lookups,
                ) && scan_view(r) == self@.values_plan(scan_view(scan), lookups_view(lookups)),
    {
        let cf_name = self.value_cf_name();
        let scan = requests.all_values_with_key_prefix(cf_name.as_str(), key_prefix);
        let ghost scanned = scan;
        let r = self.rows_of_entries(scan, table_value_requests);
        proof {
            let lookups = choose|lookups: Seq<DbResult<Option<TableValue>>>|
                #[trigger] row_lookups(self@, table_value_requests, scan_view(scanned), lookups)
                    && scan_view(r) == self@.values_plan(
                    scan_view(scanned),
                    lookups_view(lookups),
                );
            assert(values_reads(
                self@,
                table_value_requests,
                requests,
                ScanView::Prefix(key_prefix@),
                scanned,
                lookups,
            ));
        }
        r
    }

    /// The rows of the entries whose key lies between `start_key_prefix` and
    /// `end_key_prefix`, in scan order.
    pub fn all_values_with_key_range<
        V: TableValueRequests + ?Sized,
        R: IndexIteratorRequests + ?Sized,
    >(
        &self,
        start_key_prefix: OndoKey,
        end_key_prefix: OndoKey,
        table_value_requests: &V,
        requests: &R,
    ) -> (r: DbResult<Vec<DbResult<TableValue>>>)
        ensures
            exists|
                scan: DbResult<Vec<DbResult<TableValue>>>,
                lookups: Seq<DbResult<Option<TableValue>>>,
            |
                #[trigger] values_reads(
                    self@,
                    table_value_requests,
                    requests,
                    ScanView::Range(start_key_prefix@, end_key_prefix@),
                    scan,
                    lookups,
                ) && scan_view(r) == self@.values_plan(scan_view(scan), lookups_view(lookups)),
    {
        let cf_name = self.value_cf_name();
        let scan = requests.all_values_with_key_range(
            cf_name.as_str(),
            start_key_prefix,
            end_key_prefix,
        );
        let ghost scanned = scan;
        let r = self.rows_of_entries(scan, table_value_requests);
        proof {
            let lookups = choose|lookups: Seq<DbResult<Option<TableValue>>>|
                #[trigger] row_lookups(self@, table_value_requests, scan_view(scanned), lookups)
                    && scan_view(r) == self@.values_plan(
                    scan_view(scanned),
                    lookups_view(lookups),
                );
            assert(values_reads(
                self@,
                table_value_requests,
                requests,
                ScanView::Range(start_key_prefix@, end_key_prefix@),
                scanned,
                lookups,
            ));
        }
        r
    }
}

/// The lookups that follow a scan of an index: one for each entry that has
/// a key, of the row of that key.
pub open spec fn row_lookups<V: TableValueRequests + ?Sized>(
    reference: IndexReferenceView,
    table_value_requests: &V,
    scan: ScanAnswer,
    lookups: Seq<DbResult<Option<TableValue>>>,
) -> bool {
    scan is Ok ==> {
        &&& lookups.len() == scan->Ok_0.len()
        &&& forall|j: int|
            0 <= j < scan->Ok_0.len() && key_of_payload(scan->Ok_0[j]) is Ok
                ==> table_value_answer(
                table_value_requests,
                reference.table_reference.values_cf(),
                reference.row(key_of_payload(scan->Ok_0[j])->Ok_0),
                #[trigger] lookups[j],
            )
    }
}

/// The reads that a scan of rows through an index makes: the scan of the
/// index, then the lookups of the rows.
pub open spec fn values_reads<V: TableValueRequests + ?Sized, R: IndexIteratorRequests + ?Sized>(
    reference: IndexReferenceView,
    table_value_requests: &V,
    requests: &R,
    asked: ScanView,
    scan: DbResult<Vec<DbResult<TableValue>>>,
    lookups: Seq<DbResult<Option<TableValue>>>,
) -> bool {
    &&& index_scan_answer(requests, reference.value_cf_name(), asked, scan)
    &&& row_lookups(reference, table_value_requests, scan_view(scan), lookups)
}

/// A plan over a prefix that ends in an error is that error, and so is the
/// plan over the whole scan.
pub proof fn lemma_reindex_error(
    index: IndexView,
    items: Seq<Result<TableValueView, DbErrorView>>,
    at: int,
)
    requires
        0 <= at < items.len(),
        reindex_effects(index, items.take(at)) is Ok,
        items[at] is Err,
    ensures
        reindex_effects(index, items) == Err::<Seq<EffectView>, DbErrorView>(items[at]->Err_0),
    decreases items.len() - at,
{
    assert(items.take(at + 1).drop_last() =~= items.take(at));
    assert(items.take(at + 1).last() == items[at]);
    lemma_reindex_error_extends(index, items, at + 1);
}

/// Once the plan over a prefix is an error, the plan over the whole scan is
/// the same error.
pub proof fn lemma_reindex_error_extends(
    index: IndexView,
    items: Seq<Result<TableValueView, DbErrorView>>,
    upto: int,
)
    requires
        0 <= upto <= items.len(),
        reindex_effects(index, items.take(upto)) is Err,
    ensures
        reindex_effects(index, items) == reindex_effects(index, items.take(upto)),
    decreases items.len() - upto,
{
    if upto == items.len() {
        assert(items.take(upto) =~= items);
    } else {
        assert(items.take(upto + 1).drop_last() =~= items.take(upto));
        lemma_reindex_error_extends(index, items, upto + 1);
    }
}

/// The reads that `put_index` makes: the table's record; then, for an index
/// that is there, the scan of all rows of the table.
pub open spec fn put_index_reads<
    R: TableStoredRequests + ?Sized,
    S: TableStoredIteratorRequests + ?Sized,
>(
    reference: IndexReferenceView,
    parent_requests: &R,
    row_requests: &S,
    response: DbResult<Option<TableStored>>,
    rows: DbResult<Vec<DbResult<TableValue>>>,
) -> bool {
    &&& table_stored_answer(
        parent_requests,
        reference.table_reference.tables_cf(),
        reference.table_reference.table_name,
        response,
    )
    &&& found(response) && response->Ok_0->Some_0@.index(reference.index_name).is_some()
        ==> table_scan_answer(
        row_requests,
        reference.table_reference.values_cf(),
        ScanView::All,
        rows,
    )
}

} // verus!
