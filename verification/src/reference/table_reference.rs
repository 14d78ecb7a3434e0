//! The address of a table.

use crate::entity::{
    entry_names, DomainStored, DomainStoredView, Table, TableStored, TableStoredView, TableView,
};
use crate::error::{found, missing, result_view, DbError, DbErrorView, DbResult};
use crate::key::OndoKey;
use crate::reference::cf_name_maker::CfNameMaker;
use crate::reference::domain_reference::{DomainReference, DomainReferenceView};
use crate::reference::effect::{
    push_effect, DomainStoredEffect, DomainStoredEffectView, Effect, EffectView, Effects,
    TableStoredEffect, TableStoredEffectView,
};
use crate::reference::index_reference::IndexReferenceView;
use crate::reference::requests::{
    domain_stored_answer, table_scan_answer, table_stored_answer, DomainStoredRequests, ScanView,
    TableStoredIteratorRequests, TableStoredRequests,
};
use crate::value::TableValue;
use vstd::prelude::*;

verus! {

/// The name of a table.
pub type TableName = String;

/// Identifies a table within a domain.
#[derive(Debug, PartialEq, Eq)]
pub struct TableReference {
    pub domain_reference: DomainReference,
    pub table_name: TableName,
}

/// The mathematical value of a [`TableReference`].
pub struct TableReferenceView {
    pub domain_reference: DomainReferenceView,
    pub table_name: Seq<char>,
}

impl DeepView for TableReference {
    type V = TableReferenceView;

    open spec fn deep_view(&self) -> TableReferenceView {
        TableReferenceView {
            domain_reference: self.domain_reference@,
            table_name: self.table_name@,
        }
    }
}

impl View for TableReference {
    type V = TableReferenceView;

    open spec fn view(&self) -> TableReferenceView {
        self.deep_view()
    }
}

impl Clone for TableReference {
    fn clone(&self) -> (r: Self)
        ensures
            r@ == self@,
    {
        TableReference {
            domain_reference: self.domain_reference.clone(),
            table_name: self.table_name.clone(),
        }
    }
}

impl TableReference {
    /// The address of the table `table_name` of the domain `domain_name`.
    pub fn build(domain_name: &str, table_name: &str) -> (r: Self)
        ensures
            r@.domain_reference.domain_name == domain_name@,
            r@.table_name == table_name@,
    {
        TableReference {
            domain_reference: DomainReference::build(domain_name),
            table_name: String::from_str(table_name),
        }
    }

    /// The address of the table `table_name` of the domain at
    /// `domain_reference`.
    pub fn new(domain_reference: DomainReference, table_name: &str) -> (r: Self)
        ensures
            r@.domain_reference == domain_reference@,
            r@.table_name == table_name@,
    {
        TableReference { domain_reference, table_name: String::from_str(table_name) }
    }

    /// The address of the table's domain.
    pub fn to_domain_reference(&self) -> (r: DomainReference)
        ensures
            r@ == self@.domain_reference,
    {
        self.domain_reference.clone()
    }
}

/// What a lookup of a table record may answer.
pub type TableStoredAnswer = Result<Option<TableStoredView>, DbErrorView>;

/// What a lookup of a domain record may answer.
pub type DomainStoredAnswer = Result<Option<DomainStoredView>, DbErrorView>;

/// What a planner returns: effects in order, or the error that stopped it.
pub type Plan = Result<Seq<EffectView>, DbErrorView>;

impl TableReferenceView {
    /// The column family that holds the record of this table.
    pub open spec fn tables_cf(self) -> Seq<char> {
        CfNameMaker::spec_for_tables(self.domain_reference)
    }

    /// The column family that holds the rows of this table.
    pub open spec fn values_cf(self) -> Seq<char> {
        CfNameMaker::spec_for_table_values(self)
    }

    /// The address of the index `name` of this table.
    pub open spec fn index(self, name: Seq<char>) -> IndexReferenceView {
        IndexReferenceView { table_reference: self, index_name: name }
    }

    /// The effect that writes `stored` as the record of this table.
    pub open spec fn put_stored(self, stored: TableStoredView) -> EffectView {
        EffectView::TableStoredEffect(
            TableStoredEffectView::Put(self.tables_cf(), self.table_name, stored),
        )
    }

    /// The effect that writes `stored` as the record of this table's domain.
    pub open spec fn put_domain_stored(self, stored: DomainStoredView) -> EffectView {
        EffectView::DomainStoredEffect(
            DomainStoredEffectView::Put(
                CfNameMaker::spec_for_domains(),
                self.domain_reference.domain_name,
                stored,
            ),
        )
    }

    /// The table of the record, if there is a record.
    pub open spec fn get_table_plan(self, response: TableStoredAnswer) -> Result<
        Option<TableView>,
        DbErrorView,
    > {
        match response {
            Err(e) => Err(e),
            Ok(None) => Ok(None),
            Ok(Some(stored)) => Ok(Some(stored.table)),
        }
    }

    /// Replaces the table of an existing record and leaves its indexes.
    pub open spec fn put_table_plan(self, table: TableView, response: TableStoredAnswer) -> Plan {
        match response {
            Err(e) => Err(e),
            Ok(None) => Err(DbErrorView::TableNotInitialized),
            Ok(Some(stored)) => Ok(seq![self.put_stored(stored.with_table(table))]),
        }
    }

    /// Creates the table: its column family, its name in the domain's
    /// record, and its own record without indexes.
    pub open spec fn post_table_plan(
        self,
        table: TableView,
        response: TableStoredAnswer,
        parent_response: DomainStoredAnswer,
    ) -> Plan {
        match response {
            Err(e) => Err(e),
            Ok(Some(_)) => Err(DbErrorView::AlreadyExists),
            Ok(None) => match parent_response {
                Err(e) => Err(e),
                Ok(None) => Err(DbErrorView::DomainNotInitialized),
                Ok(Some(domain)) => Ok(
                    seq![
                        EffectView::CreateCf(self.values_cf()),
                        self.put_domain_stored(domain.with_table(self.table_name)),
                        self.put_stored(TableStoredView { table, indexes: Seq::empty() }),
                    ],
                ),
            },
        }
    }

    /// The effects that delete the index `name` from the record `stored`:
    /// the record without that index, then the drop of the index's column
    /// family.
    pub open spec fn delete_index_effects(self, stored: TableStoredView, name: Seq<char>) -> Seq<
        EffectView,
    > {
        seq![
            self.put_stored(stored.without_index(name)),
            EffectView::DeleteCf(CfNameMaker::spec_for_index_values(self.index(name))),
        ]
    }

    /// The effects that delete the first `count` indexes of `stored`, each
    /// planned against `stored` as it was read.
    pub open spec fn delete_indexes_effects(self, stored: TableStoredView, count: nat) -> Seq<
        EffectView,
    >
        decreases count,
    {
        if count == 0 {
            Seq::empty()
        } else {
            self.delete_indexes_effects(stored, (count - 1) as nat) + self.delete_index_effects(
                stored,
                stored.indexes[count - 1].0,
            )
        }
    }

    /// Deletes the table: each of its indexes, its record, the column family
    /// of its rows, and its name in the domain's record.
    pub open spec fn delete_table_plan(
        self,
        response: TableStoredAnswer,
        parent_response: DomainStoredAnswer,
    ) -> Plan {
        match response {
            Err(e) => Err(e),
            Ok(None) => Err(DbErrorView::TableNotInitialized),
            Ok(Some(stored)) => match parent_response {
                Err(e) => Err(e),
                Ok(None) => Err(DbErrorView::DomainNotInitialized),
                Ok(Some(domain)) => Ok(
                    self.delete_indexes_effects(stored, stored.indexes.len()) + seq![
                        EffectView::TableStoredEffect(
                            TableStoredEffectView::Delete(self.tables_cf(), self.table_name),
                        ),
                        EffectView::DeleteCf(self.values_cf()),
                        self.put_domain_stored(domain.without_table(self.table_name)),
                    ],
                ),
            },
        }
    }

    /// The names of the table's indexes, in stored order.
    pub open spec fn list_index_names_plan(self, response: TableStoredAnswer) -> Result<
        Seq<Seq<char>>,
        DbErrorView,
    > {
        match response {
            Err(e) => Err(e),
            Ok(None) => Err(DbErrorView::TableNotInitialized),
            Ok(Some(stored)) => Ok(entry_names(stored.indexes)),
        }
    }
}

impl TableReference {
    /// Reads the record of this table.
    pub fn get_table_stored<R: TableStoredRequests + ?Sized>(&self, requests: &R) -> (response:
        DbResult<Option<TableStored>>)
        ensures
            table_stored_answer(requests, self@.tables_cf(), self@.table_name, response),
    {
        let cf_name = CfNameMaker::for_tables(&self.domain_reference);
        requests.get_table_stored(cf_name.as_str(), &self.table_name)
    }

    /// Reads the record of this table's domain.
    pub fn get_domain_stored<R: DomainStoredRequests + ?Sized>(&self, requests: &R) -> (response:
        DbResult<Option<DomainStored>>)
        ensures
            domain_stored_answer(
                requests,
                CfNameMaker::spec_for_domains(),
                self@.domain_reference.domain_name,
                response,
            ),
    {
        let cf_name = CfNameMaker::for_domains();
        requests.get_domain_stored(cf_name.as_str(), &self.domain_reference.domain_name)
    }

    /// The effect that writes `stored` as the record of this table.
    pub fn put_table_stored(&self, stored: TableStored) -> (r: Effect)
        ensures
            r@ == self@.put_stored(stored@),
    {
        Effect::TableStoredEffect(
            TableStoredEffect::Put(
                CfNameMaker::for_tables(&self.domain_reference),
                self.table_name.clone(),
                stored,
            ),
        )
    }

    /// The effect that writes `stored` as the record of this table's domain.
    pub fn put_domain_stored(&self, stored: DomainStored) -> (r: Effect)
        ensures
            r@ == self@.put_domain_stored(stored@),
    {
        Effect::DomainStoredEffect(
            DomainStoredEffect::Put(
                CfNameMaker::for_domains(),
                self.domain_reference.domain_name.clone(),
                stored,
            ),
        )
    }

    /// The table, once its record has been read.
    pub fn plan_get_table(&self, response: DbResult<Option<TableStored>>) -> (r: DbResult<
        Option<Table>,
    >)
        ensures
            result_view(r) == self@.get_table_plan(result_view(response)),
    {
        match response {
            Err(e) => Err(e),
            Ok(None) => Ok(None),
            Ok(Some(stored)) => Ok(Some(stored.table)),
        }
    }

    /// The table, if it exists.
    pub fn get_table<R: TableStoredRequests + ?Sized>(&self, requests: &R) -> (r: DbResult<
        Option<Table>,
    >)
        ensures
            exists|response: DbResult<Option<TableStored>>|
                table_stored_answer(requests, self@.tables_cf(), self@.table_name, response)
                    && result_view(r) == self@.get_table_plan(result_view(response)),
    {
        let response = self.get_table_stored(requests);
        let ghost asked = response;
        let r = self.plan_get_table(response);
        assert(result_view(r) == self@.get_table_plan(result_view(asked)));
        r
    }

    /// The update of the table, once its record has been read.
    pub fn plan_put_table(&self, table: &Table, response: DbResult<Option<TableStored>>) -> (r:
        DbResult<Effects>)
        ensures
            result_view(r) == self@.put_table_plan(table@, result_view(response)),
    {
        match response {
            Err(e) => Err(e),
            Ok(None) => Err(DbError::TableNotInitialized),
            Ok(Some(stored)) => {
                let mut new_stored = stored;
                new_stored.table = table.clone();
                let mut effects: Effects = Vec::new();
                push_effect(&mut effects, self.put_table_stored(new_stored));
                assert(effects.deep_view() =~= seq![self@.put_stored(stored@.with_table(table@))]);
                Ok(effects)
            },
        }
    }

    /// Replaces the table of an existing record; fails with
    /// `TableNotInitialized` if there is none.
    pub fn put_table<R: TableStoredRequests + ?Sized>(&self, table: &Table, requests: &R) -> (r:
        DbResult<Effects>)
        ensures
            exists|response: DbResult<Option<TableStored>>|
                table_stored_answer(requests, self@.tables_cf(), self@.table_name, response)
                    && result_view(r) == self@.put_table_plan(table@, result_view(response)),
    {
        let response = self.get_table_stored(requests);
        let ghost asked = response;
        let r = self.plan_put_table(table, response);
        assert(result_view(r) == self@.put_table_plan(table@, result_view(asked)));
        r
    }

    /// The creation of the table, once both records have been read.
    pub fn plan_post_table(
        &self,
        table: &Table,
        response: DbResult<Option<TableStored>>,
        parent_response: DbResult<Option<DomainStored>>,
    ) -> (r: DbResult<Effects>)
        ensures
            result_view(r) == self@.post_table_plan(
                table@,
                result_view(response),
                result_view(parent_response),
            ),
    {
        match response {
            Err(e) => Err(e),
            Ok(Some(_)) => Err(DbError::AlreadyExists),
            Ok(None) => match parent_response {
                Err(e) => Err(e),
                Ok(None) => Err(DbError::DomainNotInitialized),
                Ok(Some(domain)) => {
                    let mut domain_stored = domain;
                    domain_stored.add_table(self.table_name.as_str());
                    let new_stored = TableStored { table: table.clone(), indexes: Vec::new() };
                    assert(new_stored@.indexes =~= Seq::empty());
                    let mut effects: Effects = Vec::new();
                    push_effect(
                        &mut effects,
                        Effect::CreateCf(CfNameMaker::for_table_values(self)),
                    );
                    push_effect(&mut effects, self.put_domain_stored(domain_stored));
                    push_effect(&mut effects, self.put_table_stored(new_stored));
                    assert(effects.deep_view() =~= self@.post_table_plan(
                        table@,
                        result_view(response),
                        result_view(parent_response),
                    )->Ok_0);
                    Ok(effects)
                },
            },
        }
    }

    /// Creates the table; fails with `AlreadyExists` if it has a record and
    /// with `DomainNotInitialized` if its domain has none. The domain's
    /// record is read only for a table that does not exist yet.
    pub fn post_table<R: TableStoredRequests + ?Sized, P: DomainStoredRequests + ?Sized>(
        &self,
        table: &Table,
        requests: &R,
        parent_requests: &P,
    ) -> (r: DbResult<Effects>)
        ensures
            exists|response: DbResult<Option<TableStored>>, parent: DbResult<Option<DomainStored>>|
                #[trigger] post_table_reads(self@, requests, parent_requests, response, parent)
                    && result_view(r) == self@.post_table_plan(
                    table@,
                    result_view(response),
                    result_view(parent),
                ),
    {
        let response = self.get_table_stored(requests);
        let ghost asked = response;
        match &response {
            Ok(None) => {
                let parent = self.get_domain_stored(parent_requests);
                let ghost above = parent;
                let r = self.plan_post_table(table, response, parent);
                assert(post_table_reads(self@, requests, parent_requests, asked, above));
                r
            },
            _ => {
                let r = self.plan_post_table(table, response, Ok(None));
                assert(post_table_reads(self@, requests, parent_requests, asked, Ok(None)));
                r
            },
        }
    }

    /// The effects that delete every index of `stored`, each planned against
    /// `stored` as it was read.
    fn delete_indexes(&self, stored: &TableStored) -> (r: Effects)
        ensures
            r.deep_view() == self@.delete_indexes_effects(stored@, stored@.indexes.len()),
    {
        let mut effects: Effects = Vec::new();
        let mut i: usize = 0;
        assert(effects.deep_view() =~= self@.delete_indexes_effects(stored@, 0));
        while i < stored.indexes.len()
            invariant
                i <= stored.indexes.len(),
                effects.deep_view() == self@.delete_indexes_effects(stored@, i as nat),
            decreases stored.indexes.len() - i,
        {
            let name = stored.indexes[i].0.as_str();
            let mut rest = stored.clone();
            rest.remove_index(name);
            let index_cf = CfNameMaker::for_table_values(self).concat("/indexes/").concat(name);
            let ghost before = effects.deep_view();
            push_effect(&mut effects, self.put_table_stored(rest));
            push_effect(&mut effects, Effect::DeleteCf(index_cf));
            proof {
                assert(stored@.indexes[i as int].0 == name@);
                assert(effects.deep_view() =~= before + self@.delete_index_effects(
                    stored@,
                    name@,
                ));
            }
            i += 1;
        }
        effects
    }

    /// The deletion of the table, once both records have been read.
    pub fn plan_delete_table(
        &self,
        response: DbResult<Option<TableStored>>,
        parent_response: DbResult<Option<DomainStored>>,
    ) -> (r: DbResult<Effects>)
        ensures
            result_view(r) == self@.delete_table_plan(
                result_view(response),
                result_view(parent_response),
            ),
    {
        match response {
            Err(e) => Err(e),
            Ok(None) => Err(DbError::TableNotInitialized),
            Ok(Some(stored)) => match parent_response {
                Err(e) => Err(e),
                Ok(None) => Err(DbError::DomainNotInitialized),
                Ok(Some(domain)) => {
                    let mut domain_stored = domain;
                    domain_stored.remove_table(self.table_name.as_str());
                    let mut effects = self.delete_indexes(&stored);
                    let ghost before = effects.deep_view();
                    push_effect(
                        &mut effects,
                        Effect::TableStoredEffect(
                            TableStoredEffect::Delete(
                                CfNameMaker::for_tables(&self.domain_reference),
                                self.table_name.clone(),
                            ),
                        ),
                    );
                    push_effect(
                        &mut effects,
                        Effect::DeleteCf(CfNameMaker::for_table_values(self)),
                    );
                    push_effect(&mut effects, self.put_domain_stored(domain_stored));
                    assert(effects.deep_view() =~= self@.delete_table_plan(
                        result_view(response),
                        result_view(parent_response),
                    )->Ok_0);
                    Ok(effects)
                },
            },
        }
    }

    /// Deletes the table; fails with `TableNotInitialized` if it has no
    /// record and with `DomainNotInitialized` if its domain has none. The
    /// domain's record is read only for a table that exists.
    pub fn delete_table<R: TableStoredRequests + ?Sized, P: DomainStoredRequests + ?Sized>(
        &self,
        requests: &R,
        parent_requests: &P,
    ) -> (r: DbResult<Effects>)
        ensures
            exists|response: DbResult<Option<TableStored>>, parent: DbResult<Option<DomainStored>>|
                #[trigger] delete_table_reads(self@, requests, parent_requests, response, parent)
                    && result_view(r) == self@.delete_table_plan(
                    result_view(response),
                    result_view(parent),
                ),
    {
        let response = self.get_table_stored(requests);
        let ghost asked = response;
        match &response {
            Ok(Some(_)) => {
                let parent = self.get_domain_stored(parent_requests);
                let ghost above = parent;
                let r = self.plan_delete_table(response, parent);
                assert(delete_table_reads(self@, requests, parent_requests, asked, above));
                r
            },
            _ => {
                let r = self.plan_delete_table(response, Ok(None));
                assert(delete_table_reads(self@, requests, parent_requests, asked, Ok(None)));
                r
            },
        }
    }

    /// The index names, once the table's record has been read.
    pub fn plan_list_index_names(&self, response: DbResult<Option<TableStored>>) -> (r: DbResult<
        Vec<String>,
    >)
        ensures
            result_view(r) == self@.list_index_names_plan(result_view(response)),
    {
        match response {
            Err(e) => Err(e),
            Ok(None) => Err(DbError::TableNotInitialized),
            Ok(Some(stored)) => {
                let mut names: Vec<String> = Vec::new();
                let mut i: usize = 0;
                while i < stored.indexes.len()
                    invariant
                        i <= stored.indexes.len(),
                        names.len() == i,
                        forall|j: int| 0 <= j < i ==> names@[j]@ == stored.indexes@[j].0@,
                    decreases stored.indexes.len() - i,
                {
                    names.push(stored.indexes[i].0.clone());
                    i += 1;
                }
                assert(names.deep_view() =~= entry_names(stored@.indexes));
                Ok(names)
            },
        }
    }

    /// The names of the table's indexes, in stored order; fails with
    /// `TableNotInitialized` if the table has no record.
    pub fn list_index_names<R: TableStoredRequests + ?Sized>(&self, requests: &R) -> (r: DbResult<
        Vec<String>,
    >)
        ensures
            exists|response: DbResult<Option<TableStored>>|
                table_stored_answer(requests, self@.tables_cf(), self@.table_name, response)
                    && result_view(r) == self@.list_index_names_plan(result_view(response)),
    {
        let response = self.get_table_stored(requests);
        let ghost asked = response;
        let r = self.plan_list_index_names(response);
        assert(result_view(r) == self@.list_index_names_plan(result_view(asked)));
        r
    }

    /// Every row of the table, as the scan capability hands them out.
    pub fn all_values<R: TableStoredIteratorRequests + ?Sized>(&self, requests: &R) -> (r: DbResult<
        Vec<DbResult<TableValue>>,
    >)
        ensures
            table_scan_answer(requests, self@.values_cf(), ScanView::All, r),
    {
        let cf_name = CfNameMaker::for_table_values(self);
        requests.all_values(cf_name.as_str())
    }

    /// The rows whose key starts with `key_prefix`.
    pub fn all_values_with_key_prefix<R: TableStoredIteratorRequests + ?Sized>(
        &self,
        key_prefix: OndoKey,
        requests: &R,
    ) -> (r: DbResult<Vec<DbResult<TableValue>>>)
        ensures
            table_scan_answer(requests, self@.values_cf(), ScanView::Prefix(key_prefix@), r),
    {
        let cf_name = CfNameMaker::for_table_values(self);
        requests.all_values_with_key_prefix(cf_name.as_str(), key_prefix)
    }

    /// The rows whose key lies between `start_key` and `end_key`.
    pub fn all_values_with_key_range<R: TableStoredIteratorRequests + ?Sized>(
        &self,
        start_key: OndoKey,
        end_key: OndoKey,
        requests: &R,
    ) -> (r: DbResult<Vec<DbResult<TableValue>>>)
        ensures
            table_scan_answer(
                requests,
                self@.values_cf(),
                ScanView::Range(start_key@, end_key@),
                r,
            ),
    {
        let cf_name = CfNameMaker::for_table_values(self);
        requests.all_values_with_key_range(cf_name.as_str(), start_key, end_key)
    }
}

/// The reads that `post_table` makes: the table's record; then, for a table
/// that has none, the record of its domain.
pub open spec fn post_table_reads<
    R: TableStoredRequests + ?Sized,
    P: DomainStoredRequests + ?Sized,
>(
    reference: TableReferenceView,
    requests: &R,
    parent_requests: &P,
    response: DbResult<Option<TableStored>>,
    parent: DbResult<Option<DomainStored>>,
) -> bool {
    &&& table_stored_answer(requests, reference.tables_cf(), reference.table_name, response)
    &&& missing(response) ==> domain_stored_answer(
        parent_requests,
        CfNameMaker::spec_for_domains(),
        reference.domain_reference.domain_name,
        parent,
    )
}

/// The reads that `delete_table` makes: the table's record; then, for a
/// table that has one, the record of its domain.
pub open spec fn delete_table_reads<
    R: TableStoredRequests + ?Sized,
    P: DomainStoredRequests + ?Sized,
>(
    reference: TableReferenceView,
    requests: &R,
    parent_requests: &P,
    response: DbResult<Option<TableStored>>,
    parent: DbResult<Option<DomainStored>>,
) -> bool {
    &&& table_stored_answer(requests, reference.tables_cf(), reference.table_name, response)
    &&& found(response) ==> domain_stored_answer(
        parent_requests,
        CfNameMaker::spec_for_domains(),
        reference.domain_reference.domain_name,
        parent,
    )
}

} // verus!
