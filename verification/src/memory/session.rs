//! Writes against the store in memory: a planner reads the store, and the
//! store applies what the planner planned.

use crate::consistency::{delete_plan, post_plan, put_plan, table_answer};
use crate::entity::{DomainStored, Index, TableStored};
use crate::error::{result_view, DbErrorView, DbResult};
use crate::key::OndoKey;
use crate::memory::engine::MemoryStore;
use crate::memory::entries::any_key;
use crate::rebuild::{lemma_in_order_lists_rows, lemma_picked_all, scan_lists_rows};
use crate::reference::cf_name_maker::CfNameMaker;
use crate::reference::column_value_reference::counted_view;
use crate::reference::domain_reference::{
    delete_domain_reads, table_answers_view, DomainReference, DomainReferenceView,
};
use crate::reference::effect::Effects;
use crate::reference::index_reference::{put_index_reads, IndexReference, ScanAnswer};
use crate::reference::requests::{scan_view, scanned};
use crate::reference::table_reference::{Plan, TableStoredAnswer};
use crate::reference::table_value_reference::{
    created_view, delete_table_value_reads, post_table_value_reads, put_table_value_reads,
    CreateTableValueReference, TableValueReference,
};
use crate::store::StoreView;
use crate::value::TableValue;
use vstd::prelude::*;

verus! {

/// The store went from `before` to `after` by the plan: a plan that is an
/// error left it as it was and is the outcome; planned effects were
/// applied up to the first that failed, and the outcome is that failure,
/// if any.
pub open spec fn ran(
    before: StoreView,
    after: StoreView,
    plan: Plan,
    outcome: DbResult<()>,
) -> bool {
    match plan {
        Err(e) => after == before && outcome is Err && outcome->Err_0@ == e,
        Ok(effects) => after == before.applied(effects) && (match before.apply_all(effects) {
            Ok(_) => outcome is Ok,
            Err(e) => outcome is Err && outcome->Err_0@ == e,
        }),
    }
}

impl MemoryStore {
    /// Applies what was planned, or hands the planner's error on.
    pub fn run(&mut self, plan: DbResult<Effects>) -> (r: DbResult<()>)
        ensures
            ran(old(self)@, final(self)@, result_view(plan), r),
    {
        match plan {
            Err(e) => Err(e),
            Ok(effects) => self.apply_effects(&effects),
        }
    }

    /// Replaces a row: plans the replacement against this store and
    /// applies the plan.
    pub fn put_table_value(&mut self, reference: &TableValueReference, value: &TableValue) -> (r:
        DbResult<()>)
        ensures
            ran(old(self)@, final(self)@, put_plan(old(self)@, reference@, value@), r),
    {
        let plan = reference.put_table_value(value, &*self, &*self);
        proof {
            let (old, first, second) = choose|
                old: DbResult<Option<TableValue>>,
                first: DbResult<Option<TableStored>>,
                second: DbResult<Option<TableStored>>,
            |
                #[trigger] put_table_value_reads(reference@, &*self, &*self, old, first, second)
                    && result_view(plan) == reference@.put_table_value_plan(
                    value@,
                    result_view(old),
                    result_view(first),
                    result_view(second),
                );
        }
        self.run(plan)
    }

    /// Deletes a row: plans the deletion against this store and applies the
    /// plan.
    pub fn delete_table_value(&mut self, reference: &TableValueReference) -> (r: DbResult<()>)
        ensures
            ran(old(self)@, final(self)@, delete_plan(old(self)@, reference@), r),
    {
        let plan = reference.delete_table_value(&*self, &*self);
        proof {
            let (old, first) = choose|
                old: DbResult<Option<TableValue>>,
                first: DbResult<Option<TableStored>>,
            |
                #[trigger] delete_table_value_reads(reference@, &*self, &*self, old, first)
                    && result_view(plan) == reference@.delete_table_value_plan(
                    result_view(old),
                    result_view(first),
                );
        }
        self.run(plan)
    }

    /// Creates a row: plans the creation against this store, which also
    /// counts where no key is given, and applies the plan. Hands out the
    /// key of the row.
    pub fn post_table_value(
        &mut self,
        reference: &CreateTableValueReference,
        value: &mut TableValue,
    ) -> (r: DbResult<OndoKey>)
        ensures
            final(value)@ == reference@.stored_value(
                old(value)@,
                old(self)@.increment_answer(reference@.counter()),
            ),
            match post_plan(old(self)@, reference@, old(value)@) {
                Err(e) => final(self)@ == old(self)@ && r is Err && r->Err_0@ == e,
                Ok((id, effects)) => final(self)@ == old(self)@.applied(effects) && (match old(
                    self,
                )@.apply_all(effects) {
                    Ok(_) => r is Ok && r->Ok_0@ == id,
                    Err(e) => r is Err && r->Err_0@ == e,
                }),
            },
    {
        let ghost given = value@;
        let created = reference.post_table_value(value, &*self, &*self, &*self);
        proof {
            let (counter, first) = choose|
                counter: DbResult<(u64, Effects)>,
                first: DbResult<Option<TableStored>>,
            |
                #[trigger] post_table_value_reads(reference@, &*self, &*self, counter, first)
                    && created_view(created) == reference@.post_table_value_plan(
                    given,
                    counted_view(counter),
                    result_view(first),
                ) && value@ == reference@.stored_value(given, counted_view(counter));
        }
        match created {
            Err(e) => Err(e),
            Ok((id, effects)) => match self.apply_effects(&effects) {
                Ok(_) => Ok(id),
                Err(e) => Err(e),
            },
        }
    }
}

/// What the store answers when asked for the records of the tables
/// `names` of a domain.
pub open spec fn table_answers(
    store: StoreView,
    domain: DomainReferenceView,
    names: Seq<Seq<char>>,
) -> Seq<TableStoredAnswer> {
    Seq::new(names.len(), |i: int| store.table_stored_answer(domain.tables_cf(), names[i]))
}

/// The plan of `delete_domain` when the store itself answers its reads.
pub open spec fn delete_domain_plan(store: StoreView, domain: DomainReferenceView) -> Plan {
    let answer = store.domain_stored_answer(CfNameMaker::spec_for_domains(), domain.domain_name);
    let names = if answer is Ok && answer->Ok_0 is Some {
        answer->Ok_0->Some_0.tables
    } else {
        Seq::empty()
    };
    domain.delete_domain_plan(answer, table_answers(store, domain, names))
}

impl MemoryStore {
    /// What a scan of all rows of the column family `cf` answers.
    pub open spec fn rows_answer(&self, cf: Seq<char>) -> ScanAnswer {
        if self@.has_cf(cf) {
            Ok(scanned(self.scan_answer(cf, any_key())))
        } else {
            Err(DbErrorView::CfNotFound)
        }
    }

    /// Replaces the definition of an index: plans the replacement and the
    /// rebuild from the rows against this store and applies the plan. The
    /// rows that the plan was made from are the rows of the table.
    pub fn put_index(&mut self, reference: &IndexReference, index: &Index) -> (r: DbResult<()>)
        ensures
            ran(
                old(self)@,
                final(self)@,
                reference@.put_index_plan(
                    index@,
                    table_answer(old(self)@, reference@.table_reference),
                    old(self).rows_answer(reference@.table_reference.values_cf()),
                ),
                r,
            ),
            old(self)@.has_cf(reference@.table_reference.values_cf()) ==> scan_lists_rows(
                old(self).scan_answer(reference@.table_reference.values_cf(), any_key()),
                old(self)@.rows(reference@.table_reference.values_cf()),
            ),
    {
        let ghost cf = reference@.table_reference.values_cf();
        self.ordered(CfNameMaker::for_table_values(&reference.table_reference).as_str());
        proof {
            if self@.has_cf(cf) {
                lemma_picked_all(self.keys(cf), self.rows(cf), self.keys(cf).len());
                assert(self.rows(cf).take(self.rows(cf).len() as int) =~= self.rows(cf));
                lemma_in_order_lists_rows(self.keys(cf), self.rows(cf));
            }
        }
        let plan = reference.put_index(index, &*self, &*self);
        proof {
            let (first, rows) = choose|
                first: DbResult<Option<TableStored>>,
                rows: DbResult<Vec<DbResult<TableValue>>>,
            |
                #[trigger] put_index_reads(reference@, &*self, &*self, first, rows) && result_view(
                    plan,
                ) == reference@.put_index_plan(index@, result_view(first), scan_view(rows));
        }
        self.run(plan)
    }

    /// Deletes a domain with its tables and their indexes: plans the
    /// deletion against this store and applies the plan.
    pub fn delete_domain(&mut self, reference: &DomainReference) -> (r: DbResult<()>)
        ensures
            ran(old(self)@, final(self)@, delete_domain_plan(old(self)@, reference@), r),
    {
        let plan = reference.delete_domain(&*self, &*self);
        proof {
            let (first, tables) = choose|
                first: DbResult<Option<DomainStored>>,
                tables: Seq<DbResult<Option<TableStored>>>,
            |
                #[trigger] delete_domain_reads(reference@, &*self, &*self, first, tables)
                    && result_view(plan) == reference@.delete_domain_plan(
                    result_view(first),
                    table_answers_view(tables),
                );
            let answer = self@.domain_stored_answer(
                CfNameMaker::spec_for_domains(),
                reference@.domain_name,
            );
            assert(result_view(first) == answer);
            if answer is Ok && answer->Ok_0 is Some {
                let names = answer->Ok_0->Some_0.tables;
                assert(table_answers_view(tables) =~= table_answers(self@, reference@, names));
            }
        }
        self.run(plan)
    }
}

} // verus!
