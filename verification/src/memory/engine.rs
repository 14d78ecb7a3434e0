//! The store in memory.
//!
//! It applies effects as the mathematical store does, and it answers the
//! reads of planners from what it holds. Scans hand out rows in ascending
//! order of their keys; a range runs from its start, inclusive, up to its
//! end, exclusive.

use crate::entity::{DatabaseServerStored, DomainStored, TableStored};
use crate::error::{result_view, DbError, DbErrorView, DbResult};
use crate::key::{KeyPartView, OndoKey};
use crate::key_order::key_lt;
use crate::lookup::{all_different, map_of};
use crate::memory::entries::{any_key, keys_in_range, keys_with_prefix, picked, Entries};
use crate::memory::named::Named;
use crate::reference::column_value_reference::{counted_view, ColumnValueReference};
use crate::reference::effect::{
    DatabaseServerStoredEffect, DomainStoredEffect, Effect, Effects, TableStoredEffect,
    TableValueEffect,
};
use crate::reference::requests::{
    items_view, scanned, ColumnValueRequests, DomainStoredRequests, IndexIteratorRequests,
    TableStoredIteratorRequests, TableStoredRequests, TableValueRequests,
};
use crate::reference::table_value_reference::TableValueReference;
use crate::store::{CfView, StoreView};
use crate::value::{TableValue, TableValueView};
use vstd::prelude::*;

verus! {

/// One column family in memory.
pub struct MemoryCf {
    values: Entries,
    tables: Named<TableStored>,
    domains: Named<DomainStored>,
    servers: Named<DatabaseServerStored>,
}

/// The store in memory: its column families by name.
pub struct MemoryStore {
    cfs: Named<MemoryCf>,
}

impl MemoryCf {
    /// What the column family holds.
    pub closed spec fn view(&self) -> CfView {
        CfView {
            values: self.values@,
            tables: self.tables@.map_values(|stored: TableStored| stored@),
            domains: self.domains@.map_values(|stored: DomainStored| stored@),
            servers: self.servers@.map_values(|stored: DatabaseServerStored| stored@),
        }
    }

    /// The keys of the rows, in ascending order.
    pub closed spec fn keys(&self) -> Seq<Seq<KeyPartView>> {
        self.values.keys()
    }

    /// The rows, in ascending order of their keys.
    pub closed spec fn rows(&self) -> Seq<TableValueView> {
        self.values.values()
    }

    /// A column family that holds nothing.
    fn new() -> (r: Self)
        ensures
            r@ == CfView::empty(),
    {
        let r = MemoryCf {
            values: Entries::new(),
            tables: Named::new(),
            domains: Named::new(),
            servers: Named::new(),
        };
        assert(r@.tables =~= Map::empty());
        assert(r@.domains =~= Map::empty());
        assert(r@.servers =~= Map::empty());
        r
    }
}

impl MemoryStore {
    /// What the store holds.
    pub closed spec fn view(&self) -> StoreView {
        StoreView { cfs: self.cfs@.map_values(|cf: MemoryCf| cf@) }
    }

    /// The keys of the rows of the column family `cf`, in ascending order.
    pub closed spec fn keys(&self, cf: Seq<char>) -> Seq<Seq<KeyPartView>> {
        self.cfs@[cf].keys()
    }

    /// The rows of the column family `cf`, in ascending order of their
    /// keys.
    pub closed spec fn rows(&self, cf: Seq<char>) -> Seq<TableValueView> {
        self.cfs@[cf].rows()
    }

    /// A store without column families.
    pub fn new() -> (r: Self)
        ensures
            r@.cfs == Map::<Seq<char>, CfView>::empty(),
    {
        let r = MemoryStore { cfs: Named::new() };
        assert(r@.cfs =~= Map::<Seq<char>, CfView>::empty());
        r
    }

    /// Puts the column family `cf` back under `name`.
    fn restore(&mut self, name: &str, cf: MemoryCf)
        ensures
            final(self)@ == old(self)@.with_cf(name@, cf@),
    {
        self.cfs.put(name, cf);
        assert(self@.cfs =~= old(self)@.with_cf(name@, cf@).cfs);
    }

    /// Takes the column family `name` out of the store.
    fn withdraw(&mut self, name: &str) -> (r: Option<MemoryCf>)
        ensures
            r is Some <==> old(self)@.has_cf(name@),
            r matches Some(cf) ==> cf@ == old(self)@.cfs[name@],
            final(self)@.cfs == old(self)@.cfs.remove(name@),
    {
        let r = self.cfs.take(name);
        assert(self@.cfs =~= old(self)@.cfs.remove(name@));
        r
    }

    /// Applies a write or delete of a row or entry.
    fn apply_value(&mut self, effect: &TableValueEffect) -> (r: DbResult<()>)
        ensures
            match old(self)@.apply_value(effect@) {
                Ok(after) => r is Ok && final(self)@ == after,
                Err(e) => r is Err && r->Err_0@ == e && final(self)@ == old(self)@,
            },
    {
        let cf_name = match effect {
            TableValueEffect::Put(cf, _, _) => cf.as_str(),
            TableValueEffect::Delete(cf, _) => cf.as_str(),
        };
        match self.withdraw(cf_name) {
            None => {
                assert(self@.cfs =~= old(self)@.cfs);
                Err(DbError::CfNotFound)
            },
            Some(cf) => {
                let mut cf = cf;
                match effect {
                    TableValueEffect::Put(_, key, value) => {
                        cf.values.put(key.clone(), value.clone());
                    },
                    TableValueEffect::Delete(_, key) => {
                        cf.values.remove(key);
                    },
                }
                self.restore(cf_name, cf);
                assert(self@.cfs =~= old(self)@.apply_value(effect@)->Ok_0.cfs);
                Ok(())
            },
        }
    }

    /// Applies a write or delete of a table record.
    fn apply_table(&mut self, effect: &TableStoredEffect) -> (r: DbResult<()>)
        ensures
            match old(self)@.apply_table(effect@) {
                Ok(after) => r is Ok && final(self)@ == after,
                Err(e) => r is Err && r->Err_0@ == e && final(self)@ == old(self)@,
            },
    {
        let cf_name = match effect {
            TableStoredEffect::Put(cf, _, _) => cf.as_str(),
            TableStoredEffect::Delete(cf, _) => cf.as_str(),
        };
        match self.withdraw(cf_name) {
            None => {
                assert(self@.cfs =~= old(self)@.cfs);
                Err(DbError::CfNotFound)
            },
            Some(cf) => {
                let mut cf = cf;
                let ghost before = cf@;
                match effect {
                    TableStoredEffect::Put(_, name, stored) => {
                        cf.tables.put(name.as_str(), stored.clone());
                        assert(cf@.tables =~= before.tables.insert(name@, stored@));
                    },
                    TableStoredEffect::Delete(_, name) => {
                        let _ = cf.tables.take(name.as_str());
                        assert(cf@.tables =~= before.tables.remove(name@));
                    },
                }
                self.restore(cf_name, cf);
                assert(self@.cfs =~= old(self)@.apply_table(effect@)->Ok_0.cfs);
                Ok(())
            },
        }
    }

    /// Applies a write or delete of a domain record.
    fn apply_domain(&mut self, effect: &DomainStoredEffect) -> (r: DbResult<()>)
        ensures
            match old(self)@.apply_domain(effect@) {
                Ok(after) => r is Ok && final(self)@ == after,
                Err(e) => r is Err && r->Err_0@ == e && final(self)@ == old(self)@,
            },
    {
        let cf_name = match effect {
            DomainStoredEffect::Put(cf, _, _) => cf.as_str(),
            DomainStoredEffect::Delete(cf, _) => cf.as_str(),
        };
        match self.withdraw(cf_name) {
            None => {
                assert(self@.cfs =~= old(self)@.cfs);
                Err(DbError::CfNotFound)
            },
            Some(cf) => {
                let mut cf = cf;
                let ghost before = cf@;
                match effect {
                    DomainStoredEffect::Put(_, name, stored) => {
                        cf.domains.put(name.as_str(), stored.clone());
                        assert(cf@.domains =~= before.domains.insert(name@, stored@));
                    },
                    DomainStoredEffect::Delete(_, name) => {
                        let _ = cf.domains.take(name.as_str());
                        assert(cf@.domains =~= before.domains.remove(name@));
                    },
                }
                self.restore(cf_name, cf);
                assert(self@.cfs =~= old(self)@.apply_domain(effect@)->Ok_0.cfs);
                Ok(())
            },
        }
    }

    /// Applies a write or delete of a server record.
    fn apply_server(&mut self, effect: &DatabaseServerStoredEffect) -> (r: DbResult<()>)
        ensures
            match old(self)@.apply_server(effect@) {
                Ok(after) => r is Ok && final(self)@ == after,
                Err(e) => r is Err && r->Err_0@ == e && final(self)@ == old(self)@,
            },
    {
        let cf_name = match effect {
            DatabaseServerStoredEffect::Put(cf, _, _) => cf.as_str(),
            DatabaseServerStoredEffect::Delete(cf, _) => cf.as_str(),
        };
        match self.withdraw(cf_name) {
            None => {
                assert(self@.cfs =~= old(self)@.cfs);
                Err(DbError::CfNotFound)
            },
            Some(cf) => {
                let mut cf = cf;
                let ghost before = cf@;
                match effect {
                    DatabaseServerStoredEffect::Put(_, name, stored) => {
                        cf.servers.put(name.as_str(), stored.clone());
                        assert(cf@.servers =~= before.servers.insert(name@, stored@));
                    },
                    DatabaseServerStoredEffect::Delete(_, name) => {
                        let _ = cf.servers.take(name.as_str());
                        assert(cf@.servers =~= before.servers.remove(name@));
                    },
                }
                self.restore(cf_name, cf);
                assert(self@.cfs =~= old(self)@.apply_server(effect@)->Ok_0.cfs);
                Ok(())
            },
        }
    }

    /// Applies one effect. Creating a column family that is there fails
    /// with `AlreadyExists`; dropping, reading or writing one that is not
    /// there fails with `CfNotFound`. An effect that fails changes nothing.
    pub fn apply_effect(&mut self, effect: &Effect) -> (r: DbResult<()>)
        ensures
            match old(self)@.apply(effect@) {
                Ok(after) => r is Ok && final(self)@ == after,
                Err(e) => r is Err && r->Err_0@ == e && final(self)@ == old(self)@,
            },
    {
        match effect {
            Effect::CreateCf(name) => {
                if self.cfs.contains(name.as_str()) {
                    Err(DbError::AlreadyExists)
                } else {
                    self.restore(name.as_str(), MemoryCf::new());
                    Ok(())
                }
            },
            Effect::DeleteCf(name) => {
                match self.withdraw(name.as_str()) {
                    Some(_) => Ok(()),
                    None => {
                        assert(self@.cfs =~= old(self)@.cfs);
                        Err(DbError::CfNotFound)
                    },
                }
            },
            Effect::DatabaseServerStoredEffect(e) => self.apply_server(e),
            Effect::DomainStoredEffect(e) => self.apply_domain(e),
            Effect::TableStoredEffect(e) => self.apply_table(e),
            Effect::TableValueEffect(e) => self.apply_value(e),
        }
    }

    /// Applies the effects in order. The first that fails ends the run
    /// with its error; what was applied before it stays applied.
    pub fn apply_effects(&mut self, effects: &Effects) -> (r: DbResult<()>)
        ensures
            final(self)@ == old(self)@.applied(effects.deep_view()),
            match old(self)@.apply_all(effects.deep_view()) {
                Ok(after) => r is Ok && final(self)@ == after,
                Err(e) => r is Err && r->Err_0@ == e,
            },
    {
        let ghost all = effects.deep_view();
        let mut i: usize = 0;
        assert(all.skip(0) =~= all);
        while i < effects.len()
            invariant
                i <= effects.len(),
                all == effects.deep_view(),
                old(self)@.applied(all) == self@.applied(all.skip(i as int)),
                old(self)@.apply_all(all) == self@.apply_all(all.skip(i as int)),
            decreases effects.len() - i,
        {
            proof {
                assert(all.skip(i as int)[0] == effects@[i as int]@);
                assert(all.skip(i as int).skip(1) =~= all.skip(i + 1));
            }
            match self.apply_effect(&effects[i]) {
                Err(e) => {
                    return Err(e);
                },
                Ok(_) => {},
            }
            i += 1;
        }
        Ok(())
    }
}

impl MemoryStore {
    /// The rows of the column family `cf` are its keys and rows in
    /// ascending order; the keys are all different.
    pub open spec fn in_order(&self, cf: Seq<char>) -> bool {
        &&& self@.rows(cf) == map_of(self.keys(cf), self.rows(cf))
        &&& self.keys(cf).len() == self.rows(cf).len()
        &&& all_different(self.keys(cf))
        &&& forall|i: int, j: int|
            0 <= i < j < self.keys(cf).len() ==> key_lt(
                #[trigger] self.keys(cf)[i],
                #[trigger] self.keys(cf)[j],
            )
    }

    /// What a scan of the column family `cf` for the wanted keys hands
    /// out: the rows under these keys, in ascending order of the keys.
    pub open spec fn scan_answer(
        &self,
        cf: Seq<char>,
        wanted: spec_fn(Seq<KeyPartView>) -> bool,
    ) -> Seq<TableValueView> {
        picked(self.keys(cf), self.rows(cf), wanted, self.keys(cf).len())
    }

    /// Learns that the rows of the column family `cf_name`, if it is there,
    /// are in order.
    pub fn ordered(&self, cf_name: &str)
        ensures
            self@.has_cf(cf_name@) ==> self.in_order(cf_name@),
    {
        match self.cfs.get(cf_name) {
            None => {},
            Some(cf) => {
                cf.values.ordered();
            },
        }
    }

    /// The record of the domain `key` in the column family `cf_name`.
    pub fn domain_stored(&self, cf_name: &str, key: &str) -> (r: DbResult<Option<DomainStored>>)
        ensures
            result_view(r) == self@.domain_stored_answer(cf_name@, key@),
    {
        match self.cfs.get(cf_name) {
            None => Err(DbError::CfNotFound),
            Some(cf) => match cf.domains.get(key) {
                Some(stored) => Ok(Some(stored.clone())),
                None => Ok(None),
            },
        }
    }

    /// The record of the table `key` in the column family `cf_name`.
    pub fn table_stored(&self, cf_name: &str, key: &str) -> (r: DbResult<Option<TableStored>>)
        ensures
            result_view(r) == self@.table_stored_answer(cf_name@, key@),
    {
        match self.cfs.get(cf_name) {
            None => Err(DbError::CfNotFound),
            Some(cf) => match cf.tables.get(key) {
                Some(stored) => Ok(Some(stored.clone())),
                None => Ok(None),
            },
        }
    }

    /// The row under `key` in the column family `cf_name`.
    pub fn table_value(&self, cf_name: &str, key: &OndoKey) -> (r: DbResult<Option<TableValue>>)
        ensures
            result_view(r) == self@.table_value_answer(cf_name@, key@),
    {
        match self.cfs.get(cf_name) {
            None => Err(DbError::CfNotFound),
            Some(cf) => match cf.values.get(key) {
                Some(value) => Ok(Some(value.clone())),
                None => Ok(None),
            },
        }
    }

    /// The count after the one that the counter holds, and the effect that
    /// writes it. The store itself stays as it is.
    pub fn next_count(&self, reference: &ColumnValueReference) -> (r: DbResult<(u64, Effects)>)
        ensures
            counted_view(r) == self@.increment_answer(reference@),
    {
        reference.plan_increment(
            self.table_value(reference.column_reference.as_str(), &reference.id),
        )
    }

    /// All rows of the column family `cf_name`, in ascending order of
    /// their keys; fails with `CfNotFound` if it is not there.
    pub fn scan_all(&self, cf_name: &str) -> (r: DbResult<Vec<DbResult<TableValue>>>)
        ensures
            r is Ok <==> self@.has_cf(cf_name@),
            r matches Err(e) ==> e@ == DbErrorView::CfNotFound,
            r matches Ok(items) ==> self.in_order(cf_name@) && items_view(items@) == scanned(
                self.scan_answer(cf_name@, any_key()),
            ),
    {
        match self.cfs.get(cf_name) {
            None => Err(DbError::CfNotFound),
            Some(cf) => {
                let items = cf.values.all();
                assert(items_view(items@) =~= scanned(self.scan_answer(cf_name@, any_key())));
                Ok(items)
            },
        }
    }

    /// The rows of the column family `cf_name` whose keys start with
    /// `key_prefix`, in ascending order of their keys; fails with
    /// `CfNotFound` if the column family is not there.
    pub fn scan_prefix(&self, cf_name: &str, key_prefix: &OndoKey) -> (r: DbResult<
        Vec<DbResult<TableValue>>,
    >)
        ensures
            r is Ok <==> self@.has_cf(cf_name@),
            r matches Err(e) ==> e@ == DbErrorView::CfNotFound,
            r matches Ok(items) ==> self.in_order(cf_name@) && items_view(items@) == scanned(
                self.scan_answer(cf_name@, keys_with_prefix(key_prefix@)),
            ),
    {
        match self.cfs.get(cf_name) {
            None => Err(DbError::CfNotFound),
            Some(cf) => {
                let items = cf.values.with_prefix(key_prefix);
                assert(items_view(items@) =~= scanned(
                    self.scan_answer(cf_name@, keys_with_prefix(key_prefix@)),
                ));
                Ok(items)
            },
        }
    }

    /// The rows of the column family `cf_name` whose keys lie from
    /// `start_key`, inclusive, up to `end_key`, exclusive, in ascending
    /// order of their keys; fails with `CfNotFound` if the column family
    /// is not there.
    pub fn scan_range(&self, cf_name: &str, start_key: &OndoKey, end_key: &OndoKey) -> (r:
        DbResult<Vec<DbResult<TableValue>>>)
        ensures
            r is Ok <==> self@.has_cf(cf_name@),
            r matches Err(e) ==> e@ == DbErrorView::CfNotFound,
            r matches Ok(items) ==> self.in_order(cf_name@) && items_view(items@) == scanned(
                self.scan_answer(cf_name@, keys_in_range(start_key@, end_key@)),
            ),
    {
        match self.cfs.get(cf_name) {
            None => Err(DbError::CfNotFound),
            Some(cf) => {
                let items = cf.values.in_range(start_key, end_key);
                assert(items_view(items@) =~= scanned(
                    self.scan_answer(cf_name@, keys_in_range(start_key@, end_key@)),
                ));
                Ok(items)
            },
        }
    }
}

impl DomainStoredRequests for MemoryStore {
    fn get_domain_stored(&self, cf_name: &str, key: &String) -> (r: DbResult<Option<DomainStored>>)
        ensures
            result_view(r) == self@.domain_stored_answer(cf_name@, key@),
    {
        self.domain_stored(cf_name, key.as_str())
    }
}

impl TableStoredRequests for MemoryStore {
    fn get_table_stored(&self, cf_name: &str, key: &String) -> (r: DbResult<Option<TableStored>>)
        ensures
            result_view(r) == self@.table_stored_answer(cf_name@, key@),
    {
        self.table_stored(cf_name, key.as_str())
    }
}

impl TableValueRequests for MemoryStore {
    fn get_table_value(&self, cf_name: &str, key: &TableValueReference) -> (r: DbResult<
        Option<TableValue>,
    >)
        ensures
            result_view(r) == self@.table_value_answer(cf_name@, key@.id),
    {
        self.table_value(cf_name, &key.id)
    }
}

impl ColumnValueRequests for MemoryStore {
    fn increment_column_value(&self, reference: &ColumnValueReference) -> (r: DbResult<
        (u64, Effects),
    >)
        ensures
            counted_view(r) == self@.increment_answer(reference@),
    {
        self.next_count(reference)
    }
}

impl TableStoredIteratorRequests for MemoryStore {
    fn all_values(&self, value_cf_name: &str) -> (r: DbResult<Vec<DbResult<TableValue>>>)
        ensures
            r is Ok <==> self@.has_cf(value_cf_name@),
            r matches Err(e) ==> e@ == DbErrorView::CfNotFound,
            r matches Ok(items) ==> self.in_order(value_cf_name@) && items_view(items@)
                == scanned(self.scan_answer(value_cf_name@, any_key())),
    {
        self.scan_all(value_cf_name)
    }

    fn all_values_with_key_prefix(&self, value_cf_name: &str, key_prefix: OndoKey) -> (r: DbResult<
        Vec<DbResult<TableValue>>,
    >)
        ensures
            r is Ok <==> self@.has_cf(value_cf_name@),
            r matches Err(e) ==> e@ == DbErrorView::CfNotFound,
            r matches Ok(items) ==> self.in_order(value_cf_name@) && items_view(items@)
                == scanned(self.scan_answer(value_cf_name@, keys_with_prefix(key_prefix@))),
    {
        self.scan_prefix(value_cf_name, &key_prefix)
    }

    fn all_values_with_key_range(
        &self,
        value_cf_name: &str,
        start_key: OndoKey,
        end_key: OndoKey,
    ) -> (r: DbResult<Vec<DbResult<TableValue>>>)
        ensures
            r is Ok <==> self@.has_cf(value_cf_name@),
            r matches Err(e) ==> e@ == DbErrorView::CfNotFound,
            r matches Ok(items) ==> self.in_order(value_cf_name@) && items_view(items@)
                == scanned(self.scan_answer(value_cf_name@, keys_in_range(start_key@, end_key@))),
    {
        self.scan_range(value_cf_name, &start_key, &end_key)
    }
}

/// The store in memory as the scans of index entries.
pub struct IndexScans<'a> {
    pub store: &'a MemoryStore,
}

impl MemoryStore {
    /// This store as the scans of index entries.
    pub fn index_scans(&self) -> (r: IndexScans<'_>)
        ensures
            r.store == self,
    {
        IndexScans { store: self }
    }
}

impl<'a> IndexIteratorRequests for IndexScans<'a> {
    fn all_values(&self, value_cf_name: &str) -> (r: DbResult<Vec<DbResult<TableValue>>>)
        ensures
            r is Ok <==> self.store@.has_cf(value_cf_name@),
            r matches Err(e) ==> e@ == DbErrorView::CfNotFound,
            r matches Ok(items) ==> self.store.in_order(value_cf_name@) && items_view(items@)
                == scanned(self.store.scan_answer(value_cf_name@, any_key())),
    {
        self.store.scan_all(value_cf_name)
    }

    fn all_values_with_key_prefix(&self, value_cf_name: &str, key_prefix: OndoKey) -> (r: DbResult<
        Vec<DbResult<TableValue>>,
    >)
        ensures
            r is Ok <==> self.store@.has_cf(value_cf_name@),
            r matches Err(e) ==> e@ == DbErrorView::CfNotFound,
            r matches Ok(items) ==> self.store.in_order(value_cf_name@) && items_view(items@)
                == scanned(self.store.scan_answer(value_cf_name@, keys_with_prefix(key_prefix@))),
    {
        self.store.scan_prefix(value_cf_name, &key_prefix)
    }

    fn all_values_with_key_range(
        &self,
        value_cf_name: &str,
        start_key: OndoKey,
        end_key: OndoKey,
    ) -> (r: DbResult<Vec<DbResult<TableValue>>>)
        ensures
            r is Ok <==> self.store@.has_cf(value_cf_name@),
            r matches Err(e) ==> e@ == DbErrorView::CfNotFound,
            r matches Ok(items) ==> self.store.in_order(value_cf_name@) && items_view(items@)
                == scanned(
                self.store.scan_answer(value_cf_name@, keys_in_range(start_key@, end_key@)),
            ),
    {
        self.store.scan_range(value_cf_name, &start_key, &end_key)
    }
}

} // verus!
