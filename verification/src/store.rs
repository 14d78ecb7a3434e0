//! What effects do: the store as a mathematical value, and the effects
//! applied to it in order.
//!
//! A store is a set of named column families. A column family holds rows
//! and index entries by key, and records by name. Effects are applied one
//! after the other; the first that fails ends the run.

use crate::entity::{DatabaseServerStoredView, DomainStoredView, TableStoredView};
use crate::error::DbErrorView;
use crate::key::KeyPartView;
use crate::reference::column_value_reference::ColumnValueReferenceView;
use crate::reference::effect::{
    DatabaseServerStoredEffectView, DomainStoredEffectView, EffectView, TableStoredEffectView,
    TableValueEffectView,
};
use crate::value::TableValueView;
use vstd::prelude::*;

verus! {

/// What one column family holds.
pub struct CfView {
    /// Rows and index entries, by key.
    pub values: Map<Seq<KeyPartView>, TableValueView>,
    /// Table records, by table name.
    pub tables: Map<Seq<char>, TableStoredView>,
    /// Domain records, by domain name.
    pub domains: Map<Seq<char>, DomainStoredView>,
    /// Server records, by server name.
    pub servers: Map<Seq<char>, DatabaseServerStoredView>,
}

/// The store: its column families by name.
pub struct StoreView {
    pub cfs: Map<Seq<char>, CfView>,
}

/// What the keys of a column family map to.
pub type Rows = Map<Seq<KeyPartView>, TableValueView>;

impl CfView {
    /// A column family that holds nothing.
    pub open spec fn empty() -> CfView {
        CfView {
            values: Map::empty(),
            tables: Map::empty(),
            domains: Map::empty(),
            servers: Map::empty(),
        }
    }
}

impl StoreView {
    /// The store has a column family called `name`.
    pub open spec fn has_cf(self, name: Seq<char>) -> bool {
        self.cfs.dom().contains(name)
    }

    /// The rows or entries of the column family `name`.
    pub open spec fn rows(self, name: Seq<char>) -> Rows {
        self.cfs[name].values
    }

    /// This store with the column family `name` holding `cf`.
    pub open spec fn with_cf(self, name: Seq<char>, cf: CfView) -> StoreView {
        StoreView { cfs: self.cfs.insert(name, cf) }
    }

    /// The store after a write or delete of a row or entry.
    pub open spec fn apply_value(self, effect: TableValueEffectView) -> Result<
        StoreView,
        DbErrorView,
    > {
        match effect {
            TableValueEffectView::Put(cf, key, value) => if self.has_cf(cf) {
                Ok(
                    self.with_cf(
                        cf,
                        CfView { values: self.cfs[cf].values.insert(key, value), ..self.cfs[cf] },
                    ),
                )
            } else {
                Err(DbErrorView::CfNotFound)
            },
            TableValueEffectView::Delete(cf, key) => if self.has_cf(cf) {
                Ok(
                    self.with_cf(
                        cf,
                        CfView { values: self.cfs[cf].values.remove(key), ..self.cfs[cf] },
                    ),
                )
            } else {
                Err(DbErrorView::CfNotFound)
            },
        }
    }

    /// The store after a write or delete of a table record.
    pub open spec fn apply_table(self, effect: TableStoredEffectView) -> Result<
        StoreView,
        DbErrorView,
    > {
        match effect {
            TableStoredEffectView::Put(cf, name, stored) => if self.has_cf(cf) {
                Ok(
                    self.with_cf(
                        cf,
                        CfView { tables: self.cfs[cf].tables.insert(name, stored), ..self.cfs[cf] },
                    ),
                )
            } else {
                Err(DbErrorView::CfNotFound)
            },
            TableStoredEffectView::Delete(cf, name) => if self.has_cf(cf) {
                Ok(
                    self.with_cf(
                        cf,
                        CfView { tables: self.cfs[cf].tables.remove(name), ..self.cfs[cf] },
                    ),
                )
            } else {
                Err(DbErrorView::CfNotFound)
            },
        }
    }

    /// The store after a write or delete of a domain record.
    pub open spec fn apply_domain(self, effect: DomainStoredEffectView) -> Result<
        StoreView,
        DbErrorView,
    > {
        match effect {
            DomainStoredEffectView::Put(cf, name, stored) => if self.has_cf(cf) {
                Ok(
                    self.with_cf(
                        cf,
                        CfView {
                            domains: self.cfs[cf].domains.insert(name, stored),
                            ..self.cfs[cf]
                        },
                    ),
                )
            } else {
                Err(DbErrorView::CfNotFound)
            },
            DomainStoredEffectView::Delete(cf, name) => if self.has_cf(cf) {
                Ok(
                    self.with_cf(
                        cf,
                        CfView { domains: self.cfs[cf].domains.remove(name), ..self.cfs[cf] },
                    ),
                )
            } else {
                Err(DbErrorView::CfNotFound)
            },
        }
    }

    /// The store after a write or delete of a server record.
    pub open spec fn apply_server(self, effect: DatabaseServerStoredEffectView) -> Result<
        StoreView,
        DbErrorView,
    > {
        match effect {
            DatabaseServerStoredEffectView::Put(cf, name, stored) => if self.has_cf(cf) {
                Ok(
                    self.with_cf(
                        cf,
                        CfView {
                            servers: self.cfs[cf].servers.insert(name, stored),
                            ..self.cfs[cf]
                        },
                    ),
                )
            } else {
                Err(DbErrorView::CfNotFound)
            },
            DatabaseServerStoredEffectView::Delete(cf, name) => if self.has_cf(cf) {
                Ok(
                    self.with_cf(
                        cf,
                        CfView { servers: self.cfs[cf].servers.remove(name), ..self.cfs[cf] },
                    ),
                )
            } else {
                Err(DbErrorView::CfNotFound)
            },
        }
    }

    /// The store after one effect. Creating a column family that is there
    /// fails with `AlreadyExists`; dropping, reading or writing one that is
    /// not there fails with `CfNotFound`.
    pub open spec fn apply(self, effect: EffectView) -> Result<StoreView, DbErrorView> {
        match effect {
            EffectView::CreateCf(name) => if self.has_cf(name) {
                Err(DbErrorView::AlreadyExists)
            } else {
                Ok(self.with_cf(name, CfView::empty()))
            },
            EffectView::DeleteCf(name) => if self.has_cf(name) {
                Ok(StoreView { cfs: self.cfs.remove(name) })
            } else {
                Err(DbErrorView::CfNotFound)
            },
            EffectView::DatabaseServerStoredEffect(e) => self.apply_server(e),
            EffectView::DomainStoredEffect(e) => self.apply_domain(e),
            EffectView::TableStoredEffect(e) => self.apply_table(e),
            EffectView::TableValueEffect(e) => self.apply_value(e),
        }
    }

    /// The store after the effects, applied in order; the error of the
    /// first effect that fails.
    pub open spec fn apply_all(self, effects: Seq<EffectView>) -> Result<StoreView, DbErrorView>
        decreases effects.len(),
    {
        if effects.len() == 0 {
            Ok(self)
        } else {
            match self.apply(effects[0]) {
                Err(e) => Err(e),
                Ok(next) => next.apply_all(effects.skip(1)),
            }
        }
    }
}

/// Applying two lists one after the other is applying their concatenation.
pub proof fn lemma_apply_all_concat(
    store: StoreView,
    first: Seq<EffectView>,
    second: Seq<EffectView>,
)
    ensures
        store.apply_all(first + second) == (match store.apply_all(first) {
            Err(e) => Err(e),
            Ok(middle) => middle.apply_all(second),
        }),
    decreases first.len(),
{
    if first.len() == 0 {
        assert(first + second =~= second);
    } else {
        assert((first + second)[0] == first[0]);
        assert((first + second).skip(1) =~= first.skip(1) + second);
        match store.apply(first[0]) {
            Err(e) => {},
            Ok(next) => {
                lemma_apply_all_concat(next, first.skip(1), second);
            },
        }
    }
}

/// Applying a list of one effect is applying the effect.
pub proof fn lemma_apply_all_one(store: StoreView, effect: EffectView)
    ensures
        store.apply_all(seq![effect]) == store.apply(effect),
{
    assert(seq![effect].skip(1) =~= Seq::<EffectView>::empty());
    match store.apply(effect) {
        Err(e) => {},
        Ok(next) => {
            assert(next.apply_all(seq![effect].skip(1)) == Ok::<StoreView, DbErrorView>(next));
        },
    }
}

impl StoreView {
    /// The store after the effects up to the first that fails.
    pub open spec fn applied(self, effects: Seq<EffectView>) -> StoreView
        decreases effects.len(),
    {
        if effects.len() == 0 {
            self
        } else {
            match self.apply(effects[0]) {
                Err(_) => self,
                Ok(next) => next.applied(effects.skip(1)),
            }
        }
    }

    /// What the store answers when asked for a domain record.
    pub open spec fn domain_stored_answer(self, cf: Seq<char>, name: Seq<char>) -> Result<
        Option<DomainStoredView>,
        DbErrorView,
    > {
        if !self.has_cf(cf) {
            Err(DbErrorView::CfNotFound)
        } else if self.cfs[cf].domains.dom().contains(name) {
            Ok(Some(self.cfs[cf].domains[name]))
        } else {
            Ok(None)
        }
    }

    /// What the store answers when asked for a table record.
    pub open spec fn table_stored_answer(self, cf: Seq<char>, name: Seq<char>) -> Result<
        Option<TableStoredView>,
        DbErrorView,
    > {
        if !self.has_cf(cf) {
            Err(DbErrorView::CfNotFound)
        } else if self.cfs[cf].tables.dom().contains(name) {
            Ok(Some(self.cfs[cf].tables[name]))
        } else {
            Ok(None)
        }
    }

    /// What the store answers when asked for a row.
    pub open spec fn table_value_answer(self, cf: Seq<char>, key: Seq<KeyPartView>) -> Result<
        Option<TableValueView>,
        DbErrorView,
    > {
        if !self.has_cf(cf) {
            Err(DbErrorView::CfNotFound)
        } else if self.cfs[cf].values.dom().contains(key) {
            Ok(Some(self.cfs[cf].values[key]))
        } else {
            Ok(None)
        }
    }

    /// What the store answers when asked to increment a counter: the
    /// increment planned from what the counter holds.
    pub open spec fn increment_answer(self, reference: ColumnValueReferenceView) -> Result<
        (u64, Seq<EffectView>),
        DbErrorView,
    > {
        reference.increment_plan(
            self.table_value_answer(reference.column_reference, reference.id),
        )
    }
}

/// Where all effects succeed, the store after them is the store after the
/// effects up to the first that fails.
pub proof fn lemma_applied_all(store: StoreView, effects: Seq<EffectView>)
    requires
        store.apply_all(effects) is Ok,
    ensures
        store.applied(effects) == store.apply_all(effects)->Ok_0,
    decreases effects.len(),
{
    if effects.len() > 0 {
        lemma_applied_all(store.apply(effects[0])->Ok_0, effects.skip(1));
    }
}

} // verus!
