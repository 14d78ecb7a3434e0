//! Effects: the mutations that planners ask for, as plain data.

use crate::entity::{
    DatabaseServerStored, DatabaseServerStoredView, DomainStored, DomainStoredView, TableStored,
    TableStoredView,
};
use crate::key::{KeyPartView, OndoKey};
use crate::value::{TableValue, TableValueView};
use vstd::prelude::*;

verus! {

/// Writes and deletes of rows and index entries: column family, key, value.
#[derive(Debug, PartialEq, Eq)]
pub enum TableValueEffect {
    Put(String, OndoKey, TableValue),
    Delete(String, OndoKey),
}

/// Writes and deletes of table records: column family, table name, record.
#[derive(Debug, PartialEq, Eq)]
pub enum TableStoredEffect {
    Put(String, String, TableStored),
    Delete(String, String),
}

/// Writes and deletes of domain records: column family, domain name, record.
#[derive(Debug, PartialEq, Eq)]
pub enum DomainStoredEffect {
    Put(String, String, DomainStored),
    Delete(String, String),
}

/// Writes and deletes of server records: column family, server name, record.
#[derive(Debug, PartialEq, Eq)]
pub enum DatabaseServerStoredEffect {
    Put(String, String, DatabaseServerStored),
    Delete(String, String),
}

/// One mutation intent.
#[derive(Debug, PartialEq, Eq)]
pub enum Effect {
    CreateCf(String),
    DeleteCf(String),
    DatabaseServerStoredEffect(DatabaseServerStoredEffect),
    DomainStoredEffect(DomainStoredEffect),
    TableStoredEffect(TableStoredEffect),
    TableValueEffect(TableValueEffect),
}

/// Effects in the order in which they are to be applied.
pub type Effects = Vec<Effect>;

/// The mathematical value of a [`TableValueEffect`].
pub enum TableValueEffectView {
    Put(Seq<char>, Seq<KeyPartView>, TableValueView),
    Delete(Seq<char>, Seq<KeyPartView>),
}

/// The mathematical value of a [`TableStoredEffect`].
pub enum TableStoredEffectView {
    Put(Seq<char>, Seq<char>, TableStoredView),
    Delete(Seq<char>, Seq<char>),
}

/// The mathematical value of a [`DomainStoredEffect`].
pub enum DomainStoredEffectView {
    Put(Seq<char>, Seq<char>, DomainStoredView),
    Delete(Seq<char>, Seq<char>),
}

/// The mathematical value of a [`DatabaseServerStoredEffect`].
pub enum DatabaseServerStoredEffectView {
    Put(Seq<char>, Seq<char>, DatabaseServerStoredView),
    Delete(Seq<char>, Seq<char>),
}

/// The mathematical value of an [`Effect`].
pub enum EffectView {
    CreateCf(Seq<char>),
    DeleteCf(Seq<char>),
    DatabaseServerStoredEffect(DatabaseServerStoredEffectView),
    DomainStoredEffect(DomainStoredEffectView),
    TableStoredEffect(TableStoredEffectView),
    TableValueEffect(TableValueEffectView),
}

impl DeepView for TableValueEffect {
    type V = TableValueEffectView;

    open spec fn deep_view(&self) -> TableValueEffectView {
        match self {
            TableValueEffect::Put(cf, key, value) => TableValueEffectView::Put(cf@, key@, value@),
            TableValueEffect::Delete(cf, key) => TableValueEffectView::Delete(cf@, key@),
        }
    }
}

impl View for TableValueEffect {
    type V = TableValueEffectView;

    open spec fn view(&self) -> TableValueEffectView {
        self.deep_view()
    }
}

impl DeepView for TableStoredEffect {
    type V = TableStoredEffectView;

    open spec fn deep_view(&self) -> TableStoredEffectView {
        match self {
            TableStoredEffect::Put(cf, name, stored) => TableStoredEffectView::Put(
                cf@,
                name@,
                stored@,
            ),
            TableStoredEffect::Delete(cf, name) => TableStoredEffectView::Delete(cf@, name@),
        }
    }
}

impl View for TableStoredEffect {
    type V = TableStoredEffectView;

    open spec fn view(&self) -> TableStoredEffectView {
        self.deep_view()
    }
}

impl DeepView for DomainStoredEffect {
    type V = DomainStoredEffectView;

    open spec fn deep_view(&self) -> DomainStoredEffectView {
        match self {
            DomainStoredEffect::Put(cf, name, stored) => DomainStoredEffectView::Put(
                cf@,
                name@,
                stored@,
            ),
            DomainStoredEffect::Delete(cf, name) => DomainStoredEffectView::Delete(cf@, name@),
        }
    }
}

impl View for DomainStoredEffect {
    type V = DomainStoredEffectView;

    open spec fn view(&self) -> DomainStoredEffectView {
        self.deep_view()
    }
}

impl DeepView for DatabaseServerStoredEffect {
    type V = DatabaseServerStoredEffectView;

    open spec fn deep_view(&self) -> DatabaseServerStoredEffectView {
        match self {
            DatabaseServerStoredEffect::Put(cf, name, stored) => {
                DatabaseServerStoredEffectView::Put(cf@, name@, stored@)
            },
            DatabaseServerStoredEffect::Delete(cf, name) => {
                DatabaseServerStoredEffectView::Delete(cf@, name@)
            },
        }
    }
}

impl View for DatabaseServerStoredEffect {
    type V = DatabaseServerStoredEffectView;

    open spec fn view(&self) -> DatabaseServerStoredEffectView {
        self.deep_view()
    }
}

impl DeepView for Effect {
    type V = EffectView;

    open spec fn deep_view(&self) -> EffectView {
        match self {
            Effect::CreateCf(name) => EffectView::CreateCf(name@),
            Effect::DeleteCf(name) => EffectView::DeleteCf(name@),
            Effect::DatabaseServerStoredEffect(e) => EffectView::DatabaseServerStoredEffect(e@),
            Effect::DomainStoredEffect(e) => EffectView::DomainStoredEffect(e@),
            Effect::TableStoredEffect(e) => EffectView::TableStoredEffect(e@),
            Effect::TableValueEffect(e) => EffectView::TableValueEffect(e@),
        }
    }
}

impl View for Effect {
    type V = EffectView;

    open spec fn view(&self) -> EffectView {
        self.deep_view()
    }
}

impl Clone for TableValueEffect {
    fn clone(&self) -> (r: Self)
        ensures
            r@ == self@,
    {
        match self {
            TableValueEffect::Put(cf, key, value) => TableValueEffect::Put(
                cf.clone(),
                key.clone(),
                value.clone(),
            ),
            TableValueEffect::Delete(cf, key) => TableValueEffect::Delete(cf.clone(), key.clone()),
        }
    }
}

impl Clone for TableStoredEffect {
    fn clone(&self) -> (r: Self)
        ensures
            r@ == self@,
    {
        match self {
            TableStoredEffect::Put(cf, name, stored) => TableStoredEffect::Put(
                cf.clone(),
                name.clone(),
                stored.clone(),
            ),
            TableStoredEffect::Delete(cf, name) => TableStoredEffect::Delete(
                cf.clone(),
                name.clone(),
            ),
        }
    }
}

impl Clone for DomainStoredEffect {
    fn clone(&self) -> (r: Self)
        ensures
            r@ == self@,
    {
        match self {
            DomainStoredEffect::Put(cf, name, stored) => DomainStoredEffect::Put(
                cf.clone(),
                name.clone(),
                stored.clone(),
            ),
            DomainStoredEffect::Delete(cf, name) => DomainStoredEffect::Delete(
                cf.clone(),
                name.clone(),
            ),
        }
    }
}

impl Clone for DatabaseServerStoredEffect {
    fn clone(&self) -> (r: Self)
        ensures
            r@ == self@,
    {
        match self {
            DatabaseServerStoredEffect::Put(cf, name, stored) => DatabaseServerStoredEffect::Put(
                cf.clone(),
                name.clone(),
                stored.clone(),
            ),
            DatabaseServerStoredEffect::Delete(cf, name) => DatabaseServerStoredEffect::Delete(
                cf.clone(),
                name.clone(),
            ),
        }
    }
}

impl Clone for Effect {
    fn clone(&self) -> (r: Self)
        ensures
            r@ == self@,
    {
        match self {
            Effect::CreateCf(name) => Effect::CreateCf(name.clone()),
            Effect::DeleteCf(name) => Effect::DeleteCf(name.clone()),
            Effect::DatabaseServerStoredEffect(e) => Effect::DatabaseServerStoredEffect(e.clone()),
            Effect::DomainStoredEffect(e) => Effect::DomainStoredEffect(e.clone()),
            Effect::TableStoredEffect(e) => Effect::TableStoredEffect(e.clone()),
            Effect::TableValueEffect(e) => Effect::TableValueEffect(e.clone()),
        }
    }
}

/// Appends `more` to `effects`.
pub fn extend_effects(effects: &mut Effects, more: Effects)
    ensures
        final(effects).deep_view() == old(effects).deep_view() + more.deep_view(),
{
    let mut more = more;
    let ghost before = effects.deep_view();
    let ghost added = more.deep_view();
    effects.append(&mut more);
    assert(effects.deep_view() =~= before + added);
}

/// Adds `effect` at the end of `effects`.
pub fn push_effect(effects: &mut Effects, effect: Effect)
    ensures
        final(effects).deep_view() == old(effects).deep_view().push(effect@),
{
    let ghost before = effects.deep_view();
    effects.push(effect);
    assert(effects.deep_view() =~= before.push(effect@));
}

} // verus!
