//! Stored records: what the database keeps about domains, tables and
//! indexes.
//!
//! The tables of a domain and the indexes of a table are kept in the order in
//! which they were added. A name stands for its first entry.

use crate::lookup::{
    all_different, index_in, lemma_index_in, lemma_index_in_is_first, lemma_map_of_insert,
    lemma_map_of_remove, lemma_map_of_update, map_of,
};
use crate::reference::domain_reference::{DomainReference, DomainReferenceView};
use crate::reference::index_reference::{IndexReference, IndexReferenceView};
use crate::reference::table_reference::{TableReference, TableReferenceView};
use vstd::prelude::*;

verus! {

/// A domain: a namespace of tables.
#[derive(Debug, PartialEq, Eq)]
pub struct Domain {
    pub id: DomainReference,
}

/// The record of a domain: the domain and the names of its tables.
#[derive(Debug, PartialEq, Eq)]
pub struct DomainStored {
    pub domain: Domain,
    pub tables: Vec<String>,
}

/// A table.
#[derive(Debug, PartialEq, Eq)]
pub struct Table {
    pub reference: TableReference,
}

/// A secondary index: the dotted paths of the fields it orders rows by.
#[derive(Debug, PartialEq, Eq)]
pub struct Index {
    pub reference: IndexReference,
    pub fields: Vec<String>,
}

/// The record of a table: the table and its indexes by name.
#[derive(Debug, PartialEq, Eq)]
pub struct TableStored {
    pub table: Table,
    pub indexes: Vec<(String, Index)>,
}

/// The record of the server: the names of its domains.
#[derive(Debug, PartialEq, Eq)]
pub struct DatabaseServerStored {
    pub domains: Vec<String>,
}

/// The mathematical value of a [`Domain`].
pub struct DomainView {
    pub id: DomainReferenceView,
}

/// The mathematical value of a [`DomainStored`].
pub struct DomainStoredView {
    pub domain: DomainView,
    pub tables: Seq<Seq<char>>,
}

/// The mathematical value of a [`Table`].
pub struct TableView {
    pub reference: TableReferenceView,
}

/// The mathematical value of an [`Index`].
pub struct IndexView {
    pub reference: IndexReferenceView,
    pub fields: Seq<Seq<char>>,
}

/// The mathematical value of a [`TableStored`].
pub struct TableStoredView {
    pub table: TableView,
    pub indexes: Seq<(Seq<char>, IndexView)>,
}

/// The mathematical value of a [`DatabaseServerStored`].
pub struct DatabaseServerStoredView {
    pub domains: Seq<Seq<char>>,
}

/// The names under which the entries of an index list stand.
pub open spec fn entry_names(entries: Seq<(Seq<char>, IndexView)>) -> Seq<Seq<char>> {
    Seq::new(entries.len(), |i: int| entries[i].0)
}

/// The indexes of the entries of an index list.
pub open spec fn entry_indexes(entries: Seq<(Seq<char>, IndexView)>) -> Seq<IndexView> {
    Seq::new(entries.len(), |i: int| entries[i].1)
}

/// `names` with `name` added at the end, unless it is there already.
pub open spec fn names_with(names: Seq<Seq<char>>, name: Seq<char>) -> Seq<Seq<char>> {
    if index_in(names, name) < names.len() {
        names
    } else {
        names.push(name)
    }
}

/// `names` without the first occurrence of `name`.
pub open spec fn names_without(names: Seq<Seq<char>>, name: Seq<char>) -> Seq<Seq<char>> {
    let at = index_in(names, name);
    if at < names.len() {
        names.remove(at as int)
    } else {
        names
    }
}

impl TableStoredView {
    /// The index that stands under `name`.
    pub open spec fn index(self, name: Seq<char>) -> Option<IndexView> {
        let at = index_in(entry_names(self.indexes), name);
        if at < self.indexes.len() {
            Some(self.indexes[at as int].1)
        } else {
            None
        }
    }

    /// This record with `index` standing under `name`: in the place of the
    /// entry of that name, or at the end if there is none.
    pub open spec fn with_index(self, name: Seq<char>, index: IndexView) -> TableStoredView {
        let at = index_in(entry_names(self.indexes), name);
        if at < self.indexes.len() {
            TableStoredView { indexes: self.indexes.update(at as int, (name, index)), ..self }
        } else {
            TableStoredView { indexes: self.indexes.push((name, index)), ..self }
        }
    }

    /// This record without the entry that stands under `name`.
    pub open spec fn without_index(self, name: Seq<char>) -> TableStoredView {
        let at = index_in(entry_names(self.indexes), name);
        if at < self.indexes.len() {
            TableStoredView { indexes: self.indexes.remove(at as int), ..self }
        } else {
            self
        }
    }

    /// This record with its table replaced.
    pub open spec fn with_table(self, table: TableView) -> TableStoredView {
        TableStoredView { table, ..self }
    }

    /// No index name occurs twice.
    pub open spec fn wf(self) -> bool {
        all_different(entry_names(self.indexes))
    }

    /// The indexes by name.
    pub open spec fn index_map(self) -> Map<Seq<char>, IndexView> {
        map_of(entry_names(self.indexes), entry_indexes(self.indexes))
    }
}

impl DomainStoredView {
    /// This record with the table `name` added.
    pub open spec fn with_table(self, name: Seq<char>) -> DomainStoredView {
        DomainStoredView { tables: names_with(self.tables, name), ..self }
    }

    /// This record without the table `name`.
    pub open spec fn without_table(self, name: Seq<char>) -> DomainStoredView {
        DomainStoredView { tables: names_without(self.tables, name), ..self }
    }

    /// This record with its domain replaced.
    pub open spec fn with_domain(self, domain: DomainView) -> DomainStoredView {
        DomainStoredView { domain, ..self }
    }

    /// No table name occurs twice.
    pub open spec fn wf(self) -> bool {
        all_different(self.tables)
    }
}

impl DeepView for Domain {
    type V = DomainView;

    open spec fn deep_view(&self) -> DomainView {
        DomainView { id: self.id@ }
    }
}

impl View for Domain {
    type V = DomainView;

    open spec fn view(&self) -> DomainView {
        self.deep_view()
    }
}

impl DeepView for DomainStored {
    type V = DomainStoredView;

    open spec fn deep_view(&self) -> DomainStoredView {
        DomainStoredView { domain: self.domain@, tables: self.tables.deep_view() }
    }
}

impl View for DomainStored {
    type V = DomainStoredView;

    open spec fn view(&self) -> DomainStoredView {
        self.deep_view()
    }
}

impl DeepView for Table {
    type V = TableView;

    open spec fn deep_view(&self) -> TableView {
        TableView { reference: self.reference@ }
    }
}

impl View for Table {
    type V = TableView;

    open spec fn view(&self) -> TableView {
        self.deep_view()
    }
}

impl DeepView for Index {
    type V = IndexView;

    open spec fn deep_view(&self) -> IndexView {
        IndexView { reference: self.reference@, fields: self.fields.deep_view() }
    }
}

impl View for Index {
    type V = IndexView;

    open spec fn view(&self) -> IndexView {
        self.deep_view()
    }
}

impl DeepView for TableStored {
    type V = TableStoredView;

    open spec fn deep_view(&self) -> TableStoredView {
        TableStoredView { table: self.table@, indexes: self.indexes.deep_view() }
    }
}

impl View for TableStored {
    type V = TableStoredView;

    open spec fn view(&self) -> TableStoredView {
        self.deep_view()
    }
}

impl DeepView for DatabaseServerStored {
    type V = DatabaseServerStoredView;

    open spec fn deep_view(&self) -> DatabaseServerStoredView {
        DatabaseServerStoredView { domains: self.domains.deep_view() }
    }
}

impl View for DatabaseServerStored {
    type V = DatabaseServerStoredView;

    open spec fn view(&self) -> DatabaseServerStoredView {
        self.deep_view()
    }
}

/// The index under a name is what the indexes by name hold for it.
pub proof fn lemma_index_is_lookup(stored: TableStoredView, name: Seq<char>)
    ensures
        stored.index(name) == (if stored.index_map().dom().contains(name) {
            Some(stored.index_map()[name])
        } else {
            None
        }),
{
}

/// Putting an index under a name is an insertion into the indexes by
/// name, and keeps the names different.
pub proof fn lemma_with_index_is_insert(stored: TableStoredView, name: Seq<char>, index: IndexView)
    requires
        stored.wf(),
    ensures
        stored.with_index(name, index).wf(),
        stored.with_index(name, index).index_map() == stored.index_map().insert(name, index),
{
    let names = entry_names(stored.indexes);
    let values = entry_indexes(stored.indexes);
    let after = stored.with_index(name, index);
    let at = index_in(names, name) as int;
    lemma_index_in_is_first(names, name);
    if at < stored.indexes.len() {
        assert(entry_names(after.indexes) =~= names);
        assert(entry_indexes(after.indexes) =~= values.update(at, index));
        lemma_map_of_update(names, values, at, index);
    } else {
        assert(entry_names(after.indexes) =~= names.insert(at, name));
        assert(entry_indexes(after.indexes) =~= values.insert(at, index));
        lemma_map_of_insert(names, values, at, name, index);
    }
}

/// Taking the index under a name away is a removal from the indexes by
/// name, and keeps the names different.
pub proof fn lemma_without_index_is_remove(stored: TableStoredView, name: Seq<char>)
    requires
        stored.wf(),
    ensures
        stored.without_index(name).wf(),
        stored.without_index(name).index_map() == stored.index_map().remove(name),
{
    let names = entry_names(stored.indexes);
    let values = entry_indexes(stored.indexes);
    let after = stored.without_index(name);
    let at = index_in(names, name) as int;
    lemma_index_in_is_first(names, name);
    if at < stored.indexes.len() {
        assert(entry_names(after.indexes) =~= names.remove(at));
        assert(entry_indexes(after.indexes) =~= values.remove(at));
        lemma_map_of_remove(names, values, at);
    } else {
        assert(after.index_map() =~= stored.index_map().remove(name));
    }
}

/// Adding a table adds its name to the names of the domain's tables, and
/// keeps the names different.
pub proof fn lemma_with_table_adds(stored: DomainStoredView, name: Seq<char>)
    requires
        stored.wf(),
    ensures
        stored.with_table(name).wf(),
        forall|other: Seq<char>|
            stored.with_table(name).tables.contains(other) <==> stored.tables.contains(other)
                || other == name,
{
    let after = stored.with_table(name).tables;
    lemma_index_in_is_first(stored.tables, name);
    let at = index_in(stored.tables, name) as int;
    assert forall|other: Seq<char>|
        after.contains(other) <==> stored.tables.contains(other) || other == name by {
        if stored.tables.contains(other) {
            let i = choose|i: int| 0 <= i < stored.tables.len() && stored.tables[i] == other;
            assert(after[i] == other);
        }
        if other == name {
            if at < stored.tables.len() {
                assert(after[at] == name);
            } else {
                assert(after[stored.tables.len() as int] == name);
            }
        }
        if after.contains(other) {
            let i = choose|i: int| 0 <= i < after.len() && after[i] == other;
            if i < stored.tables.len() {
                assert(stored.tables[i] == other);
            }
        }
    }
}

/// Removing a table takes its name from the names of the domain's tables,
/// and keeps the names different.
pub proof fn lemma_without_table_removes(stored: DomainStoredView, name: Seq<char>)
    requires
        stored.wf(),
    ensures
        stored.without_table(name).wf(),
        forall|other: Seq<char>|
            stored.without_table(name).tables.contains(other) <==> stored.tables.contains(other)
                && other != name,
{
    let before = stored.tables;
    let after = stored.without_table(name).tables;
    lemma_index_in_is_first(before, name);
    let at = index_in(before, name) as int;
    if at < before.len() {
        assert forall|i: int, j: int| 0 <= i < j < after.len() implies after[i] != after[j] by {
            let a = if i < at {
                i
            } else {
                i + 1
            };
            let b = if j < at {
                j
            } else {
                j + 1
            };
            assert(after[i] == before[a] && after[j] == before[b]);
        }
    }
    assert forall|other: Seq<char>|
        after.contains(other) <==> before.contains(other) && other != name by {
        if after.contains(other) {
            let i = choose|i: int| 0 <= i < after.len() && after[i] == other;
            if at < before.len() {
                let a = if i < at {
                    i
                } else {
                    i + 1
                };
                assert(before[a] == other);
                assert(before[a] != before[at]);
            } else {
                assert(before[i] == other);
            }
        }
        if before.contains(other) && other != name {
            let i = choose|i: int| 0 <= i < before.len() && before[i] == other;
            if at < before.len() {
                let a = if i < at {
                    i
                } else {
                    i - 1
                };
                assert(after[a] == other);
            } else {
                assert(after[i] == other);
            }
        }
    }
}

/// A copy of a list of names.
pub fn clone_names(names: &Vec<String>) -> (r: Vec<String>)
    ensures
        r.deep_view() == names.deep_view(),
{
    let mut out: Vec<String> = Vec::new();
    let mut i: usize = 0;
    while i < names.len()
        invariant
            i <= names.len(),
            out.len() == i,
            forall|j: int| 0 <= j < i ==> out@[j]@ == names@[j]@,
        decreases names.len() - i,
    {
        out.push(names[i].clone());
        i += 1;
    }
    assert(out.deep_view() =~= names.deep_view());
    out
}

/// The position of the first occurrence of `name` in `names`, or their number
/// if it does not occur.
pub fn find_name(names: &Vec<String>, name: &str) -> (r: usize)
    ensures
        r == index_in(names.deep_view(), name@),
        r <= names.len(),
{
    let wanted = String::from_str(name);
    let mut i: usize = 0;
    while i < names.len()
        invariant
            i <= names.len(),
            wanted@ == name@,
            forall|k: int| 0 <= k < i ==> names@[k]@ != name@,
        decreases names.len() - i,
    {
        if names[i] == wanted {
            proof {
                lemma_index_in(names.deep_view(), name@, i as int);
            }
            return i;
        }
        i += 1;
    }
    proof {
        lemma_index_in(names.deep_view(), name@, i as int);
    }
    i
}

/// The position of the first entry called `name`, or the number of entries
/// if there is none.
fn find_entry(entries: &Vec<(String, Index)>, name: &str) -> (r: usize)
    ensures
        r == index_in(entry_names(entries.deep_view()), name@),
        r <= entries.len(),
{
    let wanted = String::from_str(name);
    let mut i: usize = 0;
    while i < entries.len()
        invariant
            i <= entries.len(),
            wanted@ == name@,
            forall|k: int| 0 <= k < i ==> entries@[k].0@ != name@,
        decreases entries.len() - i,
    {
        if entries[i].0 == wanted {
            proof {
                lemma_index_in(entry_names(entries.deep_view()), name@, i as int);
            }
            return i;
        }
        i += 1;
    }
    proof {
        lemma_index_in(entry_names(entries.deep_view()), name@, i as int);
    }
    i
}

impl Clone for Domain {
    fn clone(&self) -> (r: Self)
        ensures
            r@ == self@,
    {
        Domain { id: self.id.clone() }
    }
}

impl Clone for DomainStored {
    fn clone(&self) -> (r: Self)
        ensures
            r@ == self@,
    {
        DomainStored { domain: self.domain.clone(), tables: clone_names(&self.tables) }
    }
}

impl Clone for Table {
    fn clone(&self) -> (r: Self)
        ensures
            r@ == self@,
    {
        Table { reference: self.reference.clone() }
    }
}

impl Clone for Index {
    fn clone(&self) -> (r: Self)
        ensures
            r@ == self@,
    {
        Index { reference: self.reference.clone(), fields: clone_names(&self.fields) }
    }
}

impl Clone for TableStored {
    fn clone(&self) -> (r: Self)
        ensures
            r@ == self@,
    {
        let mut indexes: Vec<(String, Index)> = Vec::new();
        let mut i: usize = 0;
        while i < self.indexes.len()
            invariant
                i <= self.indexes.len(),
                indexes.len() == i,
                forall|j: int|
                    0 <= j < i ==> indexes@[j].0@ == self.indexes@[j].0@ && indexes@[j].1@
                        == self.indexes@[j].1@,
            decreases self.indexes.len() - i,
        {
            indexes.push((self.indexes[i].0.clone(), self.indexes[i].1.clone()));
            i += 1;
        }
        assert(indexes.deep_view() =~= self.indexes.deep_view());
        TableStored { table: self.table.clone(), indexes }
    }
}

impl Clone for DatabaseServerStored {
    fn clone(&self) -> (r: Self)
        ensures
            r@ == self@,
    {
        DatabaseServerStored { domains: clone_names(&self.domains) }
    }
}

impl DomainStored {
    /// Adds the table `name`, unless it is there already.
    pub fn add_table(&mut self, name: &str)
        ensures
            final(self)@ == old(self)@.with_table(name@),
    {
        let at = find_name(&self.tables, name);
        if at >= self.tables.len() {
            let ghost before = self.tables.deep_view();
            self.tables.push(String::from_str(name));
            assert(self.tables.deep_view() =~= before.push(name@));
        }
    }

    /// Removes the table `name`, if it is there.
    pub fn remove_table(&mut self, name: &str)
        ensures
            final(self)@ == old(self)@.without_table(name@),
    {
        let at = find_name(&self.tables, name);
        if at < self.tables.len() {
            let ghost before = self.tables.deep_view();
            self.tables.remove(at);
            assert(self.tables.deep_view() =~= before.remove(at as int));
        }
    }
}

impl TableStored {
    /// The index that stands under `name`.
    pub fn get_index(&self, name: &str) -> (r: Option<&Index>)
        ensures
            r.deep_view() == self@.index(name@),
    {
        let at = find_entry(&self.indexes, name);
        if at < self.indexes.len() {
            Some(&self.indexes[at].1)
        } else {
            None
        }
    }

    /// Puts `index` under `name` and says whether an entry of that name was
    /// there before: if so the entry is replaced where it stands, else the
    /// new one goes to the end.
    pub fn insert_index(&mut self, name: &str, index: Index) -> (was_there: bool)
        ensures
            final(self)@ == old(self)@.with_index(name@, index@),
            was_there == old(self)@.index(name@).is_some(),
    {
        let at = find_entry(&self.indexes, name);
        let ghost before = self.indexes.deep_view();
        if at < self.indexes.len() {
            self.indexes[at] = (String::from_str(name), index);
            assert(self.indexes.deep_view() =~= before.update(at as int, (name@, index@)));
            true
        } else {
            self.indexes.push((String::from_str(name), index));
            assert(self.indexes.deep_view() =~= before.push((name@, index@)));
            false
        }
    }

    /// Removes the entry that stands under `name`, if there is one.
    pub fn remove_index(&mut self, name: &str)
        ensures
            final(self)@ == old(self)@.without_index(name@),
    {
        let at = find_entry(&self.indexes, name);
        if at < self.indexes.len() {
            let ghost before = self.indexes.deep_view();
            self.indexes.remove(at);
            assert(self.indexes.deep_view() =~= before.remove(at as int));
        }
    }
}

} // verus!
