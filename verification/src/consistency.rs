//! Index consistency: what the effects of row operations do to a table and
//! its indexes.
//!
//! An index is consistent with a table if its entries are exactly the
//! entries of the table's rows: every row that has an entry is entered
//! under its key with its primary key as payload, and every entry belongs
//! to a row.

use crate::entity::{IndexView, TableStoredView};
use crate::error::DbErrorView;
use crate::indexing::{deindex_effects, field_parts, index_effects, index_key, primary_key};
use crate::key::{value_of_key, KeyPartView};
use crate::lookup::{lemma_index_in, lemma_index_in_is_first};
use crate::reference::cf_name_maker::CfNameMaker;
use crate::reference::effect::{EffectView, TableValueEffectView};
use crate::reference::table_reference::{Plan, TableReferenceView, TableStoredAnswer};
use crate::reference::table_value_reference::{
    all_deindex_effects, all_index_effects, CreateTableValueReferenceView, IncrementAnswer,
    TableValueReferenceView,
};
use crate::store::{
    lemma_applied_all, lemma_apply_all_concat, lemma_apply_all_one, CfView, Rows, StoreView,
};
use crate::value::{id_field, member_names, member_position, Number, TableValueView};
use vstd::prelude::*;

verus! {

/// The column family that holds the entries of `index`.
pub open spec fn index_cf(index: IndexView) -> Seq<char> {
    CfNameMaker::spec_for_index_values(index.reference)
}

/// The row under `key`, if there is one.
pub open spec fn row_at(rows: Rows, key: Seq<KeyPartView>) -> Option<TableValueView> {
    if rows.dom().contains(key) {
        Some(rows[key])
    } else {
        None
    }
}

/// Every row carries the key under which it is stored as its `_id`.
pub open spec fn rows_carry_keys(rows: Rows) -> bool {
    forall|key: Seq<KeyPartView>| #[trigger]
        rows.dom().contains(key) ==> primary_key(rows[key]) == Some(key)
}

/// The entries are exactly those of the rows: each row that has an entry
/// in the index is entered under its index key with its primary key as
/// payload, and each entry is the entry of a row.
pub open spec fn index_consistent(rows: Rows, entries: Rows, index: IndexView) -> bool {
    &&& forall|key: Seq<KeyPartView>| #[trigger]
        rows.dom().contains(key) && index_key(rows[key], index) is Some ==> {
            &&& entries.dom().contains(index_key(rows[key], index)->Some_0)
            &&& entries[index_key(rows[key], index)->Some_0] == value_of_key(
                primary_key(rows[key])->Some_0,
            )
        }
    &&& forall|entry: Seq<KeyPartView>| #[trigger]
        entries.dom().contains(entry) ==> exists|key: Seq<KeyPartView>| #[trigger]
            rows.dom().contains(key) && index_key(rows[key], index) == Some(entry)
                && entries[entry] == value_of_key(primary_key(rows[key])->Some_0)
}

/// The entries without the entry of `row`.
pub open spec fn without_entry(
    entries: Rows,
    row: Option<TableValueView>,
    index: IndexView,
) -> Rows {
    match row {
        Some(value) => match index_key(value, index) {
            Some(entry) => entries.remove(entry),
            None => entries,
        },
        None => entries,
    }
}

/// The entries with the entry of `row`.
pub open spec fn with_entry(entries: Rows, row: TableValueView, index: IndexView) -> Rows {
    match index_key(row, index) {
        Some(entry) => entries.insert(entry, value_of_key(primary_key(row)->Some_0)),
        None => entries,
    }
}

/// The key of an entry ends in the primary key of its row.
pub proof fn lemma_index_key_ends_in_primary_key(row: TableValueView, index: IndexView)
    requires
        index_key(row, index) is Some,
    ensures
        primary_key(row) is Some,
        index_key(row, index)->Some_0.len() >= index.fields.len(),
        index_key(row, index)->Some_0.skip(index.fields.len() as int) == primary_key(row)->Some_0,
{
    let parts = field_parts(row, index.fields)->Some_0;
    let id = primary_key(row)->Some_0;
    assert((parts + id).skip(index.fields.len() as int) =~= id);
}

/// Rows with different primary keys have different entries.
pub proof fn lemma_index_key_injective(a: TableValueView, b: TableValueView, index: IndexView)
    requires
        index_key(a, index) is Some,
        index_key(a, index) == index_key(b, index),
    ensures
        primary_key(a) == primary_key(b),
{
    lemma_index_key_ends_in_primary_key(a, index);
    lemma_index_key_ends_in_primary_key(b, index);
}

/// Writing a row, taking the entry of the row that was there out of the
/// index and entering the new row keeps the index consistent.
pub proof fn lemma_entries_after_put(
    rows: Rows,
    entries: Rows,
    index: IndexView,
    id: Seq<KeyPartView>,
    value: TableValueView,
)
    requires
        rows_carry_keys(rows),
        index_consistent(rows, entries, index),
        primary_key(value) == Some(id),
    ensures
        rows_carry_keys(rows.insert(id, value)),
        index_consistent(
            rows.insert(id, value),
            with_entry(without_entry(entries, row_at(rows, id), index), value, index),
            index,
        ),
{
    let new_rows = rows.insert(id, value);
    let cleared = without_entry(entries, row_at(rows, id), index);
    let new_entries = with_entry(cleared, value, index);
    assert forall|key: Seq<KeyPartView>| #[trigger]
        new_rows.dom().contains(key) && index_key(new_rows[key], index) is Some implies {
        &&& new_entries.dom().contains(index_key(new_rows[key], index)->Some_0)
        &&& new_entries[index_key(new_rows[key], index)->Some_0] == value_of_key(
            primary_key(new_rows[key])->Some_0,
        )
    } by {
        if key != id {
            assert(rows.dom().contains(key));
            if rows.dom().contains(id) && index_key(rows[id], index) is Some {
                if index_key(rows[id], index) == index_key(rows[key], index) {
                    lemma_index_key_injective(rows[id], rows[key], index);
                }
            }
            if index_key(value, index) == index_key(rows[key], index) {
                lemma_index_key_injective(value, rows[key], index);
            }
        }
    }
    assert forall|entry: Seq<KeyPartView>| #[trigger]
        new_entries.dom().contains(entry) implies exists|key: Seq<KeyPartView>| #[trigger]
        new_rows.dom().contains(key) && index_key(new_rows[key], index) == Some(entry)
            && new_entries[entry] == value_of_key(primary_key(new_rows[key])->Some_0) by {
        if index_key(value, index) == Some(entry) {
            assert(new_rows.dom().contains(id));
        } else {
            assert(entries.dom().contains(entry));
            let key = choose|key: Seq<KeyPartView>| #[trigger]
                rows.dom().contains(key) && index_key(rows[key], index) == Some(entry)
                    && entries[entry] == value_of_key(primary_key(rows[key])->Some_0);
            assert(key != id);
            assert(new_rows.dom().contains(key));
        }
    }
}

/// Deleting a row and taking its entry out of the index keeps the index
/// consistent.
pub proof fn lemma_entries_after_delete(
    rows: Rows,
    entries: Rows,
    index: IndexView,
    id: Seq<KeyPartView>,
)
    requires
        rows_carry_keys(rows),
        index_consistent(rows, entries, index),
    ensures
        rows_carry_keys(rows.remove(id)),
        index_consistent(rows.remove(id), without_entry(entries, row_at(rows, id), index), index),
{
    let new_rows = rows.remove(id);
    let new_entries = without_entry(entries, row_at(rows, id), index);
    assert forall|key: Seq<KeyPartView>| #[trigger]
        new_rows.dom().contains(key) && index_key(new_rows[key], index) is Some implies {
        &&& new_entries.dom().contains(index_key(new_rows[key], index)->Some_0)
        &&& new_entries[index_key(new_rows[key], index)->Some_0] == value_of_key(
            primary_key(new_rows[key])->Some_0,
        )
    } by {
        assert(rows.dom().contains(key));
        if rows.dom().contains(id) && index_key(rows[id], index) is Some {
            if index_key(rows[id], index) == index_key(rows[key], index) {
                lemma_index_key_injective(rows[id], rows[key], index);
            }
        }
    }
    assert forall|entry: Seq<KeyPartView>| #[trigger]
        new_entries.dom().contains(entry) implies exists|key: Seq<KeyPartView>| #[trigger]
        new_rows.dom().contains(key) && index_key(new_rows[key], index) == Some(entry)
            && new_entries[entry] == value_of_key(primary_key(new_rows[key])->Some_0) by {
        assert(entries.dom().contains(entry));
        let key = choose|key: Seq<KeyPartView>| #[trigger]
            rows.dom().contains(key) && index_key(rows[key], index) == Some(entry)
                && entries[entry] == value_of_key(primary_key(rows[key])->Some_0);
        assert(key != id);
        assert(new_rows.dom().contains(key));
    }
}

/// The column families of the table's rows and of its indexes are all
/// different.
pub open spec fn cfs_apart(table: TableReferenceView, stored: TableStoredView) -> bool {
    &&& forall|j: int|
        0 <= j < stored.indexes.len() ==> index_cf(#[trigger] stored.indexes[j].1)
            != table.values_cf()
    &&& forall|i: int, j: int|
        0 <= i < j < stored.indexes.len() ==> index_cf(#[trigger] stored.indexes[i].1) != index_cf(
            #[trigger] stored.indexes[j].1,
        )
}

/// The table and its indexes are there, every row carries its key, and
/// every index is consistent with the rows.
pub open spec fn table_consistent(
    store: StoreView,
    table: TableReferenceView,
    stored: TableStoredView,
) -> bool {
    &&& cfs_apart(table, stored)
    &&& store.has_cf(table.values_cf())
    &&& rows_carry_keys(store.rows(table.values_cf()))
    &&& forall|j: int|
        0 <= j < stored.indexes.len() ==> {
            &&& store.has_cf(index_cf(#[trigger] stored.indexes[j].1))
            &&& index_consistent(
                store.rows(table.values_cf()),
                store.rows(index_cf(stored.indexes[j].1)),
                stored.indexes[j].1,
            )
        }
}

/// The two stores have the same column families, and these hold the same
/// records; they may differ in rows and entries.
pub open spec fn same_records(a: StoreView, b: StoreView) -> bool {
    &&& a.cfs.dom() == b.cfs.dom()
    &&& forall|cf: Seq<char>| #[trigger]
        a.has_cf(cf) ==> {
            &&& a.cfs[cf].tables == b.cfs[cf].tables
            &&& a.cfs[cf].domains == b.cfs[cf].domains
            &&& a.cfs[cf].servers == b.cfs[cf].servers
        }
}

/// The store with the entries of each of the first `count` indexes
/// changed by `change`.
pub open spec fn reindexed(
    store: StoreView,
    indexes: Seq<(Seq<char>, IndexView)>,
    count: nat,
    change: spec_fn(Rows, IndexView) -> Rows,
) -> StoreView
    decreases count,
{
    if count == 0 {
        store
    } else {
        let before = reindexed(store, indexes, (count - 1) as nat, change);
        let index = indexes[count - 1].1;
        before.with_cf(
            index_cf(index),
            CfView {
                values: change(before.rows(index_cf(index)), index),
                ..before.cfs[index_cf(index)]
            },
        )
    }
}

/// What `reindexed` does, column family by column family: an index among
/// the first `count` has its entries changed, everything else stays.
pub proof fn lemma_reindexed(
    store: StoreView,
    indexes: Seq<(Seq<char>, IndexView)>,
    count: nat,
    change: spec_fn(Rows, IndexView) -> Rows,
)
    requires
        count <= indexes.len(),
        forall|j: int| 0 <= j < count ==> store.has_cf(index_cf(#[trigger] indexes[j].1)),
        forall|i: int, j: int|
            0 <= i < j < count ==> index_cf(#[trigger] indexes[i].1) != index_cf(
                #[trigger] indexes[j].1,
            ),
    ensures
        reindexed(store, indexes, count, change).cfs.dom() == store.cfs.dom(),
        same_records(reindexed(store, indexes, count, change), store),
        forall|j: int|
            0 <= j < count ==> reindexed(store, indexes, count, change).cfs[index_cf(
                #[trigger] indexes[j].1,
            )] == (CfView {
                values: change(store.rows(index_cf(indexes[j].1)), indexes[j].1),
                ..store.cfs[index_cf(indexes[j].1)]
            }),
        forall|cf: Seq<char>|
            (forall|j: int| 0 <= j < count ==> index_cf(#[trigger] indexes[j].1) != cf)
                ==> #[trigger] reindexed(store, indexes, count, change).cfs[cf] == store.cfs[cf],
    decreases count,
{
    if count > 0 {
        let m = (count - 1) as nat;
        lemma_reindexed(store, indexes, m, change);
        let before = reindexed(store, indexes, m, change);
        let after = reindexed(store, indexes, count, change);
        let last = index_cf(indexes[m as int].1);
        assert(after.cfs.dom() =~= store.cfs.dom());
        assert(before.cfs[last] == store.cfs[last]) by {
            assert forall|j: int| 0 <= j < m implies index_cf(#[trigger] indexes[j].1) != last by {
                assert(index_cf(indexes[j].1) != index_cf(indexes[m as int].1));
            }
        }
        assert forall|j: int| 0 <= j < count implies after.cfs[index_cf(#[trigger] indexes[j].1)]
            == (CfView {
            values: change(store.rows(index_cf(indexes[j].1)), indexes[j].1),
            ..store.cfs[index_cf(indexes[j].1)]
        }) by {
            if j < m {
                assert(index_cf(indexes[j].1) != index_cf(indexes[m as int].1));
            }
        }
        assert forall|cf: Seq<char>|
            (forall|j: int| 0 <= j < count ==> index_cf(#[trigger] indexes[j].1) != cf)
            implies #[trigger] after.cfs[cf] == store.cfs[cf] by {
            assert(index_cf(indexes[m as int].1) != cf);
            assert forall|j: int| 0 <= j < m implies index_cf(#[trigger] indexes[j].1) != cf by {}
        }
    }
}

/// The change that takes the entry of `row` out of an index.
pub open spec fn taking_out(row: TableValueView) -> spec_fn(Rows, IndexView) -> Rows {
    |entries: Rows, index: IndexView| without_entry(entries, Some(row), index)
}

/// The change that enters `row` into an index.
pub open spec fn entering(row: TableValueView) -> spec_fn(Rows, IndexView) -> Rows {
    |entries: Rows, index: IndexView| with_entry(entries, row, index)
}

/// Applied to a store that has the indexes, the effects that take a row
/// out of them succeed and change the entries of each index alone.
pub proof fn lemma_apply_deindex(
    store: StoreView,
    row: TableValueView,
    indexes: Seq<(Seq<char>, IndexView)>,
    count: nat,
)
    requires
        count <= indexes.len(),
        forall|j: int| 0 <= j < count ==> store.has_cf(index_cf(#[trigger] indexes[j].1)),
    ensures
        store.apply_all(all_deindex_effects(row, indexes, count)) == Ok::<StoreView, DbErrorView>(
            reindexed(store, indexes, count, taking_out(row)),
        ),
        reindexed(store, indexes, count, taking_out(row)).cfs.dom() == store.cfs.dom(),
    decreases count,
{
    if count > 0 {
        let m = (count - 1) as nat;
        lemma_apply_deindex(store, row, indexes, m);
        let before = reindexed(store, indexes, m, taking_out(row));
        let after = reindexed(store, indexes, count, taking_out(row));
        let index = indexes[m as int].1;
        let cf = index_cf(index);
        assert(before.has_cf(cf));
        lemma_apply_all_concat(
            store,
            all_deindex_effects(row, indexes, m),
            deindex_effects(row, index),
        );
        match index_key(row, index) {
            Some(entry) => {
                lemma_apply_all_one(before, deindex_effects(row, index)[0]);
                assert(deindex_effects(row, index) =~= seq![deindex_effects(row, index)[0]]);
            },
            None => {
                assert(after.cfs =~= before.cfs);
                assert(deindex_effects(row, index) =~= Seq::empty());
            },
        }
        assert(after.cfs.dom() =~= store.cfs.dom());
    }
}

/// Applied to a store that has the indexes, the effects that enter a row
/// into them succeed and change the entries of each index alone.
pub proof fn lemma_apply_index(
    store: StoreView,
    row: TableValueView,
    indexes: Seq<(Seq<char>, IndexView)>,
    count: nat,
)
    requires
        count <= indexes.len(),
        forall|j: int| 0 <= j < count ==> store.has_cf(index_cf(#[trigger] indexes[j].1)),
    ensures
        store.apply_all(all_index_effects(row, indexes, count)) == Ok::<StoreView, DbErrorView>(
            reindexed(store, indexes, count, entering(row)),
        ),
        reindexed(store, indexes, count, entering(row)).cfs.dom() == store.cfs.dom(),
    decreases count,
{
    if count > 0 {
        let m = (count - 1) as nat;
        lemma_apply_index(store, row, indexes, m);
        let before = reindexed(store, indexes, m, entering(row));
        let after = reindexed(store, indexes, count, entering(row));
        let index = indexes[m as int].1;
        let cf = index_cf(index);
        assert(before.has_cf(cf));
        lemma_apply_all_concat(
            store,
            all_index_effects(row, indexes, m),
            index_effects(row, index),
        );
        match index_key(row, index) {
            Some(entry) => {
                lemma_apply_all_one(before, index_effects(row, index)[0]);
                assert(index_effects(row, index) =~= seq![index_effects(row, index)[0]]);
            },
            None => {
                assert(after.cfs =~= before.cfs);
                assert(index_effects(row, index) =~= Seq::empty());
            },
        }
        assert(after.cfs.dom() =~= store.cfs.dom());
    }
}

/// The store after a write to the rows of the table, with the entries of
/// each index changed first by `first`, then by `second`.
proof fn lemma_rows_then_indexes(
    store: StoreView,
    table: TableReferenceView,
    stored: TableStoredView,
    start: StoreView,
    first: spec_fn(Rows, IndexView) -> Rows,
    second: spec_fn(Rows, IndexView) -> Rows,
)
    requires
        cfs_apart(table, stored),
        store.has_cf(table.values_cf()),
        forall|j: int|
            0 <= j < stored.indexes.len() ==> store.has_cf(
                index_cf(#[trigger] stored.indexes[j].1),
            ),
        start.cfs.dom() == store.cfs.dom(),
        forall|cf: Seq<char>| cf != table.values_cf() ==> #[trigger] start.cfs[cf] == store.cfs[cf],
    ensures
        ({
            let n = stored.indexes.len();
            let middle = reindexed(start, stored.indexes, n, first);
            let end = reindexed(middle, stored.indexes, n, second);
            &&& end.cfs.dom() == store.cfs.dom()
            &&& same_records(end, start)
            &&& end.rows(table.values_cf()) == start.rows(table.values_cf())
            &&& forall|j: int|
                0 <= j < n ==> end.rows(index_cf(#[trigger] stored.indexes[j].1)) == second(
                    first(store.rows(index_cf(stored.indexes[j].1)), stored.indexes[j].1),
                    stored.indexes[j].1,
                )
        }),
{
    let n = stored.indexes.len();
    let middle = reindexed(start, stored.indexes, n, first);
    let end = reindexed(middle, stored.indexes, n, second);
    lemma_reindexed(start, stored.indexes, n, first);
    lemma_reindexed(middle, stored.indexes, n, second);
    assert forall|j: int| 0 <= j < n implies end.rows(index_cf(#[trigger] stored.indexes[j].1))
        == second(
        first(store.rows(index_cf(stored.indexes[j].1)), stored.indexes[j].1),
        stored.indexes[j].1,
    ) by {
        let cf = index_cf(stored.indexes[j].1);
        assert(cf != table.values_cf());
        assert(start.cfs[cf] == store.cfs[cf]);
    }
    assert(middle.cfs[table.values_cf()] == start.cfs[table.values_cf()]);
    assert(end.cfs[table.values_cf()] == middle.cfs[table.values_cf()]);
}

/// The change that leaves the entries as they are.
pub open spec fn leaving() -> spec_fn(Rows, IndexView) -> Rows {
    |entries: Rows, index: IndexView| entries
}

/// Changing nothing gives the same store.
proof fn lemma_reindexed_leaving(store: StoreView, indexes: Seq<(Seq<char>, IndexView)>, count: nat)
    requires
        count <= indexes.len(),
        forall|j: int| 0 <= j < count ==> store.has_cf(index_cf(#[trigger] indexes[j].1)),
    ensures
        reindexed(store, indexes, count, leaving()) == store,
    decreases count,
{
    if count > 0 {
        lemma_reindexed_leaving(store, indexes, (count - 1) as nat);
        let after = reindexed(store, indexes, count, leaving());
        assert(after.cfs =~= store.cfs);
    }
}

/// Index consistency under `put_table_value`: in a store where the table
/// is consistent with its indexes, the effects planned for replacing an
/// existing row by one that carries its key apply without error, write
/// the row, and leave the table consistent with its indexes. The plan is
/// made with the answers that the store itself gives.
pub proof fn lemma_put_keeps_consistency(
    store: StoreView,
    reference: TableValueReferenceView,
    value: TableValueView,
    stored: TableStoredView,
)
    requires
        table_consistent(store, reference.table_reference, stored),
        primary_key(value) == Some(reference.id),
        store.rows(reference.container_cf_name()).dom().contains(reference.id),
    ensures
        ({
            let rows = store.rows(reference.container_cf_name());
            let plan = reference.put_table_value_plan(
                value,
                Ok(row_at(rows, reference.id)),
                Ok(Some(stored)),
                Ok(Some(stored)),
            );
            &&& plan is Ok
            &&& store.apply_all(plan->Ok_0) is Ok
            &&& table_consistent(
                store.apply_all(plan->Ok_0)->Ok_0,
                reference.table_reference,
                stored,
            )
            &&& store.apply_all(plan->Ok_0)->Ok_0.rows(reference.container_cf_name())
                == rows.insert(reference.id, value)
            &&& same_records(store.apply_all(plan->Ok_0)->Ok_0, store)
        }),
{
    let table = reference.table_reference;
    let cf = reference.container_cf_name();
    let rows = store.rows(cf);
    let old = rows[reference.id];
    let n = stored.indexes.len();
    let write = reference.put_row(value);
    let out = all_deindex_effects(old, stored.indexes, n);
    let into = all_index_effects(value, stored.indexes, n);
    let start = store.apply(write)->Ok_0;
    let middle = reindexed(start, stored.indexes, n, taking_out(old));
    let end = reindexed(middle, stored.indexes, n, entering(value));
    assert(start.cfs.dom() =~= store.cfs.dom());
    lemma_apply_all_one(store, write);
    lemma_apply_deindex(start, old, stored.indexes, n);
    lemma_apply_index(middle, value, stored.indexes, n);
    lemma_apply_all_concat(store, seq![write], out);
    lemma_apply_all_concat(store, seq![write] + out, into);
    lemma_rows_then_indexes(store, table, stored, start, taking_out(old), entering(value));
    assert(start.rows(cf) =~= rows.insert(reference.id, value));
    assert forall|j: int| 0 <= j < n implies index_consistent(
        end.rows(cf),
        end.rows(index_cf(#[trigger] stored.indexes[j].1)),
        stored.indexes[j].1,
    ) by {
        lemma_entries_after_put(
            rows,
            store.rows(index_cf(stored.indexes[j].1)),
            stored.indexes[j].1,
            reference.id,
            value,
        );
    }
    assert(rows_carry_keys(end.rows(cf))) by {
        assert forall|key: Seq<KeyPartView>| #[trigger]
            end.rows(cf).dom().contains(key) implies primary_key(end.rows(cf)[key]) == Some(
            key,
        ) by {
            if key != reference.id {
                assert(rows.dom().contains(key));
            }
        }
    }
}

/// Index consistency under `delete_table_value`: in a store where the
/// table is consistent with its indexes, the effects planned for deleting
/// an existing row apply without error, delete the row, and leave the
/// table consistent with its indexes.
pub proof fn lemma_delete_keeps_consistency(
    store: StoreView,
    reference: TableValueReferenceView,
    stored: TableStoredView,
)
    requires
        table_consistent(store, reference.table_reference, stored),
        store.rows(reference.container_cf_name()).dom().contains(reference.id),
    ensures
        ({
            let rows = store.rows(reference.container_cf_name());
            let plan = reference.delete_table_value_plan(
                Ok(row_at(rows, reference.id)),
                Ok(Some(stored)),
            );
            &&& plan is Ok
            &&& store.apply_all(plan->Ok_0) is Ok
            &&& table_consistent(
                store.apply_all(plan->Ok_0)->Ok_0,
                reference.table_reference,
                stored,
            )
            &&& store.apply_all(plan->Ok_0)->Ok_0.rows(reference.container_cf_name())
                == rows.remove(reference.id)
            &&& same_records(store.apply_all(plan->Ok_0)->Ok_0, store)
        }),
{
    let table = reference.table_reference;
    let cf = reference.container_cf_name();
    let rows = store.rows(cf);
    let old = rows[reference.id];
    let n = stored.indexes.len();
    let write = reference.delete_row();
    let out = all_deindex_effects(old, stored.indexes, n);
    let start = store.apply(write)->Ok_0;
    let middle = reindexed(start, stored.indexes, n, taking_out(old));
    assert(start.cfs.dom() =~= store.cfs.dom());
    lemma_apply_all_one(store, write);
    lemma_apply_deindex(start, old, stored.indexes, n);
    lemma_apply_all_concat(store, seq![write], out);
    lemma_reindexed_leaving(middle, stored.indexes, n);
    lemma_rows_then_indexes(store, table, stored, start, taking_out(old), leaving());
    assert(start.rows(cf) =~= rows.remove(reference.id));
    assert forall|j: int| 0 <= j < n implies index_consistent(
        middle.rows(cf),
        middle.rows(index_cf(#[trigger] stored.indexes[j].1)),
        stored.indexes[j].1,
    ) by {
        lemma_entries_after_delete(
            rows,
            store.rows(index_cf(stored.indexes[j].1)),
            stored.indexes[j].1,
            reference.id,
        );
    }
    assert(rows_carry_keys(middle.rows(cf))) by {
        assert forall|key: Seq<KeyPartView>| #[trigger]
            middle.rows(cf).dom().contains(key) implies primary_key(middle.rows(cf)[key]) == Some(
            key,
        ) by {
            assert(rows.dom().contains(key));
        }
    }
}

/// Index consistency under `post_table_value`: in a store where, once the
/// counter's effects are applied, the table is consistent with its
/// indexes and has no row under the key of the new row, the effects
/// planned for creating a row that carries its key apply without error,
/// write the row, and leave the table consistent with its indexes.
pub proof fn lemma_post_keeps_consistency(
    store: StoreView,
    reference: CreateTableValueReferenceView,
    value: TableValueView,
    counter: IncrementAnswer,
    stored: TableStoredView,
)
    requires
        reference.assigned_id(counter) is Ok,
        store.apply_all(counter_effects(reference, counter)) is Ok,
        table_consistent(
            store.apply_all(counter_effects(reference, counter))->Ok_0,
            reference.table_reference,
            stored,
        ),
        !store.apply_all(counter_effects(reference, counter))->Ok_0.rows(
            reference.container_cf_name(),
        ).dom().contains(reference.assigned_id(counter)->Ok_0),
        primary_key(reference.stored_value(value, counter)) == Some(
            reference.assigned_id(counter)->Ok_0,
        ),
    ensures
        ({
            let counted = store.apply_all(counter_effects(reference, counter))->Ok_0;
            let plan = reference.post_table_value_plan(value, counter, Ok(Some(stored)));
            &&& plan is Ok
            &&& plan->Ok_0.0 == reference.assigned_id(counter)->Ok_0
            &&& store.apply_all(plan->Ok_0.1) is Ok
            &&& table_consistent(
                store.apply_all(plan->Ok_0.1)->Ok_0,
                reference.table_reference,
                stored,
            )
            &&& store.apply_all(plan->Ok_0.1)->Ok_0.rows(reference.container_cf_name())
                == counted.rows(reference.container_cf_name()).insert(
                reference.assigned_id(counter)->Ok_0,
                reference.stored_value(value, counter),
            )
            &&& same_records(store.apply_all(plan->Ok_0.1)->Ok_0, counted)
        }),
{
    let table = reference.table_reference;
    let cf = reference.container_cf_name();
    let id = reference.assigned_id(counter)->Ok_0;
    let row = reference.stored_value(value, counter);
    let counted_effects = counter_effects(reference, counter);
    let counted = store.apply_all(counted_effects)->Ok_0;
    let rows = counted.rows(cf);
    let n = stored.indexes.len();
    let target = TableValueReferenceView { table_reference: table, id };
    let write = target.put_row(row);
    let into = all_index_effects(row, stored.indexes, n);
    let start = counted.apply(write)->Ok_0;
    let end = reindexed(start, stored.indexes, n, entering(row));
    assert(start.cfs.dom() =~= counted.cfs.dom());
    lemma_apply_all_one(counted, write);
    lemma_apply_index(start, row, stored.indexes, n);
    lemma_apply_all_concat(counted, seq![write], into);
    lemma_apply_all_concat(store, counted_effects, seq![write] + into);
    assert(counted_effects + seq![write] + into =~= counted_effects + (seq![write] + into));
    lemma_reindexed_leaving(start, stored.indexes, n);
    lemma_rows_then_indexes(counted, table, stored, start, leaving(), entering(row));
    assert(start.rows(cf) =~= rows.insert(id, row));
    assert forall|j: int| 0 <= j < n implies index_consistent(
        end.rows(cf),
        end.rows(index_cf(#[trigger] stored.indexes[j].1)),
        stored.indexes[j].1,
    ) by {
        lemma_entries_after_put(
            rows,
            counted.rows(index_cf(stored.indexes[j].1)),
            stored.indexes[j].1,
            id,
            row,
        );
    }
    assert(rows_carry_keys(end.rows(cf))) by {
        assert forall|key: Seq<KeyPartView>| #[trigger]
            end.rows(cf).dom().contains(key) implies primary_key(end.rows(cf)[key]) == Some(
            key,
        ) by {
            if key != id {
                assert(rows.dom().contains(key));
            }
        }
    }
}

/// The effects that persist the counter, for a row that gets its key from
/// it; none for a row whose key is given.
pub open spec fn counter_effects(
    reference: CreateTableValueReferenceView,
    counter: IncrementAnswer,
) -> Seq<EffectView> {
    if reference.id is None && counter is Ok {
        counter->Ok_0.1
    } else {
        Seq::empty()
    }
}

/// An object or null that gets a counted key as its `_id` carries that
/// key.
pub proof fn lemma_assigned_key_is_carried(value: TableValueView, n: u64)
    requires
        value is Object || value is Null,
    ensures
        primary_key(
            value.with_member(
                id_field(),
                value_of_key(seq![KeyPartView::Number(Number::PosInt(n))]),
            ),
        ) == Some(seq![KeyPartView::Number(Number::PosInt(n))]),
{
    let id = value_of_key(seq![KeyPartView::Number(Number::PosInt(n))]);
    let after = value.with_member(id_field(), id);
    let members = after->Object_0;
    match value {
        TableValueView::Object(old) => {
            let at = member_position(old, id_field());
            if at < old.len() {
                lemma_index_in_is_first(member_names(old), id_field());
                assert forall|k: int| 0 <= k < at implies member_names(members)[k]
                    != id_field() by {
                    assert(member_names(old)[k] != id_field());
                }
                lemma_index_in(member_names(members), id_field(), at as int);
            } else {
                lemma_index_in(member_names(members), id_field(), 0);
            }
        },
        _ => {
            lemma_index_in(member_names(members), id_field(), 0);
        },
    }
    assert(seq![KeyPartView::Number(Number::PosInt(n))][0] == KeyPartView::Number(
        Number::PosInt(n),
    ));
}

/// An operation on the rows of a table.
pub enum RowOp {
    /// Create the row under the given key, or under the key that the
    /// table's counter assigns.
    Post(Option<Seq<KeyPartView>>, TableValueView),
    /// Replace the row under the given key.
    Put(Seq<KeyPartView>, TableValueView),
    /// Delete the row under the given key.
    Delete(Seq<KeyPartView>),
}

/// What the store answers when asked for the record of `table`.
pub open spec fn table_answer(store: StoreView, table: TableReferenceView) -> TableStoredAnswer {
    store.table_stored_answer(table.tables_cf(), table.table_name)
}

/// The plan of `put_table_value` when the store itself answers its reads.
pub open spec fn put_plan(
    store: StoreView,
    reference: TableValueReferenceView,
    value: TableValueView,
) -> Plan {
    reference.put_table_value_plan(
        value,
        store.table_value_answer(reference.container_cf_name(), reference.id),
        table_answer(store, reference.table_reference),
        table_answer(store, reference.table_reference),
    )
}

/// The plan of `delete_table_value` when the store itself answers its
/// reads.
pub open spec fn delete_plan(store: StoreView, reference: TableValueReferenceView) -> Plan {
    reference.delete_table_value_plan(
        store.table_value_answer(reference.container_cf_name(), reference.id),
        table_answer(store, reference.table_reference),
    )
}

/// The plan of `post_table_value` when the store itself answers its reads
/// and counts.
pub open spec fn post_plan(
    store: StoreView,
    reference: CreateTableValueReferenceView,
    value: TableValueView,
) -> Result<(Seq<KeyPartView>, Seq<EffectView>), DbErrorView> {
    reference.post_table_value_plan(
        value,
        store.increment_answer(reference.counter()),
        table_answer(store, reference.table_reference),
    )
}

/// The effects that the planner gives for `op` when the store itself
/// answers its reads.
pub open spec fn op_plan(store: StoreView, table: TableReferenceView, op: RowOp) -> Plan {
    match op {
        RowOp::Post(id, value) => match post_plan(
            store,
            CreateTableValueReferenceView { table_reference: table, id },
            value,
        ) {
            Ok((_, effects)) => Ok(effects),
            Err(e) => Err(e),
        },
        RowOp::Put(id, value) => put_plan(
            store,
            TableValueReferenceView { table_reference: table, id },
            value,
        ),
        RowOp::Delete(id) => delete_plan(
            store,
            TableValueReferenceView { table_reference: table, id },
        ),
    }
}

/// The store after `op`: with the planned effects applied as far as they
/// succeed, or as it was where the planner gave an error.
pub open spec fn op_step(store: StoreView, table: TableReferenceView, op: RowOp) -> StoreView {
    match op_plan(store, table, op) {
        Ok(effects) => store.applied(effects),
        Err(_) => store,
    }
}

/// The column family of the table's counter is none of the table's own.
pub open spec fn counter_apart(table: TableReferenceView, stored: TableStoredView) -> bool {
    let counters = CfNameMaker::spec_for_table_counters(table.domain_reference);
    &&& counters != table.values_cf()
    &&& forall|j: int|
        0 <= j < stored.indexes.len() ==> index_cf(#[trigger] stored.indexes[j].1) != counters
}

/// The row that `op` writes carries its key, and a created row is not
/// there yet. A row that gets its key from the counter is an object or
/// null, so that it can carry the key, and the counter is kept apart from
/// the table.
pub open spec fn op_admissible(
    store: StoreView,
    table: TableReferenceView,
    stored: TableStoredView,
    op: RowOp,
) -> bool {
    let rows = store.rows(table.values_cf());
    match op {
        RowOp::Post(Some(id), value) => {
            primary_key(value) == Some(id) && !rows.dom().contains(id)
        },
        RowOp::Post(None, value) => {
            let reference = CreateTableValueReferenceView { table_reference: table, id: None };
            let counter = store.increment_answer(reference.counter());
            &&& counter_apart(table, stored)
            &&& value is Object || value is Null
            &&& counter is Ok ==> !rows.dom().contains(reference.assigned_id(counter)->Ok_0)
        },
        RowOp::Put(id, value) => primary_key(value) == Some(id),
        RowOp::Delete(_) => true,
    }
}

/// A write into a column family that is none of the table's own leaves the
/// table consistent with its indexes.
pub proof fn lemma_write_elsewhere_keeps_consistency(
    store: StoreView,
    table: TableReferenceView,
    stored: TableStoredView,
    cf: Seq<char>,
    key: Seq<KeyPartView>,
    value: TableValueView,
)
    requires
        table_consistent(store, table, stored),
        store.has_cf(cf),
        cf != table.values_cf(),
        forall|j: int|
            0 <= j < stored.indexes.len() ==> index_cf(#[trigger] stored.indexes[j].1) != cf,
    ensures
        ({
            let write = EffectView::TableValueEffect(TableValueEffectView::Put(cf, key, value));
            &&& store.apply(write) is Ok
            &&& table_consistent(store.apply(write)->Ok_0, table, stored)
            &&& same_records(store.apply(write)->Ok_0, store)
            &&& store.apply(write)->Ok_0.rows(table.values_cf()) == store.rows(table.values_cf())
        }),
{
    let write = EffectView::TableValueEffect(TableValueEffectView::Put(cf, key, value));
    let after = store.apply(write)->Ok_0;
    assert(after.cfs.dom() =~= store.cfs.dom());
    assert forall|j: int| 0 <= j < stored.indexes.len() implies after.rows(
        index_cf(#[trigger] stored.indexes[j].1),
    ) == store.rows(index_cf(stored.indexes[j].1)) by {}
}

/// The store after the operations, one after the other.
pub open spec fn ops_run(store: StoreView, table: TableReferenceView, ops: Seq<RowOp>) -> StoreView
    decreases ops.len(),
{
    if ops.len() == 0 {
        store
    } else {
        ops_run(op_step(store, table, ops[0]), table, ops.skip(1))
    }
}

/// Each operation is admissible in the store that it meets.
pub open spec fn ops_admissible(
    store: StoreView,
    table: TableReferenceView,
    stored: TableStoredView,
    ops: Seq<RowOp>,
) -> bool
    decreases ops.len(),
{
    if ops.len() == 0 {
        true
    } else {
        op_admissible(store, table, stored, ops[0]) && ops_admissible(
            op_step(store, table, ops[0]),
            table,
            stored,
            ops.skip(1),
        )
    }
}

/// One admissible operation leaves a consistent table consistent, and its
/// record as it is.
pub proof fn lemma_op_keeps_consistency(
    store: StoreView,
    table: TableReferenceView,
    stored: TableStoredView,
    op: RowOp,
)
    requires
        table_answer(store, table) == Ok::<Option<TableStoredView>, DbErrorView>(Some(stored)),
        table_consistent(store, table, stored),
        op_admissible(store, table, stored, op),
    ensures
        table_answer(op_step(store, table, op), table) == table_answer(store, table),
        table_consistent(op_step(store, table, op), table, stored),
{
    let rows = store.rows(table.values_cf());
    match op {
        RowOp::Post(Some(id), value) => {
            let reference = CreateTableValueReferenceView { table_reference: table, id: Some(id) };
            let counter = store.increment_answer(reference.counter());
            assert(store.apply_all(counter_effects(reference, counter)) == Ok::<
                StoreView,
                DbErrorView,
            >(store));
            lemma_post_keeps_consistency(store, reference, value, counter, stored);
            lemma_applied_all(store, post_plan(store, reference, value)->Ok_0.1);
        },
        RowOp::Post(None, value) => {
            let reference = CreateTableValueReferenceView { table_reference: table, id: None };
            let counter = store.increment_answer(reference.counter());
            if counter is Ok {
                let count = counter->Ok_0.0;
                let write = reference.counter().write(count);
                assert(counter->Ok_0.1 =~= seq![write]);
                lemma_apply_all_one(store, write);
                lemma_write_elsewhere_keeps_consistency(
                    store,
                    table,
                    stored,
                    reference.counter().column_reference,
                    reference.counter().id,
                    TableValueView::Number(Number::PosInt(count)),
                );
                lemma_assigned_key_is_carried(value, count);
                lemma_post_keeps_consistency(store, reference, value, counter, stored);
                lemma_applied_all(store, post_plan(store, reference, value)->Ok_0.1);
            }
        },
        RowOp::Put(id, value) => {
            let reference = TableValueReferenceView { table_reference: table, id };
            if rows.dom().contains(id) {
                lemma_put_keeps_consistency(store, reference, value, stored);
                lemma_applied_all(store, put_plan(store, reference, value)->Ok_0);
            }
        },
        RowOp::Delete(id) => {
            let reference = TableValueReferenceView { table_reference: table, id };
            if rows.dom().contains(id) {
                lemma_delete_keeps_consistency(store, reference, stored);
                lemma_applied_all(store, delete_plan(store, reference)->Ok_0);
            }
        },
    }
}

/// Index consistency: after the effects of any sequence of admissible
/// creations, replacements and deletions of rows, each planned with the
/// answers of the store as it then is and applied in order, every index
/// of the table holds exactly the entries of the table's rows.
pub proof fn lemma_ops_keep_consistency(
    store: StoreView,
    table: TableReferenceView,
    stored: TableStoredView,
    ops: Seq<RowOp>,
)
    requires
        table_answer(store, table) == Ok::<Option<TableStoredView>, DbErrorView>(Some(stored)),
        table_consistent(store, table, stored),
        ops_admissible(store, table, stored, ops),
    ensures
        table_answer(ops_run(store, table, ops), table) == table_answer(store, table),
        table_consistent(ops_run(store, table, ops), table, stored),
    decreases ops.len(),
{
    if ops.len() > 0 {
        lemma_op_keeps_consistency(store, table, stored, ops[0]);
        lemma_ops_keep_consistency(op_step(store, table, ops[0]), table, stored, ops.skip(1));
    }
}

} // verus!
