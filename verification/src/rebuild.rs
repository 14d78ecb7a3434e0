//! Reindex completeness: what the effects of `put_index` do to the index.

use crate::consistency::{index_cf, index_consistent, lemma_index_key_injective, with_entry};
use crate::entity::{IndexView, TableStoredView};
use crate::error::DbErrorView;
use crate::indexing::{index_effects, index_key, primary_key};
use crate::key::{value_of_key, KeyPartView};
use crate::lookup::{all_different, index_in, lemma_index_in_is_first, lemma_index_of_each, map_of};
use crate::memory::entries::{any_key, picked};
use crate::reference::effect::EffectView;
use crate::reference::index_reference::{reindex_effects, IndexReferenceView};
use crate::reference::requests::scanned;
use crate::store::{lemma_apply_all_concat, lemma_apply_all_one, CfView, Rows, StoreView};
use crate::value::TableValueView;
use vstd::prelude::*;

verus! {

/// The entries of an index built from nothing by entering the first
/// `count` rows one by one.
pub open spec fn rebuilt(rows: Seq<TableValueView>, index: IndexView, count: nat) -> Rows
    decreases count,
{
    if count == 0 {
        Map::empty()
    } else {
        with_entry(rebuilt(rows, index, (count - 1) as nat), rows[count - 1], index)
    }
}

/// `value` is a row of the table.
pub open spec fn is_row(rows: Rows, value: TableValueView) -> bool {
    exists|key: Seq<KeyPartView>| #[trigger] rows.dom().contains(key) && rows[key] == value
}

/// The scan hands out the rows of the table, each of them and nothing
/// else.
pub open spec fn scan_lists_rows(scan: Seq<TableValueView>, rows: Rows) -> bool {
    &&& forall|i: int| 0 <= i < scan.len() ==> is_row(rows, #[trigger] scan[i])
    &&& forall|key: Seq<KeyPartView>| #[trigger]
        rows.dom().contains(key) ==> exists|i: int|
            0 <= i < scan.len() && #[trigger] scan[i] == rows[key]
}

/// The store with the entries of the column family `cf` replaced.
pub open spec fn with_entries(store: StoreView, cf: Seq<char>, entries: Rows) -> StoreView {
    store.with_cf(cf, CfView { values: entries, ..store.cfs[cf] })
}

/// The plan for rows that were scanned without an error is the effects of
/// the rows, one after the other.
pub proof fn lemma_reindex_plan(index: IndexView, rows: Seq<TableValueView>, count: nat)
    requires
        count <= rows.len(),
    ensures
        reindex_effects(index, scanned(rows).take(count as int)) is Ok,
        count > 0 ==> reindex_effects(index, scanned(rows).take(count as int))->Ok_0
            == reindex_effects(index, scanned(rows).take(count - 1))->Ok_0 + index_effects(
            rows[count - 1],
            index,
        ),
    decreases count,
{
    if count > 0 {
        lemma_reindex_plan(index, rows, (count - 1) as nat);
        let items = scanned(rows).take(count as int);
        assert(items.drop_last() =~= scanned(rows).take(count - 1));
        assert(items.last() == Ok::<TableValueView, DbErrorView>(rows[count - 1]));
    }
}

/// Applied to a store that has the index, the effects that enter scanned
/// rows enter them one by one.
pub proof fn lemma_apply_reindex(
    store: StoreView,
    index: IndexView,
    rows: Seq<TableValueView>,
    count: nat,
)
    requires
        count <= rows.len(),
        store.has_cf(index_cf(index)),
        store.rows(index_cf(index)) == Map::<Seq<KeyPartView>, TableValueView>::empty(),
    ensures
        store.apply_all(reindex_effects(index, scanned(rows).take(count as int))->Ok_0) == Ok::<
            StoreView,
            DbErrorView,
        >(with_entries(store, index_cf(index), rebuilt(rows, index, count))),
    decreases count,
{
    let cf = index_cf(index);
    if count == 0 {
        assert(scanned(rows).take(0) =~= Seq::empty());
        assert(with_entries(store, cf, rebuilt(rows, index, 0)).cfs =~= store.cfs);
    } else {
        let m = (count - 1) as nat;
        lemma_apply_reindex(store, index, rows, m);
        lemma_reindex_plan(index, rows, count);
        let before = with_entries(store, cf, rebuilt(rows, index, m));
        let after = with_entries(store, cf, rebuilt(rows, index, count));
        let step = index_effects(rows[m as int], index);
        lemma_apply_all_concat(
            store,
            reindex_effects(index, scanned(rows).take(m as int))->Ok_0,
            step,
        );
        match index_key(rows[m as int], index) {
            Some(entry) => {
                lemma_apply_all_one(before, step[0]);
                assert(step =~= seq![step[0]]);
                assert(before.apply(step[0])->Ok_0.cfs =~= after.cfs);
            },
            None => {
                assert(step =~= Seq::empty());
            },
        }
    }
}

/// An index rebuilt from rows holds the entry of each row, and nothing
/// else.
pub proof fn lemma_rebuilt_entries(rows: Seq<TableValueView>, index: IndexView, count: nat)
    requires
        count <= rows.len(),
    ensures
        forall|i: int|
            0 <= i < count && index_key(#[trigger] rows[i], index) is Some ==> {
                &&& rebuilt(rows, index, count).dom().contains(index_key(rows[i], index)->Some_0)
                &&& rebuilt(rows, index, count)[index_key(rows[i], index)->Some_0] == value_of_key(
                    primary_key(rows[i])->Some_0,
                )
            },
        forall|entry: Seq<KeyPartView>| #[trigger]
            rebuilt(rows, index, count).dom().contains(entry) ==> exists|i: int|
                0 <= i < count && index_key(#[trigger] rows[i], index) == Some(entry),
    decreases count,
{
    if count > 0 {
        let m = (count - 1) as nat;
        lemma_rebuilt_entries(rows, index, m);
        let before = rebuilt(rows, index, m);
        let after = rebuilt(rows, index, count);
        assert forall|i: int|
            0 <= i < count && index_key(#[trigger] rows[i], index) is Some implies {
            &&& after.dom().contains(index_key(rows[i], index)->Some_0)
            &&& after[index_key(rows[i], index)->Some_0] == value_of_key(
                primary_key(rows[i])->Some_0,
            )
        } by {
            if i < m && index_key(rows[i], index) == index_key(rows[m as int], index) {
                lemma_index_key_injective(rows[i], rows[m as int], index);
            }
        }
        assert forall|entry: Seq<KeyPartView>| #[trigger]
            after.dom().contains(entry) implies exists|i: int|
            0 <= i < count && index_key(#[trigger] rows[i], index) == Some(entry) by {
            if index_key(rows[m as int], index) == Some(entry) {
            } else {
                assert(before.dom().contains(entry));
                let i = choose|i: int|
                    0 <= i < m && index_key(#[trigger] rows[i], index) == Some(entry);
                assert(0 <= i < count);
            }
        }
    }
}

/// An index rebuilt from a scan of a table is consistent with the table.
pub proof fn lemma_rebuilt_is_consistent(scan: Seq<TableValueView>, rows: Rows, index: IndexView)
    requires
        scan_lists_rows(scan, rows),
    ensures
        index_consistent(rows, rebuilt(scan, index, scan.len()), index),
{
    let entries = rebuilt(scan, index, scan.len());
    lemma_rebuilt_entries(scan, index, scan.len());
    assert forall|key: Seq<KeyPartView>| #[trigger]
        rows.dom().contains(key) && index_key(rows[key], index) is Some implies {
        &&& entries.dom().contains(index_key(rows[key], index)->Some_0)
        &&& entries[index_key(rows[key], index)->Some_0] == value_of_key(
            primary_key(rows[key])->Some_0,
        )
    } by {
        let i = choose|i: int| 0 <= i < scan.len() && #[trigger] scan[i] == rows[key];
        assert(index_key(scan[i], index) is Some);
    }
    assert forall|entry: Seq<KeyPartView>| #[trigger]
        entries.dom().contains(entry) implies exists|key: Seq<KeyPartView>| #[trigger]
        rows.dom().contains(key) && index_key(rows[key], index) == Some(entry) && entries[entry]
            == value_of_key(primary_key(rows[key])->Some_0) by {
        let i = choose|i: int|
            0 <= i < scan.len() && index_key(#[trigger] scan[i], index) == Some(entry);
        assert(is_row(rows, scan[i]));
        let key = choose|key: Seq<KeyPartView>| #[trigger]
            rows.dom().contains(key) && rows[key] == scan[i];
        assert(rows.dom().contains(key));
    }
}

/// Reindex completeness: in a store that has the table and the index, the
/// effects that `put_index` plans from a scan of the table's rows apply
/// without error; the index then holds what dropping it and entering the
/// scanned rows one by one gives, which is exactly the entries of the
/// table's rows; the rows and the other column families stay as they were.
pub proof fn lemma_put_index_rebuilds(
    store: StoreView,
    reference: IndexReferenceView,
    index: IndexView,
    stored: TableStoredView,
    scan: Seq<TableValueView>,
)
    requires
        index.reference == reference,
        stored.index(reference.index_name) is Some,
        store.has_cf(reference.value_cf_name()),
        store.has_cf(reference.table_reference.tables_cf()),
        store.has_cf(reference.table_reference.values_cf()),
        reference.value_cf_name() != reference.table_reference.values_cf(),
        reference.value_cf_name() != reference.table_reference.tables_cf(),
        scan_lists_rows(scan, store.rows(reference.table_reference.values_cf())),
    ensures
        ({
            let plan = reference.put_index_plan(index, Ok(Some(stored)), Ok(scanned(scan)));
            let rows = store.rows(reference.table_reference.values_cf());
            &&& plan is Ok
            &&& store.apply_all(plan->Ok_0) is Ok
            &&& store.apply_all(plan->Ok_0)->Ok_0.cfs.dom() == store.cfs.dom()
            &&& store.apply_all(plan->Ok_0)->Ok_0.rows(reference.value_cf_name()) == rebuilt(
                scan,
                index,
                scan.len(),
            )
            &&& index_consistent(
                rows,
                store.apply_all(plan->Ok_0)->Ok_0.rows(reference.value_cf_name()),
                index,
            )
            &&& store.apply_all(plan->Ok_0)->Ok_0.rows(reference.table_reference.values_cf())
                == rows
            &&& store.apply_all(plan->Ok_0)->Ok_0.cfs[reference.table_reference.tables_cf()].tables
                == store.cfs[reference.table_reference.tables_cf()].tables.insert(
                reference.table_reference.table_name,
                stored.with_index(reference.index_name, index),
            )
        }),
{
    let cf = reference.value_cf_name();
    let table = reference.table_reference;
    let rows = store.rows(table.values_cf());
    let drop = EffectView::DeleteCf(cf);
    let create = EffectView::CreateCf(cf);
    let record = table.put_stored(stored.with_index(reference.index_name, index));
    let head = seq![drop, create, record];
    assert(scanned(scan).take(scan.len() as int) =~= scanned(scan));
    lemma_reindex_plan(index, scan, scan.len());
    let entries = reindex_effects(index, scanned(scan))->Ok_0;
    let dropped = store.apply(drop)->Ok_0;
    let created = dropped.apply(create)->Ok_0;
    let recorded = created.apply(record)->Ok_0;
    assert(head =~= seq![drop] + seq![create] + seq![record]);
    lemma_apply_all_one(store, drop);
    lemma_apply_all_one(dropped, create);
    lemma_apply_all_one(created, record);
    lemma_apply_all_concat(store, seq![drop], seq![create]);
    lemma_apply_all_concat(store, seq![drop] + seq![create], seq![record]);
    lemma_apply_all_concat(store, head, entries);
    assert(recorded.rows(cf) =~= Map::<Seq<KeyPartView>, TableValueView>::empty());
    lemma_apply_reindex(recorded, index, scan, scan.len());
    lemma_rebuilt_is_consistent(scan, rows, index);
    let end = with_entries(recorded, cf, rebuilt(scan, index, scan.len()));
    assert(end.cfs.dom() =~= store.cfs.dom());
}

/// Picking with every key wanted picks every value.
pub proof fn lemma_picked_all(
    keys: Seq<Seq<KeyPartView>>,
    values: Seq<TableValueView>,
    count: nat,
)
    requires
        count <= values.len(),
    ensures
        picked(keys, values, any_key(), count) == values.take(count as int),
    decreases count,
{
    if count == 0 {
        assert(values.take(0) =~= Seq::empty());
    } else {
        lemma_picked_all(keys, values, (count - 1) as nat);
        assert(values.take(count as int) =~= values.take(count - 1).push(values[count - 1]));
    }
}

/// The rows of a table in the order of their different keys list the rows
/// of the table.
pub proof fn lemma_in_order_lists_rows(keys: Seq<Seq<KeyPartView>>, values: Seq<TableValueView>)
    requires
        keys.len() == values.len(),
        all_different(keys),
    ensures
        scan_lists_rows(values, map_of(keys, values)),
{
    let rows = map_of(keys, values);
    assert forall|i: int| 0 <= i < values.len() implies is_row(rows, #[trigger] values[i]) by {
        lemma_index_of_each(keys, i);
        assert(rows.dom().contains(keys[i]));
    }
    assert forall|key: Seq<KeyPartView>| #[trigger] rows.dom().contains(key) implies exists|i: int|
        0 <= i < values.len() && #[trigger] values[i] == rows[key] by {
        lemma_index_in_is_first(keys, key);
        assert(values[index_in(keys, key) as int] == rows[key]);
    }
}

} // verus!
