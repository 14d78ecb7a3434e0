//! Cascade correctness: what the effects of `delete_domain` do to the
//! column families of the domain.

use crate::entity::{DomainStoredView, TableStoredView};
use crate::lookup::all_different;
use crate::reference::cf_name_maker::CfNameMaker;
use crate::reference::domain_reference::DomainReferenceView;
use crate::reference::effect::{DomainStoredEffectView, EffectView, TableStoredEffectView};
use crate::reference::table_reference::{TableReferenceView, TableStoredAnswer};
use crate::store::{lemma_apply_all_concat, lemma_apply_all_one, StoreView};
use vstd::prelude::*;

verus! {

/// The column families of the first `count` indexes of a table, in stored
/// order.
pub open spec fn index_cfs(table: TableReferenceView, stored: TableStoredView, count: nat) -> Seq<
    Seq<char>,
> {
    Seq::new(count, |j: int| CfNameMaker::spec_for_index_values(table.index(stored.indexes[j].0)))
}

/// The column families of a table: those of its indexes, then that of
/// its rows.
pub open spec fn table_cfs(table: TableReferenceView, stored: TableStoredView) -> Seq<Seq<char>> {
    index_cfs(table, stored, stored.indexes.len()).push(table.values_cf())
}

/// The column families of the first `count` tables of a domain, table by
/// table in stored order.
pub open spec fn tables_cfs(
    domain: DomainReferenceView,
    stored: DomainStoredView,
    tables: Seq<TableStoredView>,
    count: nat,
) -> Seq<Seq<char>>
    decreases count,
{
    if count == 0 {
        Seq::empty()
    } else {
        tables_cfs(domain, stored, tables, (count - 1) as nat) + table_cfs(
            domain.table(stored.tables[count - 1]),
            tables[count - 1],
        )
    }
}

/// Every column family that is reachable from a domain: those of its
/// tables and their indexes, that of its tables' records and that of its
/// counters.
pub open spec fn domain_cfs(
    domain: DomainReferenceView,
    stored: DomainStoredView,
    tables: Seq<TableStoredView>,
) -> Seq<Seq<char>> {
    tables_cfs(domain, stored, tables, stored.tables.len()).push(domain.tables_cf()).push(
        domain.counters_cf(),
    )
}

/// The answers of lookups that found the records `tables`.
pub open spec fn found_tables(tables: Seq<TableStoredView>) -> Seq<TableStoredAnswer> {
    Seq::new(tables.len(), |i: int| Ok(Some(tables[i])))
}

/// Applied to `store`, `effects` succeed and leave exactly the column
/// families that are not among `names`.
pub open spec fn drops(store: StoreView, effects: Seq<EffectView>, names: Seq<Seq<char>>) -> bool {
    &&& store.apply_all(effects) is Ok
    &&& forall|cf: Seq<char>| #[trigger]
        store.apply_all(effects)->Ok_0.has_cf(cf) <==> store.has_cf(cf) && !names.contains(cf)
}

/// The column families `names` are all different and all there.
pub open spec fn droppable(store: StoreView, names: Seq<Seq<char>>) -> bool {
    &&& all_different(names)
    &&& forall|i: int| 0 <= i < names.len() ==> store.has_cf(#[trigger] names[i])
}

/// Drops one after the other drop both lists of column families.
pub proof fn lemma_drops_concat(
    store: StoreView,
    first: Seq<EffectView>,
    first_names: Seq<Seq<char>>,
    second: Seq<EffectView>,
    second_names: Seq<Seq<char>>,
)
    requires
        drops(store, first, first_names),
        drops(store.apply_all(first)->Ok_0, second, second_names),
    ensures
        drops(store, first + second, first_names + second_names),
{
    lemma_apply_all_concat(store, first, second);
    let after = store.apply_all(first + second)->Ok_0;
    let names = first_names + second_names;
    assert forall|cf: Seq<char>| #[trigger]
        after.has_cf(cf) <==> store.has_cf(cf) && !names.contains(cf) by {
        if first_names.contains(cf) {
            let i = choose|i: int| 0 <= i < first_names.len() && first_names[i] == cf;
            assert(names[i] == cf);
        }
        if second_names.contains(cf) {
            let i = choose|i: int| 0 <= i < second_names.len() && second_names[i] == cf;
            assert(names[first_names.len() + i] == cf);
        }
        if names.contains(cf) {
            let i = choose|i: int| 0 <= i < names.len() && names[i] == cf;
            if i < first_names.len() {
                assert(first_names[i] == cf);
            } else {
                assert(second_names[i - first_names.len()] == cf);
            }
        }
    }
}

/// The parts of a list of different names are lists of different names
/// that share no name.
pub proof fn lemma_distinct_parts(first: Seq<Seq<char>>, second: Seq<Seq<char>>)
    requires
        all_different(first + second),
    ensures
        all_different(first),
        all_different(second),
        forall|i: int| 0 <= i < second.len() ==> !first.contains(#[trigger] second[i]),
{
    let whole = first + second;
    assert forall|i: int, j: int| 0 <= i < j < first.len() implies first[i] != first[j] by {
        assert(whole[i] == first[i] && whole[j] == first[j]);
    }
    assert forall|i: int, j: int| 0 <= i < j < second.len() implies second[i] != second[j] by {
        assert(whole[first.len() + i] == second[i] && whole[first.len() + j] == second[j]);
    }
    assert forall|i: int| 0 <= i < second.len() implies !first.contains(#[trigger] second[i]) by {
        if first.contains(second[i]) {
            let k = choose|k: int| 0 <= k < first.len() && first[k] == second[i];
            assert(whole[k] == first[k] && whole[first.len() + i] == second[i]);
        }
    }
}

/// The effects that delete the first `count` indexes of a table drop the
/// column families of those indexes and nothing else.
pub proof fn lemma_delete_indexes_drops(
    store: StoreView,
    table: TableReferenceView,
    stored: TableStoredView,
    count: nat,
)
    requires
        count <= stored.indexes.len(),
        droppable(store, index_cfs(table, stored, count)),
        store.has_cf(table.tables_cf()),
        !index_cfs(table, stored, count).contains(table.tables_cf()),
    ensures
        drops(
            store,
            table.delete_indexes_effects(stored, count),
            index_cfs(table, stored, count),
        ),
    decreases count,
{
    let names = index_cfs(table, stored, count);
    if count == 0 {
        assert forall|cf: Seq<char>| !names.contains(cf) by {}
    } else {
        let m = (count - 1) as nat;
        let before_names = index_cfs(table, stored, m);
        let name = stored.indexes[m as int].0;
        let cf = CfNameMaker::spec_for_index_values(table.index(name));
        assert(names =~= before_names + seq![cf]);
        lemma_distinct_parts(before_names, seq![cf]);
        assert forall|i: int| 0 <= i < before_names.len() implies store.has_cf(
            #[trigger] before_names[i],
        ) by {
            assert(names[i] == before_names[i]);
        }
        if before_names.contains(table.tables_cf()) {
            let i = choose|i: int|
                0 <= i < before_names.len() && before_names[i] == table.tables_cf();
            assert(names[i] == table.tables_cf());
        }
        lemma_delete_indexes_drops(store, table, stored, m);
        let before = store.apply_all(table.delete_indexes_effects(stored, m))->Ok_0;
        let record = table.put_stored(stored.without_index(name));
        let drop = EffectView::DeleteCf(cf);
        let step = table.delete_index_effects(stored, name);
        assert(step =~= seq![record] + seq![drop]);
        assert(names[m as int] == cf);
        assert(seq![cf][0] == cf);
        assert(before.has_cf(table.tables_cf()));
        assert(before.has_cf(cf));
        let recorded = before.apply(record)->Ok_0;
        lemma_apply_all_one(before, record);
        lemma_apply_all_one(recorded, drop);
        lemma_apply_all_concat(before, seq![record], seq![drop]);
        assert(recorded.cfs.dom() =~= before.cfs.dom());
        let after = before.apply_all(step)->Ok_0;
        assert forall|other: Seq<char>| #[trigger]
            after.has_cf(other) <==> before.has_cf(other) && !seq![cf].contains(other) by {
            if seq![cf].contains(other) {
                let i = choose|i: int| 0 <= i < seq![cf].len() && seq![cf][i] == other;
            }
        }
        lemma_drops_concat(
            store,
            table.delete_indexes_effects(stored, m),
            before_names,
            step,
            seq![cf],
        );
    }
}

/// The effects that delete a table drop the column families of its
/// indexes and of its rows and nothing else.
pub proof fn lemma_delete_table_drops(
    store: StoreView,
    table: TableReferenceView,
    stored: TableStoredView,
    domain: DomainStoredView,
)
    requires
        droppable(store, table_cfs(table, stored)),
        store.has_cf(table.tables_cf()),
        store.has_cf(CfNameMaker::spec_for_domains()),
        !table_cfs(table, stored).contains(table.tables_cf()),
        !table_cfs(table, stored).contains(CfNameMaker::spec_for_domains()),
    ensures
        table.delete_table_plan(Ok(Some(stored)), Ok(Some(domain))) is Ok,
        drops(
            store,
            table.delete_table_plan(Ok(Some(stored)), Ok(Some(domain)))->Ok_0,
            table_cfs(table, stored),
        ),
{
    let n = stored.indexes.len();
    let names = table_cfs(table, stored);
    let index_names = index_cfs(table, stored, n);
    let values = table.values_cf();
    assert(names =~= index_names + seq![values]);
    lemma_distinct_parts(index_names, seq![values]);
    assert forall|i: int| 0 <= i < index_names.len() implies store.has_cf(
        #[trigger] index_names[i],
    ) by {
        assert(names[i] == index_names[i]);
    }
    if index_names.contains(table.tables_cf()) {
        let i = choose|i: int| 0 <= i < index_names.len() && index_names[i] == table.tables_cf();
        assert(names[i] == table.tables_cf());
    }
    lemma_delete_indexes_drops(store, table, stored, n);
    let first = table.delete_indexes_effects(stored, n);
    let before = store.apply_all(first)->Ok_0;
    let plan = table.delete_table_plan(Ok(Some(stored)), Ok(Some(domain)))->Ok_0;
    let forget = EffectView::TableStoredEffect(
        TableStoredEffectView::Delete(table.tables_cf(), table.table_name),
    );
    let drop = EffectView::DeleteCf(values);
    let parent = table.put_domain_stored(domain.without_table(table.table_name));
    let step = seq![forget] + seq![drop] + seq![parent];
    assert(names[n as int] == values);
    assert(seq![values][0] == values);
    assert(before.has_cf(values));
    assert(before.has_cf(table.tables_cf()));
    assert(before.has_cf(CfNameMaker::spec_for_domains())) by {
        if index_names.contains(CfNameMaker::spec_for_domains()) {
            let i = choose|i: int|
                0 <= i < index_names.len() && index_names[i] == CfNameMaker::spec_for_domains();
            assert(names[i] == CfNameMaker::spec_for_domains());
        }
    }
    assert(plan =~= first + step);
    let forgotten = before.apply(forget)->Ok_0;
    let dropped = forgotten.apply(drop)->Ok_0;
    assert(forgotten.cfs.dom() =~= before.cfs.dom());
    assert(dropped.has_cf(CfNameMaker::spec_for_domains())) by {
        assert(values != CfNameMaker::spec_for_domains());
    }
    let after = dropped.apply(parent)->Ok_0;
    assert(after.cfs.dom() =~= dropped.cfs.dom());
    lemma_apply_all_one(before, forget);
    lemma_apply_all_one(forgotten, drop);
    lemma_apply_all_one(dropped, parent);
    lemma_apply_all_concat(before, seq![forget], seq![drop]);
    lemma_apply_all_concat(before, seq![forget] + seq![drop], seq![parent]);
    assert forall|other: Seq<char>| #[trigger]
        after.has_cf(other) <==> before.has_cf(other) && !seq![values].contains(other) by {
        if seq![values].contains(other) {
            let i = choose|i: int| 0 <= i < seq![values].len() && seq![values][i] == other;
        }
    }
    lemma_drops_concat(store, first, index_names, step, seq![values]);
}

/// The effects that delete the first `count` tables of a domain drop the
/// column families of those tables and nothing else.
pub proof fn lemma_delete_tables_drops(
    store: StoreView,
    domain: DomainReferenceView,
    stored: DomainStoredView,
    tables: Seq<TableStoredView>,
    count: nat,
)
    requires
        count <= stored.tables.len(),
        tables.len() == stored.tables.len(),
        droppable(store, tables_cfs(domain, stored, tables, count)),
        store.has_cf(domain.tables_cf()),
        store.has_cf(CfNameMaker::spec_for_domains()),
        !tables_cfs(domain, stored, tables, count).contains(domain.tables_cf()),
        !tables_cfs(domain, stored, tables, count).contains(CfNameMaker::spec_for_domains()),
    ensures
        domain.delete_tables_plan(stored, found_tables(tables), count) is Ok,
        drops(
            store,
            domain.delete_tables_plan(stored, found_tables(tables), count)->Ok_0,
            tables_cfs(domain, stored, tables, count),
        ),
    decreases count,
{
    let names = tables_cfs(domain, stored, tables, count);
    if count == 0 {
        assert forall|cf: Seq<char>| !names.contains(cf) by {}
    } else {
        let m = (count - 1) as nat;
        let table = domain.table(stored.tables[m as int]);
        let before_names = tables_cfs(domain, stored, tables, m);
        let table_names = table_cfs(table, tables[m as int]);
        let kept_tables = domain.tables_cf();
        let kept_domains = CfNameMaker::spec_for_domains();
        lemma_distinct_parts(before_names, table_names);
        assert forall|i: int| 0 <= i < before_names.len() implies store.has_cf(
            #[trigger] before_names[i],
        ) by {
            assert(names[i] == before_names[i]);
        }
        assert forall|kept: Seq<char>| !names.contains(kept) implies !before_names.contains(kept)
            && !table_names.contains(kept) by {
            if before_names.contains(kept) {
                let i = choose|i: int| 0 <= i < before_names.len() && before_names[i] == kept;
                assert(names[i] == kept);
            }
            if table_names.contains(kept) {
                let i = choose|i: int| 0 <= i < table_names.len() && table_names[i] == kept;
                assert(names[before_names.len() + i] == kept);
            }
        }
        lemma_delete_tables_drops(store, domain, stored, tables, m);
        let first = domain.delete_tables_plan(stored, found_tables(tables), m)->Ok_0;
        let before = store.apply_all(first)->Ok_0;
        assert forall|i: int| 0 <= i < table_names.len() implies before.has_cf(
            #[trigger] table_names[i],
        ) by {
            assert(names[before_names.len() + i] == table_names[i]);
        }
        assert(before.has_cf(kept_tables));
        assert(before.has_cf(kept_domains));
        assert(table.tables_cf() == kept_tables);
        lemma_delete_table_drops(before, table, tables[m as int], stored);
        lemma_drops_concat(
            store,
            first,
            before_names,
            table.delete_table_plan(Ok(Some(tables[m as int])), Ok(Some(stored)))->Ok_0,
            table_names,
        );
    }
}

/// Cascade correctness: in a store that has the column families reachable
/// from a domain, all of them different from each other and from the
/// column family of the domain records, the effects that `delete_domain`
/// plans apply without error and remove every one of them, and nothing
/// else.
pub proof fn lemma_delete_domain_cascades(
    store: StoreView,
    domain: DomainReferenceView,
    stored: DomainStoredView,
    tables: Seq<TableStoredView>,
)
    requires
        tables.len() == stored.tables.len(),
        droppable(store, domain_cfs(domain, stored, tables)),
        store.has_cf(CfNameMaker::spec_for_domains()),
        !domain_cfs(domain, stored, tables).contains(CfNameMaker::spec_for_domains()),
    ensures
        domain.delete_domain_plan(Ok(Some(stored)), found_tables(tables)) is Ok,
        drops(
            store,
            domain.delete_domain_plan(Ok(Some(stored)), found_tables(tables))->Ok_0,
            domain_cfs(domain, stored, tables),
        ),
        forall|i: int|
            0 <= i < domain_cfs(domain, stored, tables).len() ==> !store.apply_all(
                domain.delete_domain_plan(Ok(Some(stored)), found_tables(tables))->Ok_0,
            )->Ok_0.has_cf(#[trigger] domain_cfs(domain, stored, tables)[i]),
{
    let n = stored.tables.len();
    let names = domain_cfs(domain, stored, tables);
    let table_names = tables_cfs(domain, stored, tables, n);
    let records = domain.tables_cf();
    let counters = domain.counters_cf();
    let kept = CfNameMaker::spec_for_domains();
    let tail = seq![records, counters];
    assert(names =~= table_names + tail);
    lemma_distinct_parts(table_names, tail);
    assert forall|i: int| 0 <= i < table_names.len() implies store.has_cf(
        #[trigger] table_names[i],
    ) by {
        assert(names[i] == table_names[i]);
    }
    assert(tail[0] == records && tail[1] == counters);
    assert(!table_names.contains(records));
    assert(!table_names.contains(counters));
    if table_names.contains(kept) {
        let i = choose|i: int| 0 <= i < table_names.len() && table_names[i] == kept;
        assert(names[i] == kept);
    }
    assert(names[table_names.len() as int] == records);
    assert(names[table_names.len() as int + 1] == counters);
    assert(store.has_cf(records) && store.has_cf(counters));
    lemma_delete_tables_drops(store, domain, stored, tables, n);
    let first = domain.delete_tables_plan(stored, found_tables(tables), n)->Ok_0;
    let before = store.apply_all(first)->Ok_0;
    let plan = domain.delete_domain_plan(Ok(Some(stored)), found_tables(tables))->Ok_0;
    let forget = EffectView::DomainStoredEffect(
        DomainStoredEffectView::Delete(kept, domain.domain_name),
    );
    let drop_records = EffectView::DeleteCf(records);
    let drop_counters = EffectView::DeleteCf(counters);
    let step = seq![forget] + seq![drop_records] + seq![drop_counters];
    assert(plan =~= first + step);
    assert(names[table_names.len() as int] == records);
    assert(names[table_names.len() as int + 1] == counters);
    assert(records != counters);
    assert(records != kept && counters != kept);
    assert(before.has_cf(kept) && before.has_cf(records) && before.has_cf(counters));
    let forgotten = before.apply(forget)->Ok_0;
    assert(forgotten.cfs.dom() =~= before.cfs.dom());
    let dropped = forgotten.apply(drop_records)->Ok_0;
    let after = dropped.apply(drop_counters)->Ok_0;
    lemma_apply_all_one(before, forget);
    lemma_apply_all_one(forgotten, drop_records);
    lemma_apply_all_one(dropped, drop_counters);
    lemma_apply_all_concat(before, seq![forget], seq![drop_records]);
    lemma_apply_all_concat(before, seq![forget] + seq![drop_records], seq![drop_counters]);
    assert forall|other: Seq<char>| #[trigger]
        after.has_cf(other) <==> before.has_cf(other) && !tail.contains(other) by {
        if tail.contains(other) {
            let i = choose|i: int| 0 <= i < tail.len() && tail[i] == other;
        }
    }
    lemma_drops_concat(store, first, table_names, step, tail);
}

} // verus!
