//! The life of a table: absent, present without indexes, present with
//! indexes, absent again; and how a domain comes to be.
//!
//! While a table is present its record stands in the column family of its
//! domain's table records, the column family of its rows is there, and so
//! is the column family of every index that the record names.

use crate::cascade::{
    droppable, drops, index_cfs, lemma_delete_indexes_drops, lemma_delete_table_drops,
    lemma_distinct_parts, table_cfs,
};
use crate::consistency::table_answer;
use crate::entity::{
    entry_names, lemma_with_index_is_insert, lemma_without_index_is_remove, DomainStoredView,
    DomainView, IndexView, TableStoredView, TableView,
};
use crate::error::DbErrorView;
use crate::lookup::{all_different, index_in, lemma_index_in_is_first};
use crate::reference::cf_name_maker::CfNameMaker;
use crate::reference::domain_reference::DomainReferenceView;
use crate::reference::effect::{EffectView, TableStoredEffectView};
use crate::reference::index_reference::IndexReferenceView;
use crate::reference::table_reference::TableReferenceView;
use crate::store::{lemma_apply_all_concat, lemma_apply_all_one, StoreView};
use vstd::prelude::*;

verus! {

/// The column family of the index that stands under `name` in the record
/// of `table`.
pub open spec fn index_cf_of(table: TableReferenceView, name: Seq<char>) -> Seq<char> {
    CfNameMaker::spec_for_index_values(table.index(name))
}

/// The table is present with the record `stored`: the record stands in
/// the store, the column family of the rows is there, and so is the
/// column family of every index that the record names. No index name
/// occurs twice.
pub open spec fn table_present(
    store: StoreView,
    table: TableReferenceView,
    stored: TableStoredView,
) -> bool {
    &&& table_answer(store, table) == Ok::<Option<TableStoredView>, DbErrorView>(Some(stored))
    &&& stored.wf()
    &&& store.has_cf(table.values_cf())
    &&& forall|j: int|
        0 <= j < stored.indexes.len() ==> store.has_cf(
            index_cf_of(table, #[trigger] stored.indexes[j].0),
        )
}

/// The table is absent: it has no record, and the column family of its
/// rows is not there.
pub open spec fn table_absent(store: StoreView, table: TableReferenceView) -> bool {
    &&& table_answer(store, table) == Ok::<Option<TableStoredView>, DbErrorView>(None)
    &&& !store.has_cf(table.values_cf())
}

/// What the store answers when asked for the record of the domain of
/// `table`.
pub open spec fn domain_answer(store: StoreView, table: TableReferenceView) -> Result<
    Option<DomainStoredView>,
    DbErrorView,
> {
    store.domain_stored_answer(CfNameMaker::spec_for_domains(), table.domain_reference.domain_name)
}

/// A domain comes to be: the effects that `post_domain` plans for a domain
/// that has no record, in a store that has the column family of the
/// domain records but not yet that of the domain's table records, apply
/// without error; the domain then has its record, without tables, and the
/// column family of its table records is there.
pub proof fn lemma_post_domain_makes_present(
    store: StoreView,
    domain: DomainReferenceView,
    record: DomainView,
)
    requires
        store.domain_stored_answer(CfNameMaker::spec_for_domains(), domain.domain_name) == Ok::<
            Option<DomainStoredView>,
            DbErrorView,
        >(None),
        !store.has_cf(domain.tables_cf()),
    ensures
        ({
            let plan = domain.post_domain_plan(
                record,
                store.domain_stored_answer(CfNameMaker::spec_for_domains(), domain.domain_name),
            );
            &&& plan is Ok
            &&& store.apply_all(plan->Ok_0) is Ok
            &&& store.apply_all(plan->Ok_0)->Ok_0.has_cf(domain.tables_cf())
            &&& store.apply_all(plan->Ok_0)->Ok_0.domain_stored_answer(
                CfNameMaker::spec_for_domains(),
                domain.domain_name,
            ) == Ok::<Option<DomainStoredView>, DbErrorView>(
                Some(DomainStoredView { domain: record, tables: Seq::empty() }),
            )
        }),
{
    let create = EffectView::CreateCf(domain.tables_cf());
    let own = domain.put_stored(DomainStoredView { domain: record, tables: Seq::empty() });
    let created = store.apply(create)->Ok_0;
    assert(seq![create, own] =~= seq![create] + seq![own]);
    lemma_apply_all_one(store, create);
    lemma_apply_all_one(created, own);
    lemma_apply_all_concat(store, seq![create], seq![own]);
    assert(created.has_cf(CfNameMaker::spec_for_domains()));
}

/// From absent to present: the effects that `post_table` plans for an
/// absent table of a domain that has its record apply without error; the
/// table is then present without indexes, and the domain's record names
/// it.
pub proof fn lemma_post_table_makes_present(
    store: StoreView,
    table: TableReferenceView,
    record: TableView,
    domain: DomainStoredView,
)
    requires
        table_absent(store, table),
        domain_answer(store, table) == Ok::<Option<DomainStoredView>, DbErrorView>(Some(domain)),
    ensures
        ({
            let plan = table.post_table_plan(
                record,
                table_answer(store, table),
                domain_answer(store, table),
            );
            &&& plan is Ok
            &&& store.apply_all(plan->Ok_0) is Ok
            &&& table_present(
                store.apply_all(plan->Ok_0)->Ok_0,
                table,
                TableStoredView { table: record, indexes: Seq::empty() },
            )
            &&& domain_answer(store.apply_all(plan->Ok_0)->Ok_0, table) == Ok::<
                Option<DomainStoredView>,
                DbErrorView,
            >(Some(domain.with_table(table.table_name)))
        }),
{
    let create = EffectView::CreateCf(table.values_cf());
    let parent = table.put_domain_stored(domain.with_table(table.table_name));
    let own = table.put_stored(TableStoredView { table: record, indexes: Seq::empty() });
    let created = store.apply(create)->Ok_0;
    let named = created.apply(parent)->Ok_0;
    let recorded = named.apply(own)->Ok_0;
    let plan = seq![create, parent, own];
    assert(plan =~= seq![create] + seq![parent] + seq![own]);
    lemma_apply_all_one(store, create);
    lemma_apply_all_one(created, parent);
    lemma_apply_all_one(named, own);
    lemma_apply_all_concat(store, seq![create], seq![parent]);
    lemma_apply_all_concat(store, seq![create] + seq![parent], seq![own]);
    assert(created.has_cf(CfNameMaker::spec_for_domains()));
    assert(created.has_cf(table.tables_cf()));
    assert(named.has_cf(table.tables_cf()));
}

/// From present to present with one more index: the effects that
/// `post_index` plans for an index that the table does not have, and whose
/// column family is not there, apply without error; the table is then
/// present with the index added to its record.
pub proof fn lemma_post_index_keeps_present(
    store: StoreView,
    reference: IndexReferenceView,
    index: IndexView,
    stored: TableStoredView,
)
    requires
        table_present(store, reference.table_reference, stored),
        stored.index(reference.index_name) is None,
        !store.has_cf(reference.value_cf_name()),
    ensures
        ({
            let plan = reference.post_index_plan(
                index,
                table_answer(store, reference.table_reference),
            );
            &&& plan is Ok
            &&& store.apply_all(plan->Ok_0) is Ok
            &&& table_present(
                store.apply_all(plan->Ok_0)->Ok_0,
                reference.table_reference,
                stored.with_index(reference.index_name, index),
            )
            &&& store.apply_all(plan->Ok_0)->Ok_0.has_cf(reference.value_cf_name())
        }),
{
    let table = reference.table_reference;
    let after_record = stored.with_index(reference.index_name, index);
    let create = EffectView::CreateCf(reference.value_cf_name());
    let own = table.put_stored(after_record);
    let created = store.apply(create)->Ok_0;
    let recorded = created.apply(own)->Ok_0;
    assert(seq![create, own] =~= seq![create] + seq![own]);
    lemma_apply_all_one(store, create);
    lemma_apply_all_one(created, own);
    lemma_apply_all_concat(store, seq![create], seq![own]);
    lemma_with_index_is_insert(stored, reference.index_name, index);
    assert(created.has_cf(table.tables_cf()));
    assert forall|j: int| 0 <= j < after_record.indexes.len() implies recorded.has_cf(
        index_cf_of(table, #[trigger] after_record.indexes[j].0),
    ) by {
        if j < stored.indexes.len() {
            assert(after_record.indexes[j] == stored.indexes[j]);
            assert(store.has_cf(index_cf_of(table, stored.indexes[j].0)));
        }
    }
}

/// From present to present with one index less: the effects that
/// `delete_index` plans for an index that the table has, and whose column
/// family is none of the table's other column families, apply without
/// error; the table is then present with the index taken from its record,
/// and the column family of the index is gone.
pub proof fn lemma_delete_index_keeps_present(
    store: StoreView,
    reference: IndexReferenceView,
    stored: TableStoredView,
)
    requires
        table_present(store, reference.table_reference, stored),
        stored.index(reference.index_name) is Some,
        all_different(table_cfs(reference.table_reference, stored)),
        !table_cfs(reference.table_reference, stored).contains(
            reference.table_reference.tables_cf(),
        ),
    ensures
        ({
            let plan = reference.delete_index_plan(table_answer(store, reference.table_reference));
            &&& plan is Ok
            &&& store.apply_all(plan->Ok_0) is Ok
            &&& table_present(
                store.apply_all(plan->Ok_0)->Ok_0,
                reference.table_reference,
                stored.without_index(reference.index_name),
            )
            &&& !store.apply_all(plan->Ok_0)->Ok_0.has_cf(reference.value_cf_name())
        }),
{
    let table = reference.table_reference;
    let name = reference.index_name;
    let names = entry_names(stored.indexes);
    let cfs = table_cfs(table, stored);
    let n = stored.indexes.len() as int;
    let at = index_in(names, name) as int;
    lemma_index_in_is_first(names, name);
    assert(stored.indexes[at].0 == name);
    let gone = reference.value_cf_name();
    assert(cfs[at] == gone);
    assert(cfs[n] == table.values_cf());
    if gone == table.tables_cf() {
        assert(cfs.contains(table.tables_cf()));
    }
    let after_record = stored.without_index(name);
    let own = table.put_stored(after_record);
    let drop = EffectView::DeleteCf(gone);
    let recorded = store.apply(own)->Ok_0;
    let dropped = recorded.apply(drop)->Ok_0;
    assert(index_cf_of(table, stored.indexes[at].0) == gone);
    assert(store.has_cf(gone));
    assert(recorded.cfs.dom() =~= store.cfs.dom());
    assert(seq![own, drop] =~= seq![own] + seq![drop]);
    lemma_apply_all_one(store, own);
    lemma_apply_all_one(recorded, drop);
    lemma_apply_all_concat(store, seq![own], seq![drop]);
    lemma_without_index_is_remove(stored, name);
    assert forall|j: int| 0 <= j < after_record.indexes.len() implies dropped.has_cf(
        index_cf_of(table, #[trigger] after_record.indexes[j].0),
    ) by {
        let k = if j < at {
            j
        } else {
            j + 1
        };
        assert(after_record.indexes[j] == stored.indexes[k]);
        assert(store.has_cf(index_cf_of(table, stored.indexes[k].0)));
        assert(cfs[k] == index_cf_of(table, stored.indexes[k].0));
        assert(cfs[k] != cfs[at]);
    }
}

/// The effects that delete the first `count` indexes of a table leave the
/// records of all other tables as they were.
pub proof fn lemma_delete_indexes_keeps_records(
    store: StoreView,
    table: TableReferenceView,
    stored: TableStoredView,
    count: nat,
)
    requires
        count <= stored.indexes.len(),
        droppable(store, index_cfs(table, stored, count)),
        store.has_cf(table.tables_cf()),
        !index_cfs(table, stored, count).contains(table.tables_cf()),
    ensures
        drops(store, table.delete_indexes_effects(stored, count), index_cfs(table, stored, count)),
        ({
            let after = store.apply_all(table.delete_indexes_effects(stored, count))->Ok_0;
            let records = table.tables_cf();
            &&& after.cfs[records].tables.remove(table.table_name)
                == store.cfs[records].tables.remove(table.table_name)
            &&& after.cfs[records].domains == store.cfs[records].domains
        }),
    decreases count,
{
    lemma_delete_indexes_drops(store, table, stored, count);
    if count > 0 {
        let m = (count - 1) as nat;
        let names = index_cfs(table, stored, count);
        let before_names = index_cfs(table, stored, m);
        let name = stored.indexes[m as int].0;
        let cf = index_cf_of(table, name);
        assert(names =~= before_names + seq![cf]);
        lemma_distinct_parts(before_names, seq![cf]);
        assert forall|i: int| 0 <= i < before_names.len() implies store.has_cf(
            #[trigger] before_names[i],
        ) by {
            assert(names[i] == before_names[i]);
        }
        if before_names.contains(table.tables_cf()) {
            let i = choose|i: int|
                0 <= i < before_names.len() && before_names[i] == table.tables_cf();
            assert(names[i] == table.tables_cf());
        }
        lemma_delete_indexes_keeps_records(store, table, stored, m);
        let first = table.delete_indexes_effects(stored, m);
        let before = store.apply_all(first)->Ok_0;
        let record = table.put_stored(stored.without_index(name));
        let drop = EffectView::DeleteCf(cf);
        let step = table.delete_index_effects(stored, name);
        assert(step =~= seq![record] + seq![drop]);
        assert(names[m as int] == cf);
        assert(before.has_cf(table.tables_cf()));
        assert(before.has_cf(cf));
        assert(cf != table.tables_cf());
        let recorded = before.apply(record)->Ok_0;
        let after = recorded.apply(drop)->Ok_0;
        lemma_apply_all_one(before, record);
        lemma_apply_all_one(recorded, drop);
        lemma_apply_all_concat(before, seq![record], seq![drop]);
        lemma_apply_all_concat(store, first, step);
        assert(after.cfs[table.tables_cf()].tables.remove(table.table_name)
            =~= store.cfs[table.tables_cf()].tables.remove(table.table_name));
    }
}

/// From present to absent: the effects that `delete_table` plans for a
/// present table whose column families are all different, and none of
/// them that of the table records or of the domain records, apply without
/// error; the table is then absent, the column families of its indexes
/// are gone, and the domain's record names it no longer.
pub proof fn lemma_delete_table_makes_absent(
    store: StoreView,
    table: TableReferenceView,
    stored: TableStoredView,
    domain: DomainStoredView,
)
    requires
        table_present(store, table, stored),
        domain_answer(store, table) == Ok::<Option<DomainStoredView>, DbErrorView>(Some(domain)),
        all_different(table_cfs(table, stored)),
        !table_cfs(table, stored).contains(table.tables_cf()),
        !table_cfs(table, stored).contains(CfNameMaker::spec_for_domains()),
    ensures
        ({
            let plan = table.delete_table_plan(
                table_answer(store, table),
                domain_answer(store, table),
            );
            &&& plan is Ok
            &&& store.apply_all(plan->Ok_0) is Ok
            &&& table_absent(store.apply_all(plan->Ok_0)->Ok_0, table)
            &&& forall|j: int|
                0 <= j < stored.indexes.len() ==> !store.apply_all(plan->Ok_0)->Ok_0.has_cf(
                    index_cf_of(table, #[trigger] stored.indexes[j].0),
                )
            &&& domain_answer(store.apply_all(plan->Ok_0)->Ok_0, table) == Ok::<
                Option<DomainStoredView>,
                DbErrorView,
            >(Some(domain.without_table(table.table_name)))
        }),
{
    let n = stored.indexes.len();
    let cfs = table_cfs(table, stored);
    let index_names = index_cfs(table, stored, n);
    let values = table.values_cf();
    let kept = CfNameMaker::spec_for_domains();
    assert(cfs =~= index_names + seq![values]);
    assert forall|i: int| 0 <= i < cfs.len() implies store.has_cf(#[trigger] cfs[i]) by {
        if i < n {
            assert(cfs[i] == index_cf_of(table, stored.indexes[i].0));
        }
    }
    lemma_delete_table_drops(store, table, stored, domain);
    lemma_distinct_parts(index_names, seq![values]);
    assert forall|i: int| 0 <= i < index_names.len() implies store.has_cf(
        #[trigger] index_names[i],
    ) by {
        assert(cfs[i] == index_names[i]);
    }
    assert forall|name: Seq<char>| !cfs.contains(name) implies !index_names.contains(name) by {
        if index_names.contains(name) {
            let i = choose|i: int| 0 <= i < index_names.len() && index_names[i] == name;
            assert(cfs[i] == name);
        }
    }
    lemma_delete_indexes_keeps_records(store, table, stored, n);
    let first = table.delete_indexes_effects(stored, n);
    let before = store.apply_all(first)->Ok_0;
    let plan = table.delete_table_plan(Ok(Some(stored)), Ok(Some(domain)))->Ok_0;
    let forget = EffectView::TableStoredEffect(
        TableStoredEffectView::Delete(table.tables_cf(), table.table_name),
    );
    let drop = EffectView::DeleteCf(values);
    let parent = table.put_domain_stored(domain.without_table(table.table_name));
    let step = seq![forget] + seq![drop] + seq![parent];
    assert(plan =~= first + step);
    assert(cfs[n as int] == values);
    assert(before.has_cf(values) && before.has_cf(table.tables_cf()) && before.has_cf(kept));
    assert(values != table.tables_cf() && values != kept);
    let forgotten = before.apply(forget)->Ok_0;
    let dropped = forgotten.apply(drop)->Ok_0;
    let after = dropped.apply(parent)->Ok_0;
    assert(forgotten.cfs.dom() =~= before.cfs.dom());
    lemma_apply_all_one(before, forget);
    lemma_apply_all_one(forgotten, drop);
    lemma_apply_all_one(dropped, parent);
    lemma_apply_all_concat(before, seq![forget], seq![drop]);
    lemma_apply_all_concat(before, seq![forget] + seq![drop], seq![parent]);
    lemma_apply_all_concat(store, first, step);
    assert forall|j: int| 0 <= j < stored.indexes.len() implies !after.has_cf(
        index_cf_of(table, #[trigger] stored.indexes[j].0),
    ) by {
        assert(cfs[j] == index_cf_of(table, stored.indexes[j].0));
        assert(cfs.contains(cfs[j]));
    }
    assert(cfs.contains(values));
}

} // verus!
