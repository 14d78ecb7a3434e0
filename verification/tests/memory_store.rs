use ondo::entity::{Domain, Index, Table};
use ondo::error::DbError;
use ondo::key::{KeyPart, OndoKey};
use ondo::memory::engine::MemoryStore;
use ondo::reference::cf_name_maker::CfNameMaker;
use ondo::reference::domain_reference::DomainReference;
use ondo::reference::effect::{Effect, TableValueEffect};
use ondo::reference::index_reference::IndexReference;
use ondo::reference::table_reference::TableReference;
use ondo::reference::table_value_reference::{CreateTableValueReference, TableValueReference};
use ondo::value::{Number, TableValue};

fn number(n: u64) -> TableValue {
    TableValue::Number(Number::PosInt(n))
}

fn text(s: &str) -> TableValue {
    TableValue::String(s.to_owned())
}

fn object(members: Vec<(&str, TableValue)>) -> TableValue {
    TableValue::Object(members.into_iter().map(|(name, value)| (name.to_owned(), value)).collect())
}

fn row(id: u64, name: &str, age: u64) -> TableValue {
    object(vec![("_id", number(id)), ("name", text(name)), ("age", number(age))])
}

fn int_key(parts: Vec<u64>) -> OndoKey {
    OndoKey::new(parts.into_iter().map(|n| KeyPart::Number(Number::PosInt(n))).collect())
}

fn index(name: &str, field: &str) -> Index {
    Index { reference: IndexReference::new("d", "t", name), fields: vec![field.to_owned()] }
}

/// A store with the domain `d` and its table `t`.
fn store_with_table() -> MemoryStore {
    let mut store = MemoryStore::new();
    store.apply_effect(&Effect::CreateCf(CfNameMaker::for_domains())).unwrap();
    let domain = DomainReference::build("d");
    store.apply_effect(&Effect::CreateCf(domain.cf_name_for_table_counters())).unwrap();
    let effects = domain.post_domain(&Domain { id: DomainReference::build("d") }, &store).unwrap();
    store.apply_effects(&effects).unwrap();
    let table = TableReference::build("d", "t");
    let effects = table
        .post_table(&Table { reference: TableReference::build("d", "t") }, &store, &store)
        .unwrap();
    store.apply_effects(&effects).unwrap();
    store
}

fn post(store: &mut MemoryStore, value: TableValue) -> OndoKey {
    let reference =
        CreateTableValueReference { table_reference: TableReference::build("d", "t"), id: None };
    let mut value = value;
    let (id, effects) = reference.post_table_value(&mut value, &*store, &*store, &*store).unwrap();
    store.apply_effects(&effects).unwrap();
    id
}

fn entries(store: &MemoryStore, name: &str) -> Vec<OndoKey> {
    IndexReference::new("d", "t", name)
        .all_index_values_with_key_prefix(OndoKey::new(vec![]), &store.index_scans())
        .unwrap()
        .into_iter()
        .map(|item| item.unwrap())
        .collect()
}

#[test]
fn effects_fail_on_unknown_column_families() {
    let mut store = MemoryStore::new();
    let put = Effect::TableValueEffect(TableValueEffect::Put(
        "nowhere".to_owned(),
        OndoKey::from_u64(1),
        number(1),
    ));
    assert_eq!(store.apply_effect(&put), Err(DbError::CfNotFound));
    assert_eq!(
        store.apply_effect(&Effect::DeleteCf("nowhere".to_owned())),
        Err(DbError::CfNotFound)
    );
    assert_eq!(store.apply_effect(&Effect::CreateCf("here".to_owned())), Ok(()));
    assert_eq!(
        store.apply_effect(&Effect::CreateCf("here".to_owned())),
        Err(DbError::AlreadyExists)
    );
    assert_eq!(store.table_value("nowhere", &OndoKey::from_u64(1)), Err(DbError::CfNotFound));
    assert_eq!(store.scan_all("nowhere"), Err(DbError::CfNotFound));
}

#[test]
fn the_first_failure_ends_the_run_without_rolling_back() {
    let mut store = MemoryStore::new();
    let effects = vec![
        Effect::CreateCf("a".to_owned()),
        Effect::TableValueEffect(TableValueEffect::Put(
            "a".to_owned(),
            OndoKey::from_u64(1),
            number(10),
        )),
        Effect::DeleteCf("b".to_owned()),
        Effect::TableValueEffect(TableValueEffect::Put(
            "a".to_owned(),
            OndoKey::from_u64(2),
            number(20),
        )),
    ];
    assert_eq!(store.apply_effects(&effects), Err(DbError::CfNotFound));
    assert_eq!(store.table_value("a", &OndoKey::from_u64(1)), Ok(Some(number(10))));
    assert_eq!(store.table_value("a", &OndoKey::from_u64(2)), Ok(None));
}

#[test]
fn posted_domain_and_table_are_stored() {
    let store = store_with_table();
    let domain = DomainReference::build("d");
    let table = TableReference::build("d", "t");
    assert_eq!(domain.get_domain(&store), Ok(Some(Domain { id: DomainReference::build("d") })));
    assert_eq!(domain.list_table_names(&store), Ok(vec!["t".to_owned()]));
    assert_eq!(
        table.get_table(&store),
        Ok(Some(Table { reference: TableReference::build("d", "t") }))
    );
    assert_eq!(table.list_index_names(&store), Ok(vec![]));
    assert_eq!(
        table.post_table(&Table { reference: TableReference::build("d", "t") }, &store, &store),
        Err(DbError::AlreadyExists)
    );
}

#[test]
fn counter_assigns_ascending_ids() {
    let mut store = store_with_table();
    assert_eq!(post(&mut store, object(vec![("name", text("Ada"))])), int_key(vec![1]));
    assert_eq!(post(&mut store, object(vec![("name", text("Bob"))])), int_key(vec![2]));
    let second = TableValueReference::build("d", "t", int_key(vec![2]));
    assert_eq!(
        second.get_table_value(&store),
        Ok(Some(object(vec![("_id", number(2)), ("name", text("Bob"))])))
    );
}

#[test]
fn scans_hand_out_rows_in_key_order() {
    let mut store = store_with_table();
    for (id, name) in [(3u64, "c"), (1, "a"), (2, "b"), (10, "j")] {
        let reference = CreateTableValueReference {
            table_reference: TableReference::build("d", "t"),
            id: Some(OndoKey::from_u64(id)),
        };
        let mut value = row(id, name, 20 + id);
        let (_, effects) = reference.post_table_value(&mut value, &store, &store, &store).unwrap();
        store.apply_effects(&effects).unwrap();
    }
    let table = TableReference::build("d", "t");
    let all: Vec<TableValue> =
        table.all_values(&store).unwrap().into_iter().map(|item| item.unwrap()).collect();
    assert_eq!(all, vec![row(1, "a", 21), row(2, "b", 22), row(3, "c", 23), row(10, "j", 30)]);
    let range: Vec<TableValue> = table
        .all_values_with_key_range(OndoKey::from_u64(2), OndoKey::from_u64(10), &store)
        .unwrap()
        .into_iter()
        .map(|item| item.unwrap())
        .collect();
    assert_eq!(range, vec![row(2, "b", 22), row(3, "c", 23)]);
    let prefix: Vec<TableValue> = table
        .all_values_with_key_prefix(OndoKey::from_u64(3), &store)
        .unwrap()
        .into_iter()
        .map(|item| item.unwrap())
        .collect();
    assert_eq!(prefix, vec![row(3, "c", 23)]);
}

#[test]
fn index_follows_the_rows() {
    let mut store = store_with_table();
    let reference = IndexReference::new("d", "t", "by_age");
    let effects = reference.post_index(&index("by_age", "age"), &store).unwrap();
    store.apply_effects(&effects).unwrap();

    let ada = post(&mut store, object(vec![("name", text("Ada")), ("age", number(36))]));
    let bob = post(&mut store, object(vec![("name", text("Bob")), ("age", number(25))]));
    let cyd = post(&mut store, object(vec![("name", text("Cyd")), ("age", number(36))]));
    assert_eq!(entries(&store, "by_age"), vec![bob.clone(), ada.clone(), cyd.clone()]);

    // Replace a row: its old entry leaves, its new one comes.
    let target = TableValueReference::build("d", "t", ada.clone());
    let effects = target
        .put_table_value(
            &object(vec![("_id", number(1)), ("name", text("Ada")), ("age", number(20))]),
            &store,
            &store,
        )
        .unwrap();
    store.apply_effects(&effects).unwrap();
    assert_eq!(entries(&store, "by_age"), vec![ada.clone(), bob.clone(), cyd.clone()]);

    // Delete a row: its entry leaves.
    let target = TableValueReference::build("d", "t", bob.clone());
    let effects = target.delete_table_value(&store, &store).unwrap();
    store.apply_effects(&effects).unwrap();
    assert_eq!(entries(&store, "by_age"), vec![ada.clone(), cyd.clone()]);

    // Rows come back through the index, in index order.
    let rows: Vec<TableValue> = reference
        .all_values_with_key_prefix(OndoKey::new(vec![]), &store, &store.index_scans())
        .unwrap()
        .into_iter()
        .map(|item| item.unwrap())
        .collect();
    assert_eq!(
        rows,
        vec![
            object(vec![("_id", number(1)), ("name", text("Ada")), ("age", number(20))]),
            object(vec![("_id", number(3)), ("name", text("Cyd")), ("age", number(36))]),
        ]
    );
    let in_range = reference
        .all_index_values_with_key_range(
            int_key(vec![30, 0]),
            int_key(vec![40, 0]),
            &store.index_scans(),
        )
        .unwrap();
    assert_eq!(in_range, vec![Ok(cyd)]);
}

#[test]
fn put_index_rebuilds_the_index_from_the_rows() {
    let mut store = store_with_table();
    let reference = IndexReference::new("d", "t", "i");
    let effects = reference.post_index(&index("i", "age"), &store).unwrap();
    store.apply_effects(&effects).unwrap();
    let ada = post(&mut store, object(vec![("name", text("Ada")), ("age", number(36))]));
    let bob = post(&mut store, object(vec![("name", text("Bob")), ("age", number(25))]));
    assert_eq!(entries(&store, "i"), vec![bob.clone(), ada.clone()]);

    let effects = reference.put_index(&index("i", "name"), &store, &store).unwrap();
    store.apply_effects(&effects).unwrap();
    assert_eq!(reference.get_index(&store), Ok(Some(index("i", "name"))));
    assert_eq!(entries(&store, "i"), vec![ada.clone(), bob.clone()]);
    let keys: Vec<TableValue> = store
        .scan_all("d::/t/indexes/i")
        .unwrap()
        .into_iter()
        .map(|item| item.unwrap())
        .collect();
    assert_eq!(keys, vec![number(1), number(2)]);
    assert_eq!(
        store.table_value(
            "d::/t/indexes/i",
            &OndoKey::new(vec![
                KeyPart::Text("Bob".to_owned()),
                KeyPart::Number(Number::PosInt(2)),
            ]),
        ),
        Ok(Some(number(2)))
    );
}

#[test]
fn an_index_entry_without_its_row_is_not_found() {
    let mut store = store_with_table();
    let reference = IndexReference::new("d", "t", "i");
    let effects = reference.post_index(&index("i", "age"), &store).unwrap();
    store.apply_effects(&effects).unwrap();
    let stale = Effect::TableValueEffect(TableValueEffect::Put(
        "d::/t/indexes/i".to_owned(),
        int_key(vec![5, 9]),
        number(9),
    ));
    store.apply_effect(&stale).unwrap();
    let broken = Effect::TableValueEffect(TableValueEffect::Put(
        "d::/t/indexes/i".to_owned(),
        int_key(vec![6, 9]),
        object(vec![]),
    ));
    store.apply_effect(&broken).unwrap();
    assert_eq!(
        reference.all_values_with_key_prefix(OndoKey::new(vec![]), &store, &store.index_scans()),
        Ok(vec![
            Err(DbError::NotFound),
            Err(DbError::Other("Failed to deserialize OndoKey from index value".to_owned())),
        ])
    );
}

#[test]
fn delete_domain_removes_every_column_family_of_the_domain() {
    let mut store = store_with_table();
    let table = TableReference::build("d", "u");
    let effects =
        table
            .post_table(&Table { reference: TableReference::build("d", "u") }, &store, &store)
            .unwrap();
    store.apply_effects(&effects).unwrap();
    for name in ["i", "j"] {
        let effects =
            IndexReference::new("d", "t", name).post_index(&index(name, "age"), &store).unwrap();
        store.apply_effects(&effects).unwrap();
    }
    let reachable = [
        "/domains/d/tables",
        "/domains/d/counters",
        "d::/t",
        "d::/u",
        "d::/t/indexes/i",
        "d::/t/indexes/j",
    ];
    for cf in reachable {
        assert!(store.scan_all(cf).is_ok(), "{} is there", cf);
    }
    let effects = DomainReference::build("d").delete_domain(&store, &store).unwrap();
    assert_eq!(store.apply_effects(&effects), Ok(()));
    for cf in reachable {
        assert_eq!(store.scan_all(cf), Err(DbError::CfNotFound), "{} is gone", cf);
    }
    assert!(store.scan_all("/domains").is_ok());
    assert_eq!(DomainReference::build("d").get_domain(&store), Ok(None));
}

#[test]
fn delete_domain_that_is_not_there() {
    let mut store = MemoryStore::new();
    store.apply_effect(&Effect::CreateCf("/domains".to_owned())).unwrap();
    assert_eq!(
        DomainReference::build("d").delete_domain(&store, &store),
        Err(DbError::DomainNotInitialized)
    );
}

#[test]
fn counter_that_holds_no_count_is_refused() {
    let mut store = store_with_table();
    let broken = Effect::TableValueEffect(TableValueEffect::Put(
        "/domains/d/counters".to_owned(),
        OndoKey::from_text("t"),
        text("seven"),
    ));
    store.apply_effect(&broken).unwrap();
    let reference =
        CreateTableValueReference { table_reference: TableReference::build("d", "t"), id: None };
    let mut value = object(vec![]);
    assert_eq!(
        reference.post_table_value(&mut value, &store, &store, &store),
        Err(DbError::Other("counter does not hold a count".to_owned()))
    );
    assert_eq!(value, object(vec![]));
    let full = Effect::TableValueEffect(TableValueEffect::Put(
        "/domains/d/counters".to_owned(),
        OndoKey::from_text("t"),
        number(u64::MAX),
    ));
    store.apply_effect(&full).unwrap();
    assert_eq!(
        reference.post_table_value(&mut value, &store, &store, &store),
        Err(DbError::Other("counter is exhausted".to_owned()))
    );
}

#[test]
fn writes_against_the_store_keep_the_index_with_the_rows() {
    let mut store = store_with_table();
    let by_age = IndexReference::new("d", "t", "by_age");
    let effects = by_age.post_index(&index("by_age", "age"), &store).unwrap();
    store.apply_effects(&effects).unwrap();

    let create =
        CreateTableValueReference { table_reference: TableReference::build("d", "t"), id: None };
    let mut ada = object(vec![("name", text("Ada")), ("age", number(36))]);
    assert_eq!(store.post_table_value(&create, &mut ada), Ok(int_key(vec![1])));
    assert_eq!(ada, object(vec![("_id", number(1)), ("name", text("Ada")), ("age", number(36))]));
    let mut bob = object(vec![("name", text("Bob")), ("age", number(25))]);
    assert_eq!(store.post_table_value(&create, &mut bob), Ok(int_key(vec![2])));
    assert_eq!(entries(&store, "by_age"), vec![int_key(vec![2]), int_key(vec![1])]);

    let first = TableValueReference::build("d", "t", int_key(vec![1]));
    assert_eq!(store.put_table_value(&first, &row(1, "Ada", 20)), Ok(()));
    assert_eq!(entries(&store, "by_age"), vec![int_key(vec![1]), int_key(vec![2])]);
    assert_eq!(
        store.scan_all("d::/t/indexes/by_age"),
        Ok(vec![Ok(number(1)), Ok(number(2))])
    );

    let missing = TableValueReference::build("d", "t", int_key(vec![9]));
    assert_eq!(store.put_table_value(&missing, &row(9, "Zed", 1)), Err(DbError::NotFound));
    assert_eq!(store.delete_table_value(&missing), Err(DbError::NotFound));
    assert_eq!(entries(&store, "by_age"), vec![int_key(vec![1]), int_key(vec![2])]);

    assert_eq!(store.delete_table_value(&first), Ok(()));
    assert_eq!(entries(&store, "by_age"), vec![int_key(vec![2])]);
    assert_eq!(first.get_table_value(&store), Ok(None));

    assert_eq!(store.put_index(&by_age, &index("by_age", "name")), Ok(()));
    assert_eq!(
        store.table_value(
            "d::/t/indexes/by_age",
            &OndoKey::new(vec![
                KeyPart::Text("Bob".to_owned()),
                KeyPart::Number(Number::PosInt(2)),
            ]),
        ),
        Ok(Some(number(2)))
    );
    assert_eq!(
        store.put_index(&IndexReference::new("d", "t", "none"), &index("none", "age")),
        Err(DbError::IndexNotInitialized)
    );

    assert_eq!(store.delete_domain(&DomainReference::build("d")), Ok(()));
    assert_eq!(store.scan_all("d::/t"), Err(DbError::CfNotFound));
    assert_eq!(store.scan_all("d::/t/indexes/by_age"), Err(DbError::CfNotFound));
    assert_eq!(
        store.delete_domain(&DomainReference::build("d")),
        Err(DbError::DomainNotInitialized)
    );
}

#[test]
fn a_plan_that_fails_half_way_stays_half_applied() {
    let mut store = store_with_table();
    let by_age = IndexReference::new("d", "t", "by_age");
    let effects = by_age.post_index(&index("by_age", "age"), &store).unwrap();
    store.apply_effects(&effects).unwrap();
    store.apply_effect(&Effect::DeleteCf("d::/t/indexes/by_age".to_owned())).unwrap();
    let create = CreateTableValueReference {
        table_reference: TableReference::build("d", "t"),
        id: Some(int_key(vec![5])),
    };
    let mut value = row(5, "Eve", 50);
    assert_eq!(store.post_table_value(&create, &mut value), Err(DbError::CfNotFound));
    assert_eq!(store.table_value("d::/t", &int_key(vec![5])), Ok(Some(row(5, "Eve", 50))));
    assert_eq!(store.run(Err(DbError::NotFound)), Err(DbError::NotFound));
    assert_eq!(store.run(Ok(vec![])), Ok(()));
}
