use ondo::entity::{Domain, DomainStored, Index, Table, TableStored};
use ondo::error::{DbError, DbResult};
use ondo::key::{KeyPart, OndoKey};
use ondo::reference::column_value_reference::ColumnValueReference;
use ondo::reference::domain_reference::DomainReference;
use ondo::reference::effect::{
    DomainStoredEffect, Effect, Effects, TableStoredEffect, TableValueEffect,
};
use ondo::reference::index_reference::IndexReference;
use ondo::reference::requests::{
    ColumnValueRequests, DomainStoredRequests, TableStoredRequests, TableValueRequests,
};
use ondo::reference::table_reference::TableReference;
use ondo::reference::table_value_reference::{CreateTableValueReference, TableValueReference};
use ondo::value::{Number, TableValue};

struct Domains(DbResult<Option<DomainStored>>);

impl DomainStoredRequests for Domains {
    fn get_domain_stored(&self, _cf_name: &str, _key: &String) -> DbResult<Option<DomainStored>> {
        self.0.clone()
    }
}

struct Tables(DbResult<Option<TableStored>>);

impl TableStoredRequests for Tables {
    fn get_table_stored(&self, _cf_name: &str, _key: &String) -> DbResult<Option<TableStored>> {
        self.0.clone()
    }
}

struct Rows(DbResult<Option<TableValue>>);

impl TableValueRequests for Rows {
    fn get_table_value(
        &self,
        _cf_name: &str,
        _key: &TableValueReference,
    ) -> DbResult<Option<TableValue>> {
        self.0.clone()
    }
}

struct Counter(u64);

impl ColumnValueRequests for Counter {
    fn increment_column_value(&self, reference: &ColumnValueReference) -> DbResult<(u64, Effects)> {
        let next = self.0 + 1;
        Ok((
            next,
            vec![Effect::TableValueEffect(TableValueEffect::Put(
                reference.column_reference.clone(),
                reference.id.clone(),
                TableValue::Number(Number::PosInt(next)),
            ))],
        ))
    }
}

fn number(n: u64) -> TableValue {
    TableValue::Number(Number::PosInt(n))
}

fn text(s: &str) -> TableValue {
    TableValue::String(s.to_owned())
}

fn object(members: Vec<(&str, TableValue)>) -> TableValue {
    TableValue::Object(members.into_iter().map(|(name, value)| (name.to_owned(), value)).collect())
}

fn domain() -> Domain {
    Domain { id: DomainReference::build("d") }
}

fn table() -> Table {
    Table { reference: TableReference::build("d", "t") }
}

fn age_index() -> Index {
    Index { reference: IndexReference::new("d", "t", "i"), fields: vec!["age".to_owned()] }
}

fn table_stored_with_index() -> TableStored {
    TableStored { table: table(), indexes: vec![("i".to_owned(), age_index())] }
}

fn int_key(parts: Vec<u64>) -> OndoKey {
    OndoKey::new(parts.into_iter().map(|n| KeyPart::Number(Number::PosInt(n))).collect())
}

#[test]
fn post_a_brand_new_domain() {
    let effects = DomainReference::build("d").post_domain(&domain(), &Domains(Ok(None)));
    assert_eq!(
        effects,
        Ok(vec![
            Effect::CreateCf("/domains/d/tables".to_owned()),
            Effect::DomainStoredEffect(DomainStoredEffect::Put(
                "/domains".to_owned(),
                "d".to_owned(),
                DomainStored { domain: domain(), tables: vec![] },
            )),
        ])
    );
}

#[test]
fn post_a_domain_that_exists() {
    let stored = DomainStored { domain: domain(), tables: vec![] };
    let effects = DomainReference::build("d").post_domain(&domain(), &Domains(Ok(Some(stored))));
    assert_eq!(effects, Err(DbError::AlreadyExists));
}

#[test]
fn put_and_get_and_list_a_domain() {
    let reference = DomainReference::build("d");
    let stored = DomainStored { domain: domain(), tables: vec!["t".to_owned(), "u".to_owned()] };
    let found = Domains(Ok(Some(stored.clone())));
    assert_eq!(reference.get_domain(&found), Ok(Some(domain())));
    assert_eq!(reference.get_domain(&Domains(Ok(None))), Ok(None));
    assert_eq!(reference.list_table_names(&found), Ok(vec!["t".to_owned(), "u".to_owned()]));
    assert_eq!(
        reference.list_table_names(&Domains(Ok(None))),
        Err(DbError::DomainNotInitialized)
    );
    assert_eq!(
        reference.put_domain(&domain(), &found),
        Ok(vec![Effect::DomainStoredEffect(DomainStoredEffect::Put(
            "/domains".to_owned(),
            "d".to_owned(),
            stored,
        ))])
    );
    assert_eq!(
        reference.put_domain(&domain(), &Domains(Ok(None))),
        Err(DbError::DomainNotInitialized)
    );
}

#[test]
fn post_a_table_when_none_exists() {
    let parent = Domains(Ok(Some(DomainStored { domain: domain(), tables: vec![] })));
    let effects = TableReference::build("d", "t").post_table(&table(), &Tables(Ok(None)), &parent);
    assert_eq!(
        effects,
        Ok(vec![
            Effect::CreateCf("d::/t".to_owned()),
            Effect::DomainStoredEffect(DomainStoredEffect::Put(
                "/domains".to_owned(),
                "d".to_owned(),
                DomainStored { domain: domain(), tables: vec!["t".to_owned()] },
            )),
            Effect::TableStoredEffect(TableStoredEffect::Put(
                "/domains/d/tables".to_owned(),
                "t".to_owned(),
                TableStored { table: table(), indexes: vec![] },
            )),
        ])
    );
}

#[test]
fn post_a_table_without_its_domain() {
    let effects =
        TableReference::build("d", "t").post_table(&table(), &Tables(Ok(None)), &Domains(Ok(None)));
    assert_eq!(effects, Err(DbError::DomainNotInitialized));
}

#[test]
fn put_a_table_keeps_its_indexes() {
    let effects =
        TableReference::build("d", "t")
            .put_table(&table(), &Tables(Ok(Some(table_stored_with_index()))));
    assert_eq!(
        effects,
        Ok(vec![Effect::TableStoredEffect(TableStoredEffect::Put(
            "/domains/d/tables".to_owned(),
            "t".to_owned(),
            table_stored_with_index(),
        ))])
    );
}

#[test]
fn delete_a_table_with_an_index() {
    let parent = Domains(Ok(Some(DomainStored {
        domain: domain(),
        tables: vec!["s".to_owned(), "t".to_owned()],
    })));
    let effects = TableReference::build("d", "t")
        .delete_table(&Tables(Ok(Some(table_stored_with_index()))), &parent);
    assert_eq!(
        effects,
        Ok(vec![
            Effect::TableStoredEffect(TableStoredEffect::Put(
                "/domains/d/tables".to_owned(),
                "t".to_owned(),
                TableStored { table: table(), indexes: vec![] },
            )),
            Effect::DeleteCf("d::/t/indexes/i".to_owned()),
            Effect::TableStoredEffect(TableStoredEffect::Delete(
                "/domains/d/tables".to_owned(),
                "t".to_owned(),
            )),
            Effect::DeleteCf("d::/t".to_owned()),
            Effect::DomainStoredEffect(DomainStoredEffect::Put(
                "/domains".to_owned(),
                "d".to_owned(),
                DomainStored { domain: domain(), tables: vec!["s".to_owned()] },
            )),
        ])
    );
    assert_eq!(
        TableReference::build("d", "t").delete_table(&Tables(Ok(None)), &parent),
        Err(DbError::TableNotInitialized)
    );
}

#[test]
fn list_index_names_in_stored_order() {
    let reference = TableReference::build("d", "t");
    assert_eq!(
        reference.list_index_names(&Tables(Ok(Some(table_stored_with_index())))),
        Ok(vec!["i".to_owned()])
    );
    assert_eq!(reference.list_index_names(&Tables(Ok(None))), Err(DbError::TableNotInitialized));
}

#[test]
fn post_an_index() {
    let stored = TableStored { table: table(), indexes: vec![] };
    let effects =
        IndexReference::new("d", "t", "i").post_index(&age_index(), &Tables(Ok(Some(stored))));
    assert_eq!(
        effects,
        Ok(vec![
            Effect::CreateCf("d::/t/indexes/i".to_owned()),
            Effect::TableStoredEffect(TableStoredEffect::Put(
                "/domains/d/tables".to_owned(),
                "t".to_owned(),
                table_stored_with_index(),
            )),
        ])
    );
}

#[test]
fn post_an_index_that_already_exists() {
    let effects = IndexReference::new("d", "t", "i")
        .post_index(&age_index(), &Tables(Ok(Some(table_stored_with_index()))));
    assert_eq!(effects, Err(DbError::AlreadyExists));
}

#[test]
fn post_an_index_without_its_table() {
    let effects = IndexReference::new("d", "t", "i").post_index(&age_index(), &Tables(Ok(None)));
    assert_eq!(effects, Err(DbError::TableNotInitialized));
}

#[test]
fn put_a_value_with_one_index() {
    let old = object(vec![("_id", number(1)), ("name", text("John")), ("age", number(30))]);
    let new = object(vec![("_id", number(1)), ("name", text("John")), ("age", number(31))]);
    let reference = TableValueReference::build("d", "t", OndoKey::from_u64(1));
    let effects = reference.put_table_value(
        &new,
        &Tables(Ok(Some(table_stored_with_index()))),
        &Rows(Ok(Some(old))),
    );
    assert_eq!(
        effects,
        Ok(vec![
            Effect::TableValueEffect(TableValueEffect::Put(
                "d::/t".to_owned(),
                int_key(vec![1]),
                new,
            )),
            Effect::TableValueEffect(TableValueEffect::Delete(
                "d::/t/indexes/i".to_owned(),
                int_key(vec![30, 1]),
            )),
            Effect::TableValueEffect(TableValueEffect::Put(
                "d::/t/indexes/i".to_owned(),
                int_key(vec![31, 1]),
                number(1),
            )),
        ])
    );
}

#[test]
fn put_a_value_that_is_not_there() {
    let reference = TableValueReference::build("d", "t", OndoKey::from_u64(1));
    let effects = reference.put_table_value(
        &object(vec![("_id", number(1))]),
        &Tables(Ok(Some(table_stored_with_index()))),
        &Rows(Ok(None)),
    );
    assert_eq!(effects, Err(DbError::NotFound));
}

#[test]
fn put_a_value_without_its_table() {
    let reference = TableValueReference::build("d", "t", OndoKey::from_u64(1));
    let row = object(vec![("_id", number(1))]);
    let effects = reference.put_table_value(&row, &Tables(Ok(None)), &Rows(Ok(Some(row.clone()))));
    assert_eq!(effects, Err(DbError::TableNotInitialized));
}

#[test]
fn delete_a_value_with_one_index() {
    let old = object(vec![("_id", number(1)), ("age", number(30))]);
    let reference = TableValueReference::build("d", "t", OndoKey::from_u64(1));
    let effects = reference
        .delete_table_value(&Tables(Ok(Some(table_stored_with_index()))), &Rows(Ok(Some(old))));
    assert_eq!(
        effects,
        Ok(vec![
            Effect::TableValueEffect(TableValueEffect::Delete(
                "d::/t".to_owned(),
                int_key(vec![1]),
            )),
            Effect::TableValueEffect(TableValueEffect::Delete(
                "d::/t/indexes/i".to_owned(),
                int_key(vec![30, 1]),
            )),
        ])
    );
    assert_eq!(
        reference.delete_table_value(&Tables(Ok(Some(table_stored_with_index()))), &Rows(Ok(None))),
        Err(DbError::NotFound)
    );
}

#[test]
fn post_a_value_without_id() {
    let reference =
        CreateTableValueReference { table_reference: TableReference::build("d", "t"), id: None };
    let mut value = object(vec![("name", text("Ada"))]);
    let result = reference.post_table_value(
        &mut value,
        &Counter(7),
        &Tables(Ok(Some(table_stored_with_index()))),
        &Rows(Ok(None)),
    );
    let stored = object(vec![("_id", number(8)), ("name", text("Ada"))]);
    assert_eq!(value, stored);
    assert_eq!(
        result,
        Ok((
            int_key(vec![8]),
            vec![
                Effect::TableValueEffect(TableValueEffect::Put(
                    "/domains/d/counters".to_owned(),
                    OndoKey::from_text("t"),
                    number(8),
                )),
                Effect::TableValueEffect(TableValueEffect::Put(
                    "d::/t".to_owned(),
                    int_key(vec![8]),
                    stored,
                )),
                Effect::TableValueEffect(TableValueEffect::Put(
                    "d::/t/indexes/i".to_owned(),
                    OndoKey::new(vec![KeyPart::Null, KeyPart::Number(Number::PosInt(8))]),
                    number(8),
                )),
            ]
        ))
    );
}

#[test]
fn post_a_value_with_a_given_id() {
    let reference = CreateTableValueReference {
        table_reference: TableReference::build("d", "t"),
        id: Some(OndoKey::from_text("k")),
    };
    let mut value = object(vec![("_id", text("k")), ("age", number(5))]);
    let result = reference.post_table_value(
        &mut value,
        &Counter(7),
        &Tables(Ok(Some(table_stored_with_index()))),
        &Rows(Ok(None)),
    );
    assert_eq!(value, object(vec![("_id", text("k")), ("age", number(5))]));
    assert_eq!(
        result,
        Ok((
            OndoKey::from_text("k"),
            vec![
                Effect::TableValueEffect(TableValueEffect::Put(
                    "d::/t".to_owned(),
                    OndoKey::from_text("k"),
                    value.clone(),
                )),
                Effect::TableValueEffect(TableValueEffect::Put(
                    "d::/t/indexes/i".to_owned(),
                    OndoKey::new(vec![
                        KeyPart::Number(Number::PosInt(5)),
                        KeyPart::Text("k".to_owned()),
                    ]),
                    text("k"),
                )),
            ]
        ))
    );
}

#[test]
fn a_failed_read_stops_the_plan() {
    let failure = DbError::Other("engine".to_owned());
    let reference = TableValueReference::build("d", "t", OndoKey::from_u64(1));
    assert_eq!(
        reference.put_table_value(
            &number(1),
            &Tables(Ok(Some(table_stored_with_index()))),
            &Rows(Err(failure.clone())),
        ),
        Err(failure.clone())
    );
    assert_eq!(
        IndexReference::new("d", "t", "i").get_index(&Tables(Err(failure.clone()))),
        Err(failure.clone())
    );
    assert_eq!(
        DomainReference::build("d").get_domain(&Domains(Err(failure.clone()))),
        Err(failure)
    );
}

#[test]
fn planners_are_pure() {
    let old = object(vec![("_id", number(1)), ("age", number(30))]);
    let new = object(vec![("_id", number(1)), ("age", number(31))]);
    let reference = TableValueReference::build("d", "t", OndoKey::from_u64(1));
    let first = reference.plan_put_table_value(
        &new,
        Ok(Some(old.clone())),
        Ok(Some(table_stored_with_index())),
        Ok(Some(table_stored_with_index())),
    );
    let second = reference.plan_put_table_value(
        &new,
        Ok(Some(old)),
        Ok(Some(table_stored_with_index())),
        Ok(Some(table_stored_with_index())),
    );
    assert_eq!(first, second);
}

#[test]
fn indexing_reads_the_table_record() {
    let reference = TableValueReference::build("d", "t", OndoKey::from_u64(1));
    let value = object(vec![("_id", number(1)), ("age", number(30))]);
    let found = Tables(Ok(Some(table_stored_with_index())));
    assert_eq!(
        ondo::reference::table_value_reference::do_indexing(&reference, &value, &found),
        Ok(vec![Effect::TableValueEffect(TableValueEffect::Put(
            "d::/t/indexes/i".to_owned(),
            int_key(vec![30, 1]),
            number(1),
        ))])
    );
    assert_eq!(
        ondo::reference::table_value_reference::do_deindexing(&reference, &value, &found),
        Ok(vec![Effect::TableValueEffect(TableValueEffect::Delete(
            "d::/t/indexes/i".to_owned(),
            int_key(vec![30, 1]),
        ))])
    );
    assert_eq!(
        ondo::reference::table_value_reference::do_indexing(&reference, &value, &Tables(Ok(None))),
        Err(DbError::TableNotInitialized)
    );
    assert_eq!(
        ondo::reference::table_value_reference::do_deindexing(
            &reference,
            &value,
            &Tables(Ok(None))
        ),
        Err(DbError::TableNotInitialized)
    );
}

#[test]
fn indexes_are_served_in_stored_order() {
    let by_name = Index {
        reference: IndexReference::new("d", "t", "n"),
        fields: vec!["name".to_owned()],
    };
    let stored = TableStored {
        table: table(),
        indexes: vec![("n".to_owned(), by_name), ("i".to_owned(), age_index())],
    };
    let value = object(vec![("_id", number(1)), ("name", text("Ada")), ("age", number(30))]);
    assert_eq!(
        ondo::reference::table_value_reference::plan_indexing(&value, Ok(Some(stored))),
        Ok(vec![
            Effect::TableValueEffect(TableValueEffect::Put(
                "d::/t/indexes/n".to_owned(),
                OndoKey::new(vec![
                    KeyPart::Text("Ada".to_owned()),
                    KeyPart::Number(Number::PosInt(1)),
                ]),
                number(1),
            )),
            Effect::TableValueEffect(TableValueEffect::Put(
                "d::/t/indexes/i".to_owned(),
                int_key(vec![30, 1]),
                number(1),
            )),
        ])
    );
}

#[test]
fn reindexing_stops_at_the_first_unreadable_row() {
    let failure = DbError::SerializationError("row".to_owned());
    let rows = vec![
        Ok(object(vec![("_id", number(1)), ("age", number(30))])),
        Err(failure.clone()),
        Err(DbError::NotFound),
    ];
    assert_eq!(IndexReference::index_related_table_values(&age_index(), rows), Err(failure));
    let rows = vec![
        Ok(object(vec![("_id", number(2)), ("age", number(20))])),
        Ok(object(vec![("_id", number(1)), ("age", object(vec![]))])),
        Ok(object(vec![("_id", number(3))])),
    ];
    assert_eq!(
        IndexReference::index_related_table_values(&age_index(), rows),
        Ok(vec![
            Effect::TableValueEffect(TableValueEffect::Put(
                "d::/t/indexes/i".to_owned(),
                int_key(vec![20, 2]),
                number(2),
            )),
            Effect::TableValueEffect(TableValueEffect::Put(
                "d::/t/indexes/i".to_owned(),
                OndoKey::new(vec![KeyPart::Null, KeyPart::Number(Number::PosInt(3))]),
                number(3),
            )),
        ])
    );
}

#[test]
fn delete_a_domain_with_a_table() {
    let stored = DomainStored { domain: domain(), tables: vec!["t".to_owned()] };
    let effects = DomainReference::build("d")
        .delete_domain(
            &Domains(Ok(Some(stored.clone()))),
            &Tables(Ok(Some(table_stored_with_index()))),
        );
    assert_eq!(
        effects,
        Ok(vec![
            Effect::TableStoredEffect(TableStoredEffect::Put(
                "/domains/d/tables".to_owned(),
                "t".to_owned(),
                TableStored { table: table(), indexes: vec![] },
            )),
            Effect::DeleteCf("d::/t/indexes/i".to_owned()),
            Effect::TableStoredEffect(TableStoredEffect::Delete(
                "/domains/d/tables".to_owned(),
                "t".to_owned(),
            )),
            Effect::DeleteCf("d::/t".to_owned()),
            Effect::DomainStoredEffect(DomainStoredEffect::Put(
                "/domains".to_owned(),
                "d".to_owned(),
                DomainStored { domain: domain(), tables: vec![] },
            )),
            Effect::DomainStoredEffect(DomainStoredEffect::Delete(
                "/domains".to_owned(),
                "d".to_owned(),
            )),
            Effect::DeleteCf("/domains/d/tables".to_owned()),
            Effect::DeleteCf("/domains/d/counters".to_owned()),
        ])
    );
    assert_eq!(
        DomainReference::build("d")
            .delete_domain(&Domains(Ok(Some(stored))), &Tables(Ok(None))),
        Err(DbError::TableNotInitialized)
    );
}

#[test]
fn delete_a_domain_from_answers_at_hand() {
    let domain_ref = DomainReference::build("d");
    let stored = DomainStored { domain: domain(), tables: vec!["t".to_owned()] };
    assert_eq!(
        domain_ref.plan_delete_domain(Ok(None), vec![]),
        Err(DbError::DomainNotInitialized)
    );
    assert_eq!(
        domain_ref.plan_delete_domain(Err(DbError::CfNotFound), vec![]),
        Err(DbError::CfNotFound)
    );
    assert_eq!(
        domain_ref.plan_delete_domain(Ok(Some(stored.clone())), vec![]),
        Err(DbError::TableNotInitialized)
    );
    assert_eq!(
        domain_ref.plan_delete_domain(
            Ok(Some(stored)),
            vec![Ok(Some(TableStored { table: table(), indexes: vec![] }))],
        ),
        Ok(vec![
            Effect::TableStoredEffect(TableStoredEffect::Delete(
                "/domains/d/tables".to_owned(),
                "t".to_owned(),
            )),
            Effect::DeleteCf("d::/t".to_owned()),
            Effect::DomainStoredEffect(DomainStoredEffect::Put(
                "/domains".to_owned(),
                "d".to_owned(),
                DomainStored { domain: domain(), tables: vec![] },
            )),
            Effect::DomainStoredEffect(DomainStoredEffect::Delete(
                "/domains".to_owned(),
                "d".to_owned(),
            )),
            Effect::DeleteCf("/domains/d/tables".to_owned()),
            Effect::DeleteCf("/domains/d/counters".to_owned()),
        ])
    );
}

#[test]
fn counter_counts_from_what_it_holds() {
    let counter = ColumnValueReference {
        column_reference: "/domains/d/counters".to_owned(),
        id: OndoKey::from_text("t"),
    };
    let write = |n: u64| {
        vec![Effect::TableValueEffect(TableValueEffect::Put(
            "/domains/d/counters".to_owned(),
            OndoKey::from_text("t"),
            number(n),
        ))]
    };
    assert_eq!(counter.plan_increment(Ok(None)), Ok((1, write(1))));
    assert_eq!(counter.plan_increment(Ok(Some(number(7)))), Ok((8, write(8))));
    assert_eq!(
        counter.plan_increment(Ok(Some(number(u64::MAX)))),
        Err(DbError::Other("counter is exhausted".to_owned()))
    );
    assert_eq!(
        counter.plan_increment(Ok(Some(text("7")))),
        Err(DbError::Other("counter does not hold a count".to_owned()))
    );
    assert_eq!(counter.plan_increment(Err(DbError::CfNotFound)), Err(DbError::CfNotFound));
    assert_eq!(counter.increment_column_value(&Counter(7)), Ok((8, write(8))));
}

#[test]
fn capabilities_may_be_trait_objects() {
    let tables = Tables(Ok(Some(table_stored_with_index())));
    let by_object: &dyn TableStoredRequests = &tables;
    assert_eq!(
        IndexReference::new("d", "t", "i").get_index(by_object),
        Ok(Some(age_index()))
    );
    let rows = Rows(Ok(None));
    let rows_by_object: &dyn TableValueRequests = &rows;
    let reference = TableValueReference::build("d", "t", OndoKey::from_u64(1));
    assert_eq!(reference.get_table_value(rows_by_object), Ok(None));
    assert_eq!(
        reference.delete_table_value(by_object, rows_by_object),
        Err(DbError::NotFound)
    );
}
