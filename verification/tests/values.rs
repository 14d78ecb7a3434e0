use ondo::entity::{DomainStored, Domain, Index, Table, TableStored};
use ondo::error::DbError;
use ondo::indexing::{
    do_deindex_table_value, do_index_table_value, index_key_of, insert_key_into_table_value,
    primary_key_of,
};
use ondo::key::{KeyPart, OndoKey};
use ondo::reference::cf_name_maker::CfNameMaker;
use ondo::reference::domain_reference::DomainReference;
use ondo::reference::effect::{Effect, TableValueEffect};
use ondo::reference::index_reference::IndexReference;
use ondo::reference::table_reference::TableReference;
use ondo::value::{Number, TableValue};

fn number(n: u64) -> TableValue {
    TableValue::Number(Number::PosInt(n))
}

fn text(s: &str) -> TableValue {
    TableValue::String(s.to_owned())
}

fn object(members: Vec<(&str, TableValue)>) -> TableValue {
    TableValue::Object(members.into_iter().map(|(name, value)| (name.to_owned(), value)).collect())
}

fn index(fields: Vec<&str>) -> Index {
    Index {
        reference: IndexReference::new("d", "t", "i"),
        fields: fields.into_iter().map(|f| f.to_owned()).collect(),
    }
}

#[test]
fn column_family_names() {
    let domain = DomainReference::build("d");
    let table = TableReference::build("d", "t");
    let index = IndexReference::new("d", "t", "i");
    assert_eq!(CfNameMaker::for_domains(), "/domains");
    assert_eq!(CfNameMaker::for_tables(&domain), "/domains/d/tables");
    assert_eq!(CfNameMaker::for_table_counters(&domain), "/domains/d/counters");
    assert_eq!(CfNameMaker::for_table_values(&table), "d::/t");
    assert_eq!(CfNameMaker::for_index_values(&index), "d::/t/indexes/i");
    assert_eq!(index.value_cf_name(), "d::/t/indexes/i");
    assert_eq!(index.required_cf_names(), vec!["d::/t/indexes/i".to_owned()]);
    assert_eq!(domain.cf_name_for_table_counters(), "/domains/d/counters");
}

#[test]
fn references_are_built_from_names() {
    let table = TableReference::new(DomainReference::new("d"), "t");
    assert_eq!(table, TableReference::build("d", "t"));
    assert_eq!(table.to_domain_reference(), DomainReference::build("d"));
    assert_eq!(IndexReference::new("d", "t", "i").to_table_reference(), table);
}

#[test]
fn members_are_found_by_name_and_path() {
    let value = object(vec![
        ("a", number(1)),
        ("b", object(vec![("c", object(vec![("d", text("deep"))])), ("e", TableValue::Null)])),
        ("a", number(2)),
        ("", number(3)),
    ]);
    assert_eq!(value.get("a"), Some(&number(1)));
    assert_eq!(value.get("z"), None);
    assert_eq!(number(1).get("a"), None);
    assert_eq!(value.at_path("a"), Some(&number(1)));
    assert_eq!(value.at_path("b.c.d"), Some(&text("deep")));
    assert_eq!(value.at_path("b.e"), Some(&TableValue::Null));
    assert_eq!(value.at_path("b.x.d"), None);
    assert_eq!(value.at_path("a.b"), None);
    assert_eq!(value.at_path(""), Some(&number(3)));
    assert_eq!(value.at_path("b."), None);
    assert_eq!(value.at_path("b.c.d.é"), None);
}

#[test]
fn set_member_replaces_in_place_or_goes_in_front() {
    let mut value = object(vec![("a", number(1)), ("b", number(2))]);
    value.set_member("b", number(3));
    assert_eq!(value, object(vec![("a", number(1)), ("b", number(3))]));
    value.set_member("c", number(4));
    assert_eq!(value, object(vec![("c", number(4)), ("a", number(1)), ("b", number(3))]));
    let mut null = TableValue::Null;
    null.set_member("a", number(1));
    assert_eq!(null, object(vec![("a", number(1))]));
    let mut scalar = number(7);
    scalar.set_member("a", number(1));
    assert_eq!(scalar, number(7));
}

#[test]
fn insert_key_writes_the_id() {
    let mut value = object(vec![("name", text("Ada"))]);
    insert_key_into_table_value(&mut value, &OndoKey::from_u64(8));
    assert_eq!(value, object(vec![("_id", number(8)), ("name", text("Ada"))]));
    let mut value = object(vec![("name", text("Ada")), ("_id", number(1))]);
    insert_key_into_table_value(&mut value, &OndoKey::from_text("k"));
    assert_eq!(value, object(vec![("name", text("Ada")), ("_id", text("k"))]));
}

#[test]
fn primary_key_is_read_from_the_id() {
    assert_eq!(primary_key_of(&object(vec![("_id", number(1))])), Some(OndoKey::from_u64(1)));
    assert_eq!(
        primary_key_of(&object(vec![("_id", TableValue::Array(vec![text("a"), number(2)]))])),
        Some(OndoKey::new(vec![KeyPart::Text("a".to_owned()), KeyPart::Number(Number::PosInt(2))]))
    );
    assert_eq!(primary_key_of(&object(vec![])), Some(OndoKey::new(vec![KeyPart::Null])));
    assert_eq!(primary_key_of(&number(1)), Some(OndoKey::new(vec![KeyPart::Null])));
    assert_eq!(primary_key_of(&object(vec![("_id", object(vec![]))])), None);
}

#[test]
fn index_key_holds_fields_then_primary_key() {
    let value = object(vec![
        ("_id", number(1)),
        ("name", text("John")),
        ("address", object(vec![("city", text("Oslo"))])),
        ("tags", TableValue::Array(vec![])),
    ]);
    assert_eq!(
        index_key_of(&value, &index(vec!["address.city", "name", "missing"])),
        Some(OndoKey::new(vec![
            KeyPart::Text("Oslo".to_owned()),
            KeyPart::Text("John".to_owned()),
            KeyPart::Null,
            KeyPart::Number(Number::PosInt(1)),
        ]))
    );
    assert_eq!(index_key_of(&value, &index(vec![])), Some(OndoKey::from_u64(1)));
    assert_eq!(index_key_of(&value, &index(vec!["address"])), None);
    assert_eq!(index_key_of(&value, &index(vec!["name", "tags"])), None);
}

#[test]
fn index_effects_of_a_row() {
    let value = object(vec![("_id", number(1)), ("age", number(30))]);
    let key = OndoKey::new(vec![
        KeyPart::Number(Number::PosInt(30)),
        KeyPart::Number(Number::PosInt(1)),
    ]);
    assert_eq!(
        do_index_table_value(&value, &index(vec!["age"])),
        vec![Effect::TableValueEffect(TableValueEffect::Put(
            "d::/t/indexes/i".to_owned(),
            key.clone(),
            number(1),
        ))]
    );
    assert_eq!(
        do_deindex_table_value(&value, &index(vec!["age"])),
        vec![Effect::TableValueEffect(TableValueEffect::Delete("d::/t/indexes/i".to_owned(), key))]
    );
    let nested = object(vec![("_id", number(1)), ("age", object(vec![]))]);
    assert_eq!(do_index_table_value(&nested, &index(vec!["age"])), vec![]);
    assert_eq!(do_deindex_table_value(&nested, &index(vec!["age"])), vec![]);
}

#[test]
fn records_keep_names_once_and_in_order() {
    let mut domain =
        DomainStored { domain: Domain { id: DomainReference::build("d") }, tables: vec![] };
    domain.add_table("b");
    domain.add_table("a");
    domain.add_table("b");
    assert_eq!(domain.tables, vec!["b".to_owned(), "a".to_owned()]);
    domain.remove_table("b");
    domain.remove_table("z");
    assert_eq!(domain.tables, vec!["a".to_owned()]);

    let mut table = TableStored {
        table: Table { reference: TableReference::build("d", "t") },
        indexes: vec![],
    };
    assert!(!table.insert_index("i", index(vec!["a"])));
    assert!(!table.insert_index("j", index(vec!["b"])));
    assert!(table.insert_index("i", index(vec!["c"])));
    assert_eq!(table.get_index("i"), Some(&index(vec!["c"])));
    assert_eq!(table.get_index("k"), None);
    table.remove_index("i");
    assert_eq!(table.indexes, vec![("j".to_owned(), index(vec!["b"]))]);
}

#[test]
fn errors_have_messages() {
    assert_eq!(DbError::NotFound.message(), "not found");
    assert_eq!(DbError::AlreadyExists.message(), "already exists");
    assert_eq!(DbError::DomainNotInitialized.message(), "domain not initialized");
    assert_eq!(DbError::TableNotInitialized.message(), "table not initialized");
    assert_eq!(DbError::IndexNotInitialized.message(), "index not initialized");
    assert_eq!(DbError::CfNotFound.message(), "column family not found");
    assert_eq!(
        DbError::SerializationError("x".to_owned()).message(),
        "serialization error: x"
    );
    assert_eq!(DbError::Other("y".to_owned()).message(), "error: y");
}
