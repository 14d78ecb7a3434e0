use ondo::entity::{Table, TableStored};
use ondo::error::DbResult;
use ondo::key::OndoKey;
use ondo::reference::effect::{Effect, TableValueEffect};
use ondo::reference::requests::{TableStoredRequests, TableValueRequests};
use ondo::reference::table_reference::TableReference;
use ondo::reference::table_value_reference::{TableKey, TableValueReference};
use ondo::value::{Number, TableValue};

struct MockTableStoredTestRequests {
    answer: Option<TableStored>,
}

impl TableStoredRequests for MockTableStoredTestRequests {
    fn get_table_stored(&self, _cf_name: &str, _key: &String) -> DbResult<Option<TableStored>> {
        Ok(self.answer.clone())
    }
}

struct MockTableValueTestRequests {
    answer: Option<TableValue>,
}

impl TableValueRequests for MockTableValueTestRequests {
    fn get_table_value(
        &self,
        _cf_name: &str,
        _key: &TableValueReference,
    ) -> DbResult<Option<TableValue>> {
        Ok(self.answer.clone())
    }
}

fn create_table_stored() -> TableStored {
    TableStored {
        table: Table { reference: TableReference::build("sample_domain", "sample_table") },
        indexes: Vec::new(),
    }
}

fn create_table_value_ref(
    domain_name: &str,
    table_name: &str,
    key: TableKey,
) -> TableValueReference {
    TableValueReference::build(domain_name, table_name, key)
}

fn create_table_value() -> TableValue {
    TableValue::Object(vec![
        ("_id".to_owned(), TableValue::Number(Number::PosInt(1))),
        ("name".to_owned(), TableValue::String("John".to_owned())),
        ("surname".to_owned(), TableValue::String("Doe".to_owned())),
        ("age".to_owned(), TableValue::Number(Number::PosInt(30))),
    ])
}

fn create_table_key() -> OndoKey {
    OndoKey::from_u64(1u64)
}

#[test]
fn test_get_table_value() {
    let mock = MockTableValueTestRequests { answer: Some(create_table_value()) };
    let table_value_ref =
        create_table_value_ref("sample_domain", "sample_table", create_table_key());
    let expected_table_value = create_table_value();

    let result = table_value_ref.get_table_value(&mock);

    assert_eq!(result, Ok(Some(expected_table_value)));
}

#[test]
fn test_put_table_value() {
    let table_mock = MockTableStoredTestRequests { answer: Some(create_table_stored()) };
    let mock = MockTableValueTestRequests { answer: Some(create_table_value()) };

    let table_value_ref =
        create_table_value_ref("sample_domain", "sample_table", create_table_key());
    let table_value = create_table_value();

    let effects = table_value_ref.put_table_value(&table_value, &table_mock, &mock).unwrap();
    let expected_effect = Effect::TableValueEffect(TableValueEffect::Put(
        "sample_domain::/sample_table".to_owned(),
        table_value_ref.id.clone(),
        table_value,
    ));

    assert_eq!(effects.len(), 1);
    assert_eq!(effects[0], expected_effect);
}

#[test]
fn test_delete_table_value() {
    let table_mock = MockTableStoredTestRequests { answer: Some(create_table_stored()) };
    let mock = MockTableValueTestRequests { answer: Some(create_table_value()) };

    let table_value_ref =
        create_table_value_ref("sample_domain", "sample_table", create_table_key());
    let expected_effect = Effect::TableValueEffect(TableValueEffect::Delete(
        table_value_ref.container_cf_name(),
        table_value_ref.id.clone(),
    ));
    let result = table_value_ref.delete_table_value(&table_mock, &mock);
    assert_eq!(result, Ok(vec![expected_effect]));
}
