use ondo::entity::{Index, Table, TableStored};
use ondo::error::{DbError, DbResult};
use ondo::key::OndoKey;
use ondo::reference::domain_reference::DomainReference;
use ondo::reference::effect::{Effect, TableStoredEffect};
use ondo::reference::index_reference::IndexReference;
use ondo::reference::requests::{TableStoredIteratorRequests, TableStoredRequests};
use ondo::reference::table_reference::TableReference;
use ondo::value::TableValue;

struct MockTableStoredTestRequests {
    answer: Option<TableStored>,
}

impl TableStoredRequests for MockTableStoredTestRequests {
    fn get_table_stored(&self, _cf_name: &str, _key: &String) -> DbResult<Option<TableStored>> {
        Ok(self.answer.clone())
    }
}

struct EmptyTable;

impl TableStoredIteratorRequests for EmptyTable {
    fn all_values(&self, _value_cf_name: &str) -> DbResult<Vec<DbResult<TableValue>>> {
        Ok(Vec::new())
    }

    fn all_values_with_key_prefix(
        &self,
        _value_cf_name: &str,
        _key_prefix: OndoKey,
    ) -> DbResult<Vec<DbResult<TableValue>>> {
        Ok(Vec::new())
    }

    fn all_values_with_key_range(
        &self,
        _value_cf_name: &str,
        _start_key: OndoKey,
        _end_key: OndoKey,
    ) -> DbResult<Vec<DbResult<TableValue>>> {
        Ok(Vec::new())
    }
}

fn create_table() -> Table {
    Table { reference: TableReference::build("sample_domain", "sample_table") }
}

fn create_table_stored() -> TableStored {
    TableStored { table: create_table(), indexes: Vec::new() }
}

fn create_index_ref() -> IndexReference {
    IndexReference::new("sample_domain", "sample_table", "sample_index")
}

fn create_index() -> Index {
    Index { reference: create_index_ref(), fields: vec!["sample_field".to_owned()] }
}

fn create_table_stored_with_index(index: &Index) -> TableStored {
    TableStored {
        table: create_table(),
        indexes: vec![("sample_index".to_owned(), index.clone())],
    }
}

fn expected_table_stored() -> TableStored {
    TableStored {
        table: Table {
            reference: TableReference {
                domain_reference: DomainReference::new("sample_domain"),
                table_name: "sample_table".to_owned(),
            },
        },
        indexes: vec![(
            "sample_index".to_owned(),
            Index {
                reference: IndexReference {
                    index_name: "sample_index".to_owned(),
                    table_reference: TableReference {
                        domain_reference: DomainReference::new("sample_domain"),
                        table_name: "sample_table".to_owned(),
                    },
                },
                fields: vec!["sample_field".to_owned()],
            },
        )],
    }
}

#[test]
fn test_get_index() {
    let index_reference = IndexReference::new("sample_domain", "sample_table", "sample_index");
    let index = create_index();
    let mock =
        MockTableStoredTestRequests { answer: Some(create_table_stored_with_index(&index)) };

    let result = index_reference.get_index(&mock);
    assert!(result.is_ok());
    let result_unwrapped = result.unwrap();
    assert_eq!(result_unwrapped, Some(index));
}

#[test]
fn test_get_index_failure() {
    let index_reference = IndexReference::new("sample_domain", "sample_table", "sample_index");
    let mock = MockTableStoredTestRequests { answer: Some(create_table_stored()) };

    let result = index_reference.get_index(&mock);
    assert!(result.is_ok());
    let result_unwrapped = result.unwrap();
    assert_eq!(result_unwrapped, None);
}

#[test]
fn test_put_index() {
    let index_reference = IndexReference::new("sample_domain", "sample_table", "sample_index");
    let index = create_index();
    let table_stored = create_table_stored_with_index(&index);
    let parent_mock = MockTableStoredTestRequests { answer: Some(table_stored) };

    let effects = index_reference.put_index(&index, &parent_mock, &EmptyTable);
    assert!(effects.is_ok());
    let expected_effects = vec![
        Effect::DeleteCf("sample_domain::/sample_table/indexes/sample_index".to_owned()),
        Effect::CreateCf("sample_domain::/sample_table/indexes/sample_index".to_owned()),
        Effect::TableStoredEffect(TableStoredEffect::Put(
            "/domains/sample_domain/tables".to_owned(),
            "sample_table".to_owned(),
            expected_table_stored(),
        )),
    ];
    assert_eq!(effects.unwrap(), expected_effects);
}

#[test]
fn test_put_index_failure() {
    let index_reference = IndexReference::new("sample_domain", "sample_table", "sample_index");
    let index = create_index();
    let parent_mock = MockTableStoredTestRequests { answer: Some(create_table_stored()) };

    let effects = index_reference.put_index(&index, &parent_mock, &EmptyTable);
    assert!(effects.is_err());

    assert_eq!(effects.unwrap_err(), DbError::IndexNotInitialized);
}

#[test]
fn test_post_index() {
    let index_reference = IndexReference::new("sample_domain", "sample_table", "sample_index");
    let index = create_index();
    let parent_mock = MockTableStoredTestRequests { answer: Some(create_table_stored()) };

    let effects = index_reference.post_index(&index, &parent_mock);
    assert!(effects.is_ok());
    let expected_effects = vec![
        Effect::CreateCf("sample_domain::/sample_table/indexes/sample_index".to_owned()),
        Effect::TableStoredEffect(TableStoredEffect::Put(
            "/domains/sample_domain/tables".to_owned(),
            "sample_table".to_owned(),
            expected_table_stored(),
        )),
    ];
    assert_eq!(effects.unwrap(), expected_effects);
}

#[test]
fn test_post_index_failure() {
    let index_reference = IndexReference::new("sample_domain", "sample_table", "sample_index");
    let index = create_index();
    let parent_mock =
        MockTableStoredTestRequests { answer: Some(create_table_stored_with_index(&index)) };

    let effects = index_reference.post_index(&index, &parent_mock);
    assert!(effects.is_err());

    assert_eq!(effects.unwrap_err(), DbError::AlreadyExists);
}

#[test]
fn test_delete_index() {
    let index_reference = IndexReference::new("sample_domain", "sample_table", "sample_index");
    let index = create_index();
    let parent_mock =
        MockTableStoredTestRequests { answer: Some(create_table_stored_with_index(&index)) };

    let effects = index_reference.delete_index(&parent_mock);
    assert!(effects.is_ok());
    let expected_effects = vec![
        Effect::TableStoredEffect(TableStoredEffect::Put(
            "/domains/sample_domain/tables".to_owned(),
            "sample_table".to_owned(),
            create_table_stored(),
        )),
        Effect::DeleteCf("sample_domain::/sample_table/indexes/sample_index".to_owned()),
    ];
    assert_eq!(effects.unwrap(), expected_effects);
}
