use ondo::entity::{Domain, DomainStored, Table, TableStored};
use ondo::error::{DbError, DbResult};
use ondo::reference::domain_reference::DomainReference;
use ondo::reference::requests::{DomainStoredRequests, TableStoredRequests};
use ondo::reference::table_reference::TableReference;

struct MockTableStoredTestRequests {
    answer: Option<TableStored>,
}

impl TableStoredRequests for MockTableStoredTestRequests {
    fn get_table_stored(&self, _cf_name: &str, _key: &String) -> DbResult<Option<TableStored>> {
        Ok(self.answer.clone())
    }
}

struct MockDomainStoredTestRequests {
    answer: Option<DomainStored>,
}

impl DomainStoredRequests for MockDomainStoredTestRequests {
    fn get_domain_stored(&self, _cf_name: &str, _key: &String) -> DbResult<Option<DomainStored>> {
        Ok(self.answer.clone())
    }
}

fn create_table_ref() -> TableReference {
    TableReference::build("sample_domain", "sample_table")
}

fn create_table() -> Table {
    Table { reference: create_table_ref() }
}

fn create_table_stored() -> TableStored {
    TableStored { table: create_table(), indexes: Vec::new() }
}

fn create_domain_stored() -> DomainStored {
    DomainStored {
        domain: Domain { id: DomainReference::build("sample_domain") },
        tables: Vec::new(),
    }
}

#[test]
fn test_get_table_failure() {
    let mock = MockTableStoredTestRequests { answer: None };
    let ref_trait = create_table_ref();

    assert_eq!(
        ref_trait.get_table(&mock),
        Ok(None),
        "get_table should return Ok(None) if the key does not exist"
    );
}

#[test]
fn test_put_table_failure() {
    let mock = MockTableStoredTestRequests { answer: None };
    let ref_trait = create_table_ref();
    let table = create_table();

    assert_eq!(
        ref_trait.put_table(&table, &mock).unwrap_err(),
        DbError::TableNotInitialized,
        "put_table should return DbError::TableNotInitialized if the key is not found"
    );
}

#[test]
fn test_post_table_failure() {
    let mock = MockTableStoredTestRequests { answer: Some(create_table_stored()) };
    let ref_trait = create_table_ref();
    let table = create_table();
    let parent_mock = MockDomainStoredTestRequests { answer: Some(create_domain_stored()) };

    assert_eq!(
        ref_trait.post_table(&table, &mock, &parent_mock).unwrap_err(),
        DbError::AlreadyExists,
        "post_table should return DbError::AlreadyExists if the key already exists"
    );
}
