use ondo::entity::{DatabaseServerStored, Domain, DomainStored, Table, TableStored};
use ondo::key::OndoKey;
use ondo::reference::domain_reference::DomainReference;
use ondo::reference::effect::{
    DatabaseServerStoredEffect, DomainStoredEffect, Effect, TableStoredEffect, TableValueEffect,
};
use ondo::reference::table_reference::TableReference;
use ondo::sink::{engine_call, name_key, EngineCall, Payload};
use ondo::value::{Number, TableValue};

fn table_stored() -> TableStored {
    TableStored { table: Table { reference: TableReference::build("d", "t") }, indexes: vec![] }
}

fn domain_stored() -> DomainStored {
    DomainStored { domain: Domain { id: DomainReference::build("d") }, tables: vec![] }
}

#[test]
fn short_names_have_their_length_in_the_marker() {
    assert_eq!(name_key(""), Ok(vec![0xa0]));
    assert_eq!(name_key("t"), Ok(vec![0xa1, b't']));
    assert_eq!(name_key("é"), Ok(vec![0xa2, 0xc3, 0xa9]));
    let name = "a".repeat(31);
    let mut expected = vec![0xbf];
    expected.extend_from_slice(name.as_bytes());
    assert_eq!(name_key(&name), Ok(expected));
}

#[test]
fn longer_names_have_their_length_after_the_marker() {
    let name = "b".repeat(32);
    let mut expected = vec![0xd9, 32];
    expected.extend_from_slice(name.as_bytes());
    assert_eq!(name_key(&name), Ok(expected));

    let name = "c".repeat(255);
    let mut expected = vec![0xd9, 255];
    expected.extend_from_slice(name.as_bytes());
    assert_eq!(name_key(&name), Ok(expected));

    let name = "d".repeat(300);
    let mut expected = vec![0xda, 0x01, 0x2c];
    expected.extend_from_slice(name.as_bytes());
    assert_eq!(name_key(&name), Ok(expected));

    let name = "e".repeat(70_000);
    let mut expected = vec![0xdb, 0x00, 0x01, 0x11, 0x70];
    expected.extend_from_slice(name.as_bytes());
    assert_eq!(name_key(&name), Ok(expected));
}

#[test]
fn name_keys_are_what_the_encoder_writes() {
    for len in [0usize, 1, 31, 32, 255, 256, 65_535, 65_536] {
        let name = "é".repeat(len);
        assert_eq!(name_key(&name).unwrap(), rmp_serde::to_vec(name.as_str()).unwrap());
    }
}

#[test]
fn different_names_have_different_keys() {
    let names = ["", "a", "b", "ab", "a\u{0}", &"a".repeat(32), &"a".repeat(33), &"a".repeat(256)];
    for (i, a) in names.iter().enumerate() {
        for (j, b) in names.iter().enumerate() {
            assert_eq!(name_key(a) == name_key(b), i == j);
        }
    }
}

#[test]
fn each_effect_asks_for_one_call() {
    let key = OndoKey::from_u64(8);
    let code = vec![0, 0, 0, 0, 0, 0, 0, 1, 5, 0, 0, 0, 0, 0, 0, 0, 8];
    let value = TableValue::Number(Number::PosInt(1));
    assert_eq!(
        engine_call(&Effect::CreateCf("d::/t".to_owned())),
        Ok(EngineCall::CreateCf("d::/t".to_owned()))
    );
    assert_eq!(
        engine_call(&Effect::DeleteCf("d::/t".to_owned())),
        Ok(EngineCall::DropCf("d::/t".to_owned()))
    );
    assert_eq!(
        engine_call(&Effect::TableValueEffect(TableValueEffect::Put(
            "d::/t".to_owned(),
            key.clone(),
            value.clone(),
        ))),
        Ok(EngineCall::Put("d::/t".to_owned(), code.clone(), Payload::Value(value)))
    );
    assert_eq!(
        engine_call(&Effect::TableValueEffect(TableValueEffect::Delete("d::/t".to_owned(), key))),
        Ok(EngineCall::Delete("d::/t".to_owned(), code))
    );
    assert_eq!(
        engine_call(&Effect::TableStoredEffect(TableStoredEffect::Put(
            "/domains/d/tables".to_owned(),
            "t".to_owned(),
            table_stored(),
        ))),
        Ok(EngineCall::Put(
            "/domains/d/tables".to_owned(),
            vec![0xa1, b't'],
            Payload::Table(table_stored()),
        ))
    );
    assert_eq!(
        engine_call(&Effect::TableStoredEffect(TableStoredEffect::Delete(
            "/domains/d/tables".to_owned(),
            "t".to_owned(),
        ))),
        Ok(EngineCall::Delete("/domains/d/tables".to_owned(), vec![0xa1, b't']))
    );
    assert_eq!(
        engine_call(&Effect::DomainStoredEffect(DomainStoredEffect::Put(
            "/domains".to_owned(),
            "d".to_owned(),
            domain_stored(),
        ))),
        Ok(EngineCall::Put(
            "/domains".to_owned(),
            vec![0xa1, b'd'],
            Payload::Domain(domain_stored()),
        ))
    );
    assert_eq!(
        engine_call(&Effect::DomainStoredEffect(DomainStoredEffect::Delete(
            "/domains".to_owned(),
            "d".to_owned(),
        ))),
        Ok(EngineCall::Delete("/domains".to_owned(), vec![0xa1, b'd']))
    );
    let server = DatabaseServerStored { domains: vec!["d".to_owned()] };
    assert_eq!(
        engine_call(&Effect::DatabaseServerStoredEffect(DatabaseServerStoredEffect::Put(
            "/server".to_owned(),
            "s".to_owned(),
            server.clone(),
        ))),
        Ok(EngineCall::Put("/server".to_owned(), vec![0xa1, b's'], Payload::Server(server)))
    );
    assert_eq!(
        engine_call(&Effect::DatabaseServerStoredEffect(DatabaseServerStoredEffect::Delete(
            "/server".to_owned(),
            "s".to_owned(),
        ))),
        Ok(EngineCall::Delete("/server".to_owned(), vec![0xa1, b's']))
    );
}
