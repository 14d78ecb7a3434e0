use ondo::error::DbError;
use ondo::key::{KeyPart, OndoKey};
use ondo::value::{Number, TableValue};

fn key(parts: Vec<KeyPart>) -> OndoKey {
    OndoKey::new(parts)
}

fn bytes(key: &OndoKey) -> Vec<u8> {
    key.ondo_serialize().unwrap()
}

fn sample_keys() -> Vec<OndoKey> {
    // In ascending logical order.
    vec![
        key(vec![]),
        key(vec![KeyPart::Null]),
        key(vec![KeyPart::Bool(false)]),
        key(vec![KeyPart::Bool(true)]),
        key(vec![KeyPart::Number(Number::NegInt(i64::MIN))]),
        key(vec![KeyPart::Number(Number::NegInt(-300))]),
        key(vec![KeyPart::Number(Number::NegInt(-1))]),
        key(vec![KeyPart::Number(Number::PosInt(0))]),
        key(vec![KeyPart::Number(Number::PosInt(1))]),
        key(vec![KeyPart::Number(Number::PosInt(255))]),
        key(vec![KeyPart::Number(Number::PosInt(256))]),
        key(vec![KeyPart::Number(Number::PosInt(u64::MAX))]),
        key(vec![KeyPart::Number(Number::Float((-2.5f64).to_bits()))]),
        key(vec![KeyPart::Number(Number::Float((-0.0f64).to_bits()))]),
        key(vec![KeyPart::Number(Number::Float(0.0f64.to_bits()))]),
        key(vec![KeyPart::Number(Number::Float(1.5f64.to_bits()))]),
        key(vec![KeyPart::Number(Number::Float(f64::INFINITY.to_bits()))]),
        key(vec![KeyPart::Text("".to_owned())]),
        key(vec![KeyPart::Text("\u{0}".to_owned())]),
        key(vec![KeyPart::Text("\u{0}a".to_owned())]),
        key(vec![KeyPart::Text("\u{1}".to_owned())]),
        key(vec![KeyPart::Text("a".to_owned())]),
        key(vec![KeyPart::Text("a\u{0}".to_owned())]),
        key(vec![KeyPart::Text("ab".to_owned())]),
        key(vec![KeyPart::Text("b".to_owned())]),
        key(vec![KeyPart::Text("é".to_owned())]),
        key(vec![KeyPart::Null, KeyPart::Null]),
        key(vec![KeyPart::Null, KeyPart::Text("z".to_owned())]),
        key(vec![KeyPart::Number(Number::PosInt(30)), KeyPart::Number(Number::PosInt(1))]),
        key(vec![KeyPart::Number(Number::PosInt(30)), KeyPart::Number(Number::PosInt(2))]),
        key(vec![KeyPart::Number(Number::PosInt(31)), KeyPart::Number(Number::PosInt(1))]),
        key(vec![KeyPart::Text("a".to_owned()), KeyPart::Number(Number::PosInt(9))]),
        key(vec![KeyPart::Text("a".to_owned()), KeyPart::Text("".to_owned())]),
        key(vec![KeyPart::Text("a\u{0}".to_owned()), KeyPart::Null]),
        key(vec![KeyPart::Null, KeyPart::Null, KeyPart::Null]),
    ]
}

#[test]
fn encoded_key_layout_of_one_integer() {
    let encoded = bytes(&OndoKey::from_u64(8));
    assert_eq!(encoded, vec![0, 0, 0, 0, 0, 0, 0, 1, 5, 0, 0, 0, 0, 0, 0, 0, 8]);
}

#[test]
fn encoded_key_layout_of_each_kind() {
    assert_eq!(bytes(&key(vec![])), vec![0, 0, 0, 0, 0, 0, 0, 0]);
    assert_eq!(bytes(&key(vec![KeyPart::Null])), vec![0, 0, 0, 0, 0, 0, 0, 1, 1]);
    assert_eq!(bytes(&key(vec![KeyPart::Bool(false)])), vec![0, 0, 0, 0, 0, 0, 0, 1, 2]);
    assert_eq!(bytes(&key(vec![KeyPart::Bool(true)])), vec![0, 0, 0, 0, 0, 0, 0, 1, 3]);
    assert_eq!(
        bytes(&key(vec![KeyPart::Number(Number::NegInt(-1))])),
        vec![0, 0, 0, 0, 0, 0, 0, 1, 4, 0x7f, 0xff, 0xff, 0xff, 0xff, 0xff, 0xff, 0xff]
    );
    assert_eq!(
        bytes(&key(vec![KeyPart::Number(Number::PosInt(258))])),
        vec![0, 0, 0, 0, 0, 0, 0, 1, 5, 0, 0, 0, 0, 0, 0, 1, 2]
    );
    assert_eq!(
        bytes(&key(vec![KeyPart::Number(Number::Float(1.0f64.to_bits()))])),
        vec![0, 0, 0, 0, 0, 0, 0, 1, 6, 0xbf, 0xf0, 0, 0, 0, 0, 0, 0]
    );
    assert_eq!(
        bytes(&key(vec![KeyPart::Text("a\u{0}b".to_owned())])),
        vec![0, 0, 0, 0, 0, 0, 0, 1, 7, b'a', 0, 1, b'b', 0, 0]
    );
}

#[test]
fn encoded_keys_round_trip() {
    for k in sample_keys() {
        let encoded = bytes(&k);
        assert_eq!(OndoKey::ondo_deserialize(&encoded), Ok(k));
    }
}

#[test]
fn encoded_keys_order_as_keys_do() {
    let keys = sample_keys();
    for i in 0..keys.len() {
        for j in 0..keys.len() {
            let a = bytes(&keys[i]);
            let b = bytes(&keys[j]);
            assert_eq!(a < b, i < j, "keys {} and {}", i, j);
        }
    }
}

#[test]
fn no_encoded_key_is_a_prefix_of_another() {
    let keys = sample_keys();
    for i in 0..keys.len() {
        for j in 0..keys.len() {
            if i != j {
                assert!(!bytes(&keys[j]).starts_with(&bytes(&keys[i])));
            }
        }
    }
}

#[test]
fn bytes_that_are_no_key_are_refused() {
    let refused = DbError::SerializationError("bytes do not hold a key".to_owned());
    let cases: Vec<Vec<u8>> = vec![
        vec![],
        vec![0, 0, 0, 0, 0, 0, 0],
        vec![0, 0, 0, 0, 0, 0, 0, 1],
        vec![0, 0, 0, 0, 0, 0, 0, 0, 1],
        vec![0, 0, 0, 0, 0, 0, 0, 1, 0],
        vec![0, 0, 0, 0, 0, 0, 0, 1, 8],
        vec![0, 0, 0, 0, 0, 0, 0, 1, 5, 0, 0, 0],
        vec![0, 0, 0, 0, 0, 0, 0, 1, 7, b'a'],
        vec![0, 0, 0, 0, 0, 0, 0, 1, 7, b'a', 0],
        vec![0, 0, 0, 0, 0, 0, 0, 1, 7, b'a', 0, 2],
        vec![0, 0, 0, 0, 0, 0, 0, 1, 7, 0xff, 0, 0],
        vec![0, 0, 0, 0, 0, 0, 0, 1, 1, 1],
        vec![0, 0, 0, 0, 0, 0, 0, 2, 1],
        vec![0xff, 0xff, 0xff, 0xff, 0xff, 0xff, 0xff, 0xff, 1],
    ];
    for case in cases {
        assert_eq!(OndoKey::ondo_deserialize(&case), Err(refused.clone()));
    }
}

#[test]
fn key_as_value_round_trips() {
    for k in sample_keys() {
        let value = k.to_table_value();
        assert_eq!(OndoKey::from_table_value(&value), Some(k));
    }
}

#[test]
fn key_of_one_part_is_its_scalar() {
    assert_eq!(OndoKey::from_u64(1).to_table_value(), TableValue::Number(Number::PosInt(1)));
    assert_eq!(
        OndoKey::from_table_value(&TableValue::String("x".to_owned())),
        Some(OndoKey::from_text("x"))
    );
    assert_eq!(
        key(vec![KeyPart::Null, KeyPart::Bool(true)]).to_table_value(),
        TableValue::Array(vec![TableValue::Null, TableValue::Bool(true)])
    );
    assert_eq!(OndoKey::from_table_value(&TableValue::Object(vec![])), None);
    assert_eq!(
        OndoKey::from_table_value(&TableValue::Array(vec![TableValue::Array(vec![])])),
        None
    );
}

#[test]
fn keys_are_joined_and_compared_by_parts() {
    let a = OndoKey::new(vec![KeyPart::Text("x".to_owned()), KeyPart::Bool(true)]);
    let b = OndoKey::from_u64(7);
    let joined = a.concat(&b);
    assert_eq!(
        joined,
        OndoKey::new(vec![
            KeyPart::Text("x".to_owned()),
            KeyPart::Bool(true),
            KeyPart::Number(Number::PosInt(7)),
        ])
    );
    assert_eq!(joined.len(), 3);
    assert!(joined.has_prefix(&a));
    assert!(joined.has_prefix(&OndoKey::new(vec![])));
    assert!(joined.has_prefix(&joined));
    assert!(!joined.has_prefix(&b));
    assert!(!a.has_prefix(&joined));
    assert!(KeyPart::Null.same(&KeyPart::Null));
    assert!(!KeyPart::Number(Number::PosInt(1)).same(&KeyPart::Number(Number::NegInt(1))));
    assert!(!KeyPart::Bool(true).same(&KeyPart::Text("true".to_owned())));
    assert_eq!(a.clone(), a);
    assert_eq!(joined.encode(), joined.ondo_serialize().unwrap());
}
