//! The wire header and the malformed-input taxonomy.

use std::sync::Arc;

use runar_values::{
    ArcValueType, ConcreteValue, SerializerRegistry, ValueCategory, ValueError, ValueKind,
};

#[test]
fn null_serializes_to_single_byte() {
    let reg = SerializerRegistry::with_defaults();
    let v = ArcValueType::null();
    let bytes = reg.serialize_value(&v).unwrap();
    assert_eq!(*bytes, vec![0x05u8]);
}

#[test]
fn single_null_byte_decodes_to_null() {
    let reg = SerializerRegistry::with_defaults();
    let v = reg.deserialize_value(Arc::new(vec![0x05u8])).unwrap();
    assert!(v.is_null());
    assert_eq!(v.category, ValueCategory::Null);
}

#[test]
fn empty_buffer_is_rejected() {
    let reg = SerializerRegistry::with_defaults();
    let r = reg.deserialize_value(Arc::new(Vec::new()));
    assert_eq!(r.unwrap_err(), ValueError::EmptyBuffer);
}

#[test]
fn truncated_header_is_rejected() {
    let reg = SerializerRegistry::with_defaults();
    // declares a 255-byte name but supplies none
    let r = reg.deserialize_value(Arc::new(vec![0x01u8, 0xFF]));
    assert_eq!(r.unwrap_err(), ValueError::TruncatedHeader);
    // category byte alone (non-null)
    let r = reg.deserialize_value(Arc::new(vec![0x01u8]));
    assert_eq!(r.unwrap_err(), ValueError::TruncatedHeader);
}

#[test]
fn invalid_category_is_rejected() {
    let reg = SerializerRegistry::with_defaults();
    let r = reg.deserialize_value(Arc::new(vec![0x09u8, 0, 1, 2]));
    assert_eq!(r.unwrap_err(), ValueError::InvalidCategory);
    let r = reg.deserialize_value(Arc::new(vec![0x00u8]));
    assert_eq!(r.unwrap_err(), ValueError::InvalidCategory);
}

#[test]
fn invalid_type_name_is_rejected() {
    let reg = SerializerRegistry::with_defaults();
    // 2-byte name that is not valid text
    let r = reg.deserialize_value(Arc::new(vec![0x01u8, 2, 0xFF, 0xFE, 9, 9]));
    assert_eq!(r.unwrap_err(), ValueError::InvalidTypeName);
}

#[test]
fn unknown_type_name_is_rejected() {
    let reg = SerializerRegistry::with_defaults();
    let mut bytes = vec![0x04u8, 7];
    bytes.extend_from_slice(b"Unknown");
    bytes.extend_from_slice(&[0u8; 16]);
    let r = reg.deserialize_value(Arc::new(bytes));
    assert_eq!(r.unwrap_err(), ValueError::UnknownType);
}

#[test]
fn bytes_value_serializes_with_empty_name() {
    let reg = SerializerRegistry::with_defaults();
    let v = ArcValueType::new_bytes(vec![1u8, 2, 3]);
    let bytes = reg.serialize_value(&v).unwrap();
    // category byte, zero-length name, then the raw payload: 5 bytes
    assert_eq!(*bytes, vec![0x06u8, 0, 1, 2, 3]);
    assert_eq!(bytes.len(), 5);
}

#[test]
fn category_bytes_follow_the_header_table() {
    let reg = SerializerRegistry::with_defaults();
    let prim = reg
        .serialize_value(&ArcValueType::new_primitive(ConcreteValue::I64(7)))
        .unwrap();
    assert_eq!(prim[0], 0x01);
    let list = reg
        .serialize_value(&ArcValueType::new_list(vec![1, 2]))
        .unwrap();
    assert_eq!(list[0], 0x02);
    let map = reg
        .serialize_value(&ArcValueType::new_map(vec![("k".to_string(), 1i64)]))
        .unwrap();
    assert_eq!(map[0], 0x03);
    let mut reg2 = SerializerRegistry::with_defaults();
    reg2.register(&ValueKind::Record("Point".to_string(), 2))
        .unwrap();
    let record = reg2
        .serialize_value(&ArcValueType::from_struct(ConcreteValue::Record(
            "Point".to_string(),
            vec![1, 2],
        )))
        .unwrap();
    assert_eq!(record[0], 0x04);
    let raw = reg
        .serialize_value(&ArcValueType::new_bytes(vec![9]))
        .unwrap();
    assert_eq!(raw[0], 0x06);
}

#[test]
fn inconsistent_state_is_reported() {
    let reg = SerializerRegistry::with_defaults();
    // a value that is absent although the category is not null
    let broken = ArcValueType {
        category: ValueCategory::List,
        value: None,
    };
    let r = reg.serialize_value(&broken);
    assert_eq!(r.unwrap_err(), ValueError::InvalidState);
}

#[test]
fn primitive_header_carries_the_canonical_name() {
    let reg = SerializerRegistry::with_defaults();
    let v = ArcValueType::new_primitive(ConcreteValue::I64(1));
    let bytes = reg.serialize_value(&v).unwrap();
    // [0x01]["i64".len()]["i64"][8-byte payload]
    assert_eq!(bytes[1] as usize, 3);
    assert_eq!(&bytes[2..5], b"i64");
    assert_eq!(bytes.len(), 2 + 3 + 8);
    assert_eq!(&bytes[5..], &[1u8, 0, 0, 0, 0, 0, 0, 0]);
}
