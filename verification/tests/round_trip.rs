//! Round trips through the wire format: serialize, deserialize,
//! hydrate, compare; and the lazy passthrough that re-encodes a
//! received value without ever decoding it.

use std::sync::Arc;

use runar_values::{
    ArcValueType, ConcreteValue, SerializerRegistry, ValueCategory, ValueKind,
};

fn round_trip(reg: &SerializerRegistry, v: &ArcValueType, kind: &ValueKind) -> ArcValueType {
    let bytes = reg.serialize_value(v).unwrap();
    let mut back = reg.deserialize_value(bytes).unwrap();
    let hydrated = back.as_type_ref(kind).unwrap();
    assert_eq!((*hydrated).clone(), {
        let mut copy = clone_value(v);
        copy.as_type(kind).unwrap()
    });
    back
}

fn clone_value(v: &ArcValueType) -> ArcValueType {
    ArcValueType {
        category: v.category,
        value: v.value.clone(),
    }
}

#[test]
fn round_trip_i64() {
    let reg = SerializerRegistry::with_defaults();
    let v = ArcValueType::new_primitive(ConcreteValue::I64(-42));
    let back = round_trip(&reg, &v, &ValueKind::I64);
    assert_eq!(back, v);
}

#[test]
fn round_trip_i64_extremes() {
    let reg = SerializerRegistry::with_defaults();
    for x in [i64::MIN, i64::MAX, 0] {
        let v = ArcValueType::new_primitive(ConcreteValue::I64(x));
        let back = round_trip(&reg, &v, &ValueKind::I64);
        assert_eq!(back, v);
    }
}

#[test]
fn round_trip_empty_values() {
    let reg = SerializerRegistry::with_defaults();
    let texts = ArcValueType::new_primitive(ConcreteValue::Text(String::new()));
    assert_eq!(round_trip(&reg, &texts, &ValueKind::Text), texts);
    let list = ArcValueType::new_list(Vec::new());
    assert_eq!(round_trip(&reg, &list, &ValueKind::IntList), list);
    let map = ArcValueType::new_map(Vec::new());
    assert_eq!(round_trip(&reg, &map, &ValueKind::Entries), map);
    let bytes = ArcValueType::new_bytes(Vec::new());
    assert_eq!(round_trip(&reg, &bytes, &ValueKind::Raw), bytes);
}

#[test]
fn round_trip_map_with_equal_keys() {
    // entries keep insertion order, duplicate keys included
    let reg = SerializerRegistry::with_defaults();
    let entries = vec![("k".to_string(), 1i64), ("k".to_string(), 2i64)];
    let v = ArcValueType::new_map(entries.clone());
    let bytes = reg.serialize_value(&v).unwrap();
    let mut back = reg.deserialize_value(bytes).unwrap();
    assert_eq!(back.as_map_ref().unwrap(), entries);
}

#[test]
fn round_trip_bool() {
    let reg = SerializerRegistry::with_defaults();
    for b in [true, false] {
        let v = ArcValueType::new_primitive(ConcreteValue::Bool(b));
        let back = round_trip(&reg, &v, &ValueKind::Bool);
        assert_eq!(back, v);
    }
}

#[test]
fn round_trip_text() {
    let reg = SerializerRegistry::with_defaults();
    let v = ArcValueType::new_primitive(ConcreteValue::Text("hello world".to_string()));
    let back = round_trip(&reg, &v, &ValueKind::Text);
    assert_eq!(back, v);
}

#[test]
fn round_trip_list() {
    let reg = SerializerRegistry::with_defaults();
    let v = ArcValueType::new_list(vec![3, -1, 4, 1, 5]);
    let bytes = reg.serialize_value(&v).unwrap();
    let mut back = reg.deserialize_value(bytes).unwrap();
    assert_eq!(back.as_list_ref().unwrap(), vec![3, -1, 4, 1, 5]);
    assert_eq!(back, v);
}

#[test]
fn round_trip_map() {
    let reg = SerializerRegistry::with_defaults();
    let entries = vec![("alpha".to_string(), 1i64), ("beta".to_string(), -2i64)];
    let v = ArcValueType::new_map(entries.clone());
    let bytes = reg.serialize_value(&v).unwrap();
    let mut back = reg.deserialize_value(bytes).unwrap();
    assert_eq!(back.as_map_ref().unwrap(), entries);
    assert_eq!(back, v);
}

#[test]
fn round_trip_bytes_category() {
    let reg = SerializerRegistry::with_defaults();
    let v = ArcValueType::new_bytes(vec![1, 2, 3]);
    let bytes = reg.serialize_value(&v).unwrap();
    let mut back = reg.deserialize_value(bytes).unwrap();
    let hydrated = back.as_type_ref(&ValueKind::Raw).unwrap();
    assert_eq!((*hydrated).clone(), ConcreteValue::Raw(vec![1, 2, 3]));
    assert_eq!(back, v);
}

#[test]
fn point_scenario() {
    // register type "Point" (two 64-bit fields)
    let mut reg = SerializerRegistry::with_defaults();
    reg.register(&ValueKind::Record("Point".to_string(), 2))
        .unwrap();
    reg.seal();

    // build an eager struct value of a Point
    let v = ArcValueType::from_struct(ConcreteValue::Record("Point".to_string(), vec![1, 2]));

    // serialize: [0x04, 5, 'P','o','i','n','t', payload]
    let bytes = reg.serialize_value(&v).unwrap();
    assert_eq!(bytes[0], 0x04);
    assert_eq!(bytes[1], 5);
    assert_eq!(&bytes[2..7], b"Point");
    assert_eq!(bytes.len(), 7 + 16);

    // deserialize: a lazy struct value with declared name "Point"
    let mut back = reg.deserialize_value(bytes).unwrap();
    assert_eq!(back.category, ValueCategory::Struct);
    match &back.value {
        Some(cell) => {
            assert!(cell.is_lazy());
            let lazy = cell.get_lazy_data().unwrap();
            assert_eq!(lazy.type_label, "Point");
        }
        None => panic!("expected a value"),
    }

    // access as Point: hydrates and returns the fields
    let fields = back.as_struct_ref("Point", 2).unwrap();
    assert_eq!(fields, vec![1, 2]);
    match &back.value {
        Some(cell) => assert!(!cell.is_lazy()),
        None => panic!("expected a value"),
    }

    // second access returns the same value without re-decoding
    let fields_again = back.as_struct_ref("Point", 2).unwrap();
    assert_eq!(fields_again, vec![1, 2]);
    assert_eq!(back, v);
}

#[test]
fn lazy_passthrough_reencodes_identically() {
    let mut reg = SerializerRegistry::with_defaults();
    reg.register(&ValueKind::Record("Point".to_string(), 2))
        .unwrap();

    for v in [
        ArcValueType::new_primitive(ConcreteValue::I64(7)),
        ArcValueType::new_primitive(ConcreteValue::Text("pass through".to_string())),
        ArcValueType::new_list(vec![1, 2, 3]),
        ArcValueType::new_map(vec![("k".to_string(), 9i64)]),
        ArcValueType::from_struct(ConcreteValue::Record("Point".to_string(), vec![-1, 1])),
        ArcValueType::new_bytes(vec![0xAA, 0xBB]),
    ] {
        let original = reg.serialize_value(&v).unwrap();
        // decode without ever hydrating, then re-encode
        let lazy = reg.deserialize_value(original.clone()).unwrap();
        match &lazy.value {
            Some(cell) => assert!(cell.is_lazy()),
            None => panic!("expected a lazy value"),
        }
        let reencoded = reg.serialize_value(&lazy).unwrap();
        assert_eq!(*reencoded, *original);
    }
}

#[test]
fn lazy_values_share_the_received_buffer() {
    let reg = SerializerRegistry::with_defaults();
    let v = ArcValueType::new_list(vec![5, 6]);
    let bytes = reg.serialize_value(&v).unwrap();
    let lazy = reg.deserialize_value(bytes.clone()).unwrap();
    match &lazy.value {
        Some(cell) => {
            let data = cell.get_lazy_data().unwrap();
            assert!(Arc::ptr_eq(&data.original_buffer, &bytes));
            assert_eq!(data.start_offset, 2 + "alloc::vec::Vec<i64>".len());
            assert_eq!(data.end_offset, bytes.len());
        }
        None => panic!("expected a value"),
    }
}
