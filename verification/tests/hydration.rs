//! The typed accessors: hydration, memoization, and the rejection
//! taxonomy for mismatched requests.

use std::sync::Arc;

use runar_values::{
    ArcValueType, ConcreteValue, SerializerRegistry, ValueError, ValueKind,
};

#[test]
fn hydration_is_idempotent() {
    let reg = SerializerRegistry::with_defaults();
    let v = ArcValueType::new_primitive(ConcreteValue::I64(11));
    let bytes = reg.serialize_value(&v).unwrap();
    let mut back = reg.deserialize_value(bytes).unwrap();

    let first = back.as_type_ref(&ValueKind::I64).unwrap();
    // hydrated: the lazy data, buffer included, is no longer needed
    match &back.value {
        Some(cell) => assert!(!cell.is_lazy()),
        None => panic!("expected a value"),
    }
    let second = back.as_type_ref(&ValueKind::I64).unwrap();
    assert_eq!((*first).clone(), (*second).clone());
    assert_eq!((*second).clone(), ConcreteValue::I64(11));
}

#[test]
fn declared_foo_rejects_requested_bar() {
    let mut reg = SerializerRegistry::with_defaults();
    reg.register(&ValueKind::Record("Foo".to_string(), 1)).unwrap();
    reg.register(&ValueKind::Record("Bar".to_string(), 1)).unwrap();

    let v = ArcValueType::from_struct(ConcreteValue::Record("Foo".to_string(), vec![9]));
    let bytes = reg.serialize_value(&v).unwrap();
    let mut back = reg.deserialize_value(bytes).unwrap();

    let r = back.as_struct_ref("Bar", 1);
    assert_eq!(r.unwrap_err(), ValueError::TypeMismatch);
    // the original lazy value is restored unchanged
    match &back.value {
        Some(cell) => assert!(cell.is_lazy()),
        None => panic!("expected a value"),
    }
    // and the right request still succeeds afterwards
    assert_eq!(back.as_struct_ref("Foo", 1).unwrap(), vec![9]);
}

#[test]
fn short_and_qualified_names_are_compatible() {
    let mut reg = SerializerRegistry::with_defaults();
    reg.register(&ValueKind::Record("geometry::shapes::Point".to_string(), 2))
        .unwrap();
    let v = ArcValueType::from_struct(ConcreteValue::Record(
        "geometry::shapes::Point".to_string(),
        vec![3, 4],
    ));
    let bytes = reg.serialize_value(&v).unwrap();
    let mut back = reg.deserialize_value(bytes).unwrap();
    // the lenient comparison accepts the short name for the
    // qualified declared name
    assert_eq!(back.as_struct_ref("Point", 2).unwrap(), vec![3, 4]);
}

#[test]
fn eager_downcast_mismatch_is_reported() {
    let mut v = ArcValueType::new_primitive(ConcreteValue::I64(1));
    let r = v.as_type_ref(&ValueKind::Bool);
    assert_eq!(r.unwrap_err(), ValueError::TypeMismatch);
    // the value is untouched
    assert_eq!(
        (*v.as_type_ref(&ValueKind::I64).unwrap()).clone(),
        ConcreteValue::I64(1)
    );
}

#[test]
fn category_mismatch_is_reported() {
    let mut v = ArcValueType::new_list(vec![1, 2]);
    assert_eq!(v.as_map_ref().unwrap_err(), ValueError::CategoryMismatch);
    assert_eq!(
        v.as_struct_ref("Point", 2).unwrap_err(),
        ValueError::CategoryMismatch
    );
    let mut n = ArcValueType::null();
    assert_eq!(n.as_list_ref().unwrap_err(), ValueError::CategoryMismatch);
    assert_eq!(
        n.as_type_ref(&ValueKind::I64).unwrap_err(),
        ValueError::CategoryMismatch
    );
}

#[test]
fn decode_failure_discards_the_lazy_data() {
    let reg = SerializerRegistry::with_defaults();
    // an i64 header declaring a payload of just 2 bytes
    let mut bytes = vec![0x01u8, 3];
    bytes.extend_from_slice(b"i64");
    bytes.extend_from_slice(&[1, 2]);
    let mut back = reg.deserialize_value(Arc::new(bytes)).unwrap();
    let r = back.as_type_ref(&ValueKind::I64);
    assert_eq!(r.unwrap_err(), ValueError::DeserializationError);
    // decode failure is unrecoverable for this value
    assert!(back.value.is_none());
}

#[test]
fn as_type_clones_the_value_out() {
    let mut v = ArcValueType::new_primitive(ConcreteValue::Text("abc".to_string()));
    let owned = v.as_type(&ValueKind::Text).unwrap();
    assert_eq!(owned, ConcreteValue::Text("abc".to_string()));
}

#[test]
fn null_values_compare_equal() {
    assert_eq!(ArcValueType::null(), ArcValueType::null());
    assert!(ArcValueType::null() != ArcValueType::new_primitive(ConcreteValue::I64(0)));
}

#[test]
fn equality_is_category_first_then_value() {
    let a = ArcValueType::new_primitive(ConcreteValue::I64(5));
    let b = ArcValueType::new_primitive(ConcreteValue::I64(5));
    let c = ArcValueType::new_primitive(ConcreteValue::I64(6));
    assert_eq!(a, b);
    assert!(a != c);
    // same concrete value under different categories is not equal
    let d = ArcValueType::from_struct(ConcreteValue::I64(5));
    assert!(a != d);
}

#[test]
fn absent_cell_under_a_shaped_category_is_rejected() {
    // hand-built inconsistent values: a category that promises a
    // cell, with none present
    let mut broken = ArcValueType {
        category: runar_values::ValueCategory::Mapping,
        value: None,
    };
    assert_eq!(broken.as_map_ref().unwrap_err(), ValueError::CategoryMismatch);
    let mut broken = ArcValueType {
        category: runar_values::ValueCategory::List,
        value: None,
    };
    assert_eq!(broken.as_list_ref().unwrap_err(), ValueError::CategoryMismatch);
    let mut broken = ArcValueType {
        category: runar_values::ValueCategory::Struct,
        value: None,
    };
    assert_eq!(
        broken.as_struct_ref("Point", 2).unwrap_err(),
        ValueError::CategoryMismatch
    );
}

#[test]
fn struct_access_is_idempotent_after_hydration() {
    let mut reg = SerializerRegistry::with_defaults();
    reg.register(&ValueKind::Record("Point".to_string(), 2)).unwrap();
    let v = ArcValueType::from_struct(ConcreteValue::Record("Point".to_string(), vec![4, 5]));
    let bytes = reg.serialize_value(&v).unwrap();
    let mut back = reg.deserialize_value(bytes).unwrap();
    let first = back.as_struct_ref("Point", 2).unwrap();
    // hydrated in place: the second access needs no buffer
    match &back.value {
        Some(cell) => assert!(!cell.is_lazy()),
        None => panic!("expected a value"),
    }
    let second = back.as_struct_ref("Point", 2).unwrap();
    assert_eq!(first, second);
    assert_eq!(second, vec![4, 5]);
}

#[test]
fn hydrated_entries_come_from_the_payload() {
    let reg = SerializerRegistry::with_defaults();
    let entries = vec![("x".to_string(), 10i64), ("y".to_string(), -3i64)];
    let v = ArcValueType::new_map(entries.clone());
    let bytes = reg.serialize_value(&v).unwrap();
    let mut back = reg.deserialize_value(bytes).unwrap();
    // the returned entries are the decoded payload, not a fabrication
    assert_eq!(back.as_map_ref().unwrap(), entries);
}
