//! Registration, sealing, and the serializer lookup rules.

use runar_values::{
    ConcreteValue, DeserializerFnWrapper, SerializerRegistry, ValueError, ValueKind,
};

#[test]
fn sealing_rejects_every_mutation() {
    let mut reg = SerializerRegistry::new();
    // registrations made before sealing succeed and are visible
    reg.register(&ValueKind::I64).unwrap();
    reg.register_map().unwrap();
    reg.register_custom_deserializer("alias", DeserializerFnWrapper::new(ValueKind::I64))
        .unwrap();
    assert!(reg.get_deserializer_arc("i64").is_some());
    assert!(reg.get_deserializer_arc("alias").is_some());
    assert!(!reg.is_sealed());

    reg.seal();
    assert!(reg.is_sealed());

    assert_eq!(reg.register(&ValueKind::Bool).unwrap_err(), ValueError::Sealed);
    assert_eq!(reg.register_map().unwrap_err(), ValueError::Sealed);
    assert_eq!(
        reg.register_custom_deserializer("other", DeserializerFnWrapper::new(ValueKind::Bool))
            .unwrap_err(),
        ValueError::Sealed
    );
    // what was registered before sealing stays visible
    assert!(reg.get_deserializer_arc("i64").is_some());
    assert!(reg.get_deserializer_arc("alias").is_some());
    assert!(reg.get_deserializer_arc("bool").is_none());
}

#[test]
fn registration_adds_the_short_name_when_free() {
    let mut reg = SerializerRegistry::new();
    reg.register(&ValueKind::Text).unwrap();
    assert!(reg.get_deserializer_arc("alloc::string::String").is_some());
    assert!(reg.get_deserializer_arc("String").is_some());
}

#[test]
fn short_name_keeps_its_first_registrant() {
    let mut reg = SerializerRegistry::new();
    reg.register(&ValueKind::Record("a::Point".to_string(), 2))
        .unwrap();
    reg.register(&ValueKind::Record("b::Point".to_string(), 3))
        .unwrap();
    // both canonical names are present
    let a = reg.get_deserializer_arc("a::Point").unwrap();
    let b = reg.get_deserializer_arc("b::Point").unwrap();
    assert_eq!(a.kind, ValueKind::Record("a::Point".to_string(), 2));
    assert_eq!(b.kind, ValueKind::Record("b::Point".to_string(), 3));
    // the short name still belongs to the first registrant
    let short = reg.get_deserializer_arc("Point").unwrap();
    assert_eq!(short.kind, ValueKind::Record("a::Point".to_string(), 2));
}

#[test]
fn reregistration_overwrites_the_canonical_entry() {
    let mut reg = SerializerRegistry::new();
    reg.register(&ValueKind::Record("Point".to_string(), 2))
        .unwrap();
    reg.register(&ValueKind::Record("Point".to_string(), 2))
        .unwrap();
    let w = reg.get_deserializer_arc("Point").unwrap();
    assert_eq!(w.kind, ValueKind::Record("Point".to_string(), 2));
}

#[test]
fn custom_deserializer_aliases_a_kind() {
    let mut reg = SerializerRegistry::with_defaults();
    reg.register_custom_deserializer(
        "number",
        DeserializerFnWrapper::new(ValueKind::I64),
    )
    .unwrap();
    let w = reg.get_deserializer_arc("number").unwrap();
    // the handle decodes payloads of its kind
    let payload = [7u8, 0, 0, 0, 0, 0, 0, 0];
    assert_eq!(w.call(&payload).unwrap(), ConcreteValue::I64(7));
}

#[test]
fn deserializer_wrapper_decodes_and_rejects() {
    let w = DeserializerFnWrapper::new(ValueKind::Bool);
    assert_eq!(w.call(&[1u8]).unwrap(), ConcreteValue::Bool(true));
    assert_eq!(w.call(&[0u8]).unwrap(), ConcreteValue::Bool(false));
    assert_eq!(w.call(&[2u8]).unwrap_err(), ValueError::DeserializationError);
    assert_eq!(w.call(&[]).unwrap_err(), ValueError::DeserializationError);
}

#[test]
fn serialize_checks_name_then_type() {
    let reg = SerializerRegistry::with_defaults();
    let v = ConcreteValue::I64(3);
    assert_eq!(
        reg.serialize(&v, "no_such_type").unwrap_err(),
        ValueError::UnknownType
    );
    assert_eq!(
        reg.serialize(&v, "bool").unwrap_err(),
        ValueError::TypeMismatch
    );
    let payload = reg.serialize(&v, "i64").unwrap();
    assert_eq!(payload, vec![3u8, 0, 0, 0, 0, 0, 0, 0]);
    // the registered payload codec is the binary codec itself
    assert_eq!(payload, bincode::serialize(&3i64).unwrap());
}

#[test]
fn text_payload_matches_the_binary_codec() {
    let reg = SerializerRegistry::with_defaults();
    let v = ConcreteValue::Text("abc".to_string());
    let payload = reg.serialize(&v, "alloc::string::String").unwrap();
    assert_eq!(payload, bincode::serialize("abc").unwrap());
    assert_eq!(payload, vec![3u8, 0, 0, 0, 0, 0, 0, 0, b'a', b'b', b'c']);
}

#[test]
fn unregistered_record_cannot_serialize() {
    let reg = SerializerRegistry::with_defaults();
    let v = runar_values::ArcValueType::from_struct(ConcreteValue::Record(
        "Unregistered".to_string(),
        vec![1],
    ));
    assert_eq!(
        reg.serialize_value(&v).unwrap_err(),
        ValueError::UnknownType
    );
}

#[test]
fn record_arity_mismatch_is_a_type_mismatch() {
    let mut reg = SerializerRegistry::with_defaults();
    reg.register(&ValueKind::Record("Point".to_string(), 2))
        .unwrap();
    let v = runar_values::ArcValueType::from_struct(ConcreteValue::Record(
        "Point".to_string(),
        vec![1, 2, 3],
    ));
    assert_eq!(
        reg.serialize_value(&v).unwrap_err(),
        ValueError::TypeMismatch
    );
}

#[test]
fn oversized_type_name_is_rejected() {
    let mut reg = SerializerRegistry::with_defaults();
    let long_name: String = std::iter::repeat('x').take(300).collect();
    reg.register(&ValueKind::Record(long_name.clone(), 1)).unwrap();
    let v = runar_values::ArcValueType::from_struct(ConcreteValue::Record(long_name, vec![1]));
    assert_eq!(
        reg.serialize_value(&v).unwrap_err(),
        ValueError::TypeNameTooLong
    );
}
