//! Type-name handling, rendering, and the peripheral types.

use runar_values::context::{EventContext, TopicPath};
use runar_values::convert::AsArcValueType;
use runar_values::display::u64_to_string;
use runar_values::errors::error_to_string_value;
use runar_values::names::{compare_type_names, short_name};
use runar_values::transport::{
    port_candidate, NetworkError, NetworkMessage, NetworkMessagePayloadItem, NetworkMessageType,
    PeerId, SkipServerVerification,
};
use runar_values::orders::OrderService;
use runar_values::{
    ArcValueType, ConcreteValue, ErasedArc, LazyDataWithOffset, SerializerRegistry, ValueKind,
};

#[test]
fn short_name_strips_module_qualification() {
    assert_eq!(short_name("alloc::string::String"), "String");
    assert_eq!(short_name("Point"), "Point");
    assert_eq!(short_name("a::b::c"), "c");
    assert_eq!(short_name("::leading"), "leading");
    assert_eq!(short_name("trailing::"), "");
    assert_eq!(short_name(""), "");
    // the first separator wins, as splitting on "::" does
    assert_eq!(short_name(":::a"), ":a");
}

#[test]
fn lenient_comparison_accepts_exact_or_short_match() {
    assert!(compare_type_names("Point", "Point"));
    assert!(compare_type_names("geometry::Point", "Point"));
    assert!(compare_type_names("Point", "geometry::Point"));
    assert!(compare_type_names("a::Point", "b::Point"));
    assert!(!compare_type_names("Point", "Circle"));
    assert!(!compare_type_names("a::Point", "a::Circle"));
}

#[test]
fn lazy_values_render_without_decoding() {
    let reg = SerializerRegistry::with_defaults();
    let v = ArcValueType::new_primitive(ConcreteValue::I64(5));
    let lazy = reg
        .deserialize_value(reg.serialize_value(&v).unwrap())
        .unwrap();
    assert_eq!(lazy.display_string(), "Lazy<i64>(size: 8 bytes)");
}

#[test]
fn eager_values_render_their_shape() {
    assert_eq!(ArcValueType::null().display_string(), "null");
    assert_eq!(
        ArcValueType::new_primitive(ConcreteValue::I64(-42)).display_string(),
        "-42"
    );
    assert_eq!(
        ArcValueType::new_primitive(ConcreteValue::Bool(true)).display_string(),
        "true"
    );
    assert_eq!(
        ArcValueType::new_primitive(ConcreteValue::Text("hi".to_string())).display_string(),
        "\"hi\""
    );
    assert_eq!(
        ArcValueType::new_list(vec![1]).display_string(),
        "List<alloc::vec::Vec<i64>>"
    );
    assert_eq!(
        ArcValueType::new_map(vec![]).display_string(),
        "Map<std::collections::HashMap<String, i64>>"
    );
    assert_eq!(
        ArcValueType::from_struct(ConcreteValue::Record("Point".to_string(), vec![1, 2]))
            .display_string(),
        "Struct<Point>"
    );
    assert_eq!(
        ArcValueType::new_bytes(vec![1, 2, 3]).display_string(),
        "Bytes(size: 3 bytes)"
    );
}

#[test]
fn decimal_rendering_is_exact() {
    assert_eq!(u64_to_string(0), "0");
    assert_eq!(u64_to_string(7), "7");
    assert_eq!(u64_to_string(1234567890), "1234567890");
    assert_eq!(u64_to_string(u64::MAX), "18446744073709551615");
    assert_eq!(
        ArcValueType::new_primitive(ConcreteValue::I64(i64::MIN)).display_string(),
        "-9223372036854775808"
    );
}

#[test]
fn event_context_resolves_topics() {
    let path = TopicPath::new(
        "net1".to_string(),
        "orders".to_string(),
        "created".to_string(),
    );
    let ctx = EventContext::new(&path);
    assert_eq!(ctx.resolve_topic("other:svc/t"), "other:svc/t");
    assert_eq!(ctx.resolve_topic("svc/t"), "net1:svc/t");
    assert_eq!(ctx.resolve_topic("t"), "net1:orders/t");
    assert_eq!(path.action_path(), "created");
}

#[test]
fn transport_types_carry_their_fields() {
    let peer = PeerId::new("node-a".to_string());
    assert_eq!(peer.public_key, "node-a");
    assert_eq!(peer.display_string(), "node-a");
    let item = NetworkMessagePayloadItem::new(
        "orders/create".to_string(),
        vec![1, 2],
        "corr-1".to_string(),
    );
    assert_eq!(item.path, "orders/create");
    assert_eq!(item.value_bytes, vec![1, 2]);
    assert_eq!(item.correlation_id, "corr-1");
    let msg = NetworkMessage {
        source: peer.clone(),
        destination: PeerId::new("node-b".to_string()),
        message_type: "Request".to_string(),
        payloads: vec![item],
    };
    assert_eq!(msg.source.public_key, "node-a");
    assert_eq!(msg.destination.public_key, "node-b");
    assert!(NetworkMessageType::Request == NetworkMessageType::Request);
    assert!(NetworkMessageType::Request != NetworkMessageType::Heartbeat);
    let _marker = SkipServerVerification::new();
    let _service = OrderService::new();
}

#[test]
fn network_errors_describe_themselves() {
    assert_eq!(
        NetworkError::ConnectionError("refused".to_string()).describe(),
        "Connection error: refused"
    );
    assert_eq!(
        NetworkError::ConfigurationError("bad port".to_string()).describe(),
        "Configuration error: bad port"
    );
}

#[test]
fn error_values_are_text_primitives() {
    let mut v = error_to_string_value("boom".to_string());
    assert_eq!(
        v.as_type(&ValueKind::Text).unwrap(),
        ConcreteValue::Text("boom".to_string())
    );
    assert_eq!(v.display_string(), "\"boom\"");
}

#[test]
fn port_candidates_stay_in_range() {
    for draw in [0u16, 1, 999, u16::MAX] {
        let p = port_candidate(50000, 51000, draw);
        assert!((50000..51000).contains(&p));
    }
    assert_eq!(port_candidate(50000, 50001, 12345), 50000);
}

#[test]
fn value_error_descriptions_are_stable() {
    assert_eq!(
        runar_values::ValueError::Sealed.describe(),
        "registry is sealed"
    );
    assert_eq!(
        runar_values::ValueError::EmptyBuffer.describe(),
        "empty byte array"
    );
}

#[test]
fn kinds_describe_values() {
    assert_eq!(ConcreteValue::I64(1).kind(), ValueKind::I64);
    assert_eq!(
        ConcreteValue::Record("Point".to_string(), vec![1, 2]).kind(),
        ValueKind::Record("Point".to_string(), 2)
    );
    assert_eq!(
        ValueKind::I64.category(),
        runar_values::ValueCategory::Primitive
    );
    assert_eq!(
        ValueKind::Entries.category(),
        runar_values::ValueCategory::Mapping
    );
    assert_eq!(ValueKind::Text.canonical_name(), "alloc::string::String");
    assert_eq!(
        ConcreteValue::Text("x".to_string()).type_label(),
        "alloc::string::String"
    );
}

#[test]
fn lazy_cells_compare_by_name_and_payload() {
    let buffer = std::sync::Arc::new(vec![9u8, 1, 2, 3]);
    let a = ErasedArc::from_lazy(LazyDataWithOffset {
        type_label: "i64".to_string(),
        original_buffer: buffer.clone(),
        start_offset: 1,
        end_offset: 4,
    });
    let b = a.clone();
    assert!(a.eq_value(&b));
    assert!(a.is_lazy());
    assert_eq!(a.get_lazy_data().unwrap().type_label, "i64");
    assert_eq!(a.type_label(), "i64");
    let other = ErasedArc::from_lazy(LazyDataWithOffset {
        type_label: "i64".to_string(),
        original_buffer: buffer,
        start_offset: 0,
        end_offset: 3,
    });
    assert!(!a.eq_value(&other));
    let eager = ErasedArc::new(ConcreteValue::I64(5));
    assert!(!a.eq_value(&eager));
    assert!(!eager.is_lazy());
}

#[test]
fn conversions_pick_the_right_shape() {
    let v = true.into_arc_value_type();
    assert_eq!(v, ArcValueType::new_primitive(ConcreteValue::Bool(true)));
    let v = 7i64.into_arc_value_type();
    assert_eq!(v, ArcValueType::new_primitive(ConcreteValue::I64(7)));
    let v = "hi".into_arc_value_type();
    assert_eq!(
        v,
        ArcValueType::new_primitive(ConcreteValue::Text("hi".to_string()))
    );
    let v = ().into_arc_value_type();
    assert!(v.is_null());
    let v = Some(5i64).into_arc_value_type();
    assert_eq!(v, ArcValueType::new_primitive(ConcreteValue::I64(5)));
    let v: ArcValueType = Option::<i64>::None.into_arc_value_type();
    assert!(v.is_null());
}
