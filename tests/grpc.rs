use prost_reflect::{DescriptorPool, DynamicMessage, Kind, ReflectMessage};
use prost_types::FileDescriptorSet;
use yaak_grpc::grpc::{
    decode_message, encode_message, method_path, payload_result, prepare_request, resolve_method,
    GrpcError,
};
use yaak_grpc::registry::{invalidate, reflect_cached, reflect_fetched, KeyedStore};
use yaak_grpc::schema::{
    export_services, field_schema_text, object_schema_text, type_schema_text,
};

fn pool_from_json(json: &str) -> DescriptorPool {
    let desc = FileDescriptorSet::default().descriptor();
    let mut de = serde_json::Deserializer::from_str(json);
    let message = DynamicMessage::deserialize(desc, &mut de).unwrap();
    let set: FileDescriptorSet = message.transcode_to().unwrap();
    DescriptorPool::from_file_descriptor_set(set).unwrap()
}

fn greeter_pool() -> DescriptorPool {
    pool_from_json(
        r#"{"file":[{"name":"greeter.proto","package":"pkg","syntax":"proto3",
          "messageType":[
            {"name":"HelloRequest","field":[{"name":"name","number":1,"label":"LABEL_OPTIONAL","type":"TYPE_STRING","jsonName":"name"}]},
            {"name":"HelloReply","field":[{"name":"message","number":1,"label":"LABEL_OPTIONAL","type":"TYPE_STRING","jsonName":"message"}]}],
          "service":[{"name":"Greeter","method":[
            {"name":"SayHello","inputType":".pkg.HelloRequest","outputType":".pkg.HelloReply"}]}]}]}"#,
    )
}

fn other_pool() -> DescriptorPool {
    pool_from_json(
        r#"{"file":[{"name":"other.proto","package":"other","syntax":"proto3",
          "messageType":[
            {"name":"Point","field":[
              {"name":"x","number":1,"label":"LABEL_OPTIONAL","type":"TYPE_INT32","jsonName":"x"},
              {"name":"tags","number":2,"label":"LABEL_REPEATED","type":"TYPE_STRING","jsonName":"tags"}]},
            {"name":"Path","field":[
              {"name":"points","number":1,"label":"LABEL_REPEATED","type":"TYPE_MESSAGE","typeName":".other.Point","jsonName":"points"},
              {"name":"start","number":2,"label":"LABEL_OPTIONAL","type":"TYPE_MESSAGE","typeName":".other.Point","jsonName":"start"},
              {"name":"closed","number":3,"label":"LABEL_OPTIONAL","type":"TYPE_BOOL","jsonName":"closed"}]}],
          "service":[{"name":"Routes","method":[
            {"name":"Record","inputType":".other.Point","outputType":".other.Path","clientStreaming":true},
            {"name":"List","inputType":".other.Path","outputType":".other.Point","serverStreaming":true},
            {"name":"Chat","inputType":".other.Point","outputType":".other.Point","clientStreaming":true,"serverStreaming":true}]}]}]}"#,
    )
}

fn hello_input(pool: &DescriptorPool) -> prost_reflect::MessageDescriptor {
    resolve_method(pool, "pkg.Greeter", "SayHello").unwrap().input
}

#[test]
fn path_is_service_then_method() {
    assert_eq!(method_path("pkg.Greeter", "SayHello"), "/pkg.Greeter/SayHello");
    assert_eq!(method_path("", ""), "//");
}

#[test]
fn resolve_finds_method_and_path() {
    let pool = greeter_pool();
    let r = resolve_method(&pool, "pkg.Greeter", "SayHello").unwrap();
    assert_eq!(r.index, 0);
    assert_eq!(r.path, "/pkg.Greeter/SayHello");
    let pool = other_pool();
    let r = resolve_method(&pool, "other.Routes", "Chat").unwrap();
    assert_eq!(r.index, 2);
    assert_eq!(r.path, "/other.Routes/Chat");
}

#[test]
fn unknown_method_is_method_not_found() {
    let pool = greeter_pool();
    let r = prepare_request(&pool, "pkg.Greeter", "Nope", "{}");
    assert!(matches!(r, Err(GrpcError::MethodNotFound(_))));
    let r = resolve_method(&pool, "pkg.Greeter", "sayhello");
    assert!(matches!(r, Err(GrpcError::MethodNotFound(_))));
}

#[test]
fn unknown_service_is_service_not_found() {
    let pool = greeter_pool();
    let r = prepare_request(&pool, "Greeter", "SayHello", "{}");
    assert!(matches!(r, Err(GrpcError::ServiceNotFound(_))));
    let e = resolve_method(&pool, "pkg.Nope", "SayHello").err().unwrap();
    assert_eq!(e.message(), "pkg.Nope");
}

#[test]
fn decode_accepts_exact_document() {
    let pool = greeter_pool();
    let input = hello_input(&pool);
    assert!(decode_message(&input, r#"{"name":"Ada"}"#).is_ok());
    assert!(decode_message(&input, "  {\"name\":\"Ada\"}\n\t ").is_ok());
    assert!(prepare_request(&pool, "pkg.Greeter", "SayHello", r#"{"name":"Ada"}"#).is_ok());
}

#[test]
fn decode_rejects_unknown_field() {
    let pool = greeter_pool();
    let input = hello_input(&pool);
    let r = decode_message(&input, r#"{"name":"Ada","extra":1}"#);
    assert!(matches!(r, Err(GrpcError::PayloadMismatch(_))));
    let r = prepare_request(&pool, "pkg.Greeter", "SayHello", r#"{"name":"Ada","extra":1}"#);
    assert!(matches!(r, Err(GrpcError::PayloadMismatch(_))));
}

#[test]
fn decode_rejects_trailing_and_truncated_text() {
    let pool = greeter_pool();
    let input = hello_input(&pool);
    for text in [
        r#"{"name":"Ada"} {"name":"Bob"}"#,
        r#"{"name":"Ada"}x"#,
        r#"{"name":"Ada""#,
        r#"{"name":"Ada","#,
        r#"{"name":"#,
        "",
    ] {
        let r = decode_message(&input, text);
        assert!(matches!(r, Err(GrpcError::PayloadMismatch(_))), "{text}");
    }
}

#[test]
fn decode_rejects_wrong_scalar_type() {
    let pool = greeter_pool();
    let input = hello_input(&pool);
    let r = decode_message(&input, r#"{"name":5}"#);
    assert!(matches!(r, Err(GrpcError::PayloadMismatch(_))));
}

#[test]
fn encode_then_decode_gives_the_same_message() {
    let pool = other_pool();
    let r = resolve_method(&pool, "other.Routes", "List").unwrap();
    let input = r.input;
    let x: DynamicMessage = decode_message(
        &input,
        r#"{"points":[{"x":1,"tags":["a","b"]},{"x":-7}],"start":{"x":3},"closed":true}"#,
    )
    .unwrap();
    let text = encode_message(&x).unwrap();
    let y = decode_message(&input, &text).unwrap();
    assert_eq!(x, y);
    assert_eq!(encode_message(&y).unwrap(), text);
}

#[test]
fn export_describes_greeter() {
    let pool = greeter_pool();
    let defs = export_services(&pool);
    assert_eq!(defs.len(), 1);
    assert_eq!(defs[0].name, "pkg.Greeter");
    assert_eq!(defs[0].methods.len(), 1);
    let m = &defs[0].methods[0];
    assert_eq!(m.name, "SayHello");
    assert!(!m.client_streaming);
    assert!(!m.server_streaming);
    assert_eq!(m.schema, r#"{"type":"object","properties":{"name":{"type":"string"}}}"#);
}

#[test]
fn export_describes_nested_repeated_and_streaming() {
    let pool = other_pool();
    let defs = export_services(&pool);
    assert_eq!(defs.len(), 1);
    let names: Vec<&str> = defs[0].methods.iter().map(|m| m.name.as_str()).collect();
    assert_eq!(names, vec!["Record", "List", "Chat"]);
    let flags: Vec<(bool, bool)> = defs[0]
        .methods
        .iter()
        .map(|m| (m.client_streaming, m.server_streaming))
        .collect();
    assert_eq!(flags, vec![(true, false), (false, true), (true, true)]);
    let point = r#"{"type":"object","properties":{"x":{"type":"integer"},"tags":{"type":"array","items":{"type":"string"}}}}"#;
    assert_eq!(defs[0].methods[0].schema, point);
    let path = format!(
        r#"{{"type":"object","properties":{{"points":{{"type":"array","items":{point}}},"start":{point},"closed":{{"type":"boolean"}}}}}}"#
    );
    assert_eq!(defs[0].methods[1].schema, path);
}

#[test]
fn schema_builders_give_exact_text() {
    assert_eq!(type_schema_text("number"), r#"{"type":"number"}"#);
    assert_eq!(field_schema_text(&Kind::Double, false, false, &String::new()), r#"{"type":"number"}"#);
    assert_eq!(
        field_schema_text(&Kind::Int64, true, false, &String::new()),
        r#"{"type":"array","items":{"type":"integer"}}"#
    );
    assert_eq!(field_schema_text(&Kind::Bytes, false, true, &String::new()), r#"{"type":"object"}"#);
    assert_eq!(object_schema_text(&Vec::new()), r#"{"type":"object","properties":{}}"#);
    assert_eq!(
        object_schema_text(&vec![
            ("a".to_string(), "{}".to_string()),
            ("b".to_string(), "[]".to_string()),
        ]),
        r#"{"type":"object","properties":{"a":{},"b":[]}}"#
    );
}

#[test]
fn invalidate_forces_fresh_fetch_then_reuse() {
    let mut pools: KeyedStore<DescriptorPool> = KeyedStore::new();
    assert!(reflect_cached(&pools, "http://e1").is_none());
    let first = reflect_fetched(&mut pools, "http://e1", greeter_pool());
    assert_eq!(first[0].name, "pkg.Greeter");
    let cached = reflect_cached(&pools, "http://e1").unwrap();
    assert_eq!(cached[0].name, "pkg.Greeter");

    invalidate(&mut pools, "http://e1");
    assert!(reflect_cached(&pools, "http://e1").is_none());
    let fresh = reflect_fetched(&mut pools, "http://e1", other_pool());
    assert_eq!(fresh[0].name, "other.Routes");
    let again = reflect_cached(&pools, "http://e1").unwrap();
    assert_eq!(again[0].name, "other.Routes");
}

#[test]
fn keyed_store_replaces_and_removes() {
    let mut s: KeyedStore<u32> = KeyedStore::new();
    s.insert("conn1", 1);
    s.insert("conn2", 2);
    s.insert("conn1", 3);
    assert_eq!(s.get("conn1"), Some(&3));
    assert_eq!(s.get("conn2"), Some(&2));
    s.remove("conn1");
    assert_eq!(s.get("conn1"), None);
    assert_eq!(s.get("conn2"), Some(&2));
    s.remove("absent");
    assert_eq!(s.get("conn2"), Some(&2));
}

#[test]
fn invalidate_leaves_other_endpoints() {
    let mut pools: KeyedStore<DescriptorPool> = KeyedStore::new();
    reflect_fetched(&mut pools, "http://e1", greeter_pool());
    reflect_fetched(&mut pools, "http://e2", other_pool());
    invalidate(&mut pools, "http://e1");
    assert!(reflect_cached(&pools, "http://e1").is_none());
    assert_eq!(reflect_cached(&pools, "http://e2").unwrap()[0].name, "other.Routes");
}

#[test]
fn unary_request_and_reply_text() {
    let pool = greeter_pool();
    let (resolved, request) =
        prepare_request(&pool, "pkg.Greeter", "SayHello", r#"{"name":"Ada"}"#).unwrap();
    assert_eq!(resolved.path, "/pkg.Greeter/SayHello");
    let sent: serde_json::Value = serde_json::from_str(&encode_message(&request).unwrap()).unwrap();
    let mut expected = serde_json::Map::new();
    expected.insert("name".to_string(), serde_json::Value::String("Ada".to_string()));
    assert_eq!(sent, serde_json::Value::Object(expected));

    let output = pool.get_message_by_name("pkg.HelloReply").unwrap();
    let reply = decode_message(&output, r#"{"message":"Hello, Ada"}"#).unwrap();
    let text = encode_message(&reply).unwrap();
    assert!(text.contains('\n'));
    let shown: serde_json::Value = serde_json::from_str(&text).unwrap();
    let mut expected = serde_json::Map::new();
    expected.insert("message".to_string(), serde_json::Value::String("Hello, Ada".to_string()));
    assert_eq!(shown, serde_json::Value::Object(expected));
}

#[test]
fn error_message_is_kept() {
    let e = GrpcError::TransportError("connection refused".to_string());
    assert_eq!(e.message(), "connection refused");
    let e = GrpcError::MethodNotFound("Nope".to_string());
    assert_eq!(e.message(), "Nope");
}

#[test]
fn payload_result_keeps_value_or_reports_mismatch() {
    assert!(matches!(payload_result::<u8>(Ok(3)), Ok(3)));
    let bad = serde_json::from_str::<u8>("x");
    match payload_result(bad) {
        Err(GrpcError::PayloadMismatch(m)) => assert!(!m.is_empty()),
        other => panic!("unexpected {:?}", other.is_ok()),
    }
}

#[test]
fn service_name_must_match_exactly() {
    let pool = greeter_pool();
    for name in [".pkg.Greeter", "pkg.Greeter ", "pkg.greeter", "pkg", "Greeter"] {
        let r = resolve_method(&pool, name, "SayHello");
        assert!(matches!(r, Err(GrpcError::ServiceNotFound(_))), "{name}");
    }
    assert!(resolve_method(&pool, "pkg.Greeter", "SayHello").is_ok());
}

#[test]
fn message_without_json_form_is_wire_decode_error() {
    let stamp = prost_types::Timestamp { seconds: i64::MAX, nanos: 0 };
    let message = stamp.transcode_to_dynamic();
    let r = encode_message(&message);
    assert!(matches!(r, Err(GrpcError::WireDecodeError(_))));
    let ok = prost_types::Timestamp { seconds: 0, nanos: 0 }.transcode_to_dynamic();
    assert_eq!(encode_message(&ok).unwrap(), "\"1970-01-01T00:00:00Z\"");
}
