//! Reading the data models back from their JSON shapes.

use bowire_plugin::json::{JsonNumber, JsonValue};
use bowire_plugin::{
    Capabilities, FieldInfo, InvokeResult, MessageInfo, MethodInfo, MethodType, PluginSetting, ServiceInfo,
};

fn text(s: &str) -> JsonValue {
    JsonValue::String(s.to_string())
}

fn obj(members: Vec<(&str, JsonValue)>) -> JsonValue {
    JsonValue::Object(members.into_iter().map(|(k, v)| (k.to_string(), v)).collect())
}

#[test]
fn field_reads_its_wire_shape_back() {
    let f = FieldInfo::string("id").required().with_description("the id");
    let back = FieldInfo::from_json(&f.to_json()).expect("a field");
    assert_eq!(back.name, "id");
    assert_eq!(back.kind, "string");
    assert!(back.required);
    assert_eq!(back.description, Some("the id".to_string()));
    assert_eq!(back.source, None);
}

#[test]
fn field_needs_its_required_members() {
    assert!(FieldInfo::from_json(&obj(vec![("name", text("a")), ("type", text("string"))])).is_none());
    assert!(FieldInfo::from_json(&obj(vec![
        ("name", text("a")),
        ("type", text("string")),
        ("required", text("yes")),
    ]))
    .is_none());
    assert!(FieldInfo::from_json(&text("a")).is_none());
}

#[test]
fn field_given_twice_is_refused_and_unknown_members_ignored() {
    let base = || vec![("name", text("a")), ("type", text("string")), ("required", JsonValue::Bool(false))];
    let mut twice = base();
    twice.push(("name", text("b")));
    assert!(FieldInfo::from_json(&obj(twice)).is_none());
    let mut extra = base();
    extra.push(("color", text("red")));
    extra.push(("description", JsonValue::Null));
    let f = FieldInfo::from_json(&obj(extra)).expect("a field");
    assert_eq!(f.name, "a");
    assert_eq!(f.description, None);
}

#[test]
fn field_reads_the_positional_form() {
    let v = JsonValue::Array(vec![text("a"), text("bool"), JsonValue::Bool(true), JsonValue::Null, text("query")]);
    let f = FieldInfo::from_json(&v).expect("a field");
    assert_eq!(f.kind, "bool");
    assert_eq!(f.source, Some("query".to_string()));
    assert!(FieldInfo::from_json(&JsonValue::Array(vec![text("a"), text("bool"), JsonValue::Bool(true)])).is_none());
}

#[test]
fn service_reads_its_wire_shape_back() {
    let input = MessageInfo::new("Req", "pkg.Req").with_fields(vec![FieldInfo::int32("n")]);
    let m = MethodInfo::unary("Get").with_input(input).with_summary("gets");
    let s = ServiceInfo::new("pkg.Svc").with_methods(vec![m]).with_description("svc");
    let back = ServiceInfo::from_json(&s.to_json()).expect("a service");
    assert_eq!(back.name, "pkg.Svc");
    assert_eq!(back.description, Some("svc".to_string()));
    assert_eq!(back.version, None);
    assert_eq!(back.methods.len(), 1);
    let bm = &back.methods[0];
    assert_eq!(bm.name, "Get");
    assert_eq!(bm.method_type, MethodType::Unary);
    assert_eq!(bm.summary, Some("gets".to_string()));
    assert!(bm.output_type.is_none());
    let bi = bm.input_type.as_ref().expect("an input type");
    assert_eq!(bi.full_name, "pkg.Req");
    assert_eq!(bi.fields[0].kind, "int32");
}

#[test]
fn method_type_reads_names_and_single_member_objects() {
    assert_eq!(MethodType::from_json(&text("Duplex")), Some(MethodType::Duplex));
    assert_eq!(MethodType::from_json(&obj(vec![("ServerStreaming", JsonValue::Null)])), Some(MethodType::ServerStreaming));
    assert_eq!(MethodType::from_json(&obj(vec![("ServerStreaming", text("x"))])), None);
    assert_eq!(MethodType::from_json(&text("duplex")), None);
    assert_eq!(MethodType::from_json(&JsonValue::Null), None);
}

#[test]
fn service_with_a_bad_method_is_refused() {
    let s = obj(vec![("name", text("s")), ("methods", JsonValue::Array(vec![obj(vec![("name", text("m"))])]))]);
    assert!(ServiceInfo::from_json(&s).is_none());
    let s = obj(vec![("name", text("s")), ("methods", JsonValue::Array(vec![]))]);
    assert_eq!(ServiceInfo::from_json(&s).expect("a service").methods.len(), 0);
}

#[test]
fn setting_needs_its_options() {
    let mut s = PluginSetting::default();
    s.id = "mode".to_string();
    s.options = vec!["a".to_string(), "b".to_string()];
    let back = PluginSetting::from_json(&s.to_json()).expect("a setting");
    assert_eq!(back.options, vec!["a".to_string(), "b".to_string()]);
    // An empty list is left out of the wire shape, and the decoder needs it.
    assert!(PluginSetting::from_json(&PluginSetting::default().to_json()).is_none());
    let bad = obj(vec![
        ("id", text("i")),
        ("name", text("n")),
        ("description", text("d")),
        ("type", text("t")),
        ("default", text("x")),
        ("options", JsonValue::Array(vec![text("a"), JsonValue::Bool(true)])),
    ]);
    assert!(PluginSetting::from_json(&bad).is_none());
}

#[test]
fn invoke_result_reads_metadata_as_a_map() {
    let v = obj(vec![
        ("status", text("OK")),
        ("durationMs", JsonValue::Number(JsonNumber::NegInt(-3))),
        ("metadata", obj(vec![("a", text("1")), ("b", text("2")), ("a", text("3"))])),
    ]);
    let r = InvokeResult::from_json(&v).expect("a result");
    assert_eq!(r.response, None);
    assert_eq!(r.duration_ms, -3);
    assert_eq!(r.metadata, vec![("b".to_string(), "2".to_string()), ("a".to_string(), "3".to_string())]);
    let bad_meta = obj(vec![
        ("status", text("OK")),
        ("durationMs", JsonValue::Number(JsonNumber::PosInt(1))),
        ("metadata", obj(vec![("a", JsonValue::Number(JsonNumber::PosInt(1)))])),
    ]);
    assert!(InvokeResult::from_json(&bad_meta).is_none());
    let too_big = obj(vec![
        ("status", text("OK")),
        ("durationMs", JsonValue::Number(JsonNumber::PosInt(u64::MAX))),
        ("metadata", obj(vec![])),
    ]);
    assert!(InvokeResult::from_json(&too_big).is_none());
    let ok = InvokeResult::ok("{}");
    assert_eq!(InvokeResult::from_json(&ok.to_json()).expect("a result").response, Some("{}".to_string()));
}

#[test]
fn capabilities_read_all_four_flags() {
    let c = Capabilities::default();
    assert_eq!(Capabilities::from_json(&c.to_json()), Some(c));
    assert_eq!(Capabilities::from_json(&obj(vec![("discover", JsonValue::Bool(true))])), None);
}
