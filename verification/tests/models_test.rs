//! Builders and wire shapes of the data models.

use bowire_plugin::json::{JsonNumber, JsonValue};
use bowire_plugin::{FieldInfo, InvokeResult, MessageInfo, MethodInfo, MethodType, PluginSetting, ServiceInfo};

fn text(s: &str) -> JsonValue {
    JsonValue::String(s.to_string())
}

fn member<'a>(v: &'a JsonValue, key: &str) -> &'a JsonValue {
    v.get(key).unwrap_or_else(|| panic!("missing member {key}"))
}

fn item(v: &JsonValue, i: usize) -> &JsonValue {
    match v {
        JsonValue::Array(items) => &items[i],
        other => panic!("not an array: {other:?}"),
    }
}

fn keys(v: &JsonValue) -> Vec<String> {
    match v {
        JsonValue::Object(entries) => entries.iter().map(|(k, _)| k.clone()).collect(),
        other => panic!("not an object: {other:?}"),
    }
}

#[test]
fn service_info_serialises_camel_case_with_method_array() {
    let svc = ServiceInfo::new("DemoService")
        .with_methods(vec![MethodInfo::unary("Echo")])
        .with_description("A demo service");

    let json = svc.to_json();
    assert_eq!(member(&json, "name"), &text("DemoService"));
    assert_eq!(member(&json, "description"), &text("A demo service"));
    assert_eq!(member(item(member(&json, "methods"), 0), "name"), &text("Echo"));
    assert_eq!(member(item(member(&json, "methods"), 0), "methodType"), &text("Unary"));
}

#[test]
fn method_info_unary_is_not_streaming() {
    let m = MethodInfo::unary("Get");
    assert!(!m.client_streaming);
    assert!(!m.server_streaming);
    assert_eq!(m.method_type, MethodType::Unary);
}

#[test]
fn method_info_server_streaming_sets_flag_and_marker() {
    let m = MethodInfo::server_streaming("Watch");
    assert!(!m.client_streaming);
    assert!(m.server_streaming);
    assert_eq!(m.method_type, MethodType::ServerStreaming);
}

#[test]
fn method_info_chains_input_output_summary() {
    let m = MethodInfo::unary("Echo")
        .with_input(MessageInfo::new("Req", "echo.Req"))
        .with_output(MessageInfo::new("Resp", "echo.Resp"))
        .with_summary("Echo back");
    assert!(m.input_type.is_some());
    assert!(m.output_type.is_some());
    assert_eq!(m.summary.as_deref(), Some("Echo back"));
}

#[test]
fn field_info_builders_pick_the_expected_type_names() {
    assert_eq!(FieldInfo::string("a").kind, "string");
    assert_eq!(FieldInfo::int32("b").kind, "int32");
    assert_eq!(FieldInfo::bool("c").kind, "bool");
    assert!(FieldInfo::string("a").required().required);
}

#[test]
fn message_info_with_fields_extends_field_list() {
    let m = MessageInfo::new("M", "ns.M").with_fields(vec![
        FieldInfo::string("name").required(),
        FieldInfo::int32("count"),
    ]);
    assert_eq!(m.fields.len(), 2);
    assert!(m.fields[0].required);
    assert!(!m.fields[1].required);
}

#[test]
fn invoke_result_ok_sets_status_and_response() {
    let r = InvokeResult::ok(r#"{"echoed":true}"#);
    assert_eq!(r.status, "OK");
    assert_eq!(r.response.as_deref(), Some(r#"{"echoed":true}"#));
}

#[test]
fn invoke_result_err_supports_optional_response_body() {
    let with_msg = InvokeResult::err("Error", Some("nope".to_string()));
    assert_eq!(with_msg.status, "Error");
    assert_eq!(with_msg.response.as_deref(), Some("nope"));

    let without: InvokeResult = InvokeResult::err("Error", None);
    assert!(without.response.is_none());
}

#[test]
fn invoke_result_serialises_camel_case() {
    let r = InvokeResult::ok("{}");
    let json = r.to_json();
    assert!(json.get("durationMs").is_some());
    assert!(json.get("metadata").is_some());
}

#[test]
fn method_info_omits_none_fields_from_serialisation() {
    let m = MethodInfo::unary("X");
    let json = m.to_json();
    assert!(json.get("inputType").is_none());
    assert!(json.get("outputType").is_none());
    assert!(json.get("httpMethod").is_none());
}

// ---- further cases ------------------------------------------------

#[test]
fn unary_full_name_is_the_short_name_and_nothing_else_is_set() {
    let m = MethodInfo::unary("Get");
    assert_eq!(m.name, "Get");
    assert_eq!(m.full_name, "Get");
    assert!(m.input_type.is_none() && m.output_type.is_none());
    assert!(m.http_method.is_none() && m.http_path.is_none() && m.summary.is_none());
}

#[test]
fn server_streaming_keeps_the_unary_names() {
    let m = MethodInfo::server_streaming("Watch");
    assert_eq!(m.name, "Watch");
    assert_eq!(m.full_name, "Watch");
    assert!(m.summary.is_none());
}

#[test]
fn with_methods_appends_after_existing_methods() {
    let svc = ServiceInfo::new("S")
        .with_methods(vec![MethodInfo::unary("A")])
        .with_methods(vec![MethodInfo::unary("B"), MethodInfo::server_streaming("C")]);
    let names: Vec<&str> = svc.methods.iter().map(|m| m.name.as_str()).collect();
    assert_eq!(names, vec!["A", "B", "C"]);
    assert!(svc.description.is_none());
    assert!(svc.version.is_none());
}

#[test]
fn with_fields_appends_after_existing_fields() {
    let m = MessageInfo::new("M", "ns.M")
        .with_fields(vec![FieldInfo::string("a")])
        .with_fields(vec![FieldInfo::bool("b")]);
    assert_eq!(m.fields.len(), 2);
    assert_eq!(m.fields[0].name, "a");
    assert_eq!(m.fields[1].kind, "bool");
    assert_eq!(m.name, "M");
    assert_eq!(m.full_name, "ns.M");
}

#[test]
fn field_description_keeps_the_other_members() {
    let f = FieldInfo::int32("n").required().with_description("How many");
    assert_eq!(f.name, "n");
    assert_eq!(f.kind, "int32");
    assert!(f.required);
    assert_eq!(f.description.as_deref(), Some("How many"));
    assert!(f.source.is_none());
}

#[test]
fn defaults_are_empty() {
    let f = FieldInfo::default();
    assert!(f.name.is_empty() && f.kind.is_empty() && !f.required);
    let m = MessageInfo::default();
    assert!(m.name.is_empty() && m.fields.is_empty());
    let r = InvokeResult::default();
    assert!(r.response.is_none() && r.status.is_empty() && r.duration_ms == 0 && r.metadata.is_empty());
    let s = PluginSetting::default();
    assert!(s.id.is_empty() && s.options.is_empty());
}

#[test]
fn field_wire_shape_lists_members_in_order() {
    let f = FieldInfo::string("message").with_description("Anything").required();
    let json = f.to_json();
    assert_eq!(keys(&json), vec!["name", "type", "required", "description"]);
    assert_eq!(member(&json, "type"), &text("string"));
    assert_eq!(member(&json, "required"), &JsonValue::Bool(true));
}

#[test]
fn method_wire_shape_carries_schemas_when_present() {
    let m = MethodInfo::server_streaming("Watch")
        .with_input(MessageInfo::new("Req", "w.Req").with_fields(vec![FieldInfo::bool("on")]))
        .with_summary("Watch it");
    let json = m.to_json();
    assert_eq!(
        keys(&json),
        vec!["name", "fullName", "clientStreaming", "serverStreaming", "methodType", "inputType", "summary"]
    );
    assert_eq!(member(&json, "methodType"), &text("ServerStreaming"));
    assert_eq!(member(&json, "serverStreaming"), &JsonValue::Bool(true));
    let input = member(&json, "inputType");
    assert_eq!(member(input, "fullName"), &text("w.Req"));
    assert_eq!(member(item(member(input, "fields"), 0), "type"), &text("bool"));
}

#[test]
fn method_types_are_written_by_name() {
    assert_eq!(MethodType::Unary.to_json(), text("Unary"));
    assert_eq!(MethodType::ServerStreaming.to_json(), text("ServerStreaming"));
    assert_eq!(MethodType::ClientStreaming.to_json(), text("ClientStreaming"));
    assert_eq!(MethodType::Duplex.to_json(), text("Duplex"));
}

#[test]
fn invoke_result_wire_shape() {
    let mut r = InvokeResult::err("Error", None);
    r.duration_ms = -5;
    r.metadata.push(("grpc-status".to_string(), "3".to_string()));
    let json = r.to_json();
    assert_eq!(keys(&json), vec!["status", "durationMs", "metadata"]);
    assert_eq!(member(&json, "durationMs"), &JsonValue::Number(JsonNumber::NegInt(-5)));
    assert_eq!(member(member(&json, "metadata"), "grpc-status"), &text("3"));

    let ok = InvokeResult::ok("{}").to_json();
    assert_eq!(keys(&ok), vec!["response", "status", "durationMs", "metadata"]);
    assert_eq!(member(&ok, "durationMs"), &JsonValue::Number(JsonNumber::PosInt(0)));
    assert_eq!(member(&ok, "metadata"), &JsonValue::Object(vec![]));
}

#[test]
fn setting_wire_shape_leaves_out_empty_options() {
    let mut s = PluginSetting::default();
    s.id = "mode".to_string();
    s.kind = "select".to_string();
    assert_eq!(keys(&s.to_json()), vec!["id", "name", "description", "type", "default"]);
    s.options = vec!["a".to_string(), "b".to_string()];
    let json = s.to_json();
    assert_eq!(member(&json, "options"), &JsonValue::Array(vec![text("a"), text("b")]));
    assert_eq!(member(&json, "type"), &text("select"));
}

#[test]
fn service_wire_shape_with_version() {
    let mut svc = ServiceInfo::new("S");
    svc.version = Some("1.2".to_string());
    let json = svc.to_json();
    assert_eq!(keys(&json), vec!["name", "methods", "version"]);
    assert_eq!(member(&json, "methods"), &JsonValue::Array(vec![]));
}

#[test]
fn invoke_result_metadata_keeps_the_last_value_of_each_name() {
    let mut r = InvokeResult::ok("{}");
    r.metadata.push(("a".to_string(), "1".to_string()));
    r.metadata.push(("b".to_string(), "2".to_string()));
    r.metadata.push(("a".to_string(), "3".to_string()));
    let json = r.to_json();
    let meta = member(&json, "metadata");
    assert_eq!(keys(meta), vec!["b", "a"]);
    assert_eq!(member(meta, "a"), &text("3"));
    assert_eq!(member(meta, "b"), &text("2"));
}
