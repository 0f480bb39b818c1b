//! Routing of JSON-RPC requests, reply framing, and stream framing.

use bowire_plugin::dispatch::{
    bool_param, discover_reply, initialize_reply, invoke_reply, map_param, string_param, vec_string_param,
    StreamPump,
};
use bowire_plugin::json::{JsonNumber, JsonValue};
use bowire_plugin::plugin::not_implemented_frame;
use bowire_plugin::{
    dispatch, Capabilities, InvokeResult, Request, Response, Route, ServiceInfo, DEFAULT_ICON_SVG,
    SIDECAR_PROTOCOL_VERSION,
};

fn text(s: &str) -> JsonValue {
    JsonValue::String(s.to_string())
}

fn num(n: u64) -> JsonValue {
    JsonValue::Number(JsonNumber::PosInt(n))
}

fn obj(members: Vec<(&str, JsonValue)>) -> JsonValue {
    JsonValue::Object(members.into_iter().map(|(k, v)| (k.to_string(), v)).collect())
}

fn request(method: &str) -> Request {
    Request { id: Some(num(1)), method: method.to_owned(), params: Some(obj(vec![])) }
}

fn request_with(method: &str, params: JsonValue) -> Request {
    Request { id: Some(num(7)), method: method.to_owned(), params: Some(params) }
}

fn result_of(outcome: Route) -> JsonValue {
    match outcome {
        Route::Reply(r) => r.result.expect("a reply carries a result"),
        other => panic!("expected a plain reply, got {other:?}"),
    }
}

fn ok_result(r: Response) -> JsonValue {
    assert!(r.error.is_none());
    r.result.expect("a successful reply carries a result")
}

#[test]
fn initialize_advertises_contract_version_and_capabilities() {
    let id = match dispatch(request("initialize")) {
        Route::Initialize { id } => id,
        other => panic!("expected the plugin to be asked, got {other:?}"),
    };
    let result = ok_result(initialize_reply(id, "fake", "Fake", DEFAULT_ICON_SVG, Capabilities::default()));

    assert_eq!(result.get("protocolVersion"), Some(&num(SIDECAR_PROTOCOL_VERSION)));
    assert_eq!(
        result.get("capabilities"),
        Some(&obj(vec![
            ("discover", JsonValue::Bool(true)),
            ("invoke", JsonValue::Bool(true)),
            ("invokeStream", JsonValue::Bool(true)),
            ("channels", JsonValue::Bool(false)),
        ]))
    );
}

#[test]
fn discover_replies_with_a_bare_array() {
    let id = match dispatch(request("discover")) {
        Route::Discover { id, .. } => id,
        other => panic!("expected a discovery, got {other:?}"),
    };
    let result = ok_result(discover_reply(id, &vec![ServiceInfo::new("Echo")]));

    let services = match &result {
        JsonValue::Array(items) => items,
        other => panic!("discover replies with an array, got {other:?}"),
    };
    assert_eq!(services.len(), 1);
    assert_eq!(services[0].get("name"), Some(&text("Echo")));
}

#[test]
fn ping_replies_with_the_bare_pong_string() {
    let result = result_of(dispatch(request("ping")));

    assert_eq!(result, text("pong"));
}

// ---- further cases ------------------------------------------------

#[test]
fn initialize_reply_names_the_plugin() {
    let result = ok_result(initialize_reply(num(3), "echo-rs", "Echo (Rust)", "<svg/>", Capabilities::default()));
    assert_eq!(result.get("id"), Some(&text("echo-rs")));
    assert_eq!(result.get("name"), Some(&text("Echo (Rust)")));
    assert_eq!(result.get("iconSvg"), Some(&text("<svg/>")));
}

#[test]
fn shutdown_is_acknowledged_with_an_empty_object() {
    match dispatch(request("shutdown")) {
        Route::Shutdown(r) => {
            assert_eq!(r.id, num(1));
            assert_eq!(ok_result(r), obj(vec![]));
        },
        other => panic!("expected a shutdown, got {other:?}"),
    }
}

#[test]
fn unknown_method_is_answered_with_method_not_found() {
    match dispatch(request("openChannel")) {
        Route::Reply(r) => {
            assert_eq!(r.jsonrpc, "2.0");
            assert_eq!(r.id, num(1));
            assert!(r.result.is_none());
            let e = r.error.expect("an error");
            assert_eq!(e.code, -32601);
            assert_eq!(e.message, "method 'openChannel' not handled by bowire-plugin runtime");
            assert!(e.data.is_none());
        },
        other => panic!("expected an error reply, got {other:?}"),
    }
}

#[test]
fn a_request_without_id_is_answered_with_null_id() {
    let req = Request { id: None, method: "ping".to_string(), params: None };
    match dispatch(req) {
        Route::Reply(r) => assert_eq!(r.id, JsonValue::Null),
        other => panic!("expected a reply, got {other:?}"),
    }
}

#[test]
fn discover_reads_its_parameters() {
    let params = obj(vec![("serverUrl", text("http://h")), ("showInternalServices", JsonValue::Bool(true))]);
    match dispatch(request_with("discover", params)) {
        Route::Discover { id, server_url, show_internal } => {
            assert_eq!(id, num(7));
            assert_eq!(server_url, "http://h");
            assert!(show_internal);
        },
        other => panic!("expected a discovery, got {other:?}"),
    }
}

#[test]
fn missing_parameters_read_as_defaults() {
    let req = Request { id: Some(num(2)), method: "invoke".to_string(), params: None };
    match dispatch(req) {
        Route::Invoke { call, .. } => {
            assert_eq!(call.server_url, "");
            assert_eq!(call.service, "");
            assert_eq!(call.method, "");
            assert!(call.json_messages.is_empty());
            assert!(!call.show_internal);
            assert!(call.metadata.is_empty());
        },
        other => panic!("expected an invocation, got {other:?}"),
    }
}

#[test]
fn invoke_reads_its_parameters_skipping_non_strings() {
    let params = obj(vec![
        ("serverUrl", text("u")),
        ("service", text("DemoService")),
        ("method", text("Echo")),
        ("jsonMessages", JsonValue::Array(vec![text("{}"), num(5), text("[1]")])),
        ("showInternalServices", text("yes")),
        ("metadata", obj(vec![("a", text("1")), ("b", num(2)), ("c", text("3"))])),
    ]);
    match dispatch(request_with("invoke", params)) {
        Route::Invoke { id, call } => {
            assert_eq!(id, num(7));
            assert_eq!(call.server_url, "u");
            assert_eq!(call.service, "DemoService");
            assert_eq!(call.method, "Echo");
            assert_eq!(call.json_messages, vec!["{}".to_string(), "[1]".to_string()]);
            assert!(!call.show_internal);
            assert_eq!(call.metadata, vec![("a".to_string(), "1".to_string()), ("c".to_string(), "3".to_string())]);
        },
        other => panic!("expected an invocation, got {other:?}"),
    }
}

#[test]
fn invoke_stream_reads_the_stream_id() {
    let params = obj(vec![("streamId", text("s-1")), ("method", text("Watch"))]);
    match dispatch(request_with("invokeStream", params)) {
        Route::InvokeStream { id, stream_id, call } => {
            assert_eq!(id, num(7));
            assert_eq!(stream_id, "s-1");
            assert_eq!(call.method, "Watch");
        },
        other => panic!("expected a stream, got {other:?}"),
    }
}

#[test]
fn param_helpers_follow_member_types() {
    let p = obj(vec![("s", text("x")), ("b", JsonValue::Bool(false)), ("n", JsonValue::Null)]);
    assert_eq!(string_param(&p, "s"), Some("x".to_string()));
    assert_eq!(string_param(&p, "b"), None);
    assert_eq!(string_param(&p, "missing"), None);
    assert_eq!(bool_param(&p, "b"), Some(false));
    assert_eq!(bool_param(&p, "s"), None);
    assert_eq!(vec_string_param(&p, "s"), None);
    assert!(map_param(&p, "s").is_empty());
    assert_eq!(string_param(&text("not an object"), "s"), None);
}

#[test]
fn invoke_reply_carries_the_result() {
    let result = ok_result(invoke_reply(num(4), &InvokeResult::ok("{\"echoed\":1}")));
    assert_eq!(result.get("status"), Some(&text("OK")));
    assert_eq!(result.get("response"), Some(&text("{\"echoed\":1}")));
}

#[test]
fn stream_acks_then_frames_then_ends() {
    let (ack, mut pump) = StreamPump::start(num(9), "s-9".to_string());
    assert_eq!(ack.id, num(9));
    assert_eq!(ok_result(ack), obj(vec![("streamId", text("s-9"))]));

    let first = pump.next(Some("a".to_string())).expect("a data frame");
    assert_eq!(first.method, "$/stream/data");
    assert_eq!(first.params, Some(obj(vec![("streamId", text("s-9")), ("message", text("a"))])));

    let second = pump.next(Some("b".to_string())).expect("a data frame");
    assert_eq!(second.params, Some(obj(vec![("streamId", text("s-9")), ("message", text("b"))])));

    let end = pump.next(None).expect("the end");
    assert_eq!(end.jsonrpc, "2.0");
    assert_eq!(end.method, "$/stream/end");
    assert_eq!(end.params, Some(obj(vec![("streamId", text("s-9"))])));

    assert!(pump.next(Some("late".to_string())).is_none());
    assert!(pump.next(None).is_none());
}

#[test]
fn default_stream_frame_names_the_plugin() {
    assert_eq!(
        not_implemented_frame("echo"),
        r#"{"status":"Error","response":"invoke_stream not implemented by plugin 'echo'"}"#
    );
}

#[test]
fn default_capabilities_refuse_channels_only() {
    let c = Capabilities::default();
    assert!(c.discover && c.invoke && c.invoke_stream && !c.channels);
}

#[test]
fn map_param_reads_members_as_a_map_does() {
    let p = obj(vec![("metadata", obj(vec![("a", text("x")), ("a", num(5))]))]);
    assert!(map_param(&p, "metadata").is_empty());
    let p = obj(vec![(
        "metadata",
        obj(vec![("a", text("x")), ("b", text("y")), ("n", num(1)), ("a", text("z"))]),
    )]);
    assert_eq!(
        map_param(&p, "metadata"),
        vec![("b".to_string(), "y".to_string()), ("a".to_string(), "z".to_string())]
    );
    assert!(map_param(&obj(vec![]), "metadata").is_empty());
}

#[test]
fn invoke_metadata_keeps_the_last_member_of_each_name() {
    let params = obj(vec![("metadata", obj(vec![("k", text("1")), ("k", text("2"))]))]);
    match dispatch(request_with("invoke", params)) {
        Route::Invoke { call, .. } => assert_eq!(call.metadata, vec![("k".to_string(), "2".to_string())]),
        other => panic!("expected an invoke route, got {other:?}"),
    }
}
