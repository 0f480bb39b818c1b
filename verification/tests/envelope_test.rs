//! Request envelopes, response and notification wire shapes, JSON
//! access, and the stdio read-loop decisions.

use bowire_plugin::json::{JsonNumber, JsonValue};
use bowire_plugin::stdio::line_is_blank;
use bowire_plugin::{
    dispatch, next_step, on_envelope, on_input, step_for, Envelope, Input, InputAction, LoopStep, Notification, Request,
    Response, Route,
};

fn text(s: &str) -> JsonValue {
    JsonValue::String(s.to_string())
}

fn num(n: u64) -> JsonValue {
    JsonValue::Number(JsonNumber::PosInt(n))
}

fn obj(members: Vec<(&str, JsonValue)>) -> JsonValue {
    JsonValue::Object(members.into_iter().map(|(k, v)| (k.to_string(), v)).collect())
}

#[test]
fn envelope_object_with_all_members() {
    let v = obj(vec![
        ("jsonrpc", text("2.0")),
        ("id", num(1)),
        ("method", text("discover")),
        ("params", obj(vec![("serverUrl", text(""))])),
    ]);
    let r = Request::from_json(&v).expect("a request");
    assert_eq!(r.id, Some(num(1)));
    assert_eq!(r.method, "discover");
    assert_eq!(r.params, Some(obj(vec![("serverUrl", text(""))])));
}

#[test]
fn envelope_null_members_count_as_absent() {
    let v = obj(vec![("id", JsonValue::Null), ("method", text("ping")), ("params", JsonValue::Null)]);
    let r = Request::from_json(&v).expect("a request");
    assert_eq!(r.id, None);
    assert_eq!(r.params, None);
}

#[test]
fn envelope_needs_a_string_method() {
    assert!(Request::from_json(&obj(vec![("id", num(1))])).is_none());
    assert!(Request::from_json(&obj(vec![("method", num(1))])).is_none());
    assert!(Request::from_json(&text("ping")).is_none());
    assert!(Request::from_json(&JsonValue::Null).is_none());
}

#[test]
fn envelope_positional_form() {
    let r = Request::from_json(&JsonValue::Array(vec![num(4), text("ping")])).expect("a request");
    assert_eq!(r.id, Some(num(4)));
    assert_eq!(r.method, "ping");
    assert_eq!(r.params, None);
    let r = Request::from_json(&JsonValue::Array(vec![JsonValue::Null, text("invoke"), obj(vec![])]))
        .expect("a request");
    assert_eq!(r.id, None);
    assert_eq!(r.params, Some(obj(vec![])));
    assert!(Request::from_json(&JsonValue::Array(vec![num(4)])).is_none());
    assert!(Request::from_json(&JsonValue::Array(vec![num(4), num(5)])).is_none());
    assert!(Request::from_json(&JsonValue::Array(vec![num(1), text("a"), num(2), num(3)])).is_none());
}

#[test]
fn response_shapes_leave_out_the_absent_member() {
    let ok = Response::ok(num(1), text("pong")).into_json();
    assert_eq!(ok, obj(vec![("jsonrpc", text("2.0")), ("id", num(1)), ("result", text("pong"))]));

    let err = Response::err(JsonValue::Null, -32601, "nope".to_string()).into_json();
    assert_eq!(
        err,
        obj(vec![
            ("jsonrpc", text("2.0")),
            ("id", JsonValue::Null),
            ("error", obj(vec![("code", JsonValue::Number(JsonNumber::NegInt(-32601))), ("message", text("nope"))])),
        ])
    );
}

#[test]
fn notification_shape() {
    let n = Notification { jsonrpc: "2.0", method: "$/stream/end".to_string(), params: None };
    assert_eq!(n.into_json(), obj(vec![("jsonrpc", text("2.0")), ("method", text("$/stream/end"))]));
}

#[test]
fn get_takes_the_last_member_of_that_name() {
    let v = obj(vec![("a", num(1)), ("a", num(2)), ("b", num(3))]);
    assert_eq!(v.get("a"), Some(&num(2)));
    assert_eq!(v.get("b"), Some(&num(3)));
    assert_eq!(v.get("c"), None);
    assert_eq!(JsonValue::Array(vec![num(1)]).get("a"), None);
}

#[test]
fn copy_is_equal() {
    let v = obj(vec![
        ("x", JsonValue::Array(vec![num(1), text("t"), JsonValue::Bool(true)])),
        ("y", JsonValue::Number(JsonNumber::Decimal("1.5".to_string()))),
    ]);
    assert_eq!(v.copy(), v);
}

#[test]
fn read_loop_decisions() {
    assert!(matches!(on_input(Input::Closed), InputAction::Exit(0)));
    assert!(matches!(on_input(Input::Failed), InputAction::Exit(1)));
    assert!(matches!(on_input(Input::Line(String::new())), InputAction::Skip));
    assert!(matches!(on_input(Input::Line(" \t\r".to_string())), InputAction::Skip));
    match on_input(Input::Line(" {\"method\":\"ping\"} ".to_string())) {
        InputAction::Decode(l) => assert_eq!(l, " {\"method\":\"ping\"} "),
        other => panic!("expected a line to decode, got {other:?}"),
    }
}

#[test]
fn blank_means_unicode_white_space_only() {
    assert!(line_is_blank(""));
    assert!(line_is_blank("\u{3000}\u{a0} \n"));
    assert!(!line_is_blank(" x "));
    assert!(!line_is_blank("\u{200b}"));
    for s in ["", " ", "\t", "\u{2028}", "a", " a", "\u{feff}"] {
        assert_eq!(line_is_blank(s), s.trim().is_empty(), "{s:?}");
    }
}

#[test]
fn envelope_members_given_twice_are_refused() {
    let twice = obj(vec![("id", num(1)), ("method", text("ping")), ("method", text("discover"))]);
    assert!(Request::from_json(&twice).is_none());
    let twice_id = obj(vec![("id", num(1)), ("id", num(2)), ("method", text("ping"))]);
    assert!(Request::from_json(&twice_id).is_none());
    let twice_params = obj(vec![("method", text("ping")), ("params", obj(vec![])), ("params", JsonValue::Null)]);
    assert!(Request::from_json(&twice_params).is_none());
    // Members the envelope does not read may repeat.
    let other = obj(vec![("x", num(1)), ("method", text("ping")), ("x", num(2))]);
    assert_eq!(Request::from_json(&other).expect("a request").method, "ping");
}

fn rejected(e: Envelope) -> Response {
    match e {
        Envelope::Reject(r) => r,
        other => panic!("expected a rejection, got {other:?}"),
    }
}

#[test]
fn undecodable_line_is_logged_and_dropped() {
    match on_envelope(Err("expected value at line 1 column 1".to_string())) {
        Envelope::Discard(d) => assert_eq!(d, "bowire-plugin: malformed envelope: expected value at line 1 column 1"),
        other => panic!("expected the line to be dropped, got {other:?}"),
    }
}

#[test]
fn json_that_is_not_a_request_is_answered_with_a_parse_error() {
    let r = rejected(on_envelope(Ok(obj(vec![("jsonrpc", text("2.0")), ("id", num(3))]))));
    assert_eq!(r.id, JsonValue::Null);
    assert!(r.result.is_none());
    let e = r.error.expect("an error");
    assert_eq!(e.code, -32700);
    assert_eq!(e.message, "malformed json-rpc envelope: expected an object with a string `method`");
}

#[test]
fn a_request_envelope_is_passed_on() {
    match on_envelope(Ok(obj(vec![("id", num(2)), ("method", text("ping"))]))) {
        Envelope::Request(q) => {
            assert_eq!(q.id, Some(num(2)));
            assert_eq!(q.method, "ping");
            assert_eq!(q.params, None);
        }
        other => panic!("expected a request, got {other:?}"),
    }
}

#[test]
fn shutdown_ends_the_read_loop_cleanly_after_the_ack() {
    let req = Request { id: Some(num(1)), method: "shutdown".to_string(), params: None };
    match next_step(dispatch(req)) {
        LoopStep::Finish { ack, code } => {
            assert_eq!(code, 0);
            assert_eq!(ack.id, num(1));
            assert_eq!(ack.result, Some(obj(vec![])));
            assert!(ack.error.is_none());
        }
        other => panic!("expected the loop to finish, got {other:?}"),
    }
}

#[test]
fn ready_replies_are_written_and_plugin_calls_handed_on() {
    let ping = Request { id: Some(num(1)), method: "ping".to_string(), params: None };
    match next_step(dispatch(ping)) {
        LoopStep::Write(r) => assert_eq!(r.result, Some(text("pong"))),
        other => panic!("expected a write, got {other:?}"),
    }
    let init = Request { id: Some(num(2)), method: "initialize".to_string(), params: None };
    match next_step(dispatch(init)) {
        LoopStep::Call(Route::Initialize { id }) => assert_eq!(id, num(2)),
        other => panic!("expected a plugin call, got {other:?}"),
    }
}

#[test]
fn a_later_member_overrides_an_earlier_one_of_the_same_name() {
    let v = obj(vec![("serverUrl", text("a")), ("other", num(1)), ("serverUrl", text("b"))]);
    assert_eq!(v.get("serverUrl"), Some(&text("b")));
    assert_eq!(v.get("other"), Some(&num(1)));
    assert_eq!(v.get("missing"), None);
}

#[test]
fn only_shutdown_ends_the_read_loop() {
    let shutdown = Request { id: Some(num(9)), method: "shutdown".to_string(), params: None };
    match step_for(shutdown) {
        LoopStep::Finish { ack, code } => {
            assert_eq!(code, 0);
            assert_eq!(ack.id, num(9));
            assert_eq!(ack.result, Some(obj(vec![])));
        }
        other => panic!("expected the loop to finish, got {other:?}"),
    }
    let unknown = Request { id: Some(num(3)), method: "nope".to_string(), params: None };
    match step_for(unknown) {
        LoopStep::Write(r) => assert_eq!(r.error.expect("an error").code, -32601),
        other => panic!("expected a write, got {other:?}"),
    }
    let discover = Request { id: Some(num(4)), method: "discover".to_string(), params: None };
    assert!(matches!(step_for(discover), LoopStep::Call(Route::Discover { .. })));
}
