//! What each wire shape holds under each member name: every field of a
//! model, every argument of a plugin call, and every part of an envelope
//! goes out, or is read, under its own wire name.
use vstd::prelude::*;

use crate::dispatch::{
    answers, data_notification, end_notification, fails_with, initialize_json, notification_model, routes,
    lemma_lookup_finds_last, lemma_lookup_is_some_member, stream_ack_json, string_positions, string_items, string_members, strings_view, lemma_string_members_are_lookups, InvokeCall,
    NotificationModel, Route,
};
use crate::json::{entry_lookup, group_lookup, json_get, Json, JsonNumberView, JsonValue};
use crate::jsonrpc::{at_most_once, envelope, error_json, notification_json, response_json, ErrorObject, Notification, Request, Response};
use crate::models::{
    field_json, fields_json, services_json, invoke_result_json, message_json, method_json, method_type_name, methods_json,
    is_last_of_name, last_of_each_name, last_positions, lemma_last_positions, lemma_metadata_names_unique,
    lemma_name_has_a_last, pairs_view, service_json, string_pairs_json, setting_json, strings_json, FieldInfo, InvokeResult, MessageInfo, MethodInfo,
    MethodType, PluginSetting, ServiceInfo,
};
use crate::decode::{
    capabilities_names, field_names, field_reads, message_names, message_reads, method_names, method_reads,
    method_type_named, read_capabilities, service_names, service_reads, setting_decodes, setting_names,
    setting_reads, invoke_result_names, invoke_result_reads,
};
use crate::plugin::{capabilities_json, Capabilities, SIDECAR_PROTOCOL_VERSION};

verus! {

broadcast use group_lookup;

/// The member an optional string gives: its text, or nothing.
pub open spec fn text_member(o: Option<String>) -> Option<Json> {
    match o {
        Some(s) => Some(Json::Str(s@)),
        None => None,
    }
}

/// The member an optional schema gives: its wire shape, or nothing.
pub open spec fn schema_member(o: Option<MessageInfo>) -> Option<Json> {
    match o {
        Some(m) => Some(message_json(m)),
        None => None,
    }
}

/// The member an optional value gives.
pub open spec fn value_member(o: Option<JsonValue>) -> Option<Json> {
    match o {
        Some(v) => Some(v@),
        None => None,
    }
}

/// A JSON integer holding `d`.
pub open spec fn int_json(d: int) -> Json {
    if d >= 0 {
        Json::Number(JsonNumberView::PosInt(d as u64))
    } else {
        Json::Number(JsonNumberView::NegInt(d as i64))
    }
}

/// Each field of a field schema goes out under its own name; an absent
/// description or source is left out.
pub proof fn lemma_field_members(f: FieldInfo)
    ensures
        json_get(field_json(f), "name"@) == Some(Json::Str(f.name@)),
        json_get(field_json(f), "type"@) == Some(Json::Str(f.kind@)),
        json_get(field_json(f), "required"@) == Some(Json::Bool(f.required)),
        json_get(field_json(f), "description"@) == text_member(f.description),
        json_get(field_json(f), "source"@) == text_member(f.source),
{
    reveal_strlit("name");
    reveal_strlit("type");
    reveal_strlit("required");
    reveal_strlit("description");
    reveal_strlit("source");
    assert("name"@[0] != "type"@[0]);
    assert("name"@.len() != "required"@.len());
    assert("name"@.len() != "description"@.len());
    assert("name"@.len() != "source"@.len());
    assert("type"@.len() != "required"@.len());
    assert("type"@.len() != "description"@.len());
    assert("type"@.len() != "source"@.len());
    assert("required"@.len() != "description"@.len());
    assert("required"@.len() != "source"@.len());
    assert("description"@.len() != "source"@.len());
    assert(seq![
        ("name"@, Json::Str(f.name@)),
        ("type"@, Json::Str(f.kind@)),
        ("required"@, Json::Bool(f.required)),
    ] =~= Seq::empty().push(("name"@, Json::Str(f.name@))).push(("type"@, Json::Str(f.kind@))).push(("required"@, Json::Bool(f.required))));
}

/// A message schema goes out with its name, full name, and the wire
/// shapes of its fields in order.
pub proof fn lemma_message_members(m: MessageInfo)
    ensures
        json_get(message_json(m), "name"@) == Some(Json::Str(m.name@)),
        json_get(message_json(m), "fullName"@) == Some(Json::Str(m.full_name@)),
        json_get(message_json(m), "fields"@) == Some(Json::Array(Seq::new(m.fields@.len(), |i: int| field_json(m.fields@[i])))),
{
    reveal_strlit("name");
    reveal_strlit("fullName");
    reveal_strlit("fields");
    assert("name"@.len() != "fullName"@.len());
    assert("name"@.len() != "fields"@.len());
    assert("fullName"@.len() != "fields"@.len());
    assert(fields_json(m.fields@) =~= Seq::new(m.fields@.len(), |i: int| field_json(m.fields@[i])));
    assert(seq![
        ("name"@, Json::Str(m.name@)),
        ("fullName"@, Json::Str(m.full_name@)),
        ("fields"@, Json::Array(fields_json(m.fields@))),
    ] =~= Seq::empty().push(("name"@, Json::Str(m.name@))).push(("fullName"@, Json::Str(m.full_name@))).push(("fields"@, Json::Array(fields_json(m.fields@)))));
}

/// Each field of a method goes out under its own name: the input and
/// output schemas as their wire shapes, and an absent schema, HTTP
/// method, path or summary left out.
pub proof fn lemma_method_members(m: MethodInfo)
    ensures
        json_get(method_json(m), "name"@) == Some(Json::Str(m.name@)),
        json_get(method_json(m), "fullName"@) == Some(Json::Str(m.full_name@)),
        json_get(method_json(m), "clientStreaming"@) == Some(Json::Bool(m.client_streaming)),
        json_get(method_json(m), "serverStreaming"@) == Some(Json::Bool(m.server_streaming)),
        json_get(method_json(m), "methodType"@) == Some(Json::Str(method_type_name(m.method_type))),
        json_get(method_json(m), "inputType"@) == schema_member(m.input_type),
        json_get(method_json(m), "outputType"@) == schema_member(m.output_type),
        json_get(method_json(m), "httpMethod"@) == text_member(m.http_method),
        json_get(method_json(m), "httpPath"@) == text_member(m.http_path),
        json_get(method_json(m), "summary"@) == text_member(m.summary),
{
    reveal_strlit("name");
    reveal_strlit("fullName");
    reveal_strlit("clientStreaming");
    reveal_strlit("serverStreaming");
    reveal_strlit("methodType");
    reveal_strlit("inputType");
    reveal_strlit("outputType");
    reveal_strlit("httpMethod");
    reveal_strlit("httpPath");
    reveal_strlit("summary");
    assert("name"@.len() != "fullName"@.len());
    assert("name"@.len() != "clientStreaming"@.len());
    assert("name"@.len() != "serverStreaming"@.len());
    assert("name"@.len() != "methodType"@.len());
    assert("name"@.len() != "inputType"@.len());
    assert("name"@.len() != "outputType"@.len());
    assert("name"@.len() != "httpMethod"@.len());
    assert("name"@.len() != "httpPath"@.len());
    assert("name"@.len() != "summary"@.len());
    assert("fullName"@.len() != "clientStreaming"@.len());
    assert("fullName"@.len() != "serverStreaming"@.len());
    assert("fullName"@.len() != "methodType"@.len());
    assert("fullName"@.len() != "inputType"@.len());
    assert("fullName"@.len() != "outputType"@.len());
    assert("fullName"@.len() != "httpMethod"@.len());
    assert("fullName"@[0] != "httpPath"@[0]);
    assert("fullName"@.len() != "summary"@.len());
    assert("clientStreaming"@[0] != "serverStreaming"@[0]);
    assert("clientStreaming"@.len() != "methodType"@.len());
    assert("clientStreaming"@.len() != "inputType"@.len());
    assert("clientStreaming"@.len() != "outputType"@.len());
    assert("clientStreaming"@.len() != "httpMethod"@.len());
    assert("clientStreaming"@.len() != "httpPath"@.len());
    assert("clientStreaming"@.len() != "summary"@.len());
    assert("serverStreaming"@.len() != "methodType"@.len());
    assert("serverStreaming"@.len() != "inputType"@.len());
    assert("serverStreaming"@.len() != "outputType"@.len());
    assert("serverStreaming"@.len() != "httpMethod"@.len());
    assert("serverStreaming"@.len() != "httpPath"@.len());
    assert("serverStreaming"@.len() != "summary"@.len());
    assert("methodType"@.len() != "inputType"@.len());
    assert("methodType"@[0] != "outputType"@[0]);
    assert("methodType"@[0] != "httpMethod"@[0]);
    assert("methodType"@.len() != "httpPath"@.len());
    assert("methodType"@.len() != "summary"@.len());
    assert("inputType"@.len() != "outputType"@.len());
    assert("inputType"@.len() != "httpMethod"@.len());
    assert("inputType"@.len() != "httpPath"@.len());
    assert("inputType"@.len() != "summary"@.len());
    assert("outputType"@[0] != "httpMethod"@[0]);
    assert("outputType"@.len() != "httpPath"@.len());
    assert("outputType"@.len() != "summary"@.len());
    assert("httpMethod"@.len() != "httpPath"@.len());
    assert("httpMethod"@.len() != "summary"@.len());
    assert("httpPath"@.len() != "summary"@.len());
    assert(seq![
        ("name"@, Json::Str(m.name@)),
        ("fullName"@, Json::Str(m.full_name@)),
        ("clientStreaming"@, Json::Bool(m.client_streaming)),
        ("serverStreaming"@, Json::Bool(m.server_streaming)),
        ("methodType"@, Json::Str(method_type_name(m.method_type))),
    ] =~= Seq::empty().push(("name"@, Json::Str(m.name@))).push(("fullName"@, Json::Str(m.full_name@))).push(("clientStreaming"@, Json::Bool(m.client_streaming))).push(("serverStreaming"@, Json::Bool(m.server_streaming))).push(("methodType"@, Json::Str(method_type_name(m.method_type)))));
}

/// A service goes out with its name, the wire shapes of its methods in
/// order, and its description and version when it has them.
pub proof fn lemma_service_members(s: ServiceInfo)
    ensures
        json_get(service_json(s), "name"@) == Some(Json::Str(s.name@)),
        json_get(service_json(s), "methods"@) == Some(Json::Array(Seq::new(s.methods@.len(), |i: int| method_json(s.methods@[i])))),
        json_get(service_json(s), "description"@) == text_member(s.description),
        json_get(service_json(s), "version"@) == text_member(s.version),
{
    reveal_strlit("name");
    reveal_strlit("methods");
    reveal_strlit("description");
    reveal_strlit("version");
    assert("name"@.len() != "methods"@.len());
    assert("name"@.len() != "description"@.len());
    assert("name"@.len() != "version"@.len());
    assert("methods"@.len() != "description"@.len());
    assert("methods"@[0] != "version"@[0]);
    assert("description"@.len() != "version"@.len());
    assert(methods_json(s.methods@) =~= Seq::new(s.methods@.len(), |i: int| method_json(s.methods@[i])));
    assert(seq![
        ("name"@, Json::Str(s.name@)),
        ("methods"@, Json::Array(methods_json(s.methods@))),
    ] =~= Seq::empty().push(("name"@, Json::Str(s.name@))).push(("methods"@, Json::Array(methods_json(s.methods@)))));
}

/// Each field of a setting goes out under its own name; the options go
/// out in order, and only when there are some.
pub proof fn lemma_setting_members(s: PluginSetting)
    ensures
        json_get(setting_json(s), "id"@) == Some(Json::Str(s.id@)),
        json_get(setting_json(s), "name"@) == Some(Json::Str(s.name@)),
        json_get(setting_json(s), "description"@) == Some(Json::Str(s.description@)),
        json_get(setting_json(s), "type"@) == Some(Json::Str(s.kind@)),
        json_get(setting_json(s), "default"@) == Some(Json::Str(s.default@)),
        json_get(setting_json(s), "options"@) == if s.options@.len() == 0 { None } else { Some(Json::Array(Seq::new(s.options@.len(), |i: int| Json::Str(s.options@[i]@)))) },
{
    reveal_strlit("id");
    reveal_strlit("name");
    reveal_strlit("description");
    reveal_strlit("type");
    reveal_strlit("default");
    reveal_strlit("options");
    assert("id"@.len() != "name"@.len());
    assert("id"@.len() != "description"@.len());
    assert("id"@.len() != "type"@.len());
    assert("id"@.len() != "default"@.len());
    assert("id"@.len() != "options"@.len());
    assert("name"@.len() != "description"@.len());
    assert("name"@[0] != "type"@[0]);
    assert("name"@.len() != "default"@.len());
    assert("name"@.len() != "options"@.len());
    assert("description"@.len() != "type"@.len());
    assert("description"@.len() != "default"@.len());
    assert("description"@.len() != "options"@.len());
    assert("type"@.len() != "default"@.len());
    assert("type"@.len() != "options"@.len());
    assert("default"@[0] != "options"@[0]);
    assert(strings_json(s.options@) =~= Seq::new(s.options@.len(), |i: int| Json::Str(s.options@[i]@)));
    assert(seq![
        ("id"@, Json::Str(s.id@)),
        ("name"@, Json::Str(s.name@)),
        ("description"@, Json::Str(s.description@)),
        ("type"@, Json::Str(s.kind@)),
        ("default"@, Json::Str(s.default@)),
    ] =~= Seq::empty().push(("id"@, Json::Str(s.id@))).push(("name"@, Json::Str(s.name@))).push(("description"@, Json::Str(s.description@))).push(("type"@, Json::Str(s.kind@))).push(("default"@, Json::Str(s.default@))));
}

/// Each capability flag goes out under its own name.
pub proof fn lemma_capabilities_members(c: Capabilities)
    ensures
        json_get(capabilities_json(c), "discover"@) == Some(Json::Bool(c.discover)),
        json_get(capabilities_json(c), "invoke"@) == Some(Json::Bool(c.invoke)),
        json_get(capabilities_json(c), "invokeStream"@) == Some(Json::Bool(c.invoke_stream)),
        json_get(capabilities_json(c), "channels"@) == Some(Json::Bool(c.channels)),
{
    reveal_strlit("discover");
    reveal_strlit("invoke");
    reveal_strlit("invokeStream");
    reveal_strlit("channels");
    assert("discover"@.len() != "invoke"@.len());
    assert("discover"@.len() != "invokeStream"@.len());
    assert("discover"@[0] != "channels"@[0]);
    assert("invoke"@.len() != "invokeStream"@.len());
    assert("invoke"@.len() != "channels"@.len());
    assert("invokeStream"@.len() != "channels"@.len());
    assert(seq![
        ("discover"@, Json::Bool(c.discover)),
        ("invoke"@, Json::Bool(c.invoke)),
        ("invokeStream"@, Json::Bool(c.invoke_stream)),
        ("channels"@, Json::Bool(c.channels)),
    ] =~= Seq::empty().push(("discover"@, Json::Bool(c.discover))).push(("invoke"@, Json::Bool(c.invoke))).push(("invokeStream"@, Json::Bool(c.invoke_stream))).push(("channels"@, Json::Bool(c.channels))));
}

/// The answer to `initialize` carries the plugin's id, name and icon,
/// the contract version, and the plugin's capabilities.
pub proof fn lemma_initialize_members(plugin_id: Seq<char>, name: Seq<char>, icon_svg: Seq<char>, caps: Capabilities)
    ensures
        json_get(initialize_json(plugin_id, name, icon_svg, caps), "id"@) == Some(Json::Str(plugin_id)),
        json_get(initialize_json(plugin_id, name, icon_svg, caps), "name"@) == Some(Json::Str(name)),
        json_get(initialize_json(plugin_id, name, icon_svg, caps), "iconSvg"@) == Some(Json::Str(icon_svg)),
        json_get(initialize_json(plugin_id, name, icon_svg, caps), "protocolVersion"@) == Some(Json::Number(JsonNumberView::PosInt(SIDECAR_PROTOCOL_VERSION))),
        json_get(initialize_json(plugin_id, name, icon_svg, caps), "capabilities"@) == Some(capabilities_json(caps)),
{
    reveal_strlit("id");
    reveal_strlit("name");
    reveal_strlit("iconSvg");
    reveal_strlit("protocolVersion");
    reveal_strlit("capabilities");
    assert("id"@.len() != "name"@.len());
    assert("id"@.len() != "iconSvg"@.len());
    assert("id"@.len() != "protocolVersion"@.len());
    assert("id"@.len() != "capabilities"@.len());
    assert("name"@.len() != "iconSvg"@.len());
    assert("name"@.len() != "protocolVersion"@.len());
    assert("name"@.len() != "capabilities"@.len());
    assert("iconSvg"@.len() != "protocolVersion"@.len());
    assert("iconSvg"@.len() != "capabilities"@.len());
    assert("protocolVersion"@.len() != "capabilities"@.len());
    assert(seq![
        ("id"@, Json::Str(plugin_id)),
        ("name"@, Json::Str(name)),
        ("iconSvg"@, Json::Str(icon_svg)),
        ("protocolVersion"@, Json::Number(JsonNumberView::PosInt(SIDECAR_PROTOCOL_VERSION))),
        ("capabilities"@, capabilities_json(caps)),
    ] =~= Seq::empty().push(("id"@, Json::Str(plugin_id))).push(("name"@, Json::Str(name))).push(("iconSvg"@, Json::Str(icon_svg))).push(("protocolVersion"@, Json::Number(JsonNumberView::PosInt(SIDECAR_PROTOCOL_VERSION)))).push(("capabilities"@, capabilities_json(caps))));
}

/// An invoke result goes out with its response when it has one, its
/// status whatever the response, and its duration.
pub proof fn lemma_invoke_result_members(r: InvokeResult)
    ensures
        json_get(invoke_result_json(r), "response"@) == text_member(r.response),
        json_get(invoke_result_json(r), "status"@) == Some(Json::Str(r.status@)),
        json_get(invoke_result_json(r), "durationMs"@) == Some(int_json(r.duration_ms as int)),
        json_get(invoke_result_json(r), "metadata"@) is Some,
{
    reveal_strlit("response");
    reveal_strlit("status");
    reveal_strlit("durationMs");
    reveal_strlit("metadata");
    assert("response"@.len() != "status"@.len());
    assert("response"@.len() != "durationMs"@.len());
    assert("response"@[0] != "metadata"@[0]);
    assert("status"@.len() != "durationMs"@.len());
    assert("status"@.len() != "metadata"@.len());
    assert("durationMs"@.len() != "metadata"@.len());
    assert(seq![
        ("status"@, Json::Str(r.status@)),
        ("durationMs"@, crate::models::i64_json(r.duration_ms)),
        ("metadata"@, Json::Object(crate::models::string_pairs_json(crate::models::last_of_each_name(pairs_view(r.metadata@))))),
    ] =~= Seq::empty().push(("status"@, Json::Str(r.status@))).push(("durationMs"@, crate::models::i64_json(r.duration_ms))).push(("metadata"@, Json::Object(crate::models::string_pairs_json(crate::models::last_of_each_name(pairs_view(r.metadata@)))))));
}

/// A response carries the protocol version and the id it answers, and
/// its result and error under their own names, each only when present.
pub proof fn lemma_response_members(r: Response)
    ensures
        json_get(response_json(r), "jsonrpc"@) == Some(Json::Str(r.jsonrpc@)),
        json_get(response_json(r), "id"@) == Some(r.id@),
        json_get(response_json(r), "result"@) == value_member(r.result),
        json_get(response_json(r), "error"@) == match r.error { Some(e) => Some(error_json(e)), None => None },
{
    reveal_strlit("jsonrpc");
    reveal_strlit("id");
    reveal_strlit("result");
    reveal_strlit("error");
    assert("jsonrpc"@.len() != "id"@.len());
    assert("jsonrpc"@.len() != "result"@.len());
    assert("jsonrpc"@.len() != "error"@.len());
    assert("id"@.len() != "result"@.len());
    assert("id"@.len() != "error"@.len());
    assert("result"@.len() != "error"@.len());
    assert(seq![
        ("jsonrpc"@, Json::Str(r.jsonrpc@)),
        ("id"@, r.id@),
    ] =~= Seq::empty().push(("jsonrpc"@, Json::Str(r.jsonrpc@))).push(("id"@, r.id@)));
}

/// An error member carries its code and message, and its data only when
/// present.
pub proof fn lemma_error_members(e: ErrorObject)
    ensures
        json_get(error_json(e), "code"@) == Some(int_json(e.code as int)),
        json_get(error_json(e), "message"@) == Some(Json::Str(e.message@)),
        json_get(error_json(e), "data"@) == value_member(e.data),
{
    reveal_strlit("code");
    reveal_strlit("message");
    reveal_strlit("data");
    assert("code"@.len() != "message"@.len());
    assert("code"@[0] != "data"@[0]);
    assert("message"@.len() != "data"@.len());
    assert(seq![
        ("code"@, crate::models::i64_json(e.code as i64)),
        ("message"@, Json::Str(e.message@)),
    ] =~= Seq::empty().push(("code"@, crate::models::i64_json(e.code as i64))).push(("message"@, Json::Str(e.message@))));
}

/// A notification carries the protocol version, its method, and its
/// params whenever it has them.
pub proof fn lemma_notification_members(n: Notification)
    ensures
        json_get(notification_json(n), "jsonrpc"@) == Some(Json::Str(n.jsonrpc@)),
        json_get(notification_json(n), "method"@) == Some(Json::Str(n.method@)),
        json_get(notification_json(n), "params"@) == value_member(n.params),
{
    reveal_strlit("jsonrpc");
    reveal_strlit("method");
    reveal_strlit("params");
    assert("jsonrpc"@.len() != "method"@.len());
    assert("jsonrpc"@.len() != "params"@.len());
    assert("method"@[0] != "params"@[0]);
    assert(seq![
        ("jsonrpc"@, Json::Str(n.jsonrpc@)),
        ("method"@, Json::Str(n.method@)),
    ] =~= Seq::empty().push(("jsonrpc"@, Json::Str(n.jsonrpc@))).push(("method"@, Json::Str(n.method@))));
}


/// The wire name of each cardinality reads back as that cardinality.
pub proof fn lemma_method_type_names(t: MethodType)
    ensures
        method_type_named(method_type_name(t)) == Some(t),
        method_type_name(MethodType::Unary) == "Unary"@,
        method_type_name(MethodType::ServerStreaming) == "ServerStreaming"@,
        method_type_name(MethodType::ClientStreaming) == "ClientStreaming"@,
        method_type_name(MethodType::Duplex) == "Duplex"@,
{
    reveal_strlit("Unary");
    reveal_strlit("ServerStreaming");
    reveal_strlit("ClientStreaming");
    reveal_strlit("Duplex");
    assert("Unary"@.len() != "ServerStreaming"@.len());
    assert("Unary"@.len() != "ClientStreaming"@.len());
    assert("Unary"@.len() != "Duplex"@.len());
    assert("ServerStreaming"@[0] != "ClientStreaming"@[0]);
    assert("ServerStreaming"@.len() != "Duplex"@.len());
    assert("ClientStreaming"@.len() != "Duplex"@.len());
}

/// A successful answer goes out with the protocol version, the id it
/// answers, its result, and no error.
pub proof fn lemma_answer_on_the_wire(r: Response, id: Json, result: Json)
    requires
        answers(r, id, result),
    ensures
        json_get(response_json(r), "jsonrpc"@) == Some(Json::Str("2.0"@)),
        json_get(response_json(r), "id"@) == Some(id),
        json_get(response_json(r), "result"@) == Some(result),
        json_get(response_json(r), "error"@) is None,
{
    lemma_response_members(r);
}

/// A failed answer goes out with the id it answers, no result, and an
/// error carrying its code and message and no data.
pub proof fn lemma_failure_on_the_wire(r: Response, id: Json, code: i32, message: Seq<char>)
    requires
        fails_with(r, id, code, message),
    ensures
        json_get(response_json(r), "jsonrpc"@) == Some(Json::Str("2.0"@)),
        json_get(response_json(r), "id"@) == Some(id),
        json_get(response_json(r), "result"@) is None,
        json_get(response_json(r), "error"@) matches Some(e) && json_get(e, "code"@) == Some(int_json(code as int))
            && json_get(e, "message"@) == Some(Json::Str(message)) && json_get(e, "data"@) is None,
{
    lemma_response_members(r);
    lemma_error_members(r.error.unwrap());
}

/// The acknowledgement of a stream carries its stream id.
pub proof fn lemma_stream_ack_members(stream_id: Seq<char>)
    ensures
        json_get(stream_ack_json(stream_id), "streamId"@) == Some(Json::Str(stream_id)),
{
}

/// A frame of a stream goes out as a `$/stream/data` notification whose
/// params carry the stream id and the frame.
pub proof fn lemma_stream_frame_on_the_wire(n: Notification, stream_id: Seq<char>, frame: Seq<char>)
    requires
        notification_model(n) == data_notification(stream_id, frame),
    ensures
        json_get(notification_json(n), "jsonrpc"@) == Some(Json::Str("2.0"@)),
        json_get(notification_json(n), "method"@) == Some(Json::Str("$/stream/data"@)),
        json_get(notification_json(n), "params"@) matches Some(p) && json_get(p, "streamId"@) == Some(
            Json::Str(stream_id),
        ) && json_get(p, "message"@) == Some(Json::Str(frame)),
{
    reveal_strlit("streamId");
    reveal_strlit("message");
    assert("streamId"@.len() != "message"@.len());
    assert(seq![
        ("streamId"@, Json::Str(stream_id)),
        ("message"@, Json::Str(frame)),
    ] =~= Seq::empty().push(("streamId"@, Json::Str(stream_id))).push(("message"@, Json::Str(frame))));
    lemma_notification_members(n);
}

/// The end of a stream goes out as a `$/stream/end` notification whose
/// params carry the stream id and no frame.
pub proof fn lemma_stream_end_on_the_wire(n: Notification, stream_id: Seq<char>)
    requires
        notification_model(n) == end_notification(stream_id),
    ensures
        json_get(notification_json(n), "jsonrpc"@) == Some(Json::Str("2.0"@)),
        json_get(notification_json(n), "method"@) == Some(Json::Str("$/stream/end"@)),
        json_get(notification_json(n), "params"@) matches Some(p) && json_get(p, "streamId"@) == Some(
            Json::Str(stream_id),
        ) && json_get(p, "message"@) is None,
{
    reveal_strlit("streamId");
    reveal_strlit("message");
    assert("streamId"@.len() != "message"@.len());
    lemma_notification_members(n);
}

/// The parameters a request is read with: the request's, or none.
pub open spec fn params_of(req: Request) -> Json {
    match req.params {
        Some(p) => p@,
        None => Json::Object(Seq::empty()),
    }
}

/// The id an answer to a request carries: the request's, or `null`.
pub open spec fn id_of(req: Request) -> Json {
    match req.id {
        Some(v) => v@,
        None => Json::Null,
    }
}

/// The string member `key` of `p`; empty when missing or not a string.
pub open spec fn text_at(p: Json, key: Seq<char>) -> Seq<char> {
    match json_get(p, key) {
        Some(Json::Str(s)) => s,
        _ => Seq::empty(),
    }
}

/// Whether the member `key` of `p` is `true`.
pub open spec fn flag_at(p: Json, key: Seq<char>) -> bool {
    json_get(p, key) == Some(Json::Bool(true))
}

/// `call` holds what the parameters `p` give under the call's wire
/// names: `serverUrl`, `service`, `method`, `showInternalServices`,
/// `jsonMessages` (its strings, in order) and `metadata` (each name with
/// the string the object gives it).
pub open spec fn reads_call(call: InvokeCall, p: Json) -> bool {
    &&& call.server_url@ == text_at(p, "serverUrl"@)
    &&& call.service@ == text_at(p, "service"@)
    &&& call.method@ == text_at(p, "method"@)
    &&& call.show_internal == flag_at(p, "showInternalServices"@)
    &&& match json_get(p, "jsonMessages"@) {
        Some(Json::Array(items)) => (forall|i: int| 0 <= i < items.len() ==> #[trigger] items[i] is Str) ==> strings_view(
            call.json_messages@,
        ) == Seq::new(items.len(), |i: int| items[i]->Str_0),
        _ => call.json_messages@.len() == 0,
    }
    &&& match json_get(p, "metadata"@) {
        Some(Json::Object(e)) => forall|k: Seq<char>, s: Seq<char>|
            #[trigger] pairs_view(call.metadata@).contains((k, s)) <==> json_get(Json::Object(e), k) == Some(
                Json::Str(s),
            ),
        _ => call.metadata@.len() == 0,
    }
}

/// The strings among items that are all strings are those items' texts.
proof fn lemma_string_items_of_strings(items: Seq<Json>)
    requires
        forall|i: int| 0 <= i < items.len() ==> #[trigger] items[i] is Str,
    ensures
        string_items(items) == Seq::new(items.len(), |i: int| items[i]->Str_0),
    decreases items.len(),
{
    if items.len() == 0 {
        assert(string_items(items) =~= Seq::new(items.len(), |i: int| items[i]->Str_0));
    } else {
        let d = items.drop_last();
        assert forall|i: int| 0 <= i < d.len() implies #[trigger] d[i] is Str by {
            assert(d[i] == items[i]);
        }
        lemma_string_items_of_strings(d);
        assert(items.last() == items[items.len() - 1]);
        assert(string_items(items) =~= Seq::new(items.len(), |i: int| items[i]->Str_0));
    }
}

/// What a call's parameters give, read under the call's wire names.
proof fn lemma_call_reads_params(call: InvokeCall, p: Json)
    requires
        crate::dispatch::call_from(call, p),
    ensures
        reads_call(call, p),
{
    match json_get(p, "jsonMessages"@) {
        Some(Json::Array(items)) => {
            if forall|i: int| 0 <= i < items.len() ==> #[trigger] items[i] is Str {
                lemma_string_items_of_strings(items);
            }
        },
        _ => {},
    }
    match json_get(p, "metadata"@) {
        Some(Json::Object(e)) => {
            lemma_string_members_are_lookups(e);
            assert(pairs_view(call.metadata@) == string_members(e));
            assert forall|k: Seq<char>, s: Seq<char>|
                #[trigger] pairs_view(call.metadata@).contains((k, s)) <==> json_get(Json::Object(e), k) == Some(
                    Json::Str(s),
                ) by {
                assert(string_members(e).contains((k, s)) <==> crate::json::entry_lookup(e, k) == Some(Json::Str(s)));
            }
        },
        _ => {
            assert(pairs_view(call.metadata@).len() == 0);
        },
    }
    match json_get(p, "jsonMessages"@) {
        Some(Json::Array(items)) => {},
        _ => {
            assert(strings_view(call.json_messages@).len() == 0);
        },
    }
}

/// Each method is routed by its name: `shutdown` is acknowledged with
/// `{}`, `ping` answered with `"pong"`, `initialize`, `discover`,
/// `invoke` and `invokeStream` go to the plugin with the request's id
/// and the arguments its parameters give under their wire names, and any
/// other method is answered with error -32601. Every answer carries the
/// request's id.
pub proof fn lemma_routes_by_method(req: Request, r: Route)
    requires
        routes(req, r),
    ensures
        req.method@ == "shutdown"@ ==> (r matches Route::Shutdown(ack) && json_get(response_json(ack), "result"@)
            == Some(Json::Object(Seq::empty())) && json_get(response_json(ack), "id"@) == Some(id_of(req))),
        req.method@ == "ping"@ ==> (r matches Route::Reply(resp) && json_get(response_json(resp), "result"@)
            == Some(Json::Str("pong"@)) && json_get(response_json(resp), "id"@) == Some(id_of(req))),
        req.method@ == "initialize"@ ==> (r matches Route::Initialize { id } && id@ == id_of(req)),
        req.method@ == "discover"@ ==> (r matches Route::Discover { id, server_url, show_internal } && id@ == id_of(
            req,
        ) && server_url@ == text_at(params_of(req), "serverUrl"@) && show_internal == flag_at(
            params_of(req),
            "showInternalServices"@,
        )),
        req.method@ == "invoke"@ ==> (r matches Route::Invoke { id, call } && id@ == id_of(req) && reads_call(
            call,
            params_of(req),
        )),
        req.method@ == "invokeStream"@ ==> (r matches Route::InvokeStream { id, stream_id, call } && id@ == id_of(
            req,
        ) && stream_id@ == text_at(params_of(req), "streamId"@) && reads_call(call, params_of(req))),
        req.method@ != "shutdown"@ && req.method@ != "ping"@ && req.method@ != "initialize"@ && req.method@
            != "discover"@ && req.method@ != "invoke"@ && req.method@ != "invokeStream"@ ==> (r matches Route::Reply(
            resp,
        ) && json_get(response_json(resp), "id"@) == Some(id_of(req)) && json_get(response_json(resp), "result"@)
            is None && (json_get(response_json(resp), "error"@) matches Some(e) && json_get(e, "code"@) == Some(
            int_json(-32601),
        ))),
{
    reveal_strlit("shutdown");
    reveal_strlit("initialize");
    reveal_strlit("ping");
    reveal_strlit("discover");
    reveal_strlit("invoke");
    reveal_strlit("invokeStream");
    assert("shutdown"@.len() != "initialize"@.len());
    assert("shutdown"@.len() != "ping"@.len());
    assert("shutdown"@[0] != "discover"@[0]);
    assert("shutdown"@.len() != "invoke"@.len());
    assert("shutdown"@.len() != "invokeStream"@.len());
    assert("initialize"@.len() != "ping"@.len());
    assert("initialize"@.len() != "discover"@.len());
    assert("initialize"@.len() != "invoke"@.len());
    assert("initialize"@.len() != "invokeStream"@.len());
    assert("ping"@.len() != "discover"@.len());
    assert("ping"@.len() != "invoke"@.len());
    assert("ping"@.len() != "invokeStream"@.len());
    assert("discover"@.len() != "invoke"@.len());
    assert("discover"@.len() != "invokeStream"@.len());
    assert("invoke"@.len() != "invokeStream"@.len());
    assert(crate::dispatch::request_id(req) == id_of(req));
    assert(crate::dispatch::request_params(req) == params_of(req));
    match r {
        Route::Shutdown(ack) => {
            lemma_answer_on_the_wire(ack, id_of(req), Json::Object(Seq::empty()));
        },
        Route::Reply(resp) => {
            if req.method@ == "ping"@ {
                lemma_answer_on_the_wire(resp, id_of(req), Json::Str("pong"@));
            } else {
                lemma_failure_on_the_wire(
                    resp,
                    id_of(req),
                    -32601i32,
                    crate::dispatch::unknown_method_message(req.method@),
                );
            }
        },
        Route::Invoke { id, call } => {
            lemma_call_reads_params(call, params_of(req));
        },
        Route::InvokeStream { id, stream_id, call } => {
            lemma_call_reads_params(call, params_of(req));
        },
        _ => {},
    }
}

/// The members of an object holding each name/value pair as given.
pub open spec fn given_pairs(md: Seq<(String, String)>) -> Seq<(Seq<char>, Json)> {
    Seq::new(md.len(), |i: int| (md[i].0@, Json::Str(md[i].1@)))
}

/// Keeping only the last pair of each name changes no lookup.
proof fn lemma_kept_pairs_look_up_alike(pv: Seq<(Seq<char>, Seq<char>)>, k: Seq<char>)
    ensures
        entry_lookup(string_pairs_json(last_of_each_name(pv)), k) == entry_lookup(string_pairs_json(pv), k),
{
    let n = pv.len() as int;
    let raw = string_pairs_json(pv);
    let lo = last_of_each_name(pv);
    let out = string_pairs_json(lo);
    let pos = last_positions(pv, n);
    lemma_last_positions(pv, n);
    lemma_metadata_names_unique(pv);
    assert(lo.len() == pos.len());
    if exists|i: int| 0 <= i < n && #[trigger] pv[i].0 == k {
        let i = choose|i: int| 0 <= i < n && #[trigger] pv[i].0 == k;
        lemma_name_has_a_last(pv, i);
        let j = choose|j: int| i <= j < pv.len() && pv[j].0 == pv[i].0 && #[trigger] is_last_of_name(pv, j);
        assert forall|m: int| j < m < raw.len() implies #[trigger] raw[m].0 != raw[j].0 by {
            assert(raw[m].0 == pv[m].0);
            assert(pv[m].0 != pv[j].0);
        }
        lemma_lookup_finds_last(raw, k, j);
        assert(pos.contains(j));
        let a = choose|a: int| 0 <= a < pos.len() && pos[a] == j;
        assert(lo[a] == pv[j]);
        assert forall|b: int| a < b < out.len() implies #[trigger] out[b].0 != out[a].0 by {
            assert(out[b].0 == lo[b].0);
            assert(out[a].0 == lo[a].0);
            assert(lo[a].0 != lo[b].0);
        }
        lemma_lookup_finds_last(out, k, a);
    } else {
        if entry_lookup(raw, k) is Some {
            lemma_lookup_is_some_member(raw, k);
            let i = choose|i: int| 0 <= i < raw.len() && #[trigger] raw[i].0 == k && is_last_of_name(raw, i)
                && Some(raw[i].1) == entry_lookup(raw, k);
            assert(pv[i].0 == k);
        }
        if entry_lookup(out, k) is Some {
            lemma_lookup_is_some_member(out, k);
            let a = choose|a: int| 0 <= a < out.len() && #[trigger] out[a].0 == k && is_last_of_name(out, a)
                && Some(out[a].1) == entry_lookup(out, k);
            assert(lo[a] == pv[pos[a]]);
            assert(pv[pos[a]].0 == k);
        }
    }
}

/// Metadata goes out as an object in which every name looks up to the
/// last value the result's pairs give it, as in the map the pairs make.
pub proof fn lemma_invoke_result_metadata(r: InvokeResult)
    ensures
        json_get(invoke_result_json(r), "metadata"@) matches Some(Json::Object(meta)) && forall|k: Seq<char>|
            #[trigger] json_get(Json::Object(meta), k) == json_get(Json::Object(given_pairs(r.metadata@)), k),
{
    let pv = pairs_view(r.metadata@);
    assert(string_pairs_json(pv) =~= given_pairs(r.metadata@));
    reveal_strlit("response");
    reveal_strlit("status");
    reveal_strlit("durationMs");
    reveal_strlit("metadata");
    assert("response"@.len() != "status"@.len());
    assert("response"@.len() != "durationMs"@.len());
    assert("response"@[0] != "metadata"@[0]);
    assert("status"@.len() != "durationMs"@.len());
    assert("status"@.len() != "metadata"@.len());
    assert("durationMs"@.len() != "metadata"@.len());
    assert(seq![
        ("status"@, Json::Str(r.status@)),
        ("durationMs"@, crate::models::i64_json(r.duration_ms)),
        ("metadata"@, Json::Object(string_pairs_json(last_of_each_name(pv)))),
    ] =~= Seq::empty().push(("status"@, Json::Str(r.status@))).push(
        ("durationMs"@, crate::models::i64_json(r.duration_ms)),
    ).push(("metadata"@, Json::Object(string_pairs_json(last_of_each_name(pv))))));
    assert(json_get(invoke_result_json(r), "metadata"@) == Some(Json::Object(string_pairs_json(last_of_each_name(pv)))));
    assert forall|k: Seq<char>|
        #[trigger] json_get(Json::Object(string_pairs_json(last_of_each_name(pv))), k) == json_get(
            Json::Object(given_pairs(r.metadata@)),
            k,
        ) by {
        lemma_kept_pairs_look_up_alike(pv, k);
    }
}

/// An optional member with `null` read as absent.
pub open spec fn present(o: Option<Json>) -> Option<Json> {
    match o {
        Some(Json::Null) => None,
        other => other,
    }
}

/// Whether two members of `e` are named `key`.
pub open spec fn given_twice(e: Seq<(Seq<char>, Json)>, key: Seq<char>) -> bool {
    exists|i: int, j: int| 0 <= i < j < e.len() && #[trigger] e[i].0 == key && #[trigger] e[j].0 == key
}

/// A request object is read by its members' wire names: its method is
/// its string member `method`, its id the member `id` and its params the
/// member `params` (`null` counting as absent). An object whose `method`
/// is missing or not a string, or that gives `id`, `method` or `params`
/// twice, holds no request.
pub proof fn lemma_envelope_members(e: Seq<(Seq<char>, Json)>)
    ensures
        envelope(Json::Object(e)) matches Some((id, m, p)) ==> json_get(Json::Object(e), "method"@) == Some(
            Json::Str(m),
        ) && id == present(json_get(Json::Object(e), "id"@)) && p == present(json_get(Json::Object(e), "params"@)),
        !(json_get(Json::Object(e), "method"@) matches Some(Json::Str(_))) ==> envelope(Json::Object(e)) is None,
        given_twice(e, "id"@) || given_twice(e, "method"@) || given_twice(e, "params"@) ==> envelope(
            Json::Object(e),
        ) is None,
{
    if given_twice(e, "id"@) {
        let (i, j) = choose|i: int, j: int| 0 <= i < j < e.len() && #[trigger] e[i].0 == "id"@ && #[trigger] e[j].0 == "id"@;
        assert(!at_most_once(e, "id"@));
    }
    if given_twice(e, "method"@) {
        let (i, j) = choose|i: int, j: int|
            0 <= i < j < e.len() && #[trigger] e[i].0 == "method"@ && #[trigger] e[j].0 == "method"@;
        assert(!at_most_once(e, "method"@));
    }
    if given_twice(e, "params"@) {
        let (i, j) = choose|i: int, j: int|
            0 <= i < j < e.len() && #[trigger] e[i].0 == "params"@ && #[trigger] e[j].0 == "params"@;
        assert(!at_most_once(e, "params"@));
    }
}

/// The positional form `[id, method]` or `[id, method, params]` is read
/// by position, `null` counting as absent.
pub proof fn lemma_envelope_positions(items: Seq<Json>)
    ensures
        (items.len() == 2 || items.len() == 3) && items[1] is Str ==> envelope(Json::Array(items)) == Some(
            (present(Some(items[0])), items[1]->Str_0, if items.len() == 3 { present(Some(items[2])) } else { None }),
        ),
        !((items.len() == 2 || items.len() == 3) && items[1] is Str) ==> envelope(Json::Array(items)) is None,
{
}

// ---- reading back what was written --------------------------------

/// No two members of `e` share a name.
pub open spec fn distinct_names(e: Seq<(Seq<char>, Json)>) -> bool {
    forall|i: int, j: int| #![trigger e[i], e[j]] 0 <= i < j < e.len() ==> e[i].0 != e[j].0
}

/// A name that looks up to nothing names no member.
proof fn lemma_lookup_none(e: Seq<(Seq<char>, Json)>, k: Seq<char>)
    requires
        entry_lookup(e, k) is None,
    ensures
        forall|i: int| 0 <= i < e.len() ==> #[trigger] e[i].0 != k,
{
    assert forall|i: int| 0 <= i < e.len() implies #[trigger] e[i].0 != k by {
        if e[i].0 == k {
            lemma_name_has_a_last(e, i);
            let j = choose|j: int| i <= j < e.len() && e[j].0 == e[i].0 && #[trigger] is_last_of_name(e, j);
            lemma_lookup_finds_last(e, k, j);
        }
    }
}

/// Adding at most one member whose name is new keeps the names distinct.
proof fn lemma_distinct_append(a: Seq<(Seq<char>, Json)>, b: Seq<(Seq<char>, Json)>)
    requires
        distinct_names(a),
        b.len() <= 1,
        b.len() == 1 ==> entry_lookup(a, b[0].0) is None,
    ensures
        distinct_names(a + b),
{
    if b.len() == 1 {
        lemma_lookup_none(a, b[0].0);
        let c = a + b;
        assert forall|i: int, j: int| 0 <= i < j < c.len() implies #[trigger] c[i].0 != #[trigger] c[j].0 by {
            if j == a.len() {
                assert(c[j] == b[0]);
                assert(c[i] == a[i]);
            } else {
                assert(c[i] == a[i]);
                assert(c[j] == a[j]);
            }
        }
    } else {
        assert(a + b =~= a);
    }
}

/// Each name is given at most once among members with distinct names.
proof fn lemma_distinct_once(e: Seq<(Seq<char>, Json)>, names: Seq<Seq<char>>)
    requires
        distinct_names(e),
    ensures
        forall|i: int| 0 <= i < names.len() ==> #[trigger] at_most_once(e, names[i]),
{
}

/// The capabilities read back from their wire shape are the same.
pub proof fn lemma_capabilities_read_back(c: Capabilities)
    ensures
        read_capabilities(capabilities_json(c)) == Some(c),
{
    reveal_strlit("discover");
    reveal_strlit("invoke");
    reveal_strlit("invokeStream");
    reveal_strlit("channels");
    assert("discover"@.len() != "invoke"@.len());
    assert("discover"@.len() != "invokeStream"@.len());
    assert("discover"@[0] != "channels"@[0]);
    assert("invoke"@.len() != "invokeStream"@.len());
    assert("invoke"@.len() != "channels"@.len());
    assert("invokeStream"@.len() != "channels"@.len());
    let e = seq![
        ("discover"@, Json::Bool(c.discover)),
        ("invoke"@, Json::Bool(c.invoke)),
        ("invokeStream"@, Json::Bool(c.invoke_stream)),
        ("channels"@, Json::Bool(c.channels)),
    ];
    let e0 = Seq::<(Seq<char>, Json)>::empty();
    let e1 = e0.push(("discover"@, Json::Bool(c.discover)));
    let e2 = e1.push(("invoke"@, Json::Bool(c.invoke)));
    let e3 = e2.push(("invokeStream"@, Json::Bool(c.invoke_stream)));
    let e4 = e3.push(("channels"@, Json::Bool(c.channels)));
    assert(e =~= e4);
    lemma_distinct_append(e0, seq![("discover"@, Json::Bool(c.discover))]);
    assert(e0 + seq![("discover"@, Json::Bool(c.discover))] =~= e1);
    lemma_distinct_append(e1, seq![("invoke"@, Json::Bool(c.invoke))]);
    assert(e1 + seq![("invoke"@, Json::Bool(c.invoke))] =~= e2);
    lemma_distinct_append(e2, seq![("invokeStream"@, Json::Bool(c.invoke_stream))]);
    assert(e2 + seq![("invokeStream"@, Json::Bool(c.invoke_stream))] =~= e3);
    lemma_distinct_append(e3, seq![("channels"@, Json::Bool(c.channels))]);
    assert(e3 + seq![("channels"@, Json::Bool(c.channels))] =~= e4);
    lemma_distinct_once(e, capabilities_names());
    lemma_capabilities_members(c);
}

/// A field schema read back from its wire shape is the same field.
pub proof fn lemma_field_read_back(f: FieldInfo)
    ensures
        field_reads(field_json(f), f),
{
    reveal_strlit("name");
    reveal_strlit("type");
    reveal_strlit("required");
    reveal_strlit("description");
    reveal_strlit("source");
    assert("name"@[0] != "type"@[0]);
    assert("name"@.len() != "required"@.len());
    assert("name"@.len() != "description"@.len());
    assert("name"@.len() != "source"@.len());
    assert("type"@.len() != "required"@.len());
    assert("type"@.len() != "description"@.len());
    assert("type"@.len() != "source"@.len());
    assert("required"@.len() != "description"@.len());
    assert("required"@.len() != "source"@.len());
    assert("description"@.len() != "source"@.len());
    let d0 = Seq::<(Seq<char>, Json)>::empty();
    let d1 = d0.push(("name"@, Json::Str(f.name@)));
    lemma_distinct_append(d0, seq![("name"@, Json::Str(f.name@))]);
    assert(d0 + seq![("name"@, Json::Str(f.name@))] =~= d1);
    let d2 = d1.push(("type"@, Json::Str(f.kind@)));
    lemma_distinct_append(d1, seq![("type"@, Json::Str(f.kind@))]);
    assert(d1 + seq![("type"@, Json::Str(f.kind@))] =~= d2);
    let d3 = d2.push(("required"@, Json::Bool(f.required)));
    lemma_distinct_append(d2, seq![("required"@, Json::Bool(f.required))]);
    assert(d2 + seq![("required"@, Json::Bool(f.required))] =~= d3);
    assert(seq![("name"@, Json::Str(f.name@)), ("type"@, Json::Str(f.kind@)), ("required"@, Json::Bool(f.required))] =~= d3);
    lemma_distinct_append(d3, crate::models::opt_str_member("description"@, f.description));
    let c0 = d3 + crate::models::opt_str_member("description"@, f.description);
    lemma_distinct_append(c0, crate::models::opt_str_member("source"@, f.source));
    let c1 = c0 + crate::models::opt_str_member("source"@, f.source);
    lemma_distinct_once(c1, field_names());
    lemma_field_members(f);
}

/// A message schema read back from its wire shape is the same schema.
pub proof fn lemma_message_read_back(m: MessageInfo)
    ensures
        message_reads(message_json(m), m),
{
    reveal_strlit("name");
    reveal_strlit("fullName");
    reveal_strlit("fields");
    assert("name"@.len() != "fullName"@.len());
    assert("name"@.len() != "fields"@.len());
    assert("fullName"@.len() != "fields"@.len());
    let d0 = Seq::<(Seq<char>, Json)>::empty();
    let d1 = d0.push(("name"@, Json::Str(m.name@)));
    lemma_distinct_append(d0, seq![("name"@, Json::Str(m.name@))]);
    assert(d0 + seq![("name"@, Json::Str(m.name@))] =~= d1);
    let d2 = d1.push(("fullName"@, Json::Str(m.full_name@)));
    lemma_distinct_append(d1, seq![("fullName"@, Json::Str(m.full_name@))]);
    assert(d1 + seq![("fullName"@, Json::Str(m.full_name@))] =~= d2);
    let d3 = d2.push(("fields"@, Json::Array(fields_json(m.fields@))));
    lemma_distinct_append(d2, seq![("fields"@, Json::Array(fields_json(m.fields@)))]);
    assert(d2 + seq![("fields"@, Json::Array(fields_json(m.fields@)))] =~= d3);
    assert(seq![("name"@, Json::Str(m.name@)), ("fullName"@, Json::Str(m.full_name@)), ("fields"@, Json::Array(fields_json(m.fields@)))] =~= d3);
    lemma_distinct_once(d3, message_names());
    lemma_message_members(m);
    assert forall|i: int| 0 <= i < fields_json(m.fields@).len() implies field_reads(#[trigger] fields_json(m.fields@)[i], m.fields@[i]) by {
        lemma_field_read_back(m.fields@[i]);
    }
}

/// The members of a method's wire shape have distinct names.
proof fn lemma_method_shape_distinct(m: MethodInfo)
    ensures
        method_json(m) matches Json::Object(e) && distinct_names(e),
{
    reveal_strlit("name");
    reveal_strlit("fullName");
    reveal_strlit("clientStreaming");
    reveal_strlit("serverStreaming");
    reveal_strlit("methodType");
    reveal_strlit("inputType");
    reveal_strlit("outputType");
    reveal_strlit("httpMethod");
    reveal_strlit("httpPath");
    reveal_strlit("summary");
    assert("name"@.len() != "fullName"@.len());
    assert("name"@.len() != "clientStreaming"@.len());
    assert("name"@.len() != "serverStreaming"@.len());
    assert("name"@.len() != "methodType"@.len());
    assert("name"@.len() != "inputType"@.len());
    assert("name"@.len() != "outputType"@.len());
    assert("name"@.len() != "httpMethod"@.len());
    assert("name"@.len() != "httpPath"@.len());
    assert("name"@.len() != "summary"@.len());
    assert("fullName"@.len() != "clientStreaming"@.len());
    assert("fullName"@.len() != "serverStreaming"@.len());
    assert("fullName"@.len() != "methodType"@.len());
    assert("fullName"@.len() != "inputType"@.len());
    assert("fullName"@.len() != "outputType"@.len());
    assert("fullName"@.len() != "httpMethod"@.len());
    assert("fullName"@[0] != "httpPath"@[0]);
    assert("fullName"@.len() != "summary"@.len());
    assert("clientStreaming"@[0] != "serverStreaming"@[0]);
    assert("clientStreaming"@.len() != "methodType"@.len());
    assert("clientStreaming"@.len() != "inputType"@.len());
    assert("clientStreaming"@.len() != "outputType"@.len());
    assert("clientStreaming"@.len() != "httpMethod"@.len());
    assert("clientStreaming"@.len() != "httpPath"@.len());
    assert("clientStreaming"@.len() != "summary"@.len());
    assert("serverStreaming"@.len() != "methodType"@.len());
    assert("serverStreaming"@.len() != "inputType"@.len());
    assert("serverStreaming"@.len() != "outputType"@.len());
    assert("serverStreaming"@.len() != "httpMethod"@.len());
    assert("serverStreaming"@.len() != "httpPath"@.len());
    assert("serverStreaming"@.len() != "summary"@.len());
    assert("methodType"@.len() != "inputType"@.len());
    assert("methodType"@[0] != "outputType"@[0]);
    assert("methodType"@[0] != "httpMethod"@[0]);
    assert("methodType"@.len() != "httpPath"@.len());
    assert("methodType"@.len() != "summary"@.len());
    assert("inputType"@.len() != "outputType"@.len());
    assert("inputType"@.len() != "httpMethod"@.len());
    assert("inputType"@.len() != "httpPath"@.len());
    assert("inputType"@.len() != "summary"@.len());
    assert("outputType"@[0] != "httpMethod"@[0]);
    assert("outputType"@.len() != "httpPath"@.len());
    assert("outputType"@.len() != "summary"@.len());
    assert("httpMethod"@.len() != "httpPath"@.len());
    assert("httpMethod"@.len() != "summary"@.len());
    assert("httpPath"@.len() != "summary"@.len());
    let d0 = Seq::<(Seq<char>, Json)>::empty();
    let d1 = d0.push(("name"@, Json::Str(m.name@)));
    lemma_distinct_append(d0, seq![("name"@, Json::Str(m.name@))]);
    assert(d0 + seq![("name"@, Json::Str(m.name@))] =~= d1);
    let d2 = d1.push(("fullName"@, Json::Str(m.full_name@)));
    lemma_distinct_append(d1, seq![("fullName"@, Json::Str(m.full_name@))]);
    assert(d1 + seq![("fullName"@, Json::Str(m.full_name@))] =~= d2);
    let d3 = d2.push(("clientStreaming"@, Json::Bool(m.client_streaming)));
    lemma_distinct_append(d2, seq![("clientStreaming"@, Json::Bool(m.client_streaming))]);
    assert(d2 + seq![("clientStreaming"@, Json::Bool(m.client_streaming))] =~= d3);
    let d4 = d3.push(("serverStreaming"@, Json::Bool(m.server_streaming)));
    lemma_distinct_append(d3, seq![("serverStreaming"@, Json::Bool(m.server_streaming))]);
    assert(d3 + seq![("serverStreaming"@, Json::Bool(m.server_streaming))] =~= d4);
    let d5 = d4.push(("methodType"@, Json::Str(method_type_name(m.method_type))));
    lemma_distinct_append(d4, seq![("methodType"@, Json::Str(method_type_name(m.method_type)))]);
    assert(d4 + seq![("methodType"@, Json::Str(method_type_name(m.method_type)))] =~= d5);
    assert(seq![("name"@, Json::Str(m.name@)), ("fullName"@, Json::Str(m.full_name@)), ("clientStreaming"@, Json::Bool(m.client_streaming)), ("serverStreaming"@, Json::Bool(m.server_streaming)), ("methodType"@, Json::Str(method_type_name(m.method_type)))] =~= d5);
    lemma_distinct_append(d5, crate::models::opt_message_member("inputType"@, m.input_type));
    let c0 = d5 + crate::models::opt_message_member("inputType"@, m.input_type);
    lemma_distinct_append(c0, crate::models::opt_message_member("outputType"@, m.output_type));
    let c1 = c0 + crate::models::opt_message_member("outputType"@, m.output_type);
    lemma_distinct_append(c1, crate::models::opt_str_member("httpMethod"@, m.http_method));
    let c2 = c1 + crate::models::opt_str_member("httpMethod"@, m.http_method);
    lemma_distinct_append(c2, crate::models::opt_str_member("httpPath"@, m.http_path));
    let c3 = c2 + crate::models::opt_str_member("httpPath"@, m.http_path);
    lemma_distinct_append(c3, crate::models::opt_str_member("summary"@, m.summary));
    let c4 = c3 + crate::models::opt_str_member("summary"@, m.summary);
}

/// A method read back from its wire shape is the same method.
#[verifier::rlimit(30)]
pub proof fn lemma_method_read_back(m: MethodInfo)
    ensures
        method_reads(method_json(m), m),
{
    lemma_method_shape_distinct(m);
    let e = match method_json(m) {
        Json::Object(e) => e,
        _ => Seq::empty(),
    };
    lemma_distinct_once(e, method_names());
    lemma_method_members(m);
    lemma_method_type_names(m.method_type);
    if let Some(x) = m.input_type {
        lemma_message_read_back(x);
    }
    if let Some(x) = m.output_type {
        lemma_message_read_back(x);
    }
}


/// A service read back from its wire shape is the same service.
pub proof fn lemma_service_read_back(s: ServiceInfo)
    ensures
        service_reads(service_json(s), s),
{
    reveal_strlit("name");
    reveal_strlit("methods");
    reveal_strlit("description");
    reveal_strlit("version");
    assert("name"@.len() != "methods"@.len());
    assert("name"@.len() != "description"@.len());
    assert("name"@.len() != "version"@.len());
    assert("methods"@.len() != "description"@.len());
    assert("methods"@[0] != "version"@[0]);
    assert("description"@.len() != "version"@.len());
    let d0 = Seq::<(Seq<char>, Json)>::empty();
    let d1 = d0.push(("name"@, Json::Str(s.name@)));
    lemma_distinct_append(d0, seq![("name"@, Json::Str(s.name@))]);
    assert(d0 + seq![("name"@, Json::Str(s.name@))] =~= d1);
    let d2 = d1.push(("methods"@, Json::Array(methods_json(s.methods@))));
    lemma_distinct_append(d1, seq![("methods"@, Json::Array(methods_json(s.methods@)))]);
    assert(d1 + seq![("methods"@, Json::Array(methods_json(s.methods@)))] =~= d2);
    assert(seq![("name"@, Json::Str(s.name@)), ("methods"@, Json::Array(methods_json(s.methods@)))] =~= d2);
    lemma_distinct_append(d2, crate::models::opt_str_member("description"@, s.description));
    let c0 = d2 + crate::models::opt_str_member("description"@, s.description);
    lemma_distinct_append(c0, crate::models::opt_str_member("version"@, s.version));
    let c1 = c0 + crate::models::opt_str_member("version"@, s.version);
    lemma_distinct_once(c1, service_names());
    lemma_service_members(s);
    assert forall|i: int| 0 <= i < methods_json(s.methods@).len() implies method_reads(#[trigger] methods_json(s.methods@)[i], s.methods@[i]) by {
        lemma_method_read_back(s.methods@[i]);
    }
}

/// A setting with options read back from its wire shape is the same
/// setting; one without options goes out without the `options` member,
/// which reading requires, so it does not read back.
pub proof fn lemma_setting_read_back(s: PluginSetting)
    ensures
        s.options@.len() > 0 ==> setting_reads(setting_json(s), s),
        s.options@.len() == 0 ==> !setting_decodes(setting_json(s)),
{
    reveal_strlit("id");
    reveal_strlit("name");
    reveal_strlit("description");
    reveal_strlit("type");
    reveal_strlit("default");
    reveal_strlit("options");
    assert("id"@.len() != "name"@.len());
    assert("id"@.len() != "description"@.len());
    assert("id"@.len() != "type"@.len());
    assert("id"@.len() != "default"@.len());
    assert("id"@.len() != "options"@.len());
    assert("name"@.len() != "description"@.len());
    assert("name"@[0] != "type"@[0]);
    assert("name"@.len() != "default"@.len());
    assert("name"@.len() != "options"@.len());
    assert("description"@.len() != "type"@.len());
    assert("description"@.len() != "default"@.len());
    assert("description"@.len() != "options"@.len());
    assert("type"@.len() != "default"@.len());
    assert("type"@.len() != "options"@.len());
    assert("default"@[0] != "options"@[0]);
    let d0 = Seq::<(Seq<char>, Json)>::empty();
    let d1 = d0.push(("id"@, Json::Str(s.id@)));
    lemma_distinct_append(d0, seq![("id"@, Json::Str(s.id@))]);
    assert(d0 + seq![("id"@, Json::Str(s.id@))] =~= d1);
    let d2 = d1.push(("name"@, Json::Str(s.name@)));
    lemma_distinct_append(d1, seq![("name"@, Json::Str(s.name@))]);
    assert(d1 + seq![("name"@, Json::Str(s.name@))] =~= d2);
    let d3 = d2.push(("description"@, Json::Str(s.description@)));
    lemma_distinct_append(d2, seq![("description"@, Json::Str(s.description@))]);
    assert(d2 + seq![("description"@, Json::Str(s.description@))] =~= d3);
    let d4 = d3.push(("type"@, Json::Str(s.kind@)));
    lemma_distinct_append(d3, seq![("type"@, Json::Str(s.kind@))]);
    assert(d3 + seq![("type"@, Json::Str(s.kind@))] =~= d4);
    let d5 = d4.push(("default"@, Json::Str(s.default@)));
    lemma_distinct_append(d4, seq![("default"@, Json::Str(s.default@))]);
    assert(d4 + seq![("default"@, Json::Str(s.default@))] =~= d5);
    assert(seq![("id"@, Json::Str(s.id@)), ("name"@, Json::Str(s.name@)), ("description"@, Json::Str(s.description@)), ("type"@, Json::Str(s.kind@)), ("default"@, Json::Str(s.default@))] =~= d5);
    lemma_distinct_append(d5, (if s.options@.len() == 0 { Seq::empty() } else { seq![("options"@, Json::Array(strings_json(s.options@)))] }));
    let c0 = d5 + (if s.options@.len() == 0 { Seq::empty() } else { seq![("options"@, Json::Array(strings_json(s.options@)))] });
    lemma_distinct_once(c0, setting_names());
    lemma_setting_members(s);
    assert(strings_view(s.options@) =~= Seq::new(strings_json(s.options@).len(), |i: int| strings_json(s.options@)[i]->Str_0));
}


/// When every pair is the last of its name, all positions are kept.
proof fn lemma_all_positions_kept(pv: Seq<(Seq<char>, Seq<char>)>, n: int)
    requires
        0 <= n <= pv.len(),
        forall|i: int| 0 <= i < pv.len() ==> #[trigger] is_last_of_name(pv, i),
    ensures
        last_positions(pv, n) == Seq::new(n as nat, |i: int| i),
    decreases n,
{
    if n > 0 {
        lemma_all_positions_kept(pv, n - 1);
        assert(is_last_of_name(pv, n - 1));
    }
    assert(last_positions(pv, n) =~= Seq::new(n as nat, |i: int| i));
}

/// When every member is a string and the last of its name, all positions
/// are string positions.
proof fn lemma_all_string_positions(e: Seq<(Seq<char>, Json)>, n: int)
    requires
        0 <= n <= e.len(),
        forall|i: int| 0 <= i < e.len() ==> #[trigger] is_last_of_name(e, i) && e[i].1 is Str,
    ensures
        string_positions(e, n) == Seq::new(n as nat, |i: int| i),
    decreases n,
{
    if n > 0 {
        lemma_all_string_positions(e, n - 1);
        assert(is_last_of_name(e, n - 1) && e[n - 1].1 is Str);
    }
    assert(string_positions(e, n) =~= Seq::new(n as nat, |i: int| i));
}

/// An invoke result whose metadata names are distinct reads back from its
/// wire shape as the same result.
#[verifier::rlimit(30)]
pub proof fn lemma_invoke_result_read_back(r: InvokeResult)
    requires
        forall|i: int, j: int|
            0 <= i < j < r.metadata@.len() ==> #[trigger] r.metadata@[i].0@ != #[trigger] r.metadata@[j].0@,
    ensures
        invoke_result_reads(invoke_result_json(r), r),
{
    reveal_strlit("response");
    reveal_strlit("status");
    reveal_strlit("durationMs");
    reveal_strlit("metadata");
    assert("response"@.len() != "status"@.len());
    assert("response"@.len() != "durationMs"@.len());
    assert("response"@[0] != "metadata"@[0]);
    assert("status"@.len() != "durationMs"@.len());
    assert("status"@.len() != "metadata"@.len());
    assert("durationMs"@.len() != "metadata"@.len());
    let pv = pairs_view(r.metadata@);
    let n = pv.len() as int;
    assert forall|i: int| 0 <= i < pv.len() implies #[trigger] is_last_of_name(pv, i) by {
        assert forall|j: int| i < j < pv.len() implies #[trigger] pv[j].0 != pv[i].0 by {
            assert(pv[j].0 == r.metadata@[j].0@);
            assert(pv[i].0 == r.metadata@[i].0@);
        }
    }
    lemma_all_positions_kept(pv, n);
    assert(last_of_each_name(pv) =~= pv);
    let meta = string_pairs_json(pv);
    assert forall|i: int| 0 <= i < meta.len() implies #[trigger] is_last_of_name(meta, i) && meta[i].1 is Str by {
        assert forall|j: int| i < j < meta.len() implies #[trigger] meta[j].0 != meta[i].0 by {
            assert(meta[j].0 == pv[j].0);
            assert(meta[i].0 == pv[i].0);
            assert(is_last_of_name(pv, i));
        }
    }
    lemma_all_string_positions(meta, n);
    assert(string_members(meta) =~= pv);
    let resp = crate::models::opt_str_member("response"@, r.response);
    let d0 = Seq::<(Seq<char>, Json)>::empty();
    lemma_distinct_append(d0, resp);
    assert(d0 + resp =~= resp);
    let x1 = ("status"@, Json::Str(r.status@));
    let x2 = ("durationMs"@, crate::models::i64_json(r.duration_ms));
    let x3 = ("metadata"@, Json::Object(meta));
    lemma_distinct_append(resp, seq![x1]);
    assert(resp + seq![x1] =~= resp.push(x1));
    lemma_distinct_append(resp.push(x1), seq![x2]);
    assert(resp.push(x1) + seq![x2] =~= resp.push(x1).push(x2));
    lemma_distinct_append(resp.push(x1).push(x2), seq![x3]);
    assert(resp.push(x1).push(x2) + seq![x3] =~= resp.push(x1).push(x2).push(x3));
    assert(resp + seq![x1, x2, x3] =~= resp.push(x1).push(x2).push(x3));
    lemma_distinct_once(resp.push(x1).push(x2).push(x3), invoke_result_names());
    lemma_invoke_result_members(r);
}


/// The answer to `discover` is the bare array of the services, in
/// order, each of which reads back as the service it came from.
pub proof fn lemma_discover_answer(r: Response, id: Json, ss: Seq<ServiceInfo>)
    requires
        answers(r, id, Json::Array(services_json(ss))),
    ensures
        json_get(response_json(r), "result"@) matches Some(Json::Array(items)) && items.len() == ss.len()
            && forall|i: int| 0 <= i < ss.len() ==> service_reads(#[trigger] items[i], ss[i]),
{
    lemma_answer_on_the_wire(r, id, Json::Array(services_json(ss)));
    assert forall|i: int| 0 <= i < ss.len() implies service_reads(#[trigger] services_json(ss)[i], ss[i]) by {
        lemma_service_read_back(ss[i]);
    }
}

} // verus!
