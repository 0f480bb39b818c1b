//! Data models of the topology and call results the workbench renders.
//! Builders (`with_*`) give concise declarations; `to_json` gives the
//! wire shape (camelCase member names, absent options left out).
use vstd::prelude::*;

use crate::json::{entries_view, items_view, lemma_array_view, lemma_object_view, push_item, push_member, string_value, Json, JsonNumber, JsonNumberView, JsonValue};

verus! {

// ---- wire-shape helpers -------------------------------------------

/// The member `key: "s"` when the option holds `s`; nothing otherwise.
pub open spec fn opt_str_member(key: Seq<char>, v: Option<String>) -> Seq<(Seq<char>, Json)> {
    match v {
        Some(s) => seq![(key, Json::Str(s@))],
        None => Seq::empty(),
    }
}

/// Appends `key: "s"` when `v` holds `s`.
pub fn push_opt_string(entries: &mut Vec<(String, JsonValue)>, key: &str, v: &Option<String>)
    ensures
        entries_view(final(entries)@) == entries_view(old(entries)@) + opt_str_member(key@, *v),
{
    match v {
        Some(s) => {
            push_member(entries, key, JsonValue::String(s.clone()));
            assert(entries_view(final(entries)@) =~= entries_view(old(entries)@) + opt_str_member(key@, *v));
        },
        None => {
            assert(entries_view(final(entries)@) =~= entries_view(old(entries)@) + opt_str_member(key@, *v));
        },
    }
}

/// The members of an object built from nothing.
pub proof fn lemma_no_members(e: Vec<(String, JsonValue)>)
    requires
        e@.len() == 0,
    ensures
        entries_view(e@) == Seq::<(Seq<char>, Json)>::empty(),
{
    assert(entries_view(e@) =~= Seq::<(Seq<char>, Json)>::empty());
}

/// The items of an array built from nothing.
pub proof fn lemma_no_items(e: Vec<JsonValue>)
    requires
        e@.len() == 0,
    ensures
        items_view(e@) == Seq::<Json>::empty(),
{
    assert(items_view(e@) =~= Seq::<Json>::empty());
}

// ---- FieldInfo ----------------------------------------------------

/// One field on a [`MessageInfo`]. Optional flags and description ride
/// along so the workbench can render hints and required markers.
#[derive(Debug, Clone)]
pub struct FieldInfo {
    /// Field name.
    pub name: String,
    /// Type name (`string` / `int32` / `bool` / `bytes` / ...).
    pub kind: String,
    /// Marks the field as required for form validation.
    pub required: bool,
    /// Description shown as a tooltip.
    pub description: Option<String>,
    /// REST: where the field travels (`path` / `query` / `header` /
    /// `body`). `None` for non-REST.
    pub source: Option<String>,
}

impl Default for FieldInfo {
    fn default() -> (r: Self)
        ensures
            r.name@ == Seq::<char>::empty(),
            r.kind@ == Seq::<char>::empty(),
            !r.required,
            r.description is None,
            r.source is None,
    {
        FieldInfo {
            name: String::new(),
            kind: String::new(),
            required: false,
            description: None,
            source: None,
        }
    }
}

/// The wire shape of a field.
pub open spec fn field_json(f: FieldInfo) -> Json {
    Json::Object(
        seq![
            ("name"@, Json::Str(f.name@)),
            ("type"@, Json::Str(f.kind@)),
            ("required"@, Json::Bool(f.required)),
        ] + opt_str_member("description"@, f.description) + opt_str_member("source"@, f.source),
    )
}

impl FieldInfo {
    /// A field named `name` of type `kind`, optional, with no
    /// description and no source.
    fn typed(name: &str, kind: &str) -> (r: Self)
        ensures
            r.name@ == name@,
            r.kind@ == kind@,
            !r.required,
            r.description is None,
            r.source is None,
    {
        FieldInfo {
            name: name.to_owned(),
            kind: kind.to_owned(),
            required: false,
            description: None,
            source: None,
        }
    }

    /// Build a string field.
    pub fn string(name: &str) -> (r: Self)
        ensures
            r.name@ == name@,
            r.kind@ == "string"@,
            !r.required,
            r.description is None,
            r.source is None,
    {
        Self::typed(name, "string")
    }

    /// Build an int32 field.
    pub fn int32(name: &str) -> (r: Self)
        ensures
            r.name@ == name@,
            r.kind@ == "int32"@,
            !r.required,
            r.description is None,
            r.source is None,
    {
        Self::typed(name, "int32")
    }

    /// Build a bool field.
    pub fn bool(name: &str) -> (r: Self)
        ensures
            r.name@ == name@,
            r.kind@ == "bool"@,
            !r.required,
            r.description is None,
            r.source is None,
    {
        Self::typed(name, "bool")
    }

    /// Chainable: mark this field required.
    pub fn required(self) -> (r: Self)
        ensures
            r == (FieldInfo { required: true, ..self }),
    {
        let mut s = self;
        s.required = true;
        s
    }

    /// Chainable: set a tooltip description.
    pub fn with_description(self, description: &str) -> (r: Self)
        ensures
            r.description matches Some(d) && d@ == description@,
            r == (FieldInfo { description: r.description, ..self }),
    {
        let mut s = self;
        s.description = Some(description.to_owned());
        s
    }

    /// The wire shape: `name`, `type`, `required`, then `description` and
    /// `source` when present.
    pub fn to_json(&self) -> (r: JsonValue)
        ensures
            r@ == field_json(*self),
    {
        let mut e: Vec<(String, JsonValue)> = Vec::new();
        proof {
            lemma_no_members(e);
        }
        push_member(&mut e, "name", JsonValue::String(self.name.clone()));
        push_member(&mut e, "type", JsonValue::String(self.kind.clone()));
        push_member(&mut e, "required", JsonValue::Bool(self.required));
        push_opt_string(&mut e, "description", &self.description);
        push_opt_string(&mut e, "source", &self.source);
        proof {
            lemma_object_view(e);
            assert(entries_view(e@) =~= match field_json(*self) {
                Json::Object(m) => m,
                _ => Seq::empty(),
            });
        }
        JsonValue::Object(e)
    }
}


// ---- MessageInfo --------------------------------------------------

/// One message schema attached to a method. The shape mirrors
/// protobuf's message descriptor so the workbench's form renderer can
/// drive any schema through one code path.
#[derive(Debug, Clone)]
pub struct MessageInfo {
    /// Display name (rendered in the form header).
    pub name: String,
    /// Fully qualified type name.
    pub full_name: String,
    /// Fields the form renderer turns into inputs.
    pub fields: Vec<FieldInfo>,
}

impl Default for MessageInfo {
    fn default() -> (r: Self)
        ensures
            r.name@ == Seq::<char>::empty(),
            r.full_name@ == Seq::<char>::empty(),
            r.fields@ == Seq::<FieldInfo>::empty(),
    {
        MessageInfo { name: String::new(), full_name: String::new(), fields: Vec::new() }
    }
}

/// The wire shapes of a list of fields.
pub open spec fn fields_json(fs: Seq<FieldInfo>) -> Seq<Json> {
    Seq::new(fs.len(), |i: int| field_json(fs[i]))
}

/// The wire shape of a message schema.
pub open spec fn message_json(m: MessageInfo) -> Json {
    Json::Object(
        seq![
            ("name"@, Json::Str(m.name@)),
            ("fullName"@, Json::Str(m.full_name@)),
            ("fields"@, Json::Array(fields_json(m.fields@))),
        ],
    )
}

/// The JSON array of the wire shapes of `fs`.
fn fields_to_json(fs: &Vec<FieldInfo>) -> (r: JsonValue)
    ensures
        r@ == Json::Array(fields_json(fs@)),
{
    let mut items: Vec<JsonValue> = Vec::new();
    proof {
        lemma_no_items(items);
    }
    let mut i: usize = 0;
    while i < fs.len()
        invariant
            0 <= i <= fs@.len(),
            items_view(items@) == fields_json(fs@).take(i as int),
        decreases fs@.len() - i,
    {
        push_item(&mut items, fs[i].to_json());
        assert(fields_json(fs@).take(i + 1) =~= fields_json(fs@).take(i as int).push(field_json(fs@[i as int])));
        i += 1;
    }
    proof {
        lemma_array_view(items);
        assert(fields_json(fs@).take(fs@.len() as int) =~= fields_json(fs@));
    }
    JsonValue::Array(items)
}

impl MessageInfo {
    /// Build a message with the given (short, full) names and no fields.
    pub fn new(name: &str, full_name: &str) -> (r: Self)
        ensures
            r.name@ == name@,
            r.full_name@ == full_name@,
            r.fields@ == Seq::<FieldInfo>::empty(),
    {
        MessageInfo { name: name.to_owned(), full_name: full_name.to_owned(), fields: Vec::new() }
    }

    /// Chainable: attach fields after the ones already there.
    pub fn with_fields(self, fields: Vec<FieldInfo>) -> (r: Self)
        ensures
            r.fields@ == self.fields@ + fields@,
            r.name == self.name,
            r.full_name == self.full_name,
    {
        let mut s = self;
        let mut more = fields;
        s.fields.append(&mut more);
        s
    }

    /// The wire shape: `name`, `fullName`, `fields`.
    pub fn to_json(&self) -> (r: JsonValue)
        ensures
            r@ == message_json(*self),
    {
        let mut e: Vec<(String, JsonValue)> = Vec::new();
        proof {
            lemma_no_members(e);
        }
        push_member(&mut e, "name", JsonValue::String(self.name.clone()));
        push_member(&mut e, "fullName", JsonValue::String(self.full_name.clone()));
        push_member(&mut e, "fields", fields_to_json(&self.fields));
        proof {
            lemma_object_view(e);
            assert(entries_view(e@) =~= match message_json(*self) {
                Json::Object(m) => m,
                _ => Seq::empty(),
            });
        }
        JsonValue::Object(e)
    }
}

// ---- MethodType ---------------------------------------------------

/// Method cardinality marker. Mirrors gRPC's four shapes; these are
/// the strings the workbench branches on to pick a UI.
#[derive(Debug, Clone, Copy, PartialEq, Eq, Structural)]
pub enum MethodType {
    /// One request, one response.
    Unary,
    /// One request, many responses.
    ServerStreaming,
    /// Many requests, one response.
    ClientStreaming,
    /// Many requests, many responses (full duplex).
    Duplex,
}

/// The wire name of a method type: the variant's own name.
pub open spec fn method_type_name(t: MethodType) -> Seq<char> {
    match t {
        MethodType::Unary => "Unary"@,
        MethodType::ServerStreaming => "ServerStreaming"@,
        MethodType::ClientStreaming => "ClientStreaming"@,
        MethodType::Duplex => "Duplex"@,
    }
}

impl MethodType {
    /// The wire shape: the variant's name as a JSON string.
    pub fn to_json(&self) -> (r: JsonValue)
        ensures
            r@ == Json::Str(method_type_name(*self)),
    {
        match self {
            MethodType::Unary => string_value("Unary"),
            MethodType::ServerStreaming => string_value("ServerStreaming"),
            MethodType::ClientStreaming => string_value("ClientStreaming"),
            MethodType::Duplex => string_value("Duplex"),
        }
    }
}

// ---- MethodInfo ---------------------------------------------------

/// One callable method on a [`ServiceInfo`].
#[derive(Debug, Clone)]
pub struct MethodInfo {
    /// The short name rendered in the sidebar.
    pub name: String,
    /// Fully qualified name (e.g. `package.Service.Method`).
    pub full_name: String,
    /// Whether the workbench writes more than one request frame.
    pub client_streaming: bool,
    /// Whether the workbench reads more than one response frame.
    pub server_streaming: bool,
    /// Cardinality marker the workbench uses to pick the right UI.
    pub method_type: MethodType,
    /// Input schema (shown as the request form).
    pub input_type: Option<MessageInfo>,
    /// Output schema (shown as the response view).
    pub output_type: Option<MessageInfo>,
    /// HTTP verb when this method came from an OpenAPI doc.
    pub http_method: Option<String>,
    /// HTTP path template when this method came from an OpenAPI doc.
    pub http_path: Option<String>,
    /// Short summary shown next to the method node in the sidebar.
    pub summary: Option<String>,
}

/// The member `key: <schema>` when the option holds a schema; nothing otherwise.
pub open spec fn opt_message_member(key: Seq<char>, v: Option<MessageInfo>) -> Seq<(Seq<char>, Json)> {
    match v {
        Some(m) => seq![(key, message_json(m))],
        None => Seq::empty(),
    }
}

/// Appends `key: <schema>` when `v` holds a schema.
fn push_opt_message(entries: &mut Vec<(String, JsonValue)>, key: &str, v: &Option<MessageInfo>)
    ensures
        entries_view(final(entries)@) == entries_view(old(entries)@) + opt_message_member(key@, *v),
{
    match v {
        Some(m) => {
            push_member(entries, key, m.to_json());
            assert(entries_view(final(entries)@) =~= entries_view(old(entries)@) + opt_message_member(key@, *v));
        },
        None => {
            assert(entries_view(final(entries)@) =~= entries_view(old(entries)@) + opt_message_member(key@, *v));
        },
    }
}

/// The wire shape of a method.
pub open spec fn method_json(m: MethodInfo) -> Json {
    Json::Object(
        seq![
            ("name"@, Json::Str(m.name@)),
            ("fullName"@, Json::Str(m.full_name@)),
            ("clientStreaming"@, Json::Bool(m.client_streaming)),
            ("serverStreaming"@, Json::Bool(m.server_streaming)),
            ("methodType"@, Json::Str(method_type_name(m.method_type))),
        ] + opt_message_member("inputType"@, m.input_type) + opt_message_member(
            "outputType"@,
            m.output_type,
        ) + opt_str_member("httpMethod"@, m.http_method) + opt_str_member(
            "httpPath"@,
            m.http_path,
        ) + opt_str_member("summary"@, m.summary),
    )
}

impl MethodInfo {
    /// Build a unary method (one request, one response): the full name is
    /// the short name, no schemas, no HTTP binding, no summary.
    pub fn unary(name: &str) -> (r: Self)
        ensures
            r.name@ == name@,
            r.full_name@ == name@,
            !r.client_streaming,
            !r.server_streaming,
            r.method_type == MethodType::Unary,
            r.input_type is None,
            r.output_type is None,
            r.http_method is None,
            r.http_path is None,
            r.summary is None,
    {
        let n: String = name.to_owned();
        MethodInfo {
            full_name: n.clone(),
            name: n,
            client_streaming: false,
            server_streaming: false,
            method_type: MethodType::Unary,
            input_type: None,
            output_type: None,
            http_method: None,
            http_path: None,
            summary: None,
        }
    }

    /// Build a server-streaming method (one request, many responses):
    /// a unary method with the server-streaming flag and marker.
    pub fn server_streaming(name: &str) -> (r: Self)
        ensures
            r.name@ == name@,
            r.full_name@ == name@,
            !r.client_streaming,
            r.server_streaming,
            r.method_type == MethodType::ServerStreaming,
            r.input_type is None,
            r.output_type is None,
            r.http_method is None,
            r.http_path is None,
            r.summary is None,
    {
        MethodInfo {
            method_type: MethodType::ServerStreaming,
            server_streaming: true,
            ..Self::unary(name)
        }
    }

    /// Chainable: set the request schema.
    pub fn with_input(self, input: MessageInfo) -> (r: Self)
        ensures
            r == (MethodInfo { input_type: Some(input), ..self }),
    {
        let mut s = self;
        s.input_type = Some(input);
        s
    }

    /// Chainable: set the response schema.
    pub fn with_output(self, output: MessageInfo) -> (r: Self)
        ensures
            r == (MethodInfo { output_type: Some(output), ..self }),
    {
        let mut s = self;
        s.output_type = Some(output);
        s
    }

    /// Chainable: attach a one-line summary.
    pub fn with_summary(self, summary: &str) -> (r: Self)
        ensures
            r.summary matches Some(t) && t@ == summary@,
            r == (MethodInfo { summary: r.summary, ..self }),
    {
        let mut s = self;
        s.summary = Some(summary.to_owned());
        s
    }

    /// The wire shape: camelCase members; absent schemas, HTTP binding
    /// and summary are left out rather than written as null.
    pub fn to_json(&self) -> (r: JsonValue)
        ensures
            r@ == method_json(*self),
    {
        let mut e: Vec<(String, JsonValue)> = Vec::new();
        proof {
            lemma_no_members(e);
        }
        push_member(&mut e, "name", JsonValue::String(self.name.clone()));
        push_member(&mut e, "fullName", JsonValue::String(self.full_name.clone()));
        push_member(&mut e, "clientStreaming", JsonValue::Bool(self.client_streaming));
        push_member(&mut e, "serverStreaming", JsonValue::Bool(self.server_streaming));
        push_member(&mut e, "methodType", self.method_type.to_json());
        push_opt_message(&mut e, "inputType", &self.input_type);
        push_opt_message(&mut e, "outputType", &self.output_type);
        push_opt_string(&mut e, "httpMethod", &self.http_method);
        push_opt_string(&mut e, "httpPath", &self.http_path);
        push_opt_string(&mut e, "summary", &self.summary);
        proof {
            lemma_object_view(e);
            assert(entries_view(e@) =~= match method_json(*self) {
                Json::Object(m) => m,
                _ => Seq::empty(),
            });
        }
        JsonValue::Object(e)
    }
}


// ---- ServiceInfo --------------------------------------------------

/// One service node the workbench shows in the sidebar.
#[derive(Debug, Clone)]
pub struct ServiceInfo {
    /// Display name of the service node.
    pub name: String,
    /// Methods exposed by this service.
    pub methods: Vec<MethodInfo>,
    /// Optional one-line description.
    pub description: Option<String>,
    /// Source-schema version reported by the host's discovery output
    /// (e.g. an OpenAPI `info.version` value).
    pub version: Option<String>,
}

/// The wire shapes of a list of methods.
pub open spec fn methods_json(ms: Seq<MethodInfo>) -> Seq<Json> {
    Seq::new(ms.len(), |i: int| method_json(ms[i]))
}

/// The wire shape of a service.
pub open spec fn service_json(s: ServiceInfo) -> Json {
    Json::Object(
        seq![("name"@, Json::Str(s.name@)), ("methods"@, Json::Array(methods_json(s.methods@)))]
            + opt_str_member("description"@, s.description) + opt_str_member("version"@, s.version),
    )
}

/// The wire shapes of a list of services.
pub open spec fn services_json(ss: Seq<ServiceInfo>) -> Seq<Json> {
    Seq::new(ss.len(), |i: int| service_json(ss[i]))
}

/// The JSON array of the wire shapes of `ms`.
fn methods_to_json(ms: &Vec<MethodInfo>) -> (r: JsonValue)
    ensures
        r@ == Json::Array(methods_json(ms@)),
{
    let mut items: Vec<JsonValue> = Vec::new();
    proof {
        lemma_no_items(items);
    }
    let mut i: usize = 0;
    while i < ms.len()
        invariant
            0 <= i <= ms@.len(),
            items_view(items@) == methods_json(ms@).take(i as int),
        decreases ms@.len() - i,
    {
        push_item(&mut items, ms[i].to_json());
        assert(methods_json(ms@).take(i + 1) =~= methods_json(ms@).take(i as int).push(method_json(ms@[i as int])));
        i += 1;
    }
    proof {
        lemma_array_view(items);
        assert(methods_json(ms@).take(ms@.len() as int) =~= methods_json(ms@));
    }
    JsonValue::Array(items)
}

/// The JSON array of the wire shapes of `services`: what a `discover`
/// call answers.
pub fn services_to_json(services: &Vec<ServiceInfo>) -> (r: JsonValue)
    ensures
        r@ == Json::Array(services_json(services@)),
{
    let mut items: Vec<JsonValue> = Vec::new();
    proof {
        lemma_no_items(items);
    }
    let mut i: usize = 0;
    while i < services.len()
        invariant
            0 <= i <= services@.len(),
            items_view(items@) == services_json(services@).take(i as int),
        decreases services@.len() - i,
    {
        push_item(&mut items, services[i].to_json());
        assert(services_json(services@).take(i + 1) =~= services_json(services@).take(i as int).push(
            service_json(services@[i as int]),
        ));
        i += 1;
    }
    proof {
        lemma_array_view(items);
        assert(services_json(services@).take(services@.len() as int) =~= services_json(services@));
    }
    JsonValue::Array(items)
}

impl ServiceInfo {
    /// Build a service with the given name and no methods yet.
    pub fn new(name: &str) -> (r: Self)
        ensures
            r.name@ == name@,
            r.methods@ == Seq::<MethodInfo>::empty(),
            r.description is None,
            r.version is None,
    {
        ServiceInfo { name: name.to_owned(), methods: Vec::new(), description: None, version: None }
    }

    /// Chainable: attach the given methods after the ones already there.
    pub fn with_methods(self, methods: Vec<MethodInfo>) -> (r: Self)
        ensures
            r.methods@ == self.methods@ + methods@,
            r.name == self.name,
            r.description == self.description,
            r.version == self.version,
    {
        let mut s = self;
        let mut more = methods;
        s.methods.append(&mut more);
        s
    }

    /// Chainable: set the description shown in the sidebar tooltip.
    pub fn with_description(self, description: &str) -> (r: Self)
        ensures
            r.description matches Some(d) && d@ == description@,
            r == (ServiceInfo { description: r.description, ..self }),
    {
        let mut s = self;
        s.description = Some(description.to_owned());
        s
    }

    /// The wire shape: `name`, `methods`, then `description` and
    /// `version` when present.
    pub fn to_json(&self) -> (r: JsonValue)
        ensures
            r@ == service_json(*self),
    {
        let mut e: Vec<(String, JsonValue)> = Vec::new();
        proof {
            lemma_no_members(e);
        }
        push_member(&mut e, "name", JsonValue::String(self.name.clone()));
        push_member(&mut e, "methods", methods_to_json(&self.methods));
        push_opt_string(&mut e, "description", &self.description);
        push_opt_string(&mut e, "version", &self.version);
        proof {
            lemma_object_view(e);
            assert(entries_view(e@) =~= match service_json(*self) {
                Json::Object(m) => m,
                _ => Seq::empty(),
            });
        }
        JsonValue::Object(e)
    }
}

// ---- PluginSetting ------------------------------------------------

/// One configurable setting the plugin declares; the workbench shows
/// them in the per-plugin settings dialog.
#[derive(Debug, Clone)]
pub struct PluginSetting {
    /// Setting id (must be stable; the host stores values keyed on it).
    pub id: String,
    /// Display name shown next to the input.
    pub name: String,
    /// Description rendered as helper text.
    pub description: String,
    /// Type marker: `string` / `int` / `bool` / `select` (with `options`).
    pub kind: String,
    /// Default value as a string (the host parses it by `kind`).
    pub default: String,
    /// For a `select` setting: the choice list.
    pub options: Vec<String>,
}

impl Default for PluginSetting {
    fn default() -> (r: Self)
        ensures
            r.id@ == Seq::<char>::empty(),
            r.name@ == Seq::<char>::empty(),
            r.description@ == Seq::<char>::empty(),
            r.kind@ == Seq::<char>::empty(),
            r.default@ == Seq::<char>::empty(),
            r.options@ == Seq::<String>::empty(),
    {
        PluginSetting {
            id: String::new(),
            name: String::new(),
            description: String::new(),
            kind: String::new(),
            default: String::new(),
            options: Vec::new(),
        }
    }
}

/// The wire shapes of a list of strings.
pub open spec fn strings_json(ss: Seq<String>) -> Seq<Json> {
    Seq::new(ss.len(), |i: int| Json::Str(ss[i]@))
}

/// The wire shape of a setting: `options` is left out when empty.
pub open spec fn setting_json(s: PluginSetting) -> Json {
    Json::Object(
        seq![
            ("id"@, Json::Str(s.id@)),
            ("name"@, Json::Str(s.name@)),
            ("description"@, Json::Str(s.description@)),
            ("type"@, Json::Str(s.kind@)),
            ("default"@, Json::Str(s.default@)),
        ] + if s.options@.len() == 0 {
            Seq::empty()
        } else {
            seq![("options"@, Json::Array(strings_json(s.options@)))]
        },
    )
}

/// The JSON array of the strings `ss`.
pub fn strings_to_json(ss: &Vec<String>) -> (r: JsonValue)
    ensures
        r@ == Json::Array(strings_json(ss@)),
{
    let mut items: Vec<JsonValue> = Vec::new();
    proof {
        lemma_no_items(items);
    }
    let mut i: usize = 0;
    while i < ss.len()
        invariant
            0 <= i <= ss@.len(),
            items_view(items@) == strings_json(ss@).take(i as int),
        decreases ss@.len() - i,
    {
        push_item(&mut items, JsonValue::String(ss[i].clone()));
        assert(strings_json(ss@).take(i + 1) =~= strings_json(ss@).take(i as int).push(Json::Str(ss@[i as int]@)));
        i += 1;
    }
    proof {
        lemma_array_view(items);
        assert(strings_json(ss@).take(ss@.len() as int) =~= strings_json(ss@));
    }
    JsonValue::Array(items)
}

impl PluginSetting {
    /// The wire shape: `id`, `name`, `description`, `type`, `default`,
    /// then `options` unless the list is empty.
    pub fn to_json(&self) -> (r: JsonValue)
        ensures
            r@ == setting_json(*self),
    {
        let mut e: Vec<(String, JsonValue)> = Vec::new();
        proof {
            lemma_no_members(e);
        }
        push_member(&mut e, "id", JsonValue::String(self.id.clone()));
        push_member(&mut e, "name", JsonValue::String(self.name.clone()));
        push_member(&mut e, "description", JsonValue::String(self.description.clone()));
        push_member(&mut e, "type", JsonValue::String(self.kind.clone()));
        push_member(&mut e, "default", JsonValue::String(self.default.clone()));
        if self.options.len() > 0 {
            push_member(&mut e, "options", strings_to_json(&self.options));
        }
        proof {
            lemma_object_view(e);
            assert(entries_view(e@) =~= match setting_json(*self) {
                Json::Object(m) => m,
                _ => Seq::empty(),
            });
        }
        JsonValue::Object(e)
    }
}


// ---- InvokeResult -------------------------------------------------

/// The models of a list of string pairs.
pub open spec fn pairs_view(v: Seq<(String, String)>) -> Seq<(Seq<char>, Seq<char>)> {
    Seq::new(v.len(), |i: int| (v[i].0@, v[i].1@))
}

/// The members of a string-to-string object, in the order given.
pub open spec fn string_pairs_json(pairs: Seq<(Seq<char>, Seq<char>)>) -> Seq<(Seq<char>, Json)> {
    Seq::new(pairs.len(), |i: int| (pairs[i].0, Json::Str(pairs[i].1)))
}

/// No pair after the one at `i` has its name.
pub open spec fn is_last_of_name<V>(pairs: Seq<(Seq<char>, V)>, i: int) -> bool {
    forall|j: int| i < j < pairs.len() ==> #[trigger] pairs[j].0 != pairs[i].0
}

/// The positions below `n` of the pairs that are the last of their name.
pub open spec fn last_positions(pairs: Seq<(Seq<char>, Seq<char>)>, n: int) -> Seq<int>
    decreases n,
{
    if n <= 0 {
        Seq::empty()
    } else if is_last_of_name(pairs, n - 1) {
        last_positions(pairs, n - 1).push(n - 1)
    } else {
        last_positions(pairs, n - 1)
    }
}

/// The pairs that no later pair of the same name overrides, in order:
/// one pair per name, holding the last value given for it.
pub open spec fn last_of_each_name(pairs: Seq<(Seq<char>, Seq<char>)>) -> Seq<(Seq<char>, Seq<char>)> {
    last_positions(pairs, pairs.len() as int).map_values(|k: int| pairs[k])
}

/// The positions `last_positions` gives are increasing, in range, and
/// each the last of its name; every last-of-its-name position below `n`
/// is among them.
pub proof fn lemma_last_positions(pairs: Seq<(Seq<char>, Seq<char>)>, n: int)
    requires
        0 <= n <= pairs.len(),
    ensures
        forall|a: int| 0 <= a < last_positions(pairs, n).len() ==> 0 <= #[trigger] last_positions(pairs, n)[a] < n
            && is_last_of_name(pairs, last_positions(pairs, n)[a]),
        forall|a: int, b: int|
            0 <= a < b < last_positions(pairs, n).len() ==> #[trigger] last_positions(pairs, n)[a]
                < #[trigger] last_positions(pairs, n)[b],
        forall|k: int| 0 <= k < n && is_last_of_name(pairs, k) ==> #[trigger] last_positions(pairs, n).contains(k),
    decreases n,
{
    if n > 0 {
        lemma_last_positions(pairs, n - 1);
        let prev = last_positions(pairs, n - 1);
        if is_last_of_name(pairs, n - 1) {
            let cur = prev.push(n - 1);
            assert forall|k: int| 0 <= k < n && is_last_of_name(pairs, k) implies #[trigger] cur.contains(k) by {
                if k == n - 1 {
                    assert(cur[cur.len() - 1] == k);
                } else {
                    assert(prev.contains(k));
                    let a = choose|a: int| 0 <= a < prev.len() && prev[a] == k;
                    assert(cur[a] == k);
                }
            }
        }
    }
}

/// Some pair at or after `i` has the name of the pair at `i` and is the
/// last of that name.
pub proof fn lemma_name_has_a_last<V>(pairs: Seq<(Seq<char>, V)>, i: int)
    requires
        0 <= i < pairs.len(),
    ensures
        exists|j: int| i <= j < pairs.len() && pairs[j].0 == pairs[i].0 && #[trigger] is_last_of_name(pairs, j),
    decreases pairs.len() - i,
{
    if !is_last_of_name(pairs, i) {
        let j = choose|j: int| #![trigger pairs[j]] i < j < pairs.len() && pairs[j].0 == pairs[i].0;
        lemma_name_has_a_last(pairs, j);
        let k = choose|k: int| j <= k < pairs.len() && pairs[k].0 == pairs[j].0 && #[trigger] is_last_of_name(pairs, k);
        assert(i <= k < pairs.len() && pairs[k].0 == pairs[i].0 && is_last_of_name(pairs, k));
    } else {
        assert(is_last_of_name(pairs, i));
    }
}

/// Metadata goes on the wire with one member per name: no two pairs
/// kept by `last_of_each_name` share a name.
pub proof fn lemma_metadata_names_unique(pairs: Seq<(Seq<char>, Seq<char>)>)
    ensures
        forall|a: int, b: int|
            0 <= a < b < last_of_each_name(pairs).len() ==> #[trigger] last_of_each_name(pairs)[a].0
                != #[trigger] last_of_each_name(pairs)[b].0,
{
    let n = pairs.len() as int;
    let pos = last_positions(pairs, n);
    let out = last_of_each_name(pairs);
    lemma_last_positions(pairs, n);
    assert forall|a: int, b: int| 0 <= a < b < out.len() implies #[trigger] out[a].0 != #[trigger] out[b].0 by {
        assert(out[a] == pairs[pos[a]]);
        assert(out[b] == pairs[pos[b]]);
        assert(pos[a] < pos[b]);
        assert(is_last_of_name(pairs, pos[a]));
        assert(pairs[pos[b]].0 != pairs[pos[a]].0);
    }
}

/// No metadata name is dropped: every name among the pairs has a member
/// in `last_of_each_name`.
pub proof fn lemma_metadata_keeps_every_name(pairs: Seq<(Seq<char>, Seq<char>)>, i: int)
    requires
        0 <= i < pairs.len(),
    ensures
        exists|a: int| 0 <= a < last_of_each_name(pairs).len() && #[trigger] last_of_each_name(pairs)[a].0 == pairs[i].0,
{
    let n = pairs.len() as int;
    let pos = last_positions(pairs, n);
    let out = last_of_each_name(pairs);
    lemma_last_positions(pairs, n);
    lemma_name_has_a_last(pairs, i);
    let j = choose|j: int| i <= j < pairs.len() && pairs[j].0 == pairs[i].0 && #[trigger] is_last_of_name(pairs, j);
    assert(pos.contains(j));
    let a = choose|a: int| 0 <= a < pos.len() && pos[a] == j;
    assert(out[a] == pairs[j]);
}

/// The value kept for a name is the last one given: the pair kept by
/// `last_of_each_name` comes at or after every pair of its name.
pub proof fn lemma_metadata_keeps_last_value(pairs: Seq<(Seq<char>, Seq<char>)>, a: int, j: int)
    requires
        0 <= a < last_of_each_name(pairs).len(),
        0 <= j < pairs.len(),
        pairs[j].0 == last_of_each_name(pairs)[a].0,
    ensures
        exists|k: int| j <= k < pairs.len() && #[trigger] pairs[k] == last_of_each_name(pairs)[a],
{
    let n = pairs.len() as int;
    let pos = last_positions(pairs, n);
    let out = last_of_each_name(pairs);
    lemma_last_positions(pairs, n);
    let k = pos[a];
    assert(out[a] == pairs[k]);
    assert(is_last_of_name(pairs, k));
    if j > k {
        assert(pairs[j].0 != pairs[k].0);
    }
    assert(pairs[k] == out[a]);
}

/// The JSON number for an `i64`, as the wire writes it.
pub open spec fn i64_json(d: i64) -> Json {
    if d >= 0 {
        Json::Number(JsonNumberView::PosInt(d as u64))
    } else {
        Json::Number(JsonNumberView::NegInt(d))
    }
}

/// The JSON number for `d`.
pub fn i64_to_json(d: i64) -> (r: JsonValue)
    ensures
        r@ == i64_json(d),
{
    if d >= 0 {
        JsonValue::Number(JsonNumber::PosInt(d as u64))
    } else {
        JsonValue::Number(JsonNumber::NegInt(d))
    }
}

/// The JSON object of the name/value pairs `pairs`, one member per
/// name: a later pair overrides an earlier pair of the same name, and
/// members keep the order of the pairs that stay.
pub fn string_pairs_to_json(pairs: &Vec<(String, String)>) -> (r: JsonValue)
    ensures
        r@ == Json::Object(string_pairs_json(last_of_each_name(pairs_view(pairs@)))),
{
    let ghost pv = pairs_view(pairs@);
    let n = pairs.len();
    let mut e: Vec<(String, JsonValue)> = Vec::new();
    proof {
        lemma_no_members(e);
        assert(string_pairs_json(last_positions(pv, 0).map_values(|k: int| pv[k])) =~= Seq::<(Seq<char>, Json)>::empty());
    }
    let mut i: usize = 0;
    while i < n
        invariant
            n == pairs@.len(),
            pv == pairs_view(pairs@),
            0 <= i <= n,
            entries_view(e@) == string_pairs_json(last_positions(pv, i as int).map_values(|k: int| pv[k])),
        decreases n - i,
    {
        let mut last = true;
        let mut j: usize = i + 1;
        while j < n
            invariant
                n == pairs@.len(),
                pv == pairs_view(pairs@),
                i < n,
                i + 1 <= j <= n,
                last == (forall|m: int| i < m < j ==> #[trigger] pv[m].0 != pv[i as int].0),
            decreases n - j,
        {
            let same = pairs[j].0 == pairs[i].0;
            proof {
                assert(pv[j as int].0 == pairs@[j as int].0@);
                assert(pv[i as int].0 == pairs@[i as int].0@);
            }
            if same {
                last = false;
            }
            j += 1;
        }
        assert(last == is_last_of_name(pv, i as int));
        let ghost before = last_positions(pv, i as int).map_values(|k: int| pv[k]);
        if last {
            let (k, v) = &pairs[i];
            push_member(&mut e, k.as_str(), JsonValue::String(v.clone()));
            assert(last_positions(pv, i + 1).map_values(|k: int| pv[k]) =~= before.push(pv[i as int]));
            assert(string_pairs_json(before.push(pv[i as int])) =~= string_pairs_json(before).push(
                (pv[i as int].0, Json::Str(pv[i as int].1)),
            ));
        } else {
            assert(last_positions(pv, i + 1).map_values(|k: int| pv[k]) =~= before);
        }
        i += 1;
    }
    proof {
        lemma_object_view(e);
    }
    JsonValue::Object(e)
}

/// The result a plugin returns from an `invoke` call.
#[derive(Debug, Clone)]
pub struct InvokeResult {
    /// JSON body the workbench renders as the response.
    pub response: Option<String>,
    /// Status string (`OK`, `Error`, `connect:invalid_argument`, ...).
    pub status: String,
    /// Wall-clock duration in milliseconds; the SDK fills in 0 and the
    /// host derives its own latency from the wire arrival time.
    pub duration_ms: i64,
    /// Free-form metadata (headers, gRPC trailers, &c) as name/value
    /// pairs; on the wire each name appears once, with the last value
    /// given for it.
    pub metadata: Vec<(String, String)>,
}

impl Default for InvokeResult {
    fn default() -> (r: Self)
        ensures
            r.response is None,
            r.status@ == Seq::<char>::empty(),
            r.duration_ms == 0,
            r.metadata@ == Seq::<(String, String)>::empty(),
    {
        InvokeResult { response: None, status: String::new(), duration_ms: 0, metadata: Vec::new() }
    }
}

/// The wire shape of an invoke result: `response` only when present.
pub open spec fn invoke_result_json(r: InvokeResult) -> Json {
    Json::Object(
        opt_str_member("response"@, r.response) + seq![
            ("status"@, Json::Str(r.status@)),
            ("durationMs"@, i64_json(r.duration_ms)),
            ("metadata"@, Json::Object(string_pairs_json(last_of_each_name(pairs_view(r.metadata@))))),
        ],
    )
}

impl InvokeResult {
    /// Success result with a JSON response body: status `OK`, duration
    /// 0, no metadata.
    pub fn ok(response: &str) -> (r: Self)
        ensures
            r.response matches Some(b) && b@ == response@,
            r.status@ == "OK"@,
            r.duration_ms == 0,
            r.metadata@ == Seq::<(String, String)>::empty(),
    {
        InvokeResult {
            response: Some(response.to_owned()),
            status: "OK".to_owned(),
            duration_ms: 0,
            metadata: Vec::new(),
        }
    }

    /// Error result with a status string and an optional response body:
    /// duration 0, no metadata.
    pub fn err(status: &str, message: Option<String>) -> (r: Self)
        ensures
            r.response == message,
            r.status@ == status@,
            r.duration_ms == 0,
            r.metadata@ == Seq::<(String, String)>::empty(),
    {
        InvokeResult { response: message, status: status.to_owned(), duration_ms: 0, metadata: Vec::new() }
    }

    /// The wire shape: `response` (when present), `status`,
    /// `durationMs`, `metadata`.
    pub fn to_json(&self) -> (r: JsonValue)
        ensures
            r@ == invoke_result_json(*self),
    {
        let mut e: Vec<(String, JsonValue)> = Vec::new();
        proof {
            lemma_no_members(e);
        }
        push_opt_string(&mut e, "response", &self.response);
        push_member(&mut e, "status", JsonValue::String(self.status.clone()));
        push_member(&mut e, "durationMs", i64_to_json(self.duration_ms));
        push_member(&mut e, "metadata", string_pairs_to_json(&self.metadata));
        proof {
            lemma_object_view(e);
            assert(entries_view(e@) =~= match invoke_result_json(*self) {
                Json::Object(m) => m,
                _ => Seq::empty(),
            });
        }
        JsonValue::Object(e)
    }
}

} // verus!
