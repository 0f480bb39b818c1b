//! Reading the data models back from JSON, as a struct decoder does: an
//! object gives each field by its wire name (a field given twice is an
//! error, members the model has no field for are ignored, and an absent
//! or `null` optional field is `None`); an array gives the fields in
//! order, one item per field.
use vstd::prelude::*;

use crate::dispatch::{string_members, string_members_of, strings_view};
use crate::json::{entries_view, entry_lookup, items_view, lemma_array_view, lemma_object_view, Json, JsonNumberView, JsonValue};
use crate::jsonrpc::{at_most_once, opt_view, Request};
use crate::models::{FieldInfo, InvokeResult, MessageInfo, MethodInfo, MethodType, PluginSetting, ServiceInfo, pairs_view};
use crate::plugin::Capabilities;

verus! {

/// The models of a list of field names.
pub open spec fn names_view(names: Seq<&str>) -> Seq<Seq<char>> {
    Seq::new(names.len(), |i: int| names[i]@)
}

/// The models of a list of optional values.
pub open spec fn slots_view(v: Seq<Option<JsonValue>>) -> Seq<Option<Json>> {
    Seq::new(v.len(), |i: int| opt_view(v[i]))
}

/// What a struct with the fields `names` reads from `j`, field by field
/// (`None` for a field an object leaves out); nothing when `j` has no
/// struct shape: an object that gives a field twice, an array with another
/// number of items than fields, or any other value.
pub open spec fn struct_slots(j: Json, names: Seq<Seq<char>>) -> Option<Seq<Option<Json>>> {
    match j {
        Json::Object(e) => if forall|i: int| 0 <= i < names.len() ==> #[trigger] at_most_once(e, names[i]) {
            Some(Seq::new(names.len(), |i: int| entry_lookup(e, names[i])))
        } else {
            None
        },
        Json::Array(items) => if items.len() == names.len() {
            Some(Seq::new(names.len(), |i: int| Some(items[i])))
        } else {
            None
        },
        _ => None,
    }
}

/// The fields a struct with the fields `names` reads from `j`.
fn read_slots(j: &JsonValue, names: &Vec<&str>) -> (r: Option<Vec<Option<JsonValue>>>)
    ensures
        match r {
            Some(v) => struct_slots(j@, names_view(names@)) == Some(slots_view(v@)) && v@.len() == names@.len(),
            None => struct_slots(j@, names_view(names@)) is None,
        },
{
    let ghost nv = names_view(names@);
    match j {
        JsonValue::Object(entries) => {
            proof {
                crate::json::lemma_object_view(*entries);
            }
            let mut out: Vec<Option<JsonValue>> = Vec::new();
            let mut i: usize = 0;
            while i < names.len()
                invariant
                    0 <= i <= names@.len(),
                    nv == names_view(names@),
                    j@ == Json::Object(crate::json::entries_view(entries@)),
                    out@.len() == i,
                    forall|m: int| 0 <= m < i ==> #[trigger] at_most_once(crate::json::entries_view(entries@), nv[m]),
                    forall|m: int| 0 <= m < i ==> #[trigger] slots_view(out@)[m] == entry_lookup(crate::json::entries_view(entries@), nv[m]),
                decreases names@.len() - i,
            {
                if !Request::given_at_most_once(entries, names[i]) {
                    assert(!at_most_once(crate::json::entries_view(entries@), nv[i as int]));
                    return None;
                }
                let slot = match j.get(names[i]) {
                    Some(v) => Some(v.copy()),
                    None => None,
                };
                assert(nv[i as int] == names@[i as int]@);
                assert(slots_view(seq![slot])[0] == entry_lookup(crate::json::entries_view(entries@), nv[i as int]));
                let ghost before = out@;
                out.push(slot);
                proof {
                    assert forall|m: int| 0 <= m < i + 1 implies #[trigger] slots_view(out@)[m] == entry_lookup(
                        crate::json::entries_view(entries@),
                        nv[m],
                    ) by {
                        if m < i {
                            assert(out@[m] == before[m]);
                            assert(slots_view(before)[m] == entry_lookup(crate::json::entries_view(entries@), nv[m]));
                        } else {
                            assert(out@[m] == slot);
                        }
                    }
                }
                i += 1;
            }
            assert(slots_view(out@) =~= Seq::new(nv.len(), |m: int| entry_lookup(crate::json::entries_view(entries@), nv[m])));
            Some(out)
        },
        JsonValue::Array(items) => {
            proof {
                crate::json::lemma_array_view(*items);
            }
            if items.len() != names.len() {
                return None;
            }
            let mut out: Vec<Option<JsonValue>> = Vec::new();
            let mut i: usize = 0;
            while i < items.len()
                invariant
                    0 <= i <= items@.len(),
                    items@.len() == names@.len(),
                    nv == names_view(names@),
                    j@ == Json::Array(crate::json::items_view(items@)),
                    out@.len() == i,
                    forall|m: int| 0 <= m < i ==> #[trigger] slots_view(out@)[m] == Some(crate::json::items_view(items@)[m]),
                decreases items@.len() - i,
            {
                let ghost before = out@;
                let item = items[i].copy();
                assert(crate::json::items_view(items@)[i as int] == items@[i as int]@);
                out.push(Some(item));
                proof {
                    assert forall|m: int| 0 <= m < i + 1 implies #[trigger] slots_view(out@)[m] == Some(
                        crate::json::items_view(items@)[m],
                    ) by {
                        if m < i {
                            assert(out@[m] == before[m]);
                            assert(slots_view(before)[m] == Some(crate::json::items_view(items@)[m]));
                        } else {
                            assert(out@[m] == Some(item));
                        }
                    }
                }
                i += 1;
            }
            assert(slots_view(out@) =~= Seq::new(nv.len(), |m: int| Some(crate::json::items_view(items@)[m])));
            Some(out)
        },
        _ => None,
    }
}

// ---- fields -------------------------------------------------------

/// A required string field.
pub open spec fn read_str(slot: Option<Json>) -> Option<Seq<char>> {
    match slot {
        Some(Json::Str(s)) => Some(s),
        _ => None,
    }
}

/// An optional string field: absent or `null` is `None`.
pub open spec fn read_opt_str(slot: Option<Json>) -> Option<Option<Seq<char>>> {
    match slot {
        None => Some(None),
        Some(Json::Null) => Some(None),
        Some(Json::Str(s)) => Some(Some(s)),
        _ => None,
    }
}

/// A required boolean field.
pub open spec fn read_bool(slot: Option<Json>) -> Option<bool> {
    match slot {
        Some(Json::Bool(b)) => Some(b),
        _ => None,
    }
}

/// A required `i64` field: an integer in the `i64` range.
pub open spec fn read_i64(slot: Option<Json>) -> Option<i64> {
    match slot {
        Some(Json::Number(JsonNumberView::PosInt(u))) => if u <= i64::MAX as u64 {
            Some(u as i64)
        } else {
            None
        },
        Some(Json::Number(JsonNumberView::NegInt(i))) => Some(i),
        _ => None,
    }
}

/// The model of an optional string.
pub open spec fn opt_text(o: Option<String>) -> Option<Seq<char>> {
    match o {
        Some(s) => Some(s@),
        None => None,
    }
}

fn take_str(slot: &Option<JsonValue>) -> (r: Option<String>)
    ensures
        match r {
            Some(s) => read_str(opt_view(*slot)) == Some(s@),
            None => read_str(opt_view(*slot)) is None,
        },
{
    match slot {
        Some(JsonValue::String(s)) => Some(s.clone()),
        _ => None,
    }
}

fn take_opt_str(slot: &Option<JsonValue>) -> (r: Option<Option<String>>)
    ensures
        match r {
            Some(o) => read_opt_str(opt_view(*slot)) == Some(opt_text(o)),
            None => read_opt_str(opt_view(*slot)) is None,
        },
{
    match slot {
        None => Some(None),
        Some(JsonValue::Null) => Some(None),
        Some(JsonValue::String(s)) => Some(Some(s.clone())),
        _ => None,
    }
}

fn take_bool(slot: &Option<JsonValue>) -> (r: Option<bool>)
    ensures
        r == read_bool(opt_view(*slot)),
{
    match slot {
        Some(JsonValue::Bool(b)) => Some(*b),
        _ => None,
    }
}

fn take_i64(slot: &Option<JsonValue>) -> (r: Option<i64>)
    ensures
        r == read_i64(opt_view(*slot)),
{
    match slot {
        Some(JsonValue::Number(crate::json::JsonNumber::PosInt(u))) => {
            if *u <= i64::MAX as u64 {
                Some(*u as i64)
            } else {
                None
            }
        },
        Some(JsonValue::Number(crate::json::JsonNumber::NegInt(i))) => Some(*i),
        _ => None,
    }
}

// ---- lists and maps -----------------------------------------------

/// A list-of-strings field: an array of strings.
pub open spec fn read_strings(slot: Option<Json>) -> Option<Seq<Seq<char>>> {
    match slot {
        Some(Json::Array(items)) => if forall|i: int| 0 <= i < items.len() ==> #[trigger] items[i] is Str {
            Some(Seq::new(items.len(), |i: int| items[i]->Str_0))
        } else {
            None
        },
        _ => None,
    }
}

fn take_strings(slot: &Option<JsonValue>) -> (r: Option<Vec<String>>)
    ensures
        match r {
            Some(v) => read_strings(opt_view(*slot)) == Some(strings_view(v@)),
            None => read_strings(opt_view(*slot)) is None,
        },
{
    match slot {
        Some(JsonValue::Array(items)) => {
            proof {
                lemma_array_view(*items);
            }
            let ghost iv = items_view(items@);
            let mut out: Vec<String> = Vec::new();
            let mut i: usize = 0;
            while i < items.len()
                invariant
                    0 <= i <= items@.len(),
                    iv == items_view(items@),
                    opt_view(*slot) == Some(Json::Array(iv)),
                    out@.len() == i,
                    forall|m: int| 0 <= m < i ==> (#[trigger] iv[m] is Str) && iv[m]->Str_0 == out@[m]@,
                decreases items@.len() - i,
            {
                assert(iv[i as int] == items@[i as int]@);
                match &items[i] {
                    JsonValue::String(t) => {
                        out.push(t.clone());
                    },
                    _ => {
                        assert(!(iv[i as int] is Str));
                        return None;
                    },
                }
                i += 1;
            }
            assert(strings_view(out@) =~= Seq::new(iv.len(), |m: int| iv[m]->Str_0));
            Some(out)
        },
        _ => None,
    }
}

/// A string-to-string map field: an object whose members are all
/// strings, read as a map (a later member of a name overrides an earlier
/// one).
pub open spec fn read_string_map(slot: Option<Json>) -> Option<Seq<(Seq<char>, Seq<char>)>> {
    match slot {
        Some(Json::Object(e)) => if forall|i: int| 0 <= i < e.len() ==> #[trigger] e[i].1 is Str {
            Some(string_members(e))
        } else {
            None
        },
        _ => None,
    }
}

fn take_string_map(slot: &Option<JsonValue>) -> (r: Option<Vec<(String, String)>>)
    ensures
        match r {
            Some(v) => read_string_map(opt_view(*slot)) == Some(pairs_view(v@)),
            None => read_string_map(opt_view(*slot)) is None,
        },
{
    match slot {
        Some(JsonValue::Object(entries)) => {
            proof {
                lemma_object_view(*entries);
            }
            let ghost ev = entries_view(entries@);
            let mut i: usize = 0;
            while i < entries.len()
                invariant
                    0 <= i <= entries@.len(),
                    ev == entries_view(entries@),
                    opt_view(*slot) == Some(Json::Object(ev)),
                    forall|m: int| 0 <= m < i ==> #[trigger] ev[m].1 is Str,
                decreases entries@.len() - i,
            {
                assert(ev[i as int].1 == entries@[i as int].1@);
                match &entries[i].1 {
                    JsonValue::String(_) => {},
                    _ => {
                        assert(!(ev[i as int].1 is Str));
                        return None;
                    },
                }
                i += 1;
            }
            Some(string_members_of(entries))
        },
        _ => None,
    }
}

// ---- FieldInfo ----------------------------------------------------

/// The wire names of a field's fields, in declaration order.
pub open spec fn field_names() -> Seq<Seq<char>> {
    seq!["name"@, "type"@, "required"@, "description"@, "source"@]
}

/// `j` decodes to a field.
pub open spec fn field_decodes(j: Json) -> bool {
    match struct_slots(j, field_names()) {
        Some(s) => read_str(s[0]) is Some && read_str(s[1]) is Some && read_bool(s[2]) is Some && read_opt_str(
            s[3],
        ) is Some && read_opt_str(s[4]) is Some,
        None => false,
    }
}

/// `f` is the field `j` decodes to.
pub open spec fn field_reads(j: Json, f: FieldInfo) -> bool {
    match struct_slots(j, field_names()) {
        Some(s) => read_str(s[0]) == Some(f.name@) && read_str(s[1]) == Some(f.kind@) && read_bool(s[2]) == Some(
            f.required,
        ) && read_opt_str(s[3]) == Some(opt_text(f.description)) && read_opt_str(s[4]) == Some(
            opt_text(f.source),
        ),
        None => false,
    }
}

impl FieldInfo {
    /// The field a JSON document holds; `None` when it holds none.
    pub fn from_json(j: &JsonValue) -> (r: Option<FieldInfo>)
        ensures
            match r {
                Some(f) => field_reads(j@, f),
                None => !field_decodes(j@),
            },
    {
        let names = vec!["name", "type", "required", "description", "source"];
        assert(names_view(names@) =~= field_names());
        let s = match read_slots(j, &names) {
            Some(s) => s,
            None => return None,
        };
        let name = match take_str(&s[0]) {
            Some(x) => x,
            None => return None,
        };
        let kind = match take_str(&s[1]) {
            Some(x) => x,
            None => return None,
        };
        let required = match take_bool(&s[2]) {
            Some(x) => x,
            None => return None,
        };
        let description = match take_opt_str(&s[3]) {
            Some(x) => x,
            None => return None,
        };
        let source = match take_opt_str(&s[4]) {
            Some(x) => x,
            None => return None,
        };
        Some(FieldInfo { name, kind, required, description, source })
    }
}

/// A list-of-fields field decodes: an array of fields.
pub open spec fn fields_decode(slot: Option<Json>) -> bool {
    match slot {
        Some(Json::Array(items)) => all_fields_decode(items),
        _ => false,
    }
}

/// Every item decodes to a field.
pub open spec fn all_fields_decode(items: Seq<Json>) -> bool {
    forall|i: int| 0 <= i < items.len() ==> field_decodes(#[trigger] items[i])
}

/// `fs` are the fields a list-of-fields field reads.
pub open spec fn fields_read(slot: Option<Json>, fs: Seq<FieldInfo>) -> bool {
    match slot {
        Some(Json::Array(items)) => items.len() == fs.len() && forall|i: int|
            0 <= i < items.len() ==> field_reads(#[trigger] items[i], fs[i]),
        _ => false,
    }
}

proof fn lemma_fields_fail(items: Seq<Json>, i: int)
    requires
        0 <= i < items.len(),
        !field_decodes(items[i]),
    ensures
        !all_fields_decode(items),
{
    assert(!field_decodes(items[i]));
}

fn take_fields(slot: &Option<JsonValue>) -> (r: Option<Vec<FieldInfo>>)
    ensures
        match r {
            Some(v) => fields_read(opt_view(*slot), v@),
            None => !fields_decode(opt_view(*slot)),
        },
{
    match slot {
        Some(JsonValue::Array(items)) => {
            proof {
                lemma_array_view(*items);
            }
            let ghost iv = items_view(items@);
            let mut out: Vec<FieldInfo> = Vec::new();
            let mut i: usize = 0;
            while i < items.len()
                invariant
                    0 <= i <= items@.len(),
                    iv == items_view(items@),
                    opt_view(*slot) == Some(Json::Array(iv)),
                    out@.len() == i,
                    forall|m: int| 0 <= m < i ==> field_reads(#[trigger] iv[m], out@[m]),
                decreases items@.len() - i,
            {
                assert(iv[i as int] == items@[i as int]@);
                match FieldInfo::from_json(&items[i]) {
                    Some(f) => {
                        out.push(f);
                    },
                    None => {
                        proof {
                            lemma_fields_fail(iv, i as int);
                        }
                        return None;
                    },
                }
                i += 1;
            }
            Some(out)
        },
        _ => None,
    }
}

// ---- MessageInfo --------------------------------------------------

/// The wire names of a message's fields.
pub open spec fn message_names() -> Seq<Seq<char>> {
    seq!["name"@, "fullName"@, "fields"@]
}

/// `j` decodes to a message.
pub open spec fn message_decodes(j: Json) -> bool {
    match struct_slots(j, message_names()) {
        Some(s) => read_str(s[0]) is Some && read_str(s[1]) is Some && fields_decode(s[2]),
        None => false,
    }
}

/// `m` is the message `j` decodes to.
pub open spec fn message_reads(j: Json, m: MessageInfo) -> bool {
    match struct_slots(j, message_names()) {
        Some(s) => read_str(s[0]) == Some(m.name@) && read_str(s[1]) == Some(m.full_name@) && fields_read(
            s[2],
            m.fields@,
        ),
        None => false,
    }
}

impl MessageInfo {
    /// The message a JSON document holds; `None` when it holds none.
    pub fn from_json(j: &JsonValue) -> (r: Option<MessageInfo>)
        ensures
            match r {
                Some(m) => message_reads(j@, m),
                None => !message_decodes(j@),
            },
    {
        let names = vec!["name", "fullName", "fields"];
        assert(names_view(names@) =~= message_names());
        let s = match read_slots(j, &names) {
            Some(s) => s,
            None => return None,
        };
        let name = match take_str(&s[0]) {
            Some(x) => x,
            None => return None,
        };
        let full_name = match take_str(&s[1]) {
            Some(x) => x,
            None => return None,
        };
        let fields = match take_fields(&s[2]) {
            Some(x) => x,
            None => return None,
        };
        Some(MessageInfo { name, full_name, fields })
    }
}

/// An optional message field decodes: absent, `null`, or a message.
pub open spec fn opt_message_decodes(slot: Option<Json>) -> bool {
    match slot {
        None => true,
        Some(Json::Null) => true,
        Some(j) => message_decodes(j),
    }
}

/// `m` is what an optional message field reads.
pub open spec fn opt_message_reads(slot: Option<Json>, m: Option<MessageInfo>) -> bool {
    match slot {
        None => m is None,
        Some(Json::Null) => m is None,
        Some(j) => m matches Some(x) && message_reads(j, x),
    }
}

fn take_opt_message(slot: &Option<JsonValue>) -> (r: Option<Option<MessageInfo>>)
    ensures
        match r {
            Some(m) => opt_message_reads(opt_view(*slot), m),
            None => !opt_message_decodes(opt_view(*slot)),
        },
{
    match slot {
        None => Some(None),
        Some(JsonValue::Null) => Some(None),
        Some(j) => match MessageInfo::from_json(j) {
            Some(m) => Some(Some(m)),
            None => None,
        },
    }
}

// ---- MethodType ---------------------------------------------------

/// The cardinality a variant name names.
pub open spec fn method_type_named(n: Seq<char>) -> Option<MethodType> {
    if n == "Unary"@ {
        Some(MethodType::Unary)
    } else if n == "ServerStreaming"@ {
        Some(MethodType::ServerStreaming)
    } else if n == "ClientStreaming"@ {
        Some(MethodType::ClientStreaming)
    } else if n == "Duplex"@ {
        Some(MethodType::Duplex)
    } else {
        None
    }
}

/// A cardinality field: the variant's name, or an object with the
/// variant's name as its one member and `null` as its value.
pub open spec fn read_method_type(slot: Option<Json>) -> Option<MethodType> {
    match slot {
        Some(Json::Str(n)) => method_type_named(n),
        Some(Json::Object(e)) => if e.len() == 1 && e[0].1 is Null {
            method_type_named(e[0].0)
        } else {
            None
        },
        _ => None,
    }
}

fn same_text(a: &String, b: &str) -> (r: bool)
    ensures
        r == (a@ == b@),
{
    let t = b.to_owned();
    *a == t
}

fn method_type_by_name(n: &String) -> (r: Option<MethodType>)
    ensures
        r == method_type_named(n@),
{
    if same_text(n, "Unary") {
        Some(MethodType::Unary)
    } else if same_text(n, "ServerStreaming") {
        Some(MethodType::ServerStreaming)
    } else if same_text(n, "ClientStreaming") {
        Some(MethodType::ClientStreaming)
    } else if same_text(n, "Duplex") {
        Some(MethodType::Duplex)
    } else {
        None
    }
}

impl MethodType {
    /// The cardinality a JSON document holds; `None` when it holds none.
    pub fn from_json(j: &JsonValue) -> (r: Option<MethodType>)
        ensures
            r == read_method_type(Some(j@)),
    {
        match j {
            JsonValue::String(n) => method_type_by_name(n),
            JsonValue::Object(entries) => {
                proof {
                    lemma_object_view(*entries);
                }
                if entries.len() == 1 {
                    assert(entries_view(entries@)[0] == (entries@[0].0@, entries@[0].1@));
                    match &entries[0].1 {
                        JsonValue::Null => method_type_by_name(&entries[0].0),
                        _ => None,
                    }
                } else {
                    None
                }
            },
            _ => None,
        }
    }
}

fn take_method_type(slot: &Option<JsonValue>) -> (r: Option<MethodType>)
    ensures
        r == read_method_type(opt_view(*slot)),
{
    match slot {
        Some(j) => MethodType::from_json(j),
        None => None,
    }
}

// ---- MethodInfo ---------------------------------------------------

/// The wire names of a method's fields.
pub open spec fn method_names() -> Seq<Seq<char>> {
    seq![
        "name"@,
        "fullName"@,
        "clientStreaming"@,
        "serverStreaming"@,
        "methodType"@,
        "inputType"@,
        "outputType"@,
        "httpMethod"@,
        "httpPath"@,
        "summary"@,
    ]
}

/// `j` decodes to a method.
pub open spec fn method_decodes(j: Json) -> bool {
    match struct_slots(j, method_names()) {
        Some(s) => {
            &&& read_str(s[0]) is Some
            &&& read_str(s[1]) is Some
            &&& read_bool(s[2]) is Some
            &&& read_bool(s[3]) is Some
            &&& read_method_type(s[4]) is Some
            &&& opt_message_decodes(s[5])
            &&& opt_message_decodes(s[6])
            &&& read_opt_str(s[7]) is Some
            &&& read_opt_str(s[8]) is Some
            &&& read_opt_str(s[9]) is Some
        },
        None => false,
    }
}

/// `m` is the method `j` decodes to.
pub open spec fn method_reads(j: Json, m: MethodInfo) -> bool {
    match struct_slots(j, method_names()) {
        Some(s) => {
            &&& read_str(s[0]) == Some(m.name@)
            &&& read_str(s[1]) == Some(m.full_name@)
            &&& read_bool(s[2]) == Some(m.client_streaming)
            &&& read_bool(s[3]) == Some(m.server_streaming)
            &&& read_method_type(s[4]) == Some(m.method_type)
            &&& opt_message_reads(s[5], m.input_type)
            &&& opt_message_reads(s[6], m.output_type)
            &&& read_opt_str(s[7]) == Some(opt_text(m.http_method))
            &&& read_opt_str(s[8]) == Some(opt_text(m.http_path))
            &&& read_opt_str(s[9]) == Some(opt_text(m.summary))
        },
        None => false,
    }
}

impl MethodInfo {
    /// The method a JSON document holds; `None` when it holds none.
    pub fn from_json(j: &JsonValue) -> (r: Option<MethodInfo>)
        ensures
            match r {
                Some(m) => method_reads(j@, m),
                None => !method_decodes(j@),
            },
    {
        let names = vec![
            "name",
            "fullName",
            "clientStreaming",
            "serverStreaming",
            "methodType",
            "inputType",
            "outputType",
            "httpMethod",
            "httpPath",
            "summary",
        ];
        assert(names_view(names@) =~= method_names());
        let s = match read_slots(j, &names) {
            Some(s) => s,
            None => return None,
        };
        let name = match take_str(&s[0]) {
            Some(x) => x,
            None => return None,
        };
        let full_name = match take_str(&s[1]) {
            Some(x) => x,
            None => return None,
        };
        let client_streaming = match take_bool(&s[2]) {
            Some(x) => x,
            None => return None,
        };
        let server_streaming = match take_bool(&s[3]) {
            Some(x) => x,
            None => return None,
        };
        let method_type = match take_method_type(&s[4]) {
            Some(x) => x,
            None => return None,
        };
        let input_type = match take_opt_message(&s[5]) {
            Some(x) => x,
            None => return None,
        };
        let output_type = match take_opt_message(&s[6]) {
            Some(x) => x,
            None => return None,
        };
        let http_method = match take_opt_str(&s[7]) {
            Some(x) => x,
            None => return None,
        };
        let http_path = match take_opt_str(&s[8]) {
            Some(x) => x,
            None => return None,
        };
        let summary = match take_opt_str(&s[9]) {
            Some(x) => x,
            None => return None,
        };
        Some(
            MethodInfo {
                name,
                full_name,
                client_streaming,
                server_streaming,
                method_type,
                input_type,
                output_type,
                http_method,
                http_path,
                summary,
            },
        )
    }
}

/// A list-of-methods field decodes: an array of methods.
pub open spec fn methods_decode(slot: Option<Json>) -> bool {
    match slot {
        Some(Json::Array(items)) => all_methods_decode(items),
        _ => false,
    }
}

/// Every item decodes to a method.
pub open spec fn all_methods_decode(items: Seq<Json>) -> bool {
    forall|i: int| 0 <= i < items.len() ==> method_decodes(#[trigger] items[i])
}

/// `ms` are the methods a list-of-methods field reads.
pub open spec fn methods_read(slot: Option<Json>, ms: Seq<MethodInfo>) -> bool {
    match slot {
        Some(Json::Array(items)) => items.len() == ms.len() && forall|i: int|
            0 <= i < items.len() ==> method_reads(#[trigger] items[i], ms[i]),
        _ => false,
    }
}

proof fn lemma_methods_fail(items: Seq<Json>, i: int)
    requires
        0 <= i < items.len(),
        !method_decodes(items[i]),
    ensures
        !all_methods_decode(items),
{
    assert(!method_decodes(items[i]));
}

fn take_methods(slot: &Option<JsonValue>) -> (r: Option<Vec<MethodInfo>>)
    ensures
        match r {
            Some(v) => methods_read(opt_view(*slot), v@),
            None => !methods_decode(opt_view(*slot)),
        },
{
    match slot {
        Some(JsonValue::Array(items)) => {
            proof {
                lemma_array_view(*items);
            }
            let ghost iv = items_view(items@);
            let mut out: Vec<MethodInfo> = Vec::new();
            let mut i: usize = 0;
            while i < items.len()
                invariant
                    0 <= i <= items@.len(),
                    iv == items_view(items@),
                    opt_view(*slot) == Some(Json::Array(iv)),
                    out@.len() == i,
                    forall|m: int| 0 <= m < i ==> method_reads(#[trigger] iv[m], out@[m]),
                decreases items@.len() - i,
            {
                assert(iv[i as int] == items@[i as int]@);
                match MethodInfo::from_json(&items[i]) {
                    Some(f) => {
                        out.push(f);
                    },
                    None => {
                        proof {
                            lemma_methods_fail(iv, i as int);
                        }
                        return None;
                    },
                }
                i += 1;
            }
            Some(out)
        },
        _ => None,
    }
}

// ---- ServiceInfo --------------------------------------------------

/// The wire names of a service's fields.
pub open spec fn service_names() -> Seq<Seq<char>> {
    seq!["name"@, "methods"@, "description"@, "version"@]
}

/// `j` decodes to a service.
pub open spec fn service_decodes(j: Json) -> bool {
    match struct_slots(j, service_names()) {
        Some(s) => read_str(s[0]) is Some && methods_decode(s[1]) && read_opt_str(s[2]) is Some && read_opt_str(
            s[3],
        ) is Some,
        None => false,
    }
}

/// `v` is the service `j` decodes to.
pub open spec fn service_reads(j: Json, v: ServiceInfo) -> bool {
    match struct_slots(j, service_names()) {
        Some(s) => read_str(s[0]) == Some(v.name@) && methods_read(s[1], v.methods@) && read_opt_str(s[2]) == Some(
            opt_text(v.description),
        ) && read_opt_str(s[3]) == Some(opt_text(v.version)),
        None => false,
    }
}

impl ServiceInfo {
    /// The service a JSON document holds; `None` when it holds none.
    pub fn from_json(j: &JsonValue) -> (r: Option<ServiceInfo>)
        ensures
            match r {
                Some(v) => service_reads(j@, v),
                None => !service_decodes(j@),
            },
    {
        let names = vec!["name", "methods", "description", "version"];
        assert(names_view(names@) =~= service_names());
        let s = match read_slots(j, &names) {
            Some(s) => s,
            None => return None,
        };
        let name = match take_str(&s[0]) {
            Some(x) => x,
            None => return None,
        };
        let methods = match take_methods(&s[1]) {
            Some(x) => x,
            None => return None,
        };
        let description = match take_opt_str(&s[2]) {
            Some(x) => x,
            None => return None,
        };
        let version = match take_opt_str(&s[3]) {
            Some(x) => x,
            None => return None,
        };
        Some(ServiceInfo { name, methods, description, version })
    }
}

// ---- PluginSetting ------------------------------------------------

/// The wire names of a setting's fields.
pub open spec fn setting_names() -> Seq<Seq<char>> {
    seq!["id"@, "name"@, "description"@, "type"@, "default"@, "options"@]
}

/// `j` decodes to a setting.
pub open spec fn setting_decodes(j: Json) -> bool {
    match struct_slots(j, setting_names()) {
        Some(s) => read_str(s[0]) is Some && read_str(s[1]) is Some && read_str(s[2]) is Some && read_str(s[3]) is Some
            && read_str(s[4]) is Some && read_strings(s[5]) is Some,
        None => false,
    }
}

/// `v` is the setting `j` decodes to.
pub open spec fn setting_reads(j: Json, v: PluginSetting) -> bool {
    match struct_slots(j, setting_names()) {
        Some(s) => {
            &&& read_str(s[0]) == Some(v.id@)
            &&& read_str(s[1]) == Some(v.name@)
            &&& read_str(s[2]) == Some(v.description@)
            &&& read_str(s[3]) == Some(v.kind@)
            &&& read_str(s[4]) == Some(v.default@)
            &&& read_strings(s[5]) == Some(strings_view(v.options@))
        },
        None => false,
    }
}

impl PluginSetting {
    /// The setting a JSON document holds; `None` when it holds none.
    pub fn from_json(j: &JsonValue) -> (r: Option<PluginSetting>)
        ensures
            match r {
                Some(v) => setting_reads(j@, v),
                None => !setting_decodes(j@),
            },
    {
        let names = vec!["id", "name", "description", "type", "default", "options"];
        assert(names_view(names@) =~= setting_names());
        let s = match read_slots(j, &names) {
            Some(s) => s,
            None => return None,
        };
        let id = match take_str(&s[0]) {
            Some(x) => x,
            None => return None,
        };
        let name = match take_str(&s[1]) {
            Some(x) => x,
            None => return None,
        };
        let description = match take_str(&s[2]) {
            Some(x) => x,
            None => return None,
        };
        let kind = match take_str(&s[3]) {
            Some(x) => x,
            None => return None,
        };
        let default = match take_str(&s[4]) {
            Some(x) => x,
            None => return None,
        };
        let options = match take_strings(&s[5]) {
            Some(x) => x,
            None => return None,
        };
        Some(PluginSetting { id, name, description, kind, default, options })
    }
}

// ---- InvokeResult -------------------------------------------------

/// The wire names of an invoke result's fields.
pub open spec fn invoke_result_names() -> Seq<Seq<char>> {
    seq!["response"@, "status"@, "durationMs"@, "metadata"@]
}

/// `j` decodes to an invoke result.
pub open spec fn invoke_result_decodes(j: Json) -> bool {
    match struct_slots(j, invoke_result_names()) {
        Some(s) => read_opt_str(s[0]) is Some && read_str(s[1]) is Some && read_i64(s[2]) is Some && read_string_map(
            s[3],
        ) is Some,
        None => false,
    }
}

/// `v` is the invoke result `j` decodes to; its metadata holds one pair
/// per name, with the last value the object gives for it.
pub open spec fn invoke_result_reads(j: Json, v: InvokeResult) -> bool {
    match struct_slots(j, invoke_result_names()) {
        Some(s) => read_opt_str(s[0]) == Some(opt_text(v.response)) && read_str(s[1]) == Some(v.status@) && read_i64(
            s[2],
        ) == Some(v.duration_ms) && read_string_map(s[3]) == Some(pairs_view(v.metadata@)),
        None => false,
    }
}

impl InvokeResult {
    /// The invoke result a JSON document holds; `None` when it holds none.
    pub fn from_json(j: &JsonValue) -> (r: Option<InvokeResult>)
        ensures
            match r {
                Some(v) => invoke_result_reads(j@, v),
                None => !invoke_result_decodes(j@),
            },
    {
        let names = vec!["response", "status", "durationMs", "metadata"];
        assert(names_view(names@) =~= invoke_result_names());
        let s = match read_slots(j, &names) {
            Some(s) => s,
            None => return None,
        };
        let response = match take_opt_str(&s[0]) {
            Some(x) => x,
            None => return None,
        };
        let status = match take_str(&s[1]) {
            Some(x) => x,
            None => return None,
        };
        let duration_ms = match take_i64(&s[2]) {
            Some(x) => x,
            None => return None,
        };
        let metadata = match take_string_map(&s[3]) {
            Some(x) => x,
            None => return None,
        };
        Some(InvokeResult { response, status, duration_ms, metadata })
    }
}

// ---- Capabilities -------------------------------------------------

/// The wire names of the capability flags.
pub open spec fn capabilities_names() -> Seq<Seq<char>> {
    seq!["discover"@, "invoke"@, "invokeStream"@, "channels"@]
}

/// The capabilities `j` decodes to, if any.
pub open spec fn read_capabilities(j: Json) -> Option<Capabilities> {
    match struct_slots(j, capabilities_names()) {
        Some(s) => match (read_bool(s[0]), read_bool(s[1]), read_bool(s[2]), read_bool(s[3])) {
            (Some(discover), Some(invoke), Some(invoke_stream), Some(channels)) => Some(
                Capabilities { discover, invoke, invoke_stream, channels },
            ),
            _ => None,
        },
        None => None,
    }
}

impl Capabilities {
    /// The capabilities a JSON document holds; `None` when it holds none.
    pub fn from_json(j: &JsonValue) -> (r: Option<Capabilities>)
        ensures
            r == read_capabilities(j@),
    {
        let names = vec!["discover", "invoke", "invokeStream", "channels"];
        assert(names_view(names@) =~= capabilities_names());
        let s = match read_slots(j, &names) {
            Some(s) => s,
            None => return None,
        };
        let discover = match take_bool(&s[0]) {
            Some(x) => x,
            None => return None,
        };
        let invoke = match take_bool(&s[1]) {
            Some(x) => x,
            None => return None,
        };
        let invoke_stream = match take_bool(&s[2]) {
            Some(x) => x,
            None => return None,
        };
        let channels = match take_bool(&s[3]) {
            Some(x) => x,
            None => return None,
        };
        Some(Capabilities { discover, invoke, invoke_stream, channels })
    }
}

} // verus!
