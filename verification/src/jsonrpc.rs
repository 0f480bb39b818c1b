//! JSON-RPC 2.0 envelopes: the inbound request, the response, and the
//! server-initiated notification, with their wire shapes.
use vstd::prelude::*;

use crate::json::{
    entries_view, entry_lookup, json_view, lemma_object_view, push_member, string_value, Json, JsonValue,
};
use crate::models::{i64_json, i64_to_json};

verus! {

/// The protocol version every outbound envelope carries.
pub const JSONRPC_VERSION: &'static str = "2.0";

/// The model of an optional JSON value.
pub open spec fn opt_view(o: Option<JsonValue>) -> Option<Json> {
    match o {
        Some(v) => Some(v@),
        None => None,
    }
}

/// An optional member as the envelope reads it: an explicit `null`
/// counts as absent.
pub open spec fn not_null(v: Option<Json>) -> Option<Json> {
    match v {
        Some(Json::Null) => None,
        other => other,
    }
}

/// What an inbound envelope holds: `(id, method, params)`.
pub type EnvelopeModel = (Option<Json>, Seq<char>, Option<Json>);

/// No member after one named `key` has that name too.
pub open spec fn at_most_once(e: Seq<(Seq<char>, Json)>, key: Seq<char>) -> bool {
    forall|i: int, j: int| #![trigger e[i], e[j]] 0 <= i < j < e.len() && e[i].0 == key ==> e[j].0 != key
}

/// The request a JSON document encodes, if any. An object needs a
/// string `method`; `id` and `params` are optional, and `null` counts as
/// absent; none of the three may be given twice; other members are
/// ignored. The positional form `[id, method]` or `[id, method, params]`
/// is read the same way.
pub open spec fn envelope(v: Json) -> Option<EnvelopeModel> {
    match v {
        Json::Object(e) => {
            if !(at_most_once(e, "id"@) && at_most_once(e, "method"@) && at_most_once(e, "params"@)) {
                None
            } else {
                match entry_lookup(e, "method"@) {
                    Some(Json::Str(m)) => Some(
                        (not_null(entry_lookup(e, "id"@)), m, not_null(entry_lookup(e, "params"@))),
                    ),
                    _ => None,
                }
            }
        },
        Json::Array(items) => {
            if 2 <= items.len() <= 3 && items[1] is Str {
                Some(
                    (
                        not_null(Some(items[0])),
                        items[1]->Str_0,
                        if items.len() == 3 {
                            not_null(Some(items[2]))
                        } else {
                            None
                        },
                    ),
                )
            } else {
                None
            }
        },
        _ => None,
    }
}

/// Inbound JSON-RPC envelope. `id` is `None` for notifications;
/// `params` is whatever the host sent.
#[derive(Debug)]
pub struct Request {
    /// The request id, echoed in the response.
    pub id: Option<JsonValue>,
    /// The method name.
    pub method: String,
    /// The parameters.
    pub params: Option<JsonValue>,
}

impl Request {
    /// The model of the request.
    pub open spec fn model(&self) -> EnvelopeModel {
        (opt_view(self.id), self.method@, opt_view(self.params))
    }

    /// A copy of an optional member, with `null` read as absent.
    fn optional(v: Option<&JsonValue>) -> (r: Option<JsonValue>)
        ensures
            opt_view(r) == not_null(
                match v {
                    Some(x) => Some(x@),
                    None => None,
                },
            ),
    {
        match v {
            Some(JsonValue::Null) => None,
            Some(x) => Some(x.copy()),
            None => None,
        }
    }

    /// Whether no two members of `entries` are named `key`.
    pub(crate) fn given_at_most_once(entries: &Vec<(String, JsonValue)>, key: &str) -> (r: bool)
        ensures
            r == at_most_once(entries_view(entries@), key@),
    {
        let ghost ev = entries_view(entries@);
        let k = key.to_owned();
        let mut seen = false;
        let mut i: usize = 0;
        while i < entries.len()
            invariant
                0 <= i <= entries@.len(),
                ev == entries_view(entries@),
                k@ == key@,
                seen == (exists|m: int| 0 <= m < i && #[trigger] ev[m].0 == key@),
                forall|a: int, b: int| #![trigger ev[a], ev[b]] 0 <= a < b < i && ev[a].0 == key@ ==> ev[b].0 != key@,
            decreases entries@.len() - i,
        {
            assert(ev[i as int] == (entries@[i as int].0@, json_view(entries@[i as int].1)));
            let same = entries[i].0 == k;
            assert(same == (ev[i as int].0 == key@));
            if same {
                if seen {
                    let ghost m = choose|m: int| 0 <= m < i && #[trigger] ev[m].0 == key@;
                    assert(ev[m].0 == key@ && ev[i as int].0 == key@);
                    return false;
                }
                seen = true;
            }
            assert(seen == (exists|m: int| 0 <= m < i + 1 && #[trigger] ev[m].0 == key@)) by {
                if same {
                    assert(ev[i as int].0 == key@);
                }
            }
            i += 1;
        }
        true
    }

    /// The request a decoded JSON document holds; `None` when the
    /// document is not a request envelope (see [`envelope`]).
    pub fn from_json(v: &JsonValue) -> (r: Option<Request>)
        ensures
            match r {
                Some(q) => envelope(v@) == Some(q.model()),
                None => envelope(v@) is None,
            },
    {
        match v {
            JsonValue::Object(entries) => {
                proof {
                    lemma_object_view(*entries);
                }
                if !(Self::given_at_most_once(entries, "id") && Self::given_at_most_once(entries, "method")
                    && Self::given_at_most_once(entries, "params")) {
                    return None;
                }
                let method = match v.get("method") {
                    Some(JsonValue::String(m)) => m.clone(),
                    _ => {
                        return None;
                    },
                };
                let id = Self::optional(v.get("id"));
                let params = Self::optional(v.get("params"));
                Some(Request { id, method, params })
            },
            JsonValue::Array(items) => {
                proof {
                    crate::json::lemma_array_view(*items);
                }
                if items.len() < 2 || items.len() > 3 {
                    return None;
                }
                let method = match &items[1] {
                    JsonValue::String(m) => m.clone(),
                    _ => {
                        return None;
                    },
                };
                let id = Self::optional(Some(&items[0]));
                let params = if items.len() == 3 {
                    Self::optional(Some(&items[2]))
                } else {
                    None
                };
                Some(Request { id, method, params })
            },
            _ => None,
        }
    }
}

/// The error member of a failed response.
#[derive(Debug)]
pub struct ErrorObject {
    /// JSON-RPC error code.
    pub code: i32,
    /// Human-readable description.
    pub message: String,
    /// Optional structured detail.
    pub data: Option<JsonValue>,
}

/// Outbound JSON-RPC response envelope.
#[derive(Debug)]
pub struct Response {
    /// Always `"2.0"`.
    pub jsonrpc: &'static str,
    /// The id of the request this answers.
    pub id: JsonValue,
    /// The result, on success.
    pub result: Option<JsonValue>,
    /// The error, on failure.
    pub error: Option<ErrorObject>,
}

/// The member `key: v` when the option holds `v`; nothing otherwise.
pub open spec fn opt_member(key: Seq<char>, v: Option<Json>) -> Seq<(Seq<char>, Json)> {
    match v {
        Some(x) => seq![(key, x)],
        None => Seq::empty(),
    }
}

/// The wire shape of an error member: `data` only when present.
pub open spec fn error_json(e: ErrorObject) -> Json {
    Json::Object(
        seq![("code"@, i64_json(e.code as i64)), ("message"@, Json::Str(e.message@))] + opt_member(
            "data"@,
            opt_view(e.data),
        ),
    )
}

/// The wire shape of a response: `result` and `error` only when present.
pub open spec fn response_json(r: Response) -> Json {
    Json::Object(
        seq![("jsonrpc"@, Json::Str(r.jsonrpc@)), ("id"@, r.id@)] + opt_member(
            "result"@,
            opt_view(r.result),
        ) + opt_member(
            "error"@,
            match r.error {
                Some(e) => Some(error_json(e)),
                None => None,
            },
        ),
    )
}

/// Appends `key: v` when `v` holds a value.
fn push_opt(entries: &mut Vec<(String, JsonValue)>, key: &str, v: Option<JsonValue>)
    ensures
        entries_view(final(entries)@) == entries_view(old(entries)@) + opt_member(key@, opt_view(v)),
{
    match v {
        Some(x) => {
            let ghost xv = x@;
            push_member(entries, key, x);
            assert(entries_view(final(entries)@) =~= entries_view(old(entries)@) + seq![(key@, xv)]);
        },
        None => {
            assert(entries_view(final(entries)@) =~= entries_view(old(entries)@) + opt_member(key@, None));
        },
    }
}

impl ErrorObject {
    /// The wire shape: `code`, `message`, then `data` when present.
    pub fn into_json(self) -> (r: JsonValue)
        ensures
            r@ == error_json(self),
    {
        let ghost old_self = self;
        let mut e: Vec<(String, JsonValue)> = Vec::new();
        assert(entries_view(e@) =~= Seq::<(Seq<char>, Json)>::empty());
        push_member(&mut e, "code", i64_to_json(self.code as i64));
        push_member(&mut e, "message", JsonValue::String(self.message));
        push_opt(&mut e, "data", self.data);
        proof {
            lemma_object_view(e);
            assert(entries_view(e@) =~= match error_json(old_self) {
                Json::Object(m) => m,
                _ => Seq::empty(),
            });
        }
        JsonValue::Object(e)
    }
}

impl Response {
    /// Exactly one of `result` and `error` is set: never both, never
    /// neither.
    pub open spec fn well_formed(&self) -> bool {
        self.result is Some != self.error is Some
    }

    /// A successful response carrying `result`.
    pub fn ok(id: JsonValue, result: JsonValue) -> (r: Self)
        ensures
            r.jsonrpc@ == "2.0"@,
            r.id == id,
            r.result == Some(result),
            r.error is None,
            r.well_formed(),
    {
        Response { jsonrpc: JSONRPC_VERSION, id, result: Some(result), error: None }
    }

    /// A failed response carrying the error `code` and `message`, with
    /// no data.
    pub fn err(id: JsonValue, code: i32, message: String) -> (r: Self)
        ensures
            r.jsonrpc@ == "2.0"@,
            r.id == id,
            r.result is None,
            r.error == Some(ErrorObject { code, message, data: None }),
            r.well_formed(),
    {
        Response { jsonrpc: JSONRPC_VERSION, id, result: None, error: Some(ErrorObject { code, message, data: None }) }
    }

    /// The wire shape: `jsonrpc`, `id`, then `result` and `error` when
    /// present.
    pub fn into_json(self) -> (r: JsonValue)
        ensures
            r@ == response_json(self),
    {
        let ghost old_self = self;
        let mut e: Vec<(String, JsonValue)> = Vec::new();
        assert(entries_view(e@) =~= Seq::<(Seq<char>, Json)>::empty());
        push_member(&mut e, "jsonrpc", string_value(self.jsonrpc));
        push_member(&mut e, "id", self.id);
        push_opt(&mut e, "result", self.result);
        let err = match self.error {
            Some(x) => Some(x.into_json()),
            None => None,
        };
        push_opt(&mut e, "error", err);
        proof {
            lemma_object_view(e);
            assert(entries_view(e@) =~= match response_json(old_self) {
                Json::Object(m) => m,
                _ => Seq::empty(),
            });
        }
        JsonValue::Object(e)
    }
}

/// Outbound JSON-RPC server-initiated notification: no id, no reply
/// expected. Streaming frames travel this way.
#[derive(Debug)]
pub struct Notification {
    /// Always `"2.0"`.
    pub jsonrpc: &'static str,
    /// The notification method.
    pub method: String,
    /// The parameters.
    pub params: Option<JsonValue>,
}

/// The wire shape of a notification: `params` only when present.
pub open spec fn notification_json(n: Notification) -> Json {
    Json::Object(
        seq![("jsonrpc"@, Json::Str(n.jsonrpc@)), ("method"@, Json::Str(n.method@))] + opt_member(
            "params"@,
            opt_view(n.params),
        ),
    )
}

impl Notification {
    /// The wire shape: `jsonrpc`, `method`, then `params` when present.
    pub fn into_json(self) -> (r: JsonValue)
        ensures
            r@ == notification_json(self),
    {
        let ghost old_self = self;
        let mut e: Vec<(String, JsonValue)> = Vec::new();
        assert(entries_view(e@) =~= Seq::<(Seq<char>, Json)>::empty());
        push_member(&mut e, "jsonrpc", string_value(self.jsonrpc));
        push_member(&mut e, "method", JsonValue::String(self.method));
        push_opt(&mut e, "params", self.params);
        proof {
            lemma_object_view(e);
            assert(entries_view(e@) =~= match notification_json(old_self) {
                Json::Object(m) => m,
                _ => Seq::empty(),
            });
        }
        JsonValue::Object(e)
    }
}

} // verus!
