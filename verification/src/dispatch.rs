//! The transport-independent method dispatcher: which JSON-RPC method
//! maps to which plugin call, what the call's arguments are, and how each
//! answer and stream is framed. The runtime owns the wire and the plugin
//! calls; it asks [`dispatch`] what to do and hands the plugin's answers
//! to the reply builders here.
use vstd::prelude::*;

use crate::json::{
    entries_view, entry_lookup, items_view, json_get, lemma_array_view, lemma_object_view, push_member,
    string_value, Json, JsonNumber, JsonNumberView, JsonValue,
};
use crate::jsonrpc::{opt_view, Notification, Request, Response, JSONRPC_VERSION};
use crate::models::{is_last_of_name, pairs_view, invoke_result_json, services_json, services_to_json, InvokeResult, ServiceInfo};
use crate::plugin::{capabilities_json, Capabilities, SIDECAR_PROTOCOL_VERSION};

verus! {

// ---- parameters ---------------------------------------------------

/// The strings among `items`, in order; other items are skipped.
pub open spec fn string_items(items: Seq<Json>) -> Seq<Seq<char>>
    decreases items.len(),
{
    if items.len() == 0 {
        Seq::empty()
    } else {
        let rest = string_items(items.drop_last());
        match items.last() {
            Json::Str(s) => rest.push(s),
            _ => rest,
        }
    }
}

/// The positions below `n` of the members of `e` that no later member of
/// the same name overrides and whose values are strings.
pub open spec fn string_positions(e: Seq<(Seq<char>, Json)>, n: int) -> Seq<int>
    decreases n,
{
    if n <= 0 {
        Seq::empty()
    } else if is_last_of_name(e, n - 1) && e[n - 1].1 is Str {
        string_positions(e, n - 1).push(n - 1)
    } else {
        string_positions(e, n - 1)
    }
}

/// The name and string of the member at `i`.
pub open spec fn string_member_at(e: Seq<(Seq<char>, Json)>, i: int) -> (Seq<char>, Seq<char>) {
    (e[i].0, e[i].1->Str_0)
}

/// The string-valued members of an object as a map reads them: a later
/// member overrides an earlier one of the same name, and a name whose
/// last member is not a string is left out. One pair per name, in the
/// order of the members that stay.
pub open spec fn string_members(entries: Seq<(Seq<char>, Json)>) -> Seq<(Seq<char>, Seq<char>)> {
    string_positions(entries, entries.len() as int).map_values(|i: int| string_member_at(entries, i))
}

/// The positions `string_positions` gives are increasing, in range, each
/// the last of its name with a string value; every such position below
/// `n` is among them.
proof fn lemma_string_positions(e: Seq<(Seq<char>, Json)>, n: int)
    requires
        0 <= n <= e.len(),
    ensures
        forall|a: int| 0 <= a < string_positions(e, n).len() ==> 0 <= #[trigger] string_positions(e, n)[a] < n
            && is_last_of_name(e, string_positions(e, n)[a]) && e[string_positions(e, n)[a]].1 is Str,
        forall|a: int, b: int|
            0 <= a < b < string_positions(e, n).len() ==> #[trigger] string_positions(e, n)[a]
                < #[trigger] string_positions(e, n)[b],
        forall|k: int|
            0 <= k < n && is_last_of_name(e, k) && e[k].1 is Str ==> #[trigger] string_positions(e, n).contains(k),
    decreases n,
{
    if n > 0 {
        lemma_string_positions(e, n - 1);
        let prev = string_positions(e, n - 1);
        if is_last_of_name(e, n - 1) && e[n - 1].1 is Str {
            let cur = prev.push(n - 1);
            assert forall|k: int| 0 <= k < n && is_last_of_name(e, k) && e[k].1 is Str implies #[trigger] cur.contains(k) by {
                if k == n - 1 {
                    assert(cur[cur.len() - 1] == k);
                } else {
                    assert(prev.contains(k));
                    let a = choose|a: int| 0 <= a < prev.len() && prev[a] == k;
                    assert(cur[a] == k);
                }
            }
        }
    }
}

/// The member a lookup finds is the last of its name: when the member at
/// `i` is named `k` and no later one is, looking `k` up gives its value.
pub proof fn lemma_lookup_finds_last(e: Seq<(Seq<char>, Json)>, k: Seq<char>, i: int)
    requires
        0 <= i < e.len(),
        e[i].0 == k,
        is_last_of_name(e, i),
    ensures
        entry_lookup(e, k) == Some(e[i].1),
    decreases e.len(),
{
    let n = e.len() as int;
    if i < n - 1 {
        assert(e[n - 1].0 != e[i].0);
        let d = e.drop_last();
        assert forall|j: int| i < j < d.len() implies #[trigger] d[j].0 != d[i].0 by {
            assert(d[j] == e[j]);
            assert(e[j].0 != e[i].0);
        }
        lemma_lookup_finds_last(d, k, i);
    }
}

/// Looking `k` up finds a member named `k` that no later member of that
/// name overrides.
pub proof fn lemma_lookup_is_some_member(e: Seq<(Seq<char>, Json)>, k: Seq<char>)
    requires
        entry_lookup(e, k) is Some,
    ensures
        exists|i: int| 0 <= i < e.len() && #[trigger] e[i].0 == k && is_last_of_name(e, i) && Some(e[i].1) == entry_lookup(e, k),
    decreases e.len(),
{
    let n = e.len() as int;
    if e.last().0 == k {
        assert(e[n - 1].0 == k && is_last_of_name(e, n - 1));
    } else {
        let d = e.drop_last();
        lemma_lookup_is_some_member(d, k);
        let i = choose|i: int| 0 <= i < d.len() && #[trigger] d[i].0 == k && is_last_of_name(d, i) && Some(d[i].1) == entry_lookup(d, k);
        assert(d[i] == e[i]);
        assert forall|j: int| i < j < e.len() implies #[trigger] e[j].0 != e[i].0 by {
            if j < n - 1 {
                assert(d[j] == e[j]);
            }
        }
        assert(e[i].0 == k);
    }
}

/// The string members of an object are exactly what looking each name up
/// gives when that is a string, one pair per name.
pub proof fn lemma_string_members_are_lookups(entries: Seq<(Seq<char>, Json)>)
    ensures
        forall|k: Seq<char>, s: Seq<char>|
            #[trigger] string_members(entries).contains((k, s)) <==> entry_lookup(entries, k) == Some(Json::Str(s)),
        forall|a: int, b: int|
            0 <= a < b < string_members(entries).len() ==> #[trigger] string_members(entries)[a].0
                != #[trigger] string_members(entries)[b].0,
{
    let n = entries.len() as int;
    let pos = string_positions(entries, n);
    let out = string_members(entries);
    lemma_string_positions(entries, n);
    assert(out.len() == pos.len());
    assert forall|k: Seq<char>, s: Seq<char>|
        #[trigger] out.contains((k, s)) <==> entry_lookup(entries, k) == Some(Json::Str(s)) by {
        if out.contains((k, s)) {
            let a = choose|a: int| 0 <= a < out.len() && out[a] == (k, s);
            let i = pos[a];
            assert(out[a] == string_member_at(entries, i));
            lemma_lookup_finds_last(entries, k, i);
        }
        if entry_lookup(entries, k) == Some(Json::Str(s)) {
            lemma_lookup_is_some_member(entries, k);
            let i = choose|i: int| 0 <= i < entries.len() && #[trigger] entries[i].0 == k && is_last_of_name(entries, i)
                && Some(entries[i].1) == entry_lookup(entries, k);
            assert(pos.contains(i));
            let a = choose|a: int| 0 <= a < pos.len() && pos[a] == i;
            assert(out[a] == string_member_at(entries, i));
            assert(out[a] == (k, s));
        }
    }
    assert forall|a: int, b: int| 0 <= a < b < out.len() implies #[trigger] out[a].0 != #[trigger] out[b].0 by {
        assert(out[a] == string_member_at(entries, pos[a]));
        assert(out[b] == string_member_at(entries, pos[b]));
        assert(pos[a] < pos[b]);
        assert(is_last_of_name(entries, pos[a]));
        assert(entries[pos[b]].0 != entries[pos[a]].0);
    }
}

/// The models of a list of strings.
pub open spec fn strings_view(v: Seq<String>) -> Seq<Seq<char>> {
    Seq::new(v.len(), |i: int| v[i]@)
}

/// The string parameter `key`, when `params` has one.
pub fn string_param(params: &JsonValue, key: &str) -> (r: Option<String>)
    ensures
        match json_get(params@, key@) {
            Some(Json::Str(s)) => r matches Some(t) && t@ == s,
            _ => r is None,
        },
{
    match params.get(key) {
        Some(JsonValue::String(s)) => Some(s.clone()),
        _ => None,
    }
}

/// The boolean parameter `key`, when `params` has one.
pub fn bool_param(params: &JsonValue, key: &str) -> (r: Option<bool>)
    ensures
        match json_get(params@, key@) {
            Some(Json::Bool(b)) => r == Some(b),
            _ => r is None,
        },
{
    match params.get(key) {
        Some(JsonValue::Bool(b)) => Some(*b),
        _ => None,
    }
}

/// The string items of the array parameter `key`, when `params` has an
/// array there; items that are not strings are skipped.
pub fn vec_string_param(params: &JsonValue, key: &str) -> (r: Option<Vec<String>>)
    ensures
        match json_get(params@, key@) {
            Some(Json::Array(items)) => r matches Some(v) && strings_view(v@) == string_items(items),
            _ => r is None,
        },
{
    match params.get(key) {
        Some(JsonValue::Array(items)) => {
            proof {
                lemma_array_view(*items);
            }
            let ghost iv = items_view(items@);
            let mut out: Vec<String> = Vec::new();
            let mut i: usize = 0;
            assert(strings_view(out@) =~= string_items(iv.take(0)));
            while i < items.len()
                invariant
                    0 <= i <= items@.len(),
                    iv == items_view(items@),
                    strings_view(out@) == string_items(iv.take(i as int)),
                decreases items@.len() - i,
            {
                assert(iv.take(i + 1).drop_last() =~= iv.take(i as int));
                assert(iv.take(i + 1).last() == json_view_of(&items[i as int]));
                match &items[i] {
                    JsonValue::String(s) => {
                        out.push(s.clone());
                        assert(strings_view(out@) =~= string_items(iv.take(i as int)).push(s@));
                    },
                    _ => {
                        assert(strings_view(out@) =~= string_items(iv.take(i + 1)));
                    },
                }
                i += 1;
            }
            assert(iv.take(items@.len() as int) =~= iv);
            Some(out)
        },
        _ => None,
    }
}

/// The model of a JSON value behind a reference.
pub open spec fn json_view_of(v: &JsonValue) -> Json {
    v@
}

/// The string-valued members of the object parameter `key`, as a map
/// reads them: the result holds `(k, s)` exactly when the object's member
/// `k` is the string `s` (a later member overriding an earlier one), each
/// name once, in the order of the members that stay. Nothing when
/// `params` has no object there.
pub fn map_param(params: &JsonValue, key: &str) -> (r: Vec<(String, String)>)
    ensures
        match json_get(params@, key@) {
            Some(Json::Object(entries)) => {
                &&& pairs_view(r@) == string_members(entries)
                &&& forall|k: Seq<char>, s: Seq<char>|
                    #[trigger] pairs_view(r@).contains((k, s)) <==> json_get(
                        Json::Object(entries),
                        k,
                    ) == Some(Json::Str(s))
                &&& forall|a: int, b: int|
                    0 <= a < b < r@.len() ==> #[trigger] pairs_view(r@)[a].0 != #[trigger] pairs_view(r@)[b].0
            },
            _ => r@.len() == 0,
        },
{
    match params.get(key) {
        Some(JsonValue::Object(entries)) => {
            proof {
                lemma_object_view(*entries);
            }
            let out = string_members_of(entries);
            let ghost ev = entries_view(entries@);
            proof {
                assert(json_get(params@, key@) == Some(Json::Object(ev)));
                lemma_string_members_are_lookups(ev);
                assert forall|k: Seq<char>, s: Seq<char>|
                    #[trigger] pairs_view(out@).contains((k, s)) <==> json_get(Json::Object(ev), k) == Some(
                        Json::Str(s),
                    ) by {
                    assert(string_members(ev).contains((k, s)) <==> entry_lookup(ev, k) == Some(Json::Str(s)));
                }
                assert(out@.len() == pairs_view(out@).len());
            }
            out
        },
        _ => Vec::new(),
    }
}

/// The string-valued members of an object with the members `entries`,
/// as a map reads them (see [`string_members`]).
pub(crate) fn string_members_of(entries: &Vec<(String, JsonValue)>) -> (r: Vec<(String, String)>)
    ensures
        pairs_view(r@) == string_members(entries_view(entries@)),
{
    let mut out: Vec<(String, String)> = Vec::new();
    let ghost ev = entries_view(entries@);
    let n = entries.len();
    let mut i: usize = 0;
    assert(pairs_view(out@) =~= string_positions(ev, 0).map_values(|m: int| string_member_at(ev, m)));
    while i < n
        invariant
            n == entries@.len(),
            0 <= i <= n,
            ev == entries_view(entries@),
            pairs_view(out@) == string_positions(ev, i as int).map_values(|m: int| string_member_at(ev, m)),
        decreases n - i,
    {
        let mut last = true;
        let mut j: usize = i + 1;
        while j < n
            invariant
                n == entries@.len(),
                ev == entries_view(entries@),
                i < n,
                i + 1 <= j <= n,
                last == (forall|m: int| i < m < j ==> #[trigger] ev[m].0 != ev[i as int].0),
            decreases n - j,
        {
            let same = entries[j].0 == entries[i].0;
            proof {
                assert(ev[j as int].0 == entries@[j as int].0@);
                assert(ev[i as int].0 == entries@[i as int].0@);
            }
            if same {
                last = false;
            }
            j += 1;
        }
        assert(last == is_last_of_name(ev, i as int));
        assert(ev[i as int] == (entries@[i as int].0@, json_view_of(&entries@[i as int].1)));
        let ghost before = string_positions(ev, i as int).map_values(|m: int| string_member_at(ev, m));
        let (k, v) = &entries[i];
        match v {
            JsonValue::String(s) => {
                if last {
                    out.push((k.clone(), s.clone()));
                    assert(string_positions(ev, i + 1).map_values(|m: int| string_member_at(ev, m))
                        =~= before.push((k@, s@)));
                    assert(pairs_view(out@) =~= before.push((k@, s@)));
                } else {
                    assert(string_positions(ev, i + 1).map_values(|m: int| string_member_at(ev, m))
                        =~= before);
                }
            },
            _ => {
                assert(string_positions(ev, i + 1).map_values(|m: int| string_member_at(ev, m)) =~= before);
            },
        }
        i += 1;
    }
    assert(ev.len() == n);
    out
}

// ---- routing ------------------------------------------------------

/// The id a response to `req` carries: the request's, or `null`.
pub open spec fn request_id(req: Request) -> Json {
    match opt_view(req.id) {
        Some(v) => v,
        None => Json::Null,
    }
}

/// The parameters a request is read with: the request's, or `{}`.
pub open spec fn request_params(req: Request) -> Json {
    match opt_view(req.params) {
        Some(v) => v,
        None => Json::Object(Seq::empty()),
    }
}

/// A string parameter, empty when missing or not a string.
pub open spec fn param_str(p: Json, key: Seq<char>) -> Seq<char> {
    match json_get(p, key) {
        Some(Json::Str(s)) => s,
        _ => Seq::empty(),
    }
}

/// A boolean parameter, `false` when missing or not a boolean.
pub open spec fn param_flag(p: Json, key: Seq<char>) -> bool {
    match json_get(p, key) {
        Some(Json::Bool(b)) => b,
        _ => false,
    }
}

/// A list-of-strings parameter, empty when missing or not an array.
pub open spec fn param_strings(p: Json, key: Seq<char>) -> Seq<Seq<char>> {
    match json_get(p, key) {
        Some(Json::Array(items)) => string_items(items),
        _ => Seq::empty(),
    }
}

/// A string-map parameter, empty when missing or not an object.
pub open spec fn param_members(p: Json, key: Seq<char>) -> Seq<(Seq<char>, Seq<char>)> {
    match json_get(p, key) {
        Some(Json::Object(entries)) => string_members(entries),
        _ => Seq::empty(),
    }
}

/// The arguments of a unary or streaming plugin call.
#[derive(Debug)]
pub struct InvokeCall {
    /// `serverUrl`.
    pub server_url: String,
    /// `service`.
    pub service: String,
    /// `method`.
    pub method: String,
    /// `jsonMessages`: every request body the workbench captured.
    pub json_messages: Vec<String>,
    /// `showInternalServices`.
    pub show_internal: bool,
    /// `metadata`: name/value pairs, in order; a later pair with the
    /// same name takes precedence when they are gathered into a map.
    pub metadata: Vec<(String, String)>,
}

/// `call` holds the invoke arguments `p` carries.
pub open spec fn call_from(call: InvokeCall, p: Json) -> bool {
    &&& call.server_url@ == param_str(p, "serverUrl"@)
    &&& call.service@ == param_str(p, "service"@)
    &&& call.method@ == param_str(p, "method"@)
    &&& strings_view(call.json_messages@) == param_strings(p, "jsonMessages"@)
    &&& call.show_internal == param_flag(p, "showInternalServices"@)
    &&& pairs_view(call.metadata@) == param_members(p, "metadata"@)
}

/// What the runtime does with one request.
#[derive(Debug)]
pub enum Route {
    /// Write the acknowledgement; the read loop then stops (see
    /// [`crate::stdio::next_step`]).
    Shutdown(Response),
    /// Write this response.
    Reply(Response),
    /// Ask the plugin for its id, name, icon and capabilities, then
    /// answer with [`initialize_reply`].
    Initialize { id: JsonValue },
    /// Ask the plugin to discover, then answer with [`discover_reply`].
    Discover { id: JsonValue, server_url: String, show_internal: bool },
    /// Ask the plugin to invoke, then answer with [`invoke_reply`].
    Invoke { id: JsonValue, call: InvokeCall },
    /// Ask the plugin for a stream, answer with [`stream_ack`], then pump
    /// the stream through a [`StreamPump`].
    InvokeStream { id: JsonValue, stream_id: String, call: InvokeCall },
}

/// The methods the runtime knows.
pub enum MethodKind {
    Shutdown,
    Initialize,
    Ping,
    Discover,
    Invoke,
    InvokeStream,
    Other,
}

/// Which known method a method name names.
pub open spec fn method_kind(m: Seq<char>) -> MethodKind {
    if m == "shutdown"@ {
        MethodKind::Shutdown
    } else if m == "initialize"@ {
        MethodKind::Initialize
    } else if m == "ping"@ {
        MethodKind::Ping
    } else if m == "discover"@ {
        MethodKind::Discover
    } else if m == "invoke"@ {
        MethodKind::Invoke
    } else if m == "invokeStream"@ {
        MethodKind::InvokeStream
    } else {
        MethodKind::Other
    }
}

/// The message of the error answering an unknown method `m`.
pub open spec fn unknown_method_message(m: Seq<char>) -> Seq<char> {
    "method '"@ + m + "' not handled by bowire-plugin runtime"@
}

/// `r` is a successful response to `id` with the result `result`.
pub open spec fn answers(r: Response, id: Json, result: Json) -> bool {
    &&& r.jsonrpc@ == "2.0"@
    &&& r.id@ == id
    &&& r.result matches Some(v) && v@ == result
    &&& r.error is None
}

/// `r` is a failed response to `id` with error `code`, `message` and no
/// data.
pub open spec fn fails_with(r: Response, id: Json, code: i32, message: Seq<char>) -> bool {
    &&& r.jsonrpc@ == "2.0"@
    &&& r.id@ == id
    &&& r.result is None
    &&& r.error matches Some(e) && e.code == code && e.message@ == message && e.data is None
}

/// Every answer the dispatcher gives, successful or failed, is a
/// well-formed response: exactly one of result and error.
pub proof fn lemma_answers_are_well_formed(r: Response, id: Json, result: Json, code: i32, message: Seq<char>)
    ensures
        answers(r, id, result) ==> r.well_formed(),
        fails_with(r, id, code, message) ==> r.well_formed(),
{
}

/// Whether two strings hold the same text.
fn same_text(a: &String, b: &str) -> (r: bool)
    ensures
        r == (a@ == b@),
{
    let t = b.to_owned();
    *a == t
}

/// The parameters of a call as the runtime reads them.
fn read_call(p: &JsonValue) -> (c: InvokeCall)
    ensures
        call_from(c, p@),
{
    let server_url = match string_param(p, "serverUrl") {
        Some(s) => s,
        None => String::new(),
    };
    let service = match string_param(p, "service") {
        Some(s) => s,
        None => String::new(),
    };
    let method = match string_param(p, "method") {
        Some(s) => s,
        None => String::new(),
    };
    let json_messages = match vec_string_param(p, "jsonMessages") {
        Some(v) => v,
        None => {
            let v: Vec<String> = Vec::new();
            assert(strings_view(v@) =~= Seq::<Seq<char>>::empty());
            v
        },
    };
    let show_internal = match bool_param(p, "showInternalServices") {
        Some(b) => b,
        None => false,
    };
    let metadata = map_param(p, "metadata");
    proof {
        if !(json_get(p@, "metadata"@) matches Some(Json::Object(_))) {
            assert(pairs_view(metadata@) =~= Seq::<(Seq<char>, Seq<char>)>::empty());
        }
    }
    InvokeCall { server_url, service, method, json_messages, show_internal, metadata }
}

/// `r` is what answering `req` takes. `shutdown` and `ping` are answered
/// at once; `initialize`, `discover`, `invoke` and `invokeStream` need the
/// plugin, with the request's id and the arguments its parameters carry;
/// any other method is answered with error -32601.
pub open spec fn routes(req: Request, r: Route) -> bool {
    let id = request_id(req);
    let p = request_params(req);
    match method_kind(req.method@) {
        MethodKind::Shutdown => r matches Route::Shutdown(resp) && answers(resp, id, Json::Object(Seq::empty())),
        MethodKind::Initialize => r matches Route::Initialize { id: i } && i@ == id,
        MethodKind::Ping => r matches Route::Reply(resp) && answers(resp, id, Json::Str("pong"@)),
        MethodKind::Discover => r matches Route::Discover { id: i, server_url, show_internal } && i@ == id
            && server_url@ == param_str(p, "serverUrl"@) && show_internal == param_flag(
            p,
            "showInternalServices"@,
        ),
        MethodKind::Invoke => r matches Route::Invoke { id: i, call } && i@ == id && call_from(call, p),
        MethodKind::InvokeStream => r matches Route::InvokeStream { id: i, stream_id, call } && i@ == id
            && stream_id@ == param_str(p, "streamId"@) && call_from(call, p),
        MethodKind::Other => r matches Route::Reply(resp) && fails_with(
            resp,
            id,
            -32601i32,
            unknown_method_message(req.method@),
        ),
    }
}

/// Decides what answering `req` takes (see [`routes`]).
pub fn dispatch(req: Request) -> (r: Route)
    ensures
        routes(req, r),
{
    let ghost old_req = req;
    let Request { id, method, params } = req;
    let id = match id {
        Some(v) => v,
        None => JsonValue::Null,
    };
    let params = match params {
        Some(v) => v,
        None => {
            let e: Vec<(String, JsonValue)> = Vec::new();
            proof {
                lemma_object_view(e);
                assert(entries_view(e@) =~= Seq::<(Seq<char>, Json)>::empty());
            }
            JsonValue::Object(e)
        },
    };
    assert(params@ == request_params(old_req));
    if same_text(&method, "shutdown") {
        let e: Vec<(String, JsonValue)> = Vec::new();
        proof {
            lemma_object_view(e);
            assert(entries_view(e@) =~= Seq::<(Seq<char>, Json)>::empty());
        }
        Route::Shutdown(Response::ok(id, JsonValue::Object(e)))
    } else if same_text(&method, "initialize") {
        Route::Initialize { id }
    } else if same_text(&method, "ping") {
        Route::Reply(Response::ok(id, string_value("pong")))
    } else if same_text(&method, "discover") {
        let server_url = match string_param(&params, "serverUrl") {
            Some(s) => s,
            None => String::new(),
        };
        let show_internal = match bool_param(&params, "showInternalServices") {
            Some(b) => b,
            None => false,
        };
        Route::Discover { id, server_url, show_internal }
    } else if same_text(&method, "invoke") {
        Route::Invoke { id, call: read_call(&params) }
    } else if same_text(&method, "invokeStream") {
        let stream_id = match string_param(&params, "streamId") {
            Some(s) => s,
            None => String::new(),
        };
        Route::InvokeStream { id, stream_id, call: read_call(&params) }
    } else {
        let mut message = "method '".to_owned();
        message.append(method.as_str());
        message.append("' not handled by bowire-plugin runtime");
        Route::Reply(Response::err(id, -32601, message))
    }
}


// ---- replies ------------------------------------------------------

/// The result of `initialize`: who the plugin is, which contract version
/// it speaks, and what it can answer.
pub open spec fn initialize_json(plugin_id: Seq<char>, name: Seq<char>, icon_svg: Seq<char>, caps: Capabilities) -> Json {
    Json::Object(
        seq![
            ("id"@, Json::Str(plugin_id)),
            ("name"@, Json::Str(name)),
            ("iconSvg"@, Json::Str(icon_svg)),
            ("protocolVersion"@, Json::Number(JsonNumberView::PosInt(SIDECAR_PROTOCOL_VERSION))),
            ("capabilities"@, capabilities_json(caps)),
        ],
    )
}

/// The answer to `initialize`, from what the plugin says of itself.
pub fn initialize_reply(id: JsonValue, plugin_id: &str, name: &str, icon_svg: &str, capabilities: Capabilities) -> (r: Response)
    ensures
        answers(r, id@, initialize_json(plugin_id@, name@, icon_svg@, capabilities)),
{
    let ghost idv = id@;
    let mut e: Vec<(String, JsonValue)> = Vec::new();
    assert(entries_view(e@) =~= Seq::<(Seq<char>, Json)>::empty());
    push_member(&mut e, "id", string_value(plugin_id));
    push_member(&mut e, "name", string_value(name));
    push_member(&mut e, "iconSvg", string_value(icon_svg));
    push_member(&mut e, "protocolVersion", JsonValue::Number(JsonNumber::PosInt(SIDECAR_PROTOCOL_VERSION)));
    push_member(&mut e, "capabilities", capabilities.to_json());
    proof {
        lemma_object_view(e);
        assert(entries_view(e@) =~= match initialize_json(plugin_id@, name@, icon_svg@, capabilities) {
            Json::Object(m) => m,
            _ => Seq::empty(),
        });
    }
    Response::ok(id, JsonValue::Object(e))
}

/// The answer to `discover`: the bare array of the services, never an
/// envelope around it.
pub fn discover_reply(id: JsonValue, services: &Vec<ServiceInfo>) -> (r: Response)
    ensures
        answers(r, id@, Json::Array(services_json(services@))),
{
    Response::ok(id, services_to_json(services))
}

/// The answer to `invoke`: the plugin's result.
pub fn invoke_reply(id: JsonValue, result: &InvokeResult) -> (r: Response)
    ensures
        answers(r, id@, invoke_result_json(*result)),
{
    Response::ok(id, result.to_json())
}

// ---- streams ------------------------------------------------------

/// What a notification holds: `(jsonrpc, method, params)`.
pub type NotificationModel = (Seq<char>, Seq<char>, Option<Json>);

/// The model of a notification.
pub open spec fn notification_model(n: Notification) -> NotificationModel {
    (n.jsonrpc@, n.method@, opt_view(n.params))
}

/// The model of an optional notification.
pub open spec fn opt_notification_model(n: Option<Notification>) -> Option<NotificationModel> {
    match n {
        Some(x) => Some(notification_model(x)),
        None => None,
    }
}

/// The model of an optional string.
pub open spec fn opt_string_view(s: Option<String>) -> Option<Seq<char>> {
    match s {
        Some(x) => Some(x@),
        None => None,
    }
}

/// The acknowledgement of `invokeStream`: the stream id it opened.
pub open spec fn stream_ack_json(stream_id: Seq<char>) -> Json {
    Json::Object(seq![("streamId"@, Json::Str(stream_id))])
}

/// The notification carrying one frame of a stream.
pub open spec fn data_notification(stream_id: Seq<char>, frame: Seq<char>) -> NotificationModel {
    (
        "2.0"@,
        "$/stream/data"@,
        Some(Json::Object(seq![("streamId"@, Json::Str(stream_id)), ("message"@, Json::Str(frame))])),
    )
}

/// The notification closing a stream.
pub open spec fn end_notification(stream_id: Seq<char>) -> NotificationModel {
    ("2.0"@, "$/stream/end"@, Some(Json::Object(seq![("streamId"@, Json::Str(stream_id))])))
}

/// One step of a stream: a frame becomes a data notification, the end
/// of the frames becomes the end notification, and once the stream has
/// ended nothing more is sent. Gives whether the stream has ended after
/// the step, and what is sent.
pub open spec fn pump_step(done: bool, stream_id: Seq<char>, event: Option<Seq<char>>) -> (bool, Option<NotificationModel>) {
    if done {
        (true, None)
    } else {
        match event {
            Some(frame) => (false, Some(data_notification(stream_id, frame))),
            None => (true, Some(end_notification(stream_id))),
        }
    }
}

/// What a stream sends for a sequence of events.
pub open spec fn pump_run(done: bool, stream_id: Seq<char>, events: Seq<Option<Seq<char>>>) -> Seq<Option<NotificationModel>>
    decreases events.len(),
{
    if events.len() == 0 {
        Seq::empty()
    } else {
        let (next_done, sent) = pump_step(done, stream_id, events[0]);
        seq![sent] + pump_run(next_done, stream_id, events.drop_first())
    }
}

/// Turns the frames of one server-streaming call into notifications.
pub struct StreamPump {
    stream_id: String,
    done: bool,
}

impl StreamPump {
    /// The id of the stream.
    pub closed spec fn stream_id(&self) -> Seq<char> {
        self.stream_id@
    }

    /// Whether the end of the stream has been sent.
    pub closed spec fn is_done(&self) -> bool {
        self.done
    }

    /// Opens the stream `stream_id` for the request `id`: gives the
    /// acknowledgement, which goes out before any frame, and the pump for
    /// the frames.
    pub fn start(id: JsonValue, stream_id: String) -> (r: (Response, StreamPump))
        ensures
            answers(r.0, id@, stream_ack_json(stream_id@)),
            r.1.stream_id() == stream_id@,
            !r.1.is_done(),
    {
        let ghost idv = id@;
        let mut e: Vec<(String, JsonValue)> = Vec::new();
        assert(entries_view(e@) =~= Seq::<(Seq<char>, Json)>::empty());
        push_member(&mut e, "streamId", JsonValue::String(stream_id.clone()));
        proof {
            lemma_object_view(e);
            assert(entries_view(e@) =~= seq![("streamId"@, Json::Str(stream_id@))]);
        }
        (Response::ok(id, JsonValue::Object(e)), StreamPump { stream_id, done: false })
    }

    /// What to send for the next event of the stream: `Some(frame)` for a
    /// frame, `None` for its end.
    pub fn next(&mut self, event: Option<String>) -> (n: Option<Notification>)
        ensures
            final(self).stream_id() == old(self).stream_id(),
            (final(self).is_done(), opt_notification_model(n)) == pump_step(
                old(self).is_done(),
                old(self).stream_id(),
                opt_string_view(event),
            ),
    {
        if self.done {
            return None;
        }
        let mut e: Vec<(String, JsonValue)> = Vec::new();
        assert(entries_view(e@) =~= Seq::<(Seq<char>, Json)>::empty());
        push_member(&mut e, "streamId", JsonValue::String(self.stream_id.clone()));
        match event {
            Some(frame) => {
                let ghost fv = frame@;
                push_member(&mut e, "message", JsonValue::String(frame));
                proof {
                    lemma_object_view(e);
                    assert(entries_view(e@) =~= seq![("streamId"@, Json::Str(self.stream_id@)), ("message"@, Json::Str(fv))]);
                }
                Some(Notification { jsonrpc: JSONRPC_VERSION, method: "$/stream/data".to_owned(), params: Some(JsonValue::Object(e)) })
            },
            None => {
                self.done = true;
                proof {
                    lemma_object_view(e);
                    assert(entries_view(e@) =~= seq![("streamId"@, Json::Str(self.stream_id@))]);
                }
                Some(Notification { jsonrpc: JSONRPC_VERSION, method: "$/stream/end".to_owned(), params: Some(JsonValue::Object(e)) })
            },
        }
    }
}

/// Once a stream has ended it sends nothing, whatever comes.
pub proof fn lemma_ended_stream_is_silent(stream_id: Seq<char>, events: Seq<Option<Seq<char>>>)
    ensures
        pump_run(true, stream_id, events) == Seq::new(events.len(), |i: int| None::<NotificationModel>),
    decreases events.len(),
{
    if events.len() > 0 {
        lemma_ended_stream_is_silent(stream_id, events.drop_first());
    }
    assert(pump_run(true, stream_id, events) =~= Seq::new(events.len(), |i: int| None::<NotificationModel>));
}

/// A stream sends one data notification per frame, in order, then one
/// end notification, then nothing more, whatever comes after the end.
pub proof fn lemma_stream_transcript(stream_id: Seq<char>, frames: Seq<Seq<char>>, after: Seq<Option<Seq<char>>>)
    ensures
        pump_run(
            false,
            stream_id,
            frames.map_values(|f: Seq<char>| Some(f)) + seq![None::<Seq<char>>] + after,
        ) == frames.map_values(|f: Seq<char>| Some(data_notification(stream_id, f))) + seq![Some(end_notification(stream_id))]
            + Seq::new(after.len(), |i: int| None::<NotificationModel>),
    decreases frames.len(),
{
    let events = frames.map_values(|f: Seq<char>| Some(f)) + seq![None::<Seq<char>>] + after;
    if frames.len() == 0 {
        assert(events.drop_first() =~= after);
        lemma_ended_stream_is_silent(stream_id, after);
        assert(frames.map_values(|f: Seq<char>| Some(data_notification(stream_id, f))) =~= Seq::<Option<NotificationModel>>::empty());
    } else {
        let rest = frames.drop_first();
        lemma_stream_transcript(stream_id, rest, after);
        assert(events.drop_first() =~= rest.map_values(|f: Seq<char>| Some(f)) + seq![None::<Seq<char>>] + after);
        assert(events[0] == Some(frames[0]));
        assert(frames.map_values(|f: Seq<char>| Some(data_notification(stream_id, f))) =~= seq![Some(data_notification(stream_id, frames[0]))]
            + rest.map_values(|f: Seq<char>| Some(data_notification(stream_id, f))));
    }
    assert(pump_run(false, stream_id, events) =~= frames.map_values(|f: Seq<char>| Some(data_notification(stream_id, f)))
        + seq![Some(end_notification(stream_id))] + Seq::new(after.len(), |i: int| None::<NotificationModel>));
}

} // verus!
