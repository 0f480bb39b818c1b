//! Decisions of the stdio runtime, which reads one JSON-RPC envelope per
//! `\n`-terminated line: when to stop, which lines to skip, which to
//! decode, how a malformed envelope is answered, and which routes the
//! read loop answers itself.
use vstd::prelude::*;

use crate::dispatch::{
    answers, dispatch, fails_with, method_kind, request_id, routes, unknown_method_message, MethodKind, Route,
};
use crate::json::{Json, JsonValue};
use crate::jsonrpc::{envelope, Request, Response};

verus! {

/// The characters with the Unicode `White_Space` property, the ones
/// `char::is_whitespace` accepts.
pub open spec fn is_white_space(c: char) -> bool {
    let u = c as u32;
    ||| 0x09 <= u <= 0x0d
    ||| u == 0x20
    ||| u == 0x85
    ||| u == 0xa0
    ||| u == 0x1680
    ||| 0x2000 <= u <= 0x200a
    ||| u == 0x2028
    ||| u == 0x2029
    ||| u == 0x202f
    ||| u == 0x205f
    ||| u == 0x3000
}

/// A line with nothing but white space, which trims to nothing.
pub open spec fn is_blank(line: Seq<char>) -> bool {
    forall|i: int| 0 <= i < line.len() ==> is_white_space(#[trigger] line[i])
}

/// Whether `c` is white space.
pub fn char_is_white_space(c: char) -> (r: bool)
    ensures
        r == is_white_space(c),
{
    let u = c as u32;
    (0x09 <= u && u <= 0x0d) || u == 0x20 || u == 0x85 || u == 0xa0 || u == 0x1680 || (0x2000 <= u
        && u <= 0x200a) || u == 0x2028 || u == 0x2029 || u == 0x202f || u == 0x205f || u == 0x3000
}

/// Whether `line` holds nothing but white space.
pub fn line_is_blank(line: &str) -> (r: bool)
    ensures
        r == is_blank(line@),
{
    broadcast use vstd::string::group_string_axioms;

    for c in it: line.chars()
        invariant
            it.seq() == line@,
            forall|j: int| 0 <= j < it.index() ==> is_white_space(#[trigger] line@[j]),
    {
        if !char_is_white_space(c) {
            return false;
        }
    }
    true
}

/// What reading the next line gave.
pub enum Input {
    /// A line, without its terminator.
    Line(String),
    /// End of input: the host closed the pipe.
    Closed,
    /// Reading failed.
    Failed,
}

/// What the read loop does next.
#[derive(Debug)]
pub enum InputAction {
    /// Stop with this exit code.
    Exit(i32),
    /// Read the next line.
    Skip,
    /// Decode this line as a request envelope.
    Decode(String),
}

/// The read loop's decision: the host closing the pipe ends the loop
/// cleanly (0), a read failure ends it with 1, blank lines are skipped,
/// every other line is decoded.
pub fn on_input(event: Input) -> (r: InputAction)
    ensures
        match event {
            Input::Closed => r matches InputAction::Exit(code) && code == 0,
            Input::Failed => r matches InputAction::Exit(code) && code == 1,
            Input::Line(line) => if is_blank(line@) {
                r is Skip
            } else {
                r matches InputAction::Decode(l) && l == line
            },
        },
{
    match event {
        Input::Closed => InputAction::Exit(0),
        Input::Failed => InputAction::Exit(1),
        Input::Line(line) => {
            if line_is_blank(line.as_str()) {
                InputAction::Skip
            } else {
                InputAction::Decode(line)
            }
        },
    }
}

/// The error code that answers an envelope the runtime cannot read.
pub const PARSE_ERROR: i32 = -32700;

/// The message of the error answering a malformed envelope.
pub open spec fn malformed_message(detail: Seq<char>) -> Seq<char> {
    "malformed json-rpc envelope: "@ + detail
}

/// Why a well-formed JSON document is not a request envelope.
pub open spec fn not_a_request_detail() -> Seq<char> {
    "expected an object with a string `method`"@
}

/// The diagnostic logged for a line that is not JSON.
pub open spec fn undecodable_diagnostic(detail: Seq<char>) -> Seq<char> {
    "bowire-plugin: malformed envelope: "@ + detail
}

/// What a decoded line gives the read loop.
#[derive(Debug)]
pub enum Envelope {
    /// A request to dispatch.
    Request(Request),
    /// The line is JSON but holds no request: write this parse-error
    /// response and keep reading.
    Reject(Response),
    /// The line is not JSON: log this diagnostic, write nothing for the
    /// line, and keep reading.
    Discard(String),
}

/// The read loop's answer to one decoded line: a JSON document that
/// holds a request envelope is dispatched; JSON that is not a request is
/// answered with a parse error (-32700) whose id is `null`, since no id
/// can be read from it; text that is not JSON (its decoder's complaint in
/// `Err`) is logged and dropped, with no reply.
pub fn on_envelope(doc: Result<JsonValue, String>) -> (r: Envelope)
    ensures
        match doc {
            Err(detail) => r matches Envelope::Discard(d) && d@ == undecodable_diagnostic(detail@),
            Ok(v) => match envelope(v@) {
                Some(m) => r matches Envelope::Request(q) && q.model() == m,
                None => r matches Envelope::Reject(resp) && fails_with(
                    resp,
                    Json::Null,
                    PARSE_ERROR,
                    malformed_message(not_a_request_detail()),
                ),
            },
        },
{
    match doc {
        Err(detail) => {
            let mut diagnostic = "bowire-plugin: malformed envelope: ".to_owned();
            diagnostic.append(detail.as_str());
            Envelope::Discard(diagnostic)
        },
        Ok(v) => match Request::from_json(&v) {
            Some(q) => Envelope::Request(q),
            None => {
                let mut message = "malformed json-rpc envelope: ".to_owned();
                message.append("expected an object with a string `method`");
                Envelope::Reject(Response::err(JsonValue::Null, PARSE_ERROR, message))
            },
        },
    }
}

/// What the read loop does with a dispatched request.
#[derive(Debug)]
pub enum LoopStep {
    /// Write this response and read on.
    Write(Response),
    /// Write the acknowledgement, then stop reading and exit with `code`.
    Finish { ack: Response, code: i32 },
    /// Hand the route to the plugin and read on while it is answered.
    Call(Route),
}

/// The read loop's step for a route: a shutdown is acknowledged and then
/// ends the loop cleanly (exit code 0); a ready response is written; a
/// route that needs the plugin is handed on unchanged.
pub open spec fn step_of(route: Route) -> LoopStep {
    match route {
        Route::Shutdown(ack) => LoopStep::Finish { ack, code: 0 },
        Route::Reply(resp) => LoopStep::Write(resp),
        other => LoopStep::Call(other),
    }
}

/// The read loop's step for a route (see [`step_of`]).
pub fn next_step(route: Route) -> (r: LoopStep)
    ensures
        r == step_of(route),
{
    match route {
        Route::Shutdown(ack) => LoopStep::Finish { ack, code: 0 },
        Route::Reply(resp) => LoopStep::Write(resp),
        other => LoopStep::Call(other),
    }
}

/// The read loop's step for a request: the step for the route
/// [`dispatch`] gives it, so the stdio loop answers a request as any
/// other transport does. A `shutdown` is acknowledged with `{}` and then
/// ends the loop with exit code 0, and no other request ends it; `ping`
/// and unknown methods are answered at once; every other method goes to
/// the plugin, with the request's id and arguments, while the loop reads
/// on.
pub fn step_for(req: Request) -> (r: LoopStep)
    ensures
        match r {
            LoopStep::Finish { ack, code } => code == 0 && routes(req, Route::Shutdown(ack)),
            LoopStep::Write(w) => routes(req, Route::Reply(w)),
            LoopStep::Call(c) => routes(req, c) && !(c is Shutdown) && !(c is Reply),
        },
        (method_kind(req.method@) is Shutdown) <==> (r is Finish),
        r matches LoopStep::Finish { ack, code } ==> code == 0 && answers(
            ack,
            request_id(req),
            Json::Object(Seq::empty()),
        ),
        method_kind(req.method@) is Ping ==> (r matches LoopStep::Write(w) && answers(
            w,
            request_id(req),
            Json::Str("pong"@),
        )),
        method_kind(req.method@) is Other ==> (r matches LoopStep::Write(w) && fails_with(
            w,
            request_id(req),
            -32601i32,
            unknown_method_message(req.method@),
        )),
        method_kind(req.method@) is Initialize || method_kind(req.method@) is Discover || method_kind(
            req.method@,
        ) is Invoke || method_kind(req.method@) is InvokeStream ==> r is Call,
{
    next_step(dispatch(req))
}

} // verus!
