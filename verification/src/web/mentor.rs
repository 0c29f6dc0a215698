//! `/mcp`: the HTTP half of reading a live session.
//!
//! Streamable HTTP without the stream. Every reply is one JSON object, which the transport
//! allows, so there is no session id and no server-sent events: the tools only read, and a
//! client that reconnects asks again.

use vstd::prelude::*;

use crate::json::{json_ref_view, json_view, parse, Json, JsonView};
use crate::mentor::board::{lets_in, BoardView, MentorBoard, Sessions};
use crate::mentor::rpc::{failure, handle_message, reply, rpc_error, run_asked_by, words_asked};
use crate::outside::{header_text, parsed_json, visible};
use crate::text::{same_text, trim, trimmed};

verus! {

/// The error code of bytes that are not JSON.
pub const PARSE_ERROR: i64 = -32700;

/// What the route answers: a status, at most one header, and a JSON body if any.
#[derive(Debug)]
pub struct McpResponse {
    pub status: u16,
    pub header: Option<(&'static str, &'static str)>,
    pub body: Option<Json>,
}

/// What an answer of the route says.
pub ghost struct McpResponseView {
    pub status: u16,
    pub header: Option<(Seq<char>, Seq<char>)>,
    pub body: Option<JsonView>,
}

impl View for McpResponse {
    type V = McpResponseView;

    open spec fn view(&self) -> McpResponseView {
        McpResponseView {
            status: self.status,
            header: match self.header {
                Some((name, value)) => Some((name@, value@)),
                None => None,
            },
            body: json_view(self.body),
        }
    }
}

/// No such route. Not 401 or 403: a server that did not turn the route on has no route, and
/// should not tell a scanner that a token would open one.
pub open spec fn not_found() -> McpResponseView {
    McpResponseView { status: 404, header: None, body: None }
}

/// A bearer token is wanted.
pub open spec fn unauthorized() -> McpResponseView {
    McpResponseView { status: 401, header: Some(("www-authenticate"@, "Bearer"@)), body: None }
}

/// Only `POST` is.
pub open spec fn method_not_allowed() -> McpResponseView {
    McpResponseView { status: 405, header: Some(("allow"@, "POST"@)), body: None }
}

/// What a request that is turned away at the door is told. `None` lets it in.
pub open spec fn turned_away(enabled: bool, authorized: bool) -> Option<McpResponseView> {
    if !enabled {
        Some(not_found())
    } else if !authorized {
        Some(unauthorized())
    } else {
        None
    }
}

/// What a request is told when a token may or may not turn the route on, and may or may not
/// be the one presented. `None` lets it in.
pub fn refusal(enabled: bool, authorized: bool) -> (res: Option<McpResponse>)
    ensures
        match res {
            Some(response) => turned_away(enabled, authorized) == Some(response@),
            None => turned_away(enabled, authorized) is None,
        },
{
    if !enabled {
        Some(McpResponse { status: 404, header: None, body: None })
    } else if !authorized {
        Some(
            McpResponse {
                status: 401,
                header: Some(("www-authenticate", "Bearer")),
                body: None,
            },
        )
    } else {
        None
    }
}

/// What a request that was let in is answered. `message` is what its body says, and `None`
/// where that is not JSON.
pub open spec fn answered(
    sessions: Sessions,
    message: Option<JsonView>,
    now_seconds: u64,
    report: Seq<char>,
) -> McpResponseView {
    match message {
        Some(message) => match reply(sessions, message, now_seconds, report) {
            Some(body) => McpResponseView { status: 200, header: None, body: Some(body) },
            None => McpResponseView { status: 202, header: None, body: None },
        },
        None => McpResponseView {
            status: 400,
            header: None,
            body: Some(failure(JsonView::Null, PARSE_ERROR as int, "Parse error."@)),
        },
    }
}

/// The last test run, and how many there were, that a body asks to have worded.
pub open spec fn run_asked_in(sessions: Sessions, message: Option<JsonView>) -> Option<
    (Option<JsonView>, u32),
> {
    match message {
        Some(message) => run_asked_by(sessions, message),
        None => None,
    }
}

/// Answers a request that was let in. `message` is what its body says, and `None` where that
/// is not JSON.
pub fn mcp_answer<F: Fn(Option<&Json>, u32) -> String>(
    board: &MentorBoard,
    message: Option<&Json>,
    now_seconds: u64,
    format_test_run: F,
) -> (res: McpResponse)
    requires
        forall|run: Option<&Json>, runs: u32| #[trigger]
            call_requires(format_test_run, (run, runs)),
    ensures
        exists|report: Seq<char>| #[trigger]
            words_asked(
                format_test_run,
                run_asked_in(board@.sessions, json_ref_view(message)),
                report,
            ) && res@ == answered(board@.sessions, json_ref_view(message), now_seconds, report),
{
    match message {
        Some(message) => {
            let answer = handle_message(board, message, now_seconds, format_test_run);
            match answer {
                Some(body) => McpResponse { status: 200, header: None, body: Some(body) },
                None => McpResponse { status: 202, header: None, body: None },
            }
        },
        None => {
            let ghost nothing: Seq<char> = Seq::empty();
            assert(words_asked(
                format_test_run,
                run_asked_in(board@.sessions, json_ref_view(message)),
                nothing,
            ));
            McpResponse {
                status: 400,
                header: None,
                body: Some(rpc_error(Json::Null, PARSE_ERROR, "Parse error.")),
            }
        },
    }
}

/// Bytes as text, a character for each.
pub open spec fn ascii_text(bytes: Seq<u8>) -> Seq<char> {
    bytes.map_values(|byte: u8| byte as char)
}

/// The token that an `Authorization` header presents: what follows `Bearer `, without the
/// white space at its ends. A header that is not there, holds other than visible ASCII or
/// asks for another scheme presents the empty token.
pub open spec fn presented(authorization: Option<Seq<u8>>) -> Seq<char> {
    match authorization {
        Some(value) => {
            let text = ascii_text(value);
            if (forall|i: int| 0 <= i < value.len() ==> visible(#[trigger] value[i]))
                && "Bearer "@.is_prefix_of(text) {
                trimmed(text.skip("Bearer "@.len() as int))
            } else {
                Seq::empty()
            }
        },
        None => Seq::empty(),
    }
}

/// The bytes, where there are any.
pub open spec fn bytes_view(bytes: Option<&[u8]>) -> Option<Seq<u8>> {
    match bytes {
        Some(bytes) => Some(bytes@),
        None => None,
    }
}

/// The token that an `Authorization` header presents.
pub fn bearer(authorization: Option<&[u8]>) -> (res: String)
    ensures
        res@ == presented(bytes_view(authorization)),
{
    let text = match authorization {
        Some(value) => header_text(value),
        None => None,
    };
    match text {
        Some(text) => {
            proof {
                reveal_strlit("Bearer ");
            }
            let len = text.as_str().unicode_len();
            if len >= 7 && same_text(text.as_str().substring_char(0, 7), "Bearer ") {
                proof {
                    assert("Bearer "@.len() == 7);
                    assert(text@.subrange(7, len as int) =~= text@.skip(7));
                }
                trim(text.as_str().substring_char(7, len))
            } else {
                proof {
                    if "Bearer "@.is_prefix_of(text@) {
                        assert(text@.subrange(0, 7) =~= "Bearer "@);
                    }
                }
                String::new()
            }
        },
        None => String::new(),
    }
}

/// What a `POST` to the route is answered: `token` is the one presented, and `message` what
/// the body says.
pub open spec fn mcp_reply(
    board: BoardView,
    token: Seq<char>,
    message: Option<JsonView>,
    now_seconds: u64,
    report: Seq<char>,
) -> McpResponseView {
    match turned_away(board.token is Some, lets_in(board.token, token)) {
        Some(refusal) => refusal,
        None => answered(board.sessions, message, now_seconds, report),
    }
}

/// The last test run, and how many there were, that a `POST` to the route asks to have
/// worded.
pub open spec fn run_asked_of(
    board: BoardView,
    token: Seq<char>,
    message: Option<JsonView>,
) -> Option<(Option<JsonView>, u32)> {
    match turned_away(board.token is Some, lets_in(board.token, token)) {
        Some(_) => None,
        None => run_asked_in(board.sessions, message),
    }
}

/// Whether `response` is what a `POST` to the route is answered, with the test run worded by
/// `format_test_run` where the reply tells of one.
pub open spec fn mcp_answers<F: Fn(Option<&Json>, u32) -> String>(
    board: BoardView,
    token: Seq<char>,
    message: Option<JsonView>,
    now_seconds: u64,
    format_test_run: F,
    response: McpResponseView,
) -> bool {
    exists|report: Seq<char>| #[trigger]
        words_asked(format_test_run, run_asked_of(board, token, message), report) && response
            == mcp_reply(board, token, message, now_seconds, report)
}

/// Answers a `POST` to the route. `authorization` is the value of the header of that name,
/// where the request has one.
pub fn mcp_response<F: Fn(Option<&Json>, u32) -> String>(
    board: &MentorBoard,
    authorization: Option<&[u8]>,
    body: &[u8],
    now_seconds: u64,
    format_test_run: F,
) -> (res: McpResponse)
    requires
        forall|run: Option<&Json>, runs: u32| #[trigger]
            call_requires(format_test_run, (run, runs)),
    ensures
        mcp_answers(
            board@,
            presented(bytes_view(authorization)),
            parsed_json(body@),
            now_seconds,
            format_test_run,
            res@,
        ),
{
    let token = bearer(authorization);
    match refusal(board.enabled(), board.authorizes(&token)) {
        Some(response) => {
            let ghost nothing: Seq<char> = Seq::empty();
            assert(words_asked(
                format_test_run,
                run_asked_of(board@, token@, parsed_json(body@)),
                nothing,
            ));
            response
        },
        None => {
            let message = parse(body);
            mcp_answer(board, message.as_ref(), now_seconds, format_test_run)
        },
    }
}

/// What a `GET` of the route is answered. A client may open one as a stream of messages that
/// the server starts; this server sends none.
pub open spec fn mcp_get_reply(enabled: bool) -> McpResponseView {
    if enabled {
        method_not_allowed()
    } else {
        not_found()
    }
}

/// Answers a `GET` of the route.
pub fn mcp_get_response(board: &MentorBoard) -> (res: McpResponse)
    ensures
        res@ == mcp_get_reply(board@.token is Some),
{
    if !board.enabled() {
        return McpResponse { status: 404, header: None, body: None };
    }
    McpResponse { status: 405, header: Some(("allow", "POST")), body: None }
}

} // verus!
