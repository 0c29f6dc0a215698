//! What holds of every request to `/mcp`.

use vstd::prelude::*;

use super::mentor::{
    answered, ascii_text, bytes_view, mcp_answers, mcp_get_reply, mcp_reply, not_found, presented,
    run_asked_in, run_asked_of, turned_away, unauthorized, McpResponse, McpResponseView,
};
use crate::json::{Json, JsonView};
use crate::mentor::board::{configured, lets_in, BoardView, Sessions};
use crate::mentor::laws::{
    law_asking_again, law_blank_token_opens_nothing, law_token_lets_its_holder_in,
};
use crate::mentor::message_laws::{
    is_error, law_what_a_request_is_answered, law_what_is_no_request, lemma_failure,
    lemma_names_differ,
};
use crate::mentor::rpc::{answers, reply, run_asked_by, words_alike, words_asked};
use crate::outside::visible;
use crate::text::{blank, law_trimming_twice, trimmed};

verus! {

/// Law: a route that no token turned on looks like no route, whatever it is asked.
pub proof fn law_off_is_no_route(
    board: BoardView,
    token: Seq<char>,
    message: Option<JsonView>,
    now_seconds: u64,
    report: Seq<char>,
)
    requires
        board.token is None,
    ensures
        mcp_reply(board, token, message, now_seconds, report) == not_found(),
        mcp_get_reply(board.token is Some) == not_found(),
{
}

/// Law: a blank token leaves the route off.
pub proof fn law_blank_token_is_no_route(
    given: Seq<char>,
    sessions: Sessions,
    token: Seq<char>,
    message: Option<JsonView>,
    now_seconds: u64,
    report: Seq<char>,
)
    requires
        blank(given),
    ensures
        ({
            let board = BoardView { sessions, token: configured(Some(given)) };
            mcp_reply(board, token, message, now_seconds, report) == not_found()
        }),
{
    law_blank_token_opens_nothing(given, token);
}

/// Law: who presents another token learns nothing of the sessions. The answer is one and the
/// same whatever is live and whatever is asked.
pub proof fn law_refused_learns_nothing(
    board: BoardView,
    token: Seq<char>,
    message: Option<JsonView>,
    now_seconds: u64,
    report: Seq<char>,
)
    requires
        board.token is Some,
        !lets_in(board.token, token),
    ensures
        mcp_reply(board, token, message, now_seconds, report) == unauthorized(),
{
}

/// The characters that a header can hold: those of ASCII from the space on, and the tab.
pub open spec fn visible_char(c: char) -> bool {
    let code = c as int;
    32 <= code < 127 || code == 9
}

/// The bytes of the `Authorization` header that presents `token`.
pub open spec fn bearer_header(token: Seq<char>) -> Seq<u8> {
    ("Bearer "@ + token).map_values(|c: char| c as u8)
}

/// Law: a client that sends the token that turned the route on, as the operator gave it but for
/// the white space at its ends, is answered what its message asks. A header can hold visible
/// ASCII only, and so can such a token.
pub proof fn law_right_token_is_answered(
    given: Seq<char>,
    sessions: Sessions,
    message: Option<JsonView>,
    now_seconds: u64,
    report: Seq<char>,
)
    requires
        !blank(given),
        forall|i: int| 0 <= i < trimmed(given).len() ==> visible_char(#[trigger] trimmed(given)[i]),
    ensures
        presented(Some(bearer_header(trimmed(given)))) == trimmed(given),
        ({
            let board = BoardView { sessions, token: configured(Some(given)) };
            mcp_reply(
                board,
                presented(Some(bearer_header(trimmed(given)))),
                message,
                now_seconds,
                report,
            ) == answered(sessions, message, now_seconds, report)
        }),
{
    law_trimming_twice(given);
    law_white_space_round_a_token(given, trimmed(given), sessions, message, now_seconds, report);
}

/// Law: white space round the token that a client sends is no part of it. A client whose header
/// holds the right token, with any white space that a header can hold at its ends, is answered
/// what its message asks.
pub proof fn law_white_space_round_a_token(
    given: Seq<char>,
    sent: Seq<char>,
    sessions: Sessions,
    message: Option<JsonView>,
    now_seconds: u64,
    report: Seq<char>,
)
    requires
        !blank(given),
        trimmed(sent) == trimmed(given),
        forall|i: int| 0 <= i < sent.len() ==> visible_char(#[trigger] sent[i]),
    ensures
        presented(Some(bearer_header(sent))) == trimmed(given),
        ({
            let board = BoardView { sessions, token: configured(Some(given)) };
            mcp_reply(board, presented(Some(bearer_header(sent))), message, now_seconds, report)
                == answered(sessions, message, now_seconds, report)
        }),
{
    reveal_strlit("Bearer ");
    let scheme = "Bearer "@;
    let value = bearer_header(sent);
    let text = ascii_text(value);
    let whole = scheme + sent;
    assert(scheme.len() == 7);
    assert forall|i: int| 0 <= i < whole.len() implies visible_char(#[trigger] whole[i]) by {
        if i < 7 {
            assert(i == 0 || i == 1 || i == 2 || i == 3 || i == 4 || i == 5 || i == 6);
            assert(whole[i] == scheme[i]);
        } else {
            assert(whole[i] == sent[i - 7]);
        }
    }
    assert forall|i: int| 0 <= i < value.len() implies visible(#[trigger] value[i]) by {
        assert(visible_char(whole[i]));
        assert(value[i] == whole[i] as u8);
    }
    assert forall|i: int| 0 <= i < text.len() implies #[trigger] text[i] == whole[i] by {
        assert(visible_char(whole[i]));
        assert(text[i] == (whole[i] as u8) as char);
    }
    assert(text =~= whole);
    assert(whole.take(7) =~= scheme);
    assert(text.skip(7) =~= sent);
    law_token_lets_its_holder_in(given);
}

/// Law: a client that reconnects asks again and is answered the same. One request at one time
/// has one answer, where equal runs are worded equally.
pub proof fn law_request_again<F: Fn(Option<&Json>, u32) -> String>(
    board: BoardView,
    token: Seq<char>,
    message: Option<JsonView>,
    now_seconds: u64,
    format_test_run: F,
    first: McpResponseView,
    second: McpResponseView,
)
    requires
        run_asked_of(board, token, message) is Some ==> words_alike(format_test_run),
        mcp_answers(board, token, message, now_seconds, format_test_run, first),
        mcp_answers(board, token, message, now_seconds, format_test_run, second),
    ensures
        first == second,
{
    let asked = run_asked_of(board, token, message);
    let one = choose|report: Seq<char>| #[trigger]
        words_asked(format_test_run, asked, report) && first == mcp_reply(
            board,
            token,
            message,
            now_seconds,
            report,
        );
    let other = choose|report: Seq<char>| #[trigger]
        words_asked(format_test_run, asked, report) && second == mcp_reply(
            board,
            token,
            message,
            now_seconds,
            report,
        );
    if turned_away(board.token is Some, lets_in(board.token, token)) is None {
        if let Some(said) = message {
            assert(words_asked(format_test_run, run_asked_by(board.sessions, said), one));
            assert(words_asked(format_test_run, run_asked_by(board.sessions, said), other));
            law_asking_again(
                board.sessions,
                said,
                now_seconds,
                format_test_run,
                reply(board.sessions, said, now_seconds, one),
                reply(board.sessions, said, now_seconds, other),
            );
        }
    }
}

/// Law: the status says what became of a request that was let in: 400 and an error body where
/// its body is not JSON, 202 and no body where it is a notification, and 200 and the reply
/// otherwise.
pub proof fn law_status_tells(
    sessions: Sessions,
    message: Option<JsonView>,
    now_seconds: u64,
    report: Seq<char>,
)
    ensures
        ({
            let response = answered(sessions, message, now_seconds, report);
            &&& response.status == 400 <==> message is None
            &&& response.status == 202 <==> (message matches Some(said) && said is Object
                && said.field("id"@) is None)
            &&& response.status == 200 || response.status == 202 || response.status == 400
            &&& response.body is None <==> response.status == 202
        }),
{
}

/// Law: an answer of the route says its status, its header and its body as they are.
pub proof fn law_a_response_says_its_parts(response: McpResponse)
    ensures
        response@.status == response.status,
        response@.header is Some <==> response.header is Some,
        response.header matches Some((name, value)) ==> response@.header == Some((name@, value@)),
        response@.body is Some <==> response.body is Some,
        response.body is Some ==> response@.body->0 == response.body->0@,
{
}

/// Law: bytes that may be missing are those bytes where they are there.
pub proof fn law_bytes_are_what_they_are(bytes: &[u8])
    ensures
        bytes_view(Some(bytes)) == Some(bytes@),
        bytes_view(None) == None::<Seq<u8>>,
{
}

/// Law: a request that is let in is answered what its message is answered: the body is the
/// reply, unchanged, with 200, and no body with 202 where there is none. A body that is not JSON
/// is a parse error, with 400 and without an id.
pub proof fn law_the_body_is_the_reply(
    sessions: Sessions,
    message: JsonView,
    now_seconds: u64,
    report: Seq<char>,
)
    ensures
        ({
            let response = answered(sessions, Some(message), now_seconds, report);
            &&& response.body == reply(sessions, message, now_seconds, report)
            &&& response.status == (if response.body is Some {
                200u16
            } else {
                202u16
            })
            &&& response.header is None
            &&& run_asked_in(sessions, Some(message)) == run_asked_by(sessions, message)
        }),
        ({
            let response = answered(sessions, None, now_seconds, report);
            &&& response.status == 400
            &&& response.header is None
            &&& response.body is Some
            &&& is_error(response.body->0, JsonView::Null, -32700, "Parse error."@)
            &&& run_asked_in(sessions, None) is None
        }),
{
    lemma_failure(JsonView::Null, -32700, "Parse error."@);
}

/// Law: the body of an answer to a request carries the id of that request, unchanged, so that a
/// client can match the two.
pub proof fn law_the_body_carries_the_id(
    sessions: Sessions,
    fields: Map<Seq<char>, JsonView>,
    now_seconds: u64,
    report: Seq<char>,
)
    requires
        fields.dom().contains("id"@),
    ensures
        ({
            let response = answered(
                sessions,
                Some(JsonView::Object(fields)),
                now_seconds,
                report,
            );
            &&& response.status == 200
            &&& response.body is Some
            &&& response.body->0 is Object
            &&& response.body->0->Object_0.dom().contains("jsonrpc"@)
            &&& response.body->0->Object_0["jsonrpc"@] == JsonView::String("2.0"@)
            &&& response.body->0->Object_0.dom().contains("id"@)
            &&& response.body->0->Object_0["id"@] == fields["id"@]
        }),
{
    lemma_names_differ();
    law_what_a_request_is_answered(sessions, fields, now_seconds, report);
    law_what_is_no_request(sessions, JsonView::Object(fields), now_seconds, report);
}

/// Law: what a `POST` to the route is told follows from the token. Without one on the board
/// there is no route: 404, no header and no body. Who presents a token that does not let them in
/// is told that a bearer token is wanted: 401, and no body. Who is let in is answered.
pub proof fn law_what_a_post_is_told(
    board: BoardView,
    token: Seq<char>,
    message: Option<JsonView>,
    now_seconds: u64,
    report: Seq<char>,
)
    ensures
        ({
            let response = mcp_reply(board, token, message, now_seconds, report);
            let asked = run_asked_of(board, token, message);
            &&& board.token is None ==> response.status == 404 && response.header is None
                && response.body is None && asked is None
            &&& board.token is Some && !lets_in(board.token, token) ==> response.status == 401
                && response.header == Some(("www-authenticate"@, "Bearer"@))
                && response.body is None && asked is None
            &&& board.token is Some && lets_in(board.token, token) ==> response == answered(
                board.sessions,
                message,
                now_seconds,
                report,
            ) && asked == run_asked_in(board.sessions, message)
        }),
{
}

/// Law: what a request is told at the door follows from whether a token turned the route on and
/// whether it is the one presented.
pub proof fn law_what_the_door_says(enabled: bool, authorized: bool)
    ensures
        ({
            let told = turned_away(enabled, authorized);
            &&& told is None <==> enabled && authorized
            &&& !enabled ==> told->0.status == 404 && told->0.header is None
            &&& enabled && !authorized ==> told->0.status == 401 && told->0.header == Some(
                ("www-authenticate"@, "Bearer"@),
            )
            &&& told is Some ==> told->0.body is None
        }),
{
}

/// Law: a `GET` of the route is told that only `POST` is, with 405, and 404 where the route is
/// off; neither has a body.
pub proof fn law_what_a_get_is_told(enabled: bool)
    ensures
        mcp_get_reply(enabled).body is None,
        enabled ==> mcp_get_reply(enabled).status == 405 && mcp_get_reply(enabled).header == Some(
            ("allow"@, "POST"@),
        ),
        !enabled ==> mcp_get_reply(enabled).status == 404 && mcp_get_reply(enabled).header is None,
{
}

/// Law: a response to a `POST` that was let in has for its body an answer to the message, and
/// one to a `POST` that was not has none.
pub proof fn law_a_response_holds_an_answer<F: Fn(Option<&Json>, u32) -> String>(
    board: BoardView,
    token: Seq<char>,
    message: JsonView,
    now_seconds: u64,
    format_test_run: F,
    response: McpResponseView,
)
    requires
        mcp_answers(board, token, Some(message), now_seconds, format_test_run, response),
    ensures
        lets_in(board.token, token) ==> answers(
            board.sessions,
            message,
            now_seconds,
            format_test_run,
            response.body,
        ) && response.header is None && response.status == (if response.body is Some {
            200u16
        } else {
            202u16
        }),
        !lets_in(board.token, token) ==> response.body is None && response.status == (
        if board.token is Some {
            401u16
        } else {
            404u16
        }),
{
    let asked = run_asked_of(board, token, Some(message));
    let report = choose|report: Seq<char>| #[trigger]
        words_asked(format_test_run, asked, report) && response == mcp_reply(
            board,
            token,
            Some(message),
            now_seconds,
            report,
        );
    law_what_a_post_is_told(board, token, Some(message), now_seconds, report);
    law_the_body_is_the_reply(board.sessions, message, now_seconds, report);
    if lets_in(board.token, token) {
        assert(words_asked(format_test_run, run_asked_by(board.sessions, message), report));
    }
}

/// Law: the response to a `POST` whose body is not JSON is a parse error where it was let in.
pub proof fn law_a_response_to_what_is_not_json<F: Fn(Option<&Json>, u32) -> String>(
    board: BoardView,
    token: Seq<char>,
    now_seconds: u64,
    format_test_run: F,
    response: McpResponseView,
)
    requires
        mcp_answers(board, token, None, now_seconds, format_test_run, response),
    ensures
        lets_in(board.token, token) ==> response.status == 400 && response.header is None
            && response.body is Some && is_error(
            response.body->0,
            JsonView::Null,
            -32700,
            "Parse error."@,
        ),
        !lets_in(board.token, token) ==> response.body is None && response.status == (
        if board.token is Some {
            401u16
        } else {
            404u16
        }),
{
    let asked = run_asked_of(board, token, None);
    let report = choose|report: Seq<char>| #[trigger]
        words_asked(format_test_run, asked, report) && response == mcp_reply(
            board,
            token,
            None,
            now_seconds,
            report,
        );
    law_what_a_post_is_told(board, token, None, now_seconds, report);
    law_the_body_is_the_reply(board.sessions, JsonView::Null, now_seconds, report);
}

/// The bytes of `Bearer `.
pub open spec fn scheme_bytes() -> Seq<u8> {
    seq![66u8, 101u8, 97u8, 114u8, 101u8, 114u8, 32u8]
}

/// Law: a header of `Bearer ` and then visible ASCII presents what follows, whole but for the
/// white space at its ends. One of another scheme, one with a byte that is no visible ASCII and
/// one that is not there present the empty token.
pub proof fn law_what_a_header_presents(value: Seq<u8>, token: Seq<char>, at: int)
    ensures
        value.len() == 7 + token.len() && value.take(7) == scheme_bytes() && (forall|i: int|
            0 <= i < token.len() ==> (32 <= #[trigger] token[i] as int <= 126 || token[i] as int
                == 9) && value[i + 7] as int == token[i] as int) ==> presented(Some(value))
            == trimmed(token),
        value.len() < 7 || value.take(7) != scheme_bytes() ==> presented(Some(value)).len() == 0,
        0 <= at < value.len() && (value[at] < 32 && value[at] != 9 || value[at] > 126)
            ==> presented(Some(value)).len() == 0,
        presented(None).len() == 0,
{
    reveal_strlit("Bearer ");
    let scheme = "Bearer "@;
    let text = ascii_text(value);
    assert(scheme.len() == 7);
    assert(scheme[0] == 'B' && scheme[1] == 'e' && scheme[2] == 'a' && scheme[3] == 'r');
    assert(scheme[4] == 'e' && scheme[5] == 'r' && scheme[6] == ' ');
    if forall|i: int| 0 <= i < value.len() ==> visible(#[trigger] value[i]) {
        assert forall|i: int| 0 <= i < text.len() implies text[i] as int
            == #[trigger] value[i] as int by {
            assert(visible(value[i]));
        }
        if scheme.is_prefix_of(text) {
            assert forall|i: int| 0 <= i < 7 implies value.take(7)[i] == scheme_bytes()[i] by {
                assert(text[i] == scheme[i]);
                assert(text[i] as int == value[i] as int);
            }
            assert(value.take(7) =~= scheme_bytes());
        }
    }
    if value.len() == 7 + token.len() && value.take(7) == scheme_bytes() && (forall|i: int|
        0 <= i < token.len() ==> (32 <= #[trigger] token[i] as int <= 126 || token[i] as int == 9)
            && value[i + 7] as int == token[i] as int) {
        assert forall|i: int| 0 <= i < value.len() implies visible(#[trigger] value[i]) by {
            if i < 7 {
                assert(value[i] == scheme_bytes()[i]);
            } else {
                assert(value[i] as int == token[i - 7] as int);
            }
        }
        assert forall|i: int| 0 <= i < 7 implies text[i] == #[trigger] scheme[i] by {
            assert(value[i] == scheme_bytes()[i]);
        }
        assert(text.take(7) =~= scheme);
        assert(scheme.is_prefix_of(text));
        assert forall|i: int| 0 <= i < token.len() implies text.skip(7)[i]
            == #[trigger] token[i] by {
            assert(value[i + 7] as int == token[i] as int);
            assert(text[i + 7] as int == token[i] as int);
        }
        assert(text.skip(7) =~= token);
    }
    if 0 <= at < value.len() && (value[at] < 32 && value[at] != 9 || value[at] > 126) {
        assert(!visible(value[at]));
    }
}

} // verus!
