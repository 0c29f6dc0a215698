//! What holds of every board and of every message.

use vstd::prelude::*;

use super::board::{configured, law_listing_exists, lets_in, listing, Sessions};
use super::rpc::{
    agreed_version, answers, code_text, content, joined, known_version, lemma_methods_differ,
    lemma_tools_differ, offers, params_of, picked, problem_text, reply, room_named, run_asked,
    run_asked_by, session_line, sessions_text, success, tool_answer, tool_named, tool_result,
    tool_results, words_alike, words_asked, words_run, PROTOCOL_VERSION,
};
use super::snapshot::{seen, SnapshotView};
use crate::agent::{Problem, RuntimeState};
use crate::json::{json_ref_view, Json, JsonView};
use crate::text::{blank, law_trimmed_empty_iff_blank, trimmed};

verus! {

/// Law: a blank token is not a token. A board that was given one lets nobody in, not even who
/// presents an empty token.
pub proof fn law_blank_token_opens_nothing(token: Seq<char>, presented: Seq<char>)
    requires
        blank(token),
    ensures
        configured(Some(token)) is None,
        !lets_in(configured(Some(token)), presented),
{
    law_trimmed_empty_iff_blank(token);
}

/// Law: a token that is not blank turns the route on, and lets in who presents it without
/// the white space at its ends.
pub proof fn law_token_lets_its_holder_in(token: Seq<char>)
    requires
        !blank(token),
    ensures
        configured(Some(token)) is Some,
        lets_in(configured(Some(token)), trimmed(token)),
{
    law_trimmed_empty_iff_blank(token);
}

/// Law: what was published last in a room is what the room shows, and every other room shows
/// what it did.
pub proof fn law_published_is_shown(
    sessions: Sessions,
    room: Seq<char>,
    first: SnapshotView,
    last: SnapshotView,
    other: Seq<char>,
)
    ensures
        picked(sessions.insert(room, first).insert(room, last), Some(room)) == Ok::<
            SnapshotView,
            Seq<char>,
        >(last),
        other != room ==> picked(sessions.insert(room, last), Some(other)) == picked(
            sessions,
            Some(other),
        ),
{
}

/// Whether `message` is a request, with the id `id`, to call the tool `name`.
pub open spec fn calls_tool(message: JsonView, id: JsonView, name: Seq<char>) -> bool {
    &&& message.field("id"@) == Some(id)
    &&& message.text_field("method"@) == Some("tools/call"@)
    &&& tool_named(params_of(message)) == name
}

/// Law: a mentor reads what was published last in the room that it names: the problem as
/// posed, the code, and the test run that the reply then words.
pub proof fn law_published_is_read(
    sessions: Sessions,
    room: Seq<char>,
    snapshot: SnapshotView,
    message: JsonView,
    id: JsonView,
    now_seconds: u64,
    report: Seq<char>,
)
    requires
        room_named(params_of(message)) == Some(room),
    ensures
        ({
            let answer = reply(sessions.insert(room, snapshot), message, now_seconds, report);
            let run = run_asked_by(sessions.insert(room, snapshot), message);
            &&& calls_tool(message, id, "get_problem"@) ==> answer == Some(
                success(id, tool_result(Ok(problem_text(snapshot)))),
            )
            &&& calls_tool(message, id, "get_code"@) ==> answer == Some(
                success(id, tool_result(Ok(code_text(snapshot)))),
            )
            &&& calls_tool(message, id, "get_test_results"@) ==> answer == Some(
                success(id, tool_result(Ok(report))),
            ) && run == Some((snapshot.last_test_run, snapshot.test_runs))
        }),
{
    lemma_methods_differ();
    lemma_tools_differ();
}

/// Lines that are put together hold each of them.
proof fn lemma_joined_holds(lines: Seq<Seq<char>>, at: int) -> (around: (Seq<char>, Seq<char>))
    requires
        0 <= at < lines.len(),
    ensures
        joined(lines) == around.0 + lines[at] + around.1,
    decreases lines.len(),
{
    if lines.len() == 1 {
        assert(joined(lines) =~= Seq::<char>::empty() + lines[at] + Seq::<char>::empty());
        (Seq::empty(), Seq::empty())
    } else if at == lines.len() - 1 {
        let head = joined(lines.take(lines.len() - 1)) + "\n"@;
        assert(joined(lines) =~= head + lines[at] + Seq::<char>::empty());
        (head, Seq::empty())
    } else {
        let rest = lines.take(lines.len() - 1);
        let around = lemma_joined_holds(rest, at);
        let tail = around.1 + "\n"@ + lines.last();
        assert(rest[at] == lines[at]);
        assert(joined(lines) =~= around.0 + lines[at] + tail);
        (around.0, tail)
    }
}

/// Whether `part` stands in `whole`.
pub open spec fn holds(whole: Seq<char>, part: Seq<char>) -> bool {
    exists|head: Seq<char>, tail: Seq<char>| whole == #[trigger] (head + part + tail)
}

/// Law: the listing of the live sessions tells of each of them: its room, its title, its
/// language and how long ago it was updated.
pub proof fn law_every_live_session_is_listed(
    sessions: Sessions,
    room: Seq<char>,
    now_seconds: u64,
)
    requires
        sessions.dom().finite(),
        sessions.contains_key(room),
    ensures
        holds(
            sessions_text(sessions, now_seconds),
            session_line(room, sessions[room], now_seconds),
        ),
{
    law_listing_exists(sessions);
    let listed = listing(sessions);
    let lines = listed.map_values(
        |entry: (Seq<char>, SnapshotView)| session_line(entry.0, entry.1, now_seconds),
    );
    let at = choose|i: int| 0 <= i < listed.len() && (#[trigger] listed[i]).0 == room;
    let around = lemma_joined_holds(lines, at);
    assert(lines[at] == session_line(room, sessions[room], now_seconds));
    assert(sessions_text(sessions, now_seconds) == around.0 + lines[at] + around.1);
}

/// Law: a finished interview takes its snapshot with it. Its room shows nothing, and every
/// message is answered as if the interview had never been published, whatever was published
/// in it.
pub proof fn law_finished_interview_is_gone(
    sessions: Sessions,
    room: Seq<char>,
    snapshot: SnapshotView,
    message: JsonView,
    now_seconds: u64,
    report: Seq<char>,
)
    ensures
        picked(sessions.insert(room, snapshot).remove(room), Some(room)) is Err,
        sessions.insert(room, snapshot).remove(room) == sessions.remove(room),
        !sessions.contains_key(room) ==> reply(
            sessions.insert(room, snapshot).remove(room),
            message,
            now_seconds,
            report,
        ) == reply(sessions, message, now_seconds, report),
{
    assert(sessions.insert(room, snapshot).remove(room) =~= sessions.remove(room));
    if !sessions.contains_key(room) {
        assert(sessions.remove(room) =~= sessions);
    }
}

/// Law: the room may be left out exactly when one session is live, and then that session is
/// meant.
pub proof fn law_room_left_out(sessions: Sessions, room: Seq<char>)
    requires
        sessions.dom().finite(),
    ensures
        picked(sessions, None) is Ok <==> sessions.len() == 1,
        sessions.len() == 1 && sessions.contains_key(room) ==> picked(sessions, None) == picked(
            sessions,
            Some(room),
        ),
{
    if sessions.len() == 1 && sessions.contains_key(room) {
        law_listing_exists(sessions);
        let listed = listing(sessions);
        let only = sessions.dom().choose();
        assert(sessions.dom().contains(room));
        assert(sessions.contains_key(only));
        let i = choose|i: int| 0 <= i < listed.len() && (#[trigger] listed[i]).0 == room;
        let j = choose|j: int| 0 <= j < listed.len() && (#[trigger] listed[j]).0 == only;
        assert(i == j);
    }
}

/// Law: while one session is live its room may be left out or named. Once another is published
/// the room has to be named, and then still means the first; once the other is over the room
/// may be left out again.
pub proof fn law_room_needed_while_two_are_live(
    sessions: Sessions,
    room: Seq<char>,
    other: Seq<char>,
    snapshot: SnapshotView,
)
    requires
        sessions.dom().finite(),
        sessions.len() == 1,
        sessions.contains_key(room),
        other != room,
    ensures
        ({
            let both = sessions.insert(other, snapshot);
            let only = Ok::<SnapshotView, Seq<char>>(sessions[room]);
            &&& picked(sessions, None) == only
            &&& picked(sessions, Some(room)) == only
            &&& picked(both, Some(room)) == only
            &&& picked(both, None) is Err
            &&& picked(both.remove(other), None) == only
        }),
{
    law_room_left_out(sessions, room);
    let both = sessions.insert(other, snapshot);
    if sessions.contains_key(other) {
        law_listing_exists(sessions);
        let listed = listing(sessions);
        let i = choose|i: int| 0 <= i < listed.len() && (#[trigger] listed[i]).0 == room;
        let j = choose|j: int| 0 <= j < listed.len() && (#[trigger] listed[j]).0 == other;
        assert(i == j);
    }
    assert(both.dom() =~= sessions.dom().insert(other));
    assert(both.remove(other) =~= sessions);
}

/// Law: a tool that reads the one live session, the room left out, shows its own part of it and
/// no more. The problem depends on the title and the brief alone, the code on the language and
/// the code, and the test results on the last run and the number of runs, which are what is
/// worded: neither on anything else the session holds, nor on its room, nor on the time.
pub proof fn law_tool_shows_its_part_alone(
    one: Sessions,
    room_one: Seq<char>,
    params_one: JsonView,
    now_one: u64,
    report_one: Seq<char>,
    other: Sessions,
    room_other: Seq<char>,
    params_other: JsonView,
    now_other: u64,
    report_other: Seq<char>,
)
    requires
        one.dom().finite() && one.len() == 1 && one.contains_key(room_one),
        other.dom().finite() && other.len() == 1 && other.contains_key(room_other),
        room_named(params_one) is None,
        room_named(params_other) is None,
        tool_named(params_one) == tool_named(params_other),
    ensures
        ({
            let name = tool_named(params_one);
            let (first, second) = (one[room_one], other[room_other]);
            let answer_one = tool_answer(one, params_one, now_one, report_one);
            let answer_other = tool_answer(other, params_other, now_other, report_other);
            &&& name == "get_problem"@ && first.title == second.title && first.brief
                == second.brief ==> answer_one == answer_other
            &&& name == "get_code"@ && first.language == second.language && first.code
                == second.code ==> answer_one == answer_other
            &&& name == "get_test_results"@ ==> answer_one == Ok::<Seq<char>, Seq<char>>(report_one)
                && answer_other == Ok::<Seq<char>, Seq<char>>(report_other) && run_asked(
                one,
                params_one,
            ) == Some((first.last_test_run, first.test_runs)) && run_asked(other, params_other)
                == Some((second.last_test_run, second.test_runs))
        }),
{
    lemma_tools_differ();
    law_room_left_out(one, room_one);
    law_room_left_out(other, room_other);
}

/// Whether the tool `name` shows the same of the two sessions.
pub open spec fn shows_alike(name: Seq<char>, first: SnapshotView, second: SnapshotView) -> bool {
    ||| name == "get_problem"@ && first.title == second.title && first.brief == second.brief
    ||| name == "get_code"@ && first.language == second.language && first.code == second.code
    ||| name == "get_test_results"@ && first.last_test_run == second.last_test_run
        && first.test_runs == second.test_runs
}

/// Law: two calls of one tool, the room left out, on boards with one live session each have one
/// result where the sessions agree on what that tool shows, and equal runs are worded equally.
pub proof fn law_tool_calls_agree<F: Fn(Option<&Json>, u32) -> String>(
    one: Sessions,
    room_one: Seq<char>,
    params_one: JsonView,
    now_one: u64,
    result_one: JsonView,
    other: Sessions,
    room_other: Seq<char>,
    params_other: JsonView,
    now_other: u64,
    result_other: JsonView,
    format_test_run: F,
)
    requires
        one.dom().finite() && one.len() == 1 && one.contains_key(room_one),
        other.dom().finite() && other.len() == 1 && other.contains_key(room_other),
        room_named(params_one) is None,
        room_named(params_other) is None,
        tool_named(params_one) == tool_named(params_other),
        shows_alike(tool_named(params_one), one[room_one], other[room_other]),
        tool_named(params_one) == "get_test_results"@ ==> words_alike(format_test_run),
        tool_results(one, params_one, now_one, format_test_run, result_one),
        tool_results(other, params_other, now_other, format_test_run, result_other),
    ensures
        result_one == result_other,
{
    let report_one = choose|report: Seq<char>| #[trigger]
        words_asked(format_test_run, run_asked(one, params_one), report) && result_one
            == tool_result(tool_answer(one, params_one, now_one, report));
    let report_other = choose|report: Seq<char>| #[trigger]
        words_asked(format_test_run, run_asked(other, params_other), report) && result_other
            == tool_result(tool_answer(other, params_other, now_other, report));
    law_tool_shows_its_part_alone(
        one,
        room_one,
        params_one,
        now_one,
        report_one,
        other,
        room_other,
        params_other,
        now_other,
        report_other,
    );
    lemma_tools_differ();
    if tool_named(params_one) == "get_test_results"@ {
        lemma_worded_once(
            format_test_run,
            one[room_one].last_test_run,
            one[room_one].test_runs,
            report_one,
            report_other,
        );
    }
}

/// Where equal runs are worded equally, a run is worded in one way.
proof fn lemma_worded_once<F: Fn(Option<&Json>, u32) -> String>(
    format_test_run: F,
    run: Option<JsonView>,
    runs: u32,
    one: Seq<char>,
    other: Seq<char>,
)
    requires
        words_alike(format_test_run),
        words_run(format_test_run, run, runs, one),
        words_run(format_test_run, run, runs, other),
    ensures
        one == other,
{
    let (given_one, text_one) = choose|given: Option<&Json>, text: String|
        json_ref_view(given) == run && text@ == one && #[trigger] call_ensures(
            format_test_run,
            (given, runs),
            text,
        );
    let (given_other, text_other) = choose|given: Option<&Json>, text: String|
        json_ref_view(given) == run && text@ == other && #[trigger] call_ensures(
            format_test_run,
            (given, runs),
            text,
        );
    assert(call_ensures(format_test_run, (given_one, runs), text_one));
    assert(call_ensures(format_test_run, (given_other, runs), text_other));
}

/// Law: a room that is not a text counts as a room left out, for every tool.
pub proof fn law_room_that_is_no_text_is_left_out<F: Fn(Option<&Json>, u32) -> String>(
    sessions: Sessions,
    given: JsonView,
    left_out: JsonView,
    now_seconds: u64,
    report: Seq<char>,
    format_test_run: F,
    result: JsonView,
)
    requires
        tool_named(given) == tool_named(left_out),
        given.field("arguments"@) matches Some(arguments) && arguments.field("room"@) matches Some(
            room,
        ) && room.text() is None,
        left_out.field("arguments"@) matches Some(arguments) ==> arguments.field("room"@) is None,
    ensures
        tool_answer(sessions, given, now_seconds, report) == tool_answer(
            sessions,
            left_out,
            now_seconds,
            report,
        ),
        run_asked(sessions, given) == run_asked(sessions, left_out),
        tool_results(sessions, given, now_seconds, format_test_run, result) <==> tool_results(
            sessions,
            left_out,
            now_seconds,
            format_test_run,
            result,
        ),
{
}

/// Law: the listing of the live sessions takes no arguments. Whatever stands among them, a text
/// for a room too, changes nothing.
pub proof fn law_listing_takes_no_arguments(
    sessions: Sessions,
    one: JsonView,
    other: JsonView,
    now_seconds: u64,
    report_one: Seq<char>,
    report_other: Seq<char>,
)
    requires
        tool_named(one) == "list_sessions"@,
        tool_named(other) == "list_sessions"@,
    ensures
        tool_answer(sessions, one, now_seconds, report_one) == tool_answer(
            sessions,
            other,
            now_seconds,
            report_other,
        ),
        run_asked(sessions, one) is None,
        run_asked(sessions, other) is None,
{
    lemma_tools_differ();
}

/// Law: the interviewer's half of a problem stays with the interviewer. Two problems that are
/// posed in the same words are shown alike, and every message about them is answered alike,
/// whatever their contracts, hints, clarifications and optimal approaches are.
pub proof fn law_interviewers_half_stays_hidden(
    one: Problem,
    other: Problem,
    state: RuntimeState,
    published: u64,
    sessions: Sessions,
    room: Seq<char>,
    message: JsonView,
    now_seconds: u64,
    report: Seq<char>,
)
    requires
        one.posed.title@ == other.posed.title@,
        one.posed.brief@ == other.posed.brief@,
    ensures
        seen(one, state, published) == seen(other, state, published),
        reply(
            sessions.insert(room, seen(one, state, published)),
            message,
            now_seconds,
            report,
        ) == reply(
            sessions.insert(room, seen(other, state, published)),
            message,
            now_seconds,
            report,
        ),
{
}

/// Law: a client is answered in a protocol revision that this server speaks, and in its own
/// if that is one.
pub proof fn law_agreed_version_is_known(requested: Option<Seq<char>>)
    ensures
        known_version(agreed_version(requested)),
        requested matches Some(version) ==> (known_version(version) <==> agreed_version(requested)
            == version),
        requested is None ==> agreed_version(requested) == PROTOCOL_VERSION@,
{
}

/// Law: a notification, and nothing else, gets no reply.
pub proof fn law_notification_gets_no_reply(
    sessions: Sessions,
    message: JsonView,
    now_seconds: u64,
    report: Seq<char>,
)
    ensures
        reply(sessions, message, now_seconds, report) is None <==> message is Object
            && message.field("id"@) is None,
{
}

/// The parts of a reply have names of their own.
proof fn lemma_parts_differ()
    ensures
        "jsonrpc"@ != "id"@,
        "jsonrpc"@ != "result"@,
        "jsonrpc"@ != "error"@,
        "id"@ != "result"@,
        "id"@ != "error"@,
        "result"@ != "error"@,
        "content"@ != "isError"@,
{
    reveal_strlit("jsonrpc");
    reveal_strlit("id");
    reveal_strlit("result");
    reveal_strlit("error");
    reveal_strlit("content");
    reveal_strlit("isError");
    assert("jsonrpc"@.len() == 7);
    assert("id"@.len() == 2);
    assert("result"@.len() == 6);
    assert("error"@.len() == 5);
    assert("content"@[0] == 'c' && "isError"@[0] == 'i');
}

/// Law: every reply is a JSON-RPC response: it names the protocol, carries the id of the
/// request, or a null where the message was no object, and either a result or an error.
pub proof fn law_reply_is_a_response(
    sessions: Sessions,
    message: JsonView,
    now_seconds: u64,
    report: Seq<char>,
)
    ensures
        reply(sessions, message, now_seconds, report) matches Some(response) ==> {
            &&& response.text_field("jsonrpc"@) == Some("2.0"@)
            &&& response.field("id"@) == Some(
                if message is Object {
                    message.field("id"@)->0
                } else {
                    JsonView::Null
                },
            )
            &&& response.field("result"@) is Some <==> response.field("error"@) is None
        },
{
    lemma_parts_differ();
}

/// The response with `id` for its id.
pub open spec fn with_id(response: JsonView, id: JsonView) -> JsonView {
    match response {
        JsonView::Object(fields) => JsonView::Object(fields.insert("id"@, id)),
        _ => response,
    }
}

/// Law: what a request is answered depends on its method and its parameters alone. Two requests
/// that agree on these get replies that differ in the id alone; neither the id, nor the
/// protocol that a request names, nor any further field changes what is answered.
pub proof fn law_reply_follows_method_and_params<F: Fn(Option<&Json>, u32) -> String>(
    sessions: Sessions,
    one: JsonView,
    other: JsonView,
    now_seconds: u64,
    report: Seq<char>,
    format_test_run: F,
    answer: Option<JsonView>,
)
    requires
        one.field("id"@) is Some,
        other.field("id"@) is Some,
        one.text_field("method"@) == other.text_field("method"@),
        params_of(one) == params_of(other),
    ensures
        run_asked_by(sessions, one) == run_asked_by(sessions, other),
        ({
            let first = reply(sessions, one, now_seconds, report);
            let second = reply(sessions, other, now_seconds, report);
            &&& first is Some
            &&& second == Some(with_id(first->0, other.field("id"@)->0))
            &&& forall|name: Seq<char>|
                name != "id"@ ==> (#[trigger] first->0.field(name)) == second->0.field(name)
        }),
        answers(sessions, one, now_seconds, format_test_run, answer) ==> answer is Some && answers(
            sessions,
            other,
            now_seconds,
            format_test_run,
            Some(with_id(answer->0, other.field("id"@)->0)),
        ),
{
    lemma_replies_differ_in_id(sessions, one, other, now_seconds, report);
    if answers(sessions, one, now_seconds, format_test_run, answer) {
        let told = choose|told: Seq<char>| #[trigger]
            words_asked(format_test_run, run_asked_by(sessions, one), told) && answer == reply(
                sessions,
                one,
                now_seconds,
                told,
            );
        lemma_replies_differ_in_id(sessions, one, other, now_seconds, told);
        assert(words_asked(format_test_run, run_asked_by(sessions, other), told));
    }
}

proof fn lemma_replies_differ_in_id(
    sessions: Sessions,
    one: JsonView,
    other: JsonView,
    now_seconds: u64,
    report: Seq<char>,
)
    requires
        one.field("id"@) is Some,
        other.field("id"@) is Some,
        one.text_field("method"@) == other.text_field("method"@),
        params_of(one) == params_of(other),
    ensures
        reply(sessions, one, now_seconds, report) is Some,
        reply(sessions, one, now_seconds, report)->0 is Object,
        reply(sessions, other, now_seconds, report) == Some(
            with_id(reply(sessions, one, now_seconds, report)->0, other.field("id"@)->0),
        ),
{
    lemma_parts_differ();
    let first = reply(sessions, one, now_seconds, report)->0;
    let second = reply(sessions, other, now_seconds, report)->0;
    assert(first is Object && second is Object);
    assert(second->Object_0 =~= first->Object_0.insert("id"@, other.field("id"@)->0));
}

/// Law: who asks again is answered the same. Answering leaves the board as it was, so one
/// message at one time has one answer, where equal runs are worded equally.
pub proof fn law_asking_again<F: Fn(Option<&Json>, u32) -> String>(
    sessions: Sessions,
    message: JsonView,
    now_seconds: u64,
    format_test_run: F,
    first: Option<JsonView>,
    second: Option<JsonView>,
)
    requires
        run_asked_by(sessions, message) is Some ==> words_alike(format_test_run),
        answers(sessions, message, now_seconds, format_test_run, first),
        answers(sessions, message, now_seconds, format_test_run, second),
    ensures
        first == second,
{
    let asked = run_asked_by(sessions, message);
    let one = choose|report: Seq<char>| #[trigger]
        words_asked(format_test_run, asked, report) && first == reply(
            sessions,
            message,
            now_seconds,
            report,
        );
    let other = choose|report: Seq<char>| #[trigger]
        words_asked(format_test_run, asked, report) && second == reply(
            sessions,
            message,
            now_seconds,
            report,
        );
    match asked {
        Some((run, runs)) => {
            lemma_worded_once(format_test_run, run, runs, one, other);
        },
        None => {
            law_report_is_told_only_when_asked(sessions, message, now_seconds, one, other);
        },
    }
}

/// Law: a request has a result exactly when this server has the method it asks for.
pub proof fn law_known_methods_have_results(
    sessions: Sessions,
    message: JsonView,
    now_seconds: u64,
    report: Seq<char>,
)
    requires
        message.field("id"@) is Some,
    ensures
        ({
            let method = message.text_field("method"@);
            reply(sessions, message, now_seconds, report)->0.field("result"@) is Some <==> (method
                == Some("initialize"@) || method == Some("ping"@) || method == Some("tools/list"@)
                || method == Some("tools/call"@))
        }),
{
    lemma_parts_differ();
}

/// Law: a tool call is never a JSON-RPC error. What a tool turns down is a result that says
/// so.
pub proof fn law_tool_call_has_a_result(
    sessions: Sessions,
    message: JsonView,
    now_seconds: u64,
    report: Seq<char>,
)
    requires
        message.field("id"@) is Some,
        message.text_field("method"@) == Some("tools/call"@),
    ensures
        ({
            let answer = tool_answer(sessions, params_of(message), now_seconds, report);
            let result = reply(sessions, message, now_seconds, report)->0.field("result"@)->0;
            &&& reply(sessions, message, now_seconds, report)->0.field("error"@) is None
            &&& result.field("isError"@) == (if answer is Err {
                Some(JsonView::Bool(true))
            } else {
                None
            })
            &&& result.field("content"@) == Some(
                content(
                    match answer {
                        Ok(text) => text,
                        Err(words) => words,
                    },
                ),
            )
        }),
{
    lemma_parts_differ();
    lemma_methods_differ();
}

/// Whether a tool of this name is on offer.
pub open spec fn offered(name: Seq<char>) -> bool {
    exists|i: int|
        0 <= i < offers().len() && (#[trigger] offers()[i]).text_field("name"@) == Some(name)
}

/// Law: the tools on offer are the tools there are. A tool on offer answers whenever it needs
/// no session or the call means one, and is otherwise turned down in the words that say which
/// session is missing; any other tool, and no tool on offer, is turned down as unknown.
pub proof fn law_offered_tools_answer(
    sessions: Sessions,
    params: JsonView,
    now_seconds: u64,
    report: Seq<char>,
)
    ensures
        ({
            let name = tool_named(params);
            let session = picked(sessions, room_named(params));
            let answer = tool_answer(sessions, params, now_seconds, report);
            let unknown = Err::<Seq<char>, Seq<char>>("Unknown tool: "@ + name);
            &&& offered(name) ==> (answer is Ok <==> name == "list_sessions"@ || session is Ok)
            &&& offered(name) && answer is Err ==> answer->Err_0 == session->Err_0
            &&& !offered(name) <==> answer == unknown
            &&& !offered(name) <==> tool_result(answer) == tool_result(unknown)
        }),
{
    lemma_tools_differ();
    lemma_missing_session_is_not_unknown(sessions, room_named(params), tool_named(params));
    lemma_results_differ(
        tool_answer(sessions, params, now_seconds, report),
        "Unknown tool: "@ + tool_named(params),
    );
    lemma_offered("list_sessions"@, 0);
    lemma_offered("get_problem"@, 1);
    lemma_offered("get_code"@, 2);
    lemma_offered("get_test_results"@, 3);
    let name = tool_named(params);
    if offered(name) {
        let i = choose|i: int|
            0 <= i < offers().len() && (#[trigger] offers()[i]).text_field("name"@) == Some(name);
        assert(i == 0 || i == 1 || i == 2 || i == 3);
    }
}

/// The words that say which session is missing are not those for an unknown tool.
proof fn lemma_missing_session_is_not_unknown(
    sessions: Sessions,
    room: Option<Seq<char>>,
    name: Seq<char>,
)
    ensures
        picked(sessions, room) is Err ==> picked(sessions, room)->Err_0 != "Unknown tool: "@ + name,
{
    reveal_strlit("Unknown tool: ");
    reveal_strlit("No live session named ");
    reveal_strlit("More than one session is live; pass room. Call list_sessions.");
    reveal_strlit("No CodeTrial session is live right now.");
    if picked(sessions, room) is Err {
        assert(("Unknown tool: "@ + name)[0] == 'U');
        let words = picked(sessions, room)->Err_0;
        assert(words[0] == 'N' || words[0] == 'M');
    }
}

/// Two tool calls that were answered differently have different results.
proof fn lemma_results_differ(answer: Result<Seq<char>, Seq<char>>, words: Seq<char>)
    ensures
        tool_result(answer) == tool_result(Err(words)) ==> answer == Err::<Seq<char>, Seq<char>>(
            words,
        ),
{
    lemma_parts_differ();
    reveal_strlit("type");
    reveal_strlit("text");
    assert("type"@[1] == 'y' && "text"@[1] == 'e');
    let one = tool_result(answer);
    let other = tool_result(Err(words));
    if one == other {
        let told = match answer {
            Ok(text) => text,
            Err(words) => words,
        };
        assert(other.field("isError"@) == Some(JsonView::Bool(true)));
        assert(one.field("content"@) == Some(content(told)));
        assert(other.field("content"@) == Some(content(words)));
        assert(content(told)->Array_0[0].text_field("text"@) == Some(told));
        assert(content(words)->Array_0[0].text_field("text"@) == Some(words));
    }
}

/// The `at`th tool on offer has the name it is offered under.
proof fn lemma_offered(name: Seq<char>, at: int)
    requires
        0 <= at < 4,
        at == 0 ==> name == "list_sessions"@,
        at == 1 ==> name == "get_problem"@,
        at == 2 ==> name == "get_code"@,
        at == 3 ==> name == "get_test_results"@,
    ensures
        offers()[at].text_field("name"@) == Some(name),
        offered(name),
{
    reveal_strlit("name");
    reveal_strlit("description");
    reveal_strlit("inputSchema");
    assert("name"@.len() == 4);
    assert("description"@.len() == 11);
    assert("inputSchema"@.len() == 11);
    assert(offers()[at].text_field("name"@) == Some(name));
}

/// Law: how a test run is worded matters to the reply to a message that asks for one, and to
/// no other.
pub proof fn law_report_is_told_only_when_asked(
    sessions: Sessions,
    message: JsonView,
    now_seconds: u64,
    one: Seq<char>,
    other: Seq<char>,
)
    requires
        run_asked_by(sessions, message) is None,
    ensures
        reply(sessions, message, now_seconds, one) == reply(sessions, message, now_seconds, other),
{
    lemma_methods_differ();
    lemma_tools_differ();
}

} // verus!
