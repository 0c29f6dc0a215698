//! What each tool tells a mentor.

use vstd::prelude::*;

use super::board::{law_one_listing, lists, Listing, Sessions};
use super::rpc::{
    code_text, content, elapsed, joined, lemma_tools_differ, picked, problem_text, room_named,
    run_asked, session_line, sessions_text, text_view, tool_answer, tool_named, tool_result,
    tool_results, words_asked,
};
use super::snapshot::{seen, SnapshotView};
use crate::agent::{Problem, RuntimeState};
use crate::json::{json_ref_view, Json, JsonView};
use crate::text::{
    blank, decimal, law_decimal_reads_back, law_trimmed_empty_iff_blank, reading, white_space,
};

verus! {

/// Law: code that is more than white space is shown whole, between a fence that names the
/// language. What stands before the code depends on the language alone, and what stands behind
/// it on nothing.
pub proof fn law_code_is_shown_whole(snapshot: SnapshotView, at: int)
    requires
        0 <= at < snapshot.code.len(),
        !white_space(snapshot.code[at]),
    ensures
        ({
            let (text, language, code) = (code_text(snapshot), snapshot.language, snapshot.code);
            let start: int = 16 + 2 * language.len() as int;
            &&& text.len() == start + code.len() + 4
            &&& text.subrange(start, start + code.len()) == code
            &&& text.take(start) == "Language: "@ + language + "\n\n```"@ + language + "\n"@
            &&& text.skip(start + code.len()) == "\n```"@
        }),
{
    law_trimmed_empty_iff_blank(snapshot.code);
    assert(!blank(snapshot.code));
    reveal_strlit("Language: ");
    reveal_strlit("\n\n```");
    reveal_strlit("\n");
    reveal_strlit("\n```");
    let (text, language, code) = (code_text(snapshot), snapshot.language, snapshot.code);
    let start: int = 16 + 2 * language.len() as int;
    assert(text.subrange(start, start + code.len()) =~= code);
    assert(text.take(start) =~= "Language: "@ + language + "\n\n```"@ + language + "\n"@);
    assert(text.skip(start + code.len()) =~= "\n```"@);
}

/// Law: different codes are told apart. Two sessions in one language whose code is more than
/// white space are shown alike only if their code is the same.
pub proof fn law_codes_are_told_apart(one: SnapshotView, other: SnapshotView, i: int, j: int)
    requires
        one.language == other.language,
        0 <= i < one.code.len() && !white_space(one.code[i]),
        0 <= j < other.code.len() && !white_space(other.code[j]),
        code_text(one) == code_text(other),
    ensures
        one.code == other.code,
{
    law_code_is_shown_whole(one, i);
    law_code_is_shown_whole(other, j);
}

/// Law: an editor that holds nothing but white space is told of as empty, with the language.
pub proof fn law_empty_editor_is_told(snapshot: SnapshotView)
    requires
        forall|i: int|
            0 <= i < snapshot.code.len() ==> white_space(#[trigger] snapshot.code[i]),
    ensures
        ({
            let (text, language) = (code_text(snapshot), snapshot.language);
            &&& text.len() == 32 + language.len()
            &&& text.take(31) == "The editor is empty. Language: "@
            &&& text.subrange(31, 31int + language.len()) == language
            &&& text[31int + language.len()] == '.'
        }),
{
    law_trimmed_empty_iff_blank(snapshot.code);
    assert(blank(snapshot.code));
    reveal_strlit("The editor is empty. Language: ");
    reveal_strlit(".");
    let (text, language) = (code_text(snapshot), snapshot.language);
    assert(text.take(31) =~= "The editor is empty. Language: "@);
    assert(text.subrange(31, 31int + language.len()) =~= language);
}

/// Law: the problem is shown whole: its title, a blank line, and its brief.
pub proof fn law_problem_is_shown_whole(snapshot: SnapshotView)
    ensures
        ({
            let (text, title) = (problem_text(snapshot), snapshot.title);
            &&& text.len() == title.len() + 2 + snapshot.brief.len()
            &&& text.take(title.len() as int) == title
            &&& text[title.len() as int] == '\n' && text[title.len() + 1int] == '\n'
            &&& text.skip(title.len() + 2int) == snapshot.brief
        }),
{
    reveal_strlit("\n\n");
    let (text, title) = (problem_text(snapshot), snapshot.title);
    assert(text.take(title.len() as int) =~= title);
    assert(text.skip(title.len() + 2int) =~= snapshot.brief);
}

/// Law: the seconds since an update bring its time to now. An update from the future was just
/// now, and the earlier of two updates is the longer ago.
pub proof fn law_seconds_since_an_update(now_seconds: u64, then: u64, later: u64)
    ensures
        then <= now_seconds ==> then + elapsed(now_seconds, then) == now_seconds,
        now_seconds < then ==> elapsed(now_seconds, then) == 0,
        then < later <= now_seconds ==> elapsed(now_seconds, then) > elapsed(now_seconds, later),
{
}

/// Law: the line of a session tells its room, its title, its language, and the number of
/// seconds that bring the time of its update to now, or zero where that lies ahead.
pub proof fn law_line_tells_of_its_session(
    room: Seq<char>,
    snapshot: SnapshotView,
    now_seconds: u64,
)
    ensures
        ({
            let line = session_line(room, snapshot, now_seconds);
            let (title, language) = (snapshot.title, snapshot.language);
            let start: int = room.len() + title.len() + language.len() + 14int;
            let digits = line.subrange(start, line.len() - 6);
            &&& start < line.len() - 6
            &&& line.take(start) == room + ": "@ + title + " ("@ + language + ", updated "@
            &&& line.skip(line.len() - 6) == "s ago)"@
            &&& digits == decimal(reading(digits) as nat)
            &&& snapshot.updated_at <= now_seconds ==> snapshot.updated_at + reading(digits)
                == now_seconds
            &&& snapshot.updated_at > now_seconds ==> reading(digits) == 0
        }),
{
    let line = session_line(room, snapshot, now_seconds);
    let (title, language) = (snapshot.title, snapshot.language);
    let start: int = room.len() + title.len() + language.len() + 14int;
    let n = elapsed(now_seconds, snapshot.updated_at);
    law_decimal_reads_back(n);
    reveal_strlit(": ");
    reveal_strlit(" (");
    reveal_strlit(", updated ");
    reveal_strlit("s ago)");
    assert(line.subrange(start, line.len() - 6) =~= decimal(n));
    assert(line.take(start) =~= room + ": "@ + title + " ("@ + language + ", updated "@);
    assert(line.skip(line.len() - 6) =~= "s ago)"@);
}

/// Law: lines stand one below the other, in their order. None make no text, one is the text,
/// and two texts of lines are put together with one line end between them.
pub proof fn law_lines_stand_one_below_the_other(above: Seq<Seq<char>>, below: Seq<Seq<char>>)
    ensures
        above.len() == 0 ==> joined(above) == Seq::<char>::empty(),
        above.len() == 1 ==> joined(above) == above[0],
        above.len() > 0 && below.len() > 0 ==> joined(above + below) == joined(above) + seq!['\n']
            + joined(below),
    decreases below.len(),
{
    reveal_strlit("\n");
    assert("\n"@ =~= seq!['\n']);
    let all = above + below;
    if above.len() > 0 && below.len() > 0 {
        let last = below[below.len() - 1];
        if below.len() == 1 {
            assert(all.take(all.len() - 1) =~= above);
        } else {
            let rest = below.take(below.len() - 1);
            law_lines_stand_one_below_the_other(above, rest);
            assert(all.take(all.len() - 1) =~= above + rest);
            assert(joined(all) =~= joined(above) + seq!['\n'] + joined(below));
        }
    }
}

/// Law: the live sessions are listed one to a line, in the order of their rooms, each with what
/// its room shows. Where none is live the listing says so.
pub proof fn law_sessions_are_listed_in_order(
    sessions: Sessions,
    entries: Listing,
    lines: Seq<Seq<char>>,
    now_seconds: u64,
)
    requires
        lists(entries, sessions),
        lines.len() == entries.len(),
        forall|i: int|
            0 <= i < lines.len() ==> #[trigger] lines[i] == session_line(
                entries[i].0,
                entries[i].1,
                now_seconds,
            ),
    ensures
        entries.len() > 0 ==> sessions_text(sessions, now_seconds) == joined(lines),
        entries.len() == 0 ==> sessions_text(sessions, now_seconds)
            == "No CodeTrial session is live right now."@,
{
    law_one_listing(entries, entries, sessions);
    let mapped = entries.map_values(
        |entry: (Seq<char>, SnapshotView)| session_line(entry.0, entry.1, now_seconds),
    );
    assert(mapped =~= lines);
}

/// Law: a lone session is listed in one line.
pub proof fn law_lone_session_is_listed(room: Seq<char>, snapshot: SnapshotView, now_seconds: u64)
    ensures
        sessions_text(Map::empty().insert(room, snapshot), now_seconds) == session_line(
            room,
            snapshot,
            now_seconds,
        ),
        sessions_text(Map::empty(), now_seconds) == "No CodeTrial session is live right now."@,
{
    let none: Sessions = Map::empty();
    let lone = none.insert(room, snapshot);
    let entries: Listing = seq![(room, snapshot)];
    assert(entries[0].0 == room);
    assert(lists(entries, lone));
    law_sessions_are_listed_in_order(
        lone,
        entries,
        seq![session_line(room, snapshot, now_seconds)],
        now_seconds,
    );
    assert(lists(Seq::empty(), none));
    law_sessions_are_listed_in_order(none, Seq::empty(), Seq::empty(), now_seconds);
}

/// Law: a call that names a room means the session live there, and is turned down by name where
/// none is. One that names no room means the only session live, and is turned down where none
/// is, or two are.
pub proof fn law_the_session_that_is_meant(
    sessions: Sessions,
    room: Seq<char>,
    other: Seq<char>,
    snapshot: SnapshotView,
)
    requires
        sessions.dom().finite(),
    ensures
        sessions.dom().contains(room) ==> picked(sessions, Some(room)) == Ok::<
            SnapshotView,
            Seq<char>,
        >(sessions[room]),
        !sessions.dom().contains(room) ==> picked(sessions, Some(room)) == Err::<
            SnapshotView,
            Seq<char>,
        >("No live session named "@ + room + ". Call list_sessions."@),
        picked(Map::empty().insert(room, snapshot), None) == Ok::<SnapshotView, Seq<char>>(
            snapshot,
        ),
        sessions.dom().contains(room) && sessions.dom().contains(other) && room != other ==> picked(
            sessions,
            None,
        ) == Err::<SnapshotView, Seq<char>>(
            "More than one session is live; pass room. Call list_sessions."@,
        ),
        picked(Map::empty(), None) == Err::<SnapshotView, Seq<char>>(
            "No CodeTrial session is live right now."@,
        ),
{
    let none: Sessions = Map::empty();
    let lone = none.insert(room, snapshot);
    assert(lone.dom() =~= none.dom().insert(room));
    assert(lone.dom().contains(lone.dom().choose())) by {
        assert(lone.dom().contains(room));
    }
    assert(none.dom() =~= Set::<Seq<char>>::empty());
    if sessions.dom().contains(room) && sessions.dom().contains(other) && room != other {
        let rest = sessions.dom().remove(room);
        assert(rest.contains(other));
        assert(rest.len() > 0) by {
            if rest.len() == 0 {
                assert(rest =~= Set::<Seq<char>>::empty());
            }
        }
    }
}

/// Law: a text that may be missing is the text it holds where it is there.
pub proof fn law_a_text_is_what_it_holds(text: &str)
    ensures
        text_view(Some(text)) == Some(text@),
        text_view(None) == None::<Seq<char>>,
{
}

/// Law: the tool that a call names is the string under `name`, whatever it is, and the empty
/// one where there is no string. The room that it names is the string under `room` among its
/// arguments, whatever it is, and none where there is no string.
pub proof fn law_what_a_call_names(
    params: JsonView,
    fields: Map<Seq<char>, JsonView>,
    arguments: Map<Seq<char>, JsonView>,
    text: Seq<char>,
)
    ensures
        params !is Object ==> tool_named(params) == Seq::<char>::empty() && room_named(
            params,
        ) is None,
        params == JsonView::Object(fields) ==> {
            let (named, given) = (fields.dom().contains("name"@), fields["name"@]);
            &&& named && given == JsonView::String(text) ==> tool_named(params) == text
            &&& !named || given !is String ==> tool_named(params) == Seq::<char>::empty()
            &&& !fields.dom().contains("arguments"@) || fields["arguments"@] !is Object
                ==> room_named(params) is None
        },
        params == JsonView::Object(fields) && fields.dom().contains("arguments"@)
            && fields["arguments"@] == JsonView::Object(arguments) ==> {
            let (named, given) = (arguments.dom().contains("room"@), arguments["room"@]);
            &&& named && given == JsonView::String(text) ==> room_named(params) == Some(text)
            &&& !named || given !is String ==> room_named(params) is None
        },
{
}

/// Law: each tool answers with what it is for. A tool that reads a session tells of the one that
/// is meant, or passes on why none is; a tool there is not is turned down by its name.
pub proof fn law_what_each_tool_answers(
    sessions: Sessions,
    fields: Map<Seq<char>, JsonView>,
    name: Seq<char>,
    now_seconds: u64,
    report: Seq<char>,
)
    requires
        fields.dom().contains("name"@),
        fields["name"@] == JsonView::String(name),
    ensures
        ({
            let params = JsonView::Object(fields);
            let session = picked(sessions, room_named(params));
            let answer = tool_answer(sessions, params, now_seconds, report);
            let reads = name == "get_problem"@ || name == "get_code"@ || name
                == "get_test_results"@;
            &&& name == "list_sessions"@ ==> answer == Ok::<Seq<char>, Seq<char>>(
                sessions_text(sessions, now_seconds),
            )
            &&& reads ==> (answer is Ok <==> session is Ok)
            &&& reads && session is Err ==> answer->Err_0 == session->Err_0
            &&& name == "get_problem"@ && session is Ok ==> answer->Ok_0 == problem_text(
                session->Ok_0,
            )
            &&& name == "get_code"@ && session is Ok ==> answer->Ok_0 == code_text(session->Ok_0)
            &&& name == "get_test_results"@ && session is Ok ==> answer->Ok_0 == report
            &&& name != "list_sessions"@ && !reads ==> answer == Err::<Seq<char>, Seq<char>>(
                "Unknown tool: "@ + name,
            )
        }),
{
    lemma_tools_differ();
}

/// Whether a tool result says `text`, and no more, and whether it says so as an error.
pub open spec fn says(result: JsonView, refused: bool, text: Seq<char>) -> bool {
    &&& result is Object
    &&& result->Object_0.dom() =~= if refused {
        set!["content"@, "isError"@]
    } else {
        set!["content"@]
    }
    &&& refused ==> result->Object_0["isError"@] == JsonView::Bool(true)
    &&& result->Object_0["content"@] is Array
    &&& result->Object_0["content"@]->Array_0.len() == 1
    &&& {
        let block = result->Object_0["content"@]->Array_0[0];
        &&& block is Object
        &&& block->Object_0.dom() =~= set!["type"@, "text"@]
        &&& block->Object_0["type"@] == JsonView::String("text"@)
        &&& block->Object_0["text"@] == JsonView::String(text)
    }
}

/// Law: the result of a tool call says the answer, and says it as an error exactly where the
/// call was turned down.
pub proof fn law_a_result_says_the_answer(answer: Result<Seq<char>, Seq<char>>)
    ensures
        answer matches Ok(text) ==> says(tool_result(answer), false, text),
        answer matches Err(words) ==> says(tool_result(answer), true, words),
{
    reveal_strlit("content");
    reveal_strlit("isError");
    reveal_strlit("type");
    reveal_strlit("text");
    assert("content"@[0] == 'c' && "isError"@[0] == 'i');
    assert("type"@[1] == 'y' && "text"@[1] == 'e');
    let text = match answer {
        Ok(text) => text,
        Err(words) => words,
    };
    assert(content(text)->Array_0[0]->Object_0.dom() =~= set!["type"@, "text"@]);
    assert(tool_result(answer)->Object_0.dom() =~= if answer is Err {
        set!["content"@, "isError"@]
    } else {
        set!["content"@]
    });
}

/// Law: only a call for the test results of a session that is meant has a run worded, and it is
/// the last run of that session, with its number of runs.
pub proof fn law_the_run_that_is_asked_for(
    sessions: Sessions,
    fields: Map<Seq<char>, JsonView>,
    name: Seq<char>,
)
    requires
        fields.dom().contains("name"@),
        fields["name"@] == JsonView::String(name),
    ensures
        ({
            let params = JsonView::Object(fields);
            let session = picked(sessions, room_named(params));
            let asked = run_asked(sessions, params);
            &&& name == "get_test_results"@ && session is Ok ==> asked == Some(
                (session->Ok_0.last_test_run, session->Ok_0.test_runs),
            )
            &&& name != "get_test_results"@ || session is Err ==> asked is None
        }),
{
}

/// Whether `report` is what `format_test_run` may say of a run that is `run`, the last of `runs`.
pub open spec fn may_word<F: Fn(Option<&Json>, u32) -> String>(
    format_test_run: F,
    run: Option<JsonView>,
    runs: u32,
    report: Seq<char>,
) -> bool {
    exists|given: Option<&Json>, text: String| #[trigger]
        call_ensures(format_test_run, (given, runs), text) && text@ == report && (given is Some
            <==> run is Some) && (given is Some ==> run == Some(given->0@))
}

/// Law: a run is worded by handing it, and how many there were, to whoever words runs, and by
/// taking what came back as it is. Where no run is asked for nothing is worded.
pub proof fn law_a_run_is_worded_as_it_is<F: Fn(Option<&Json>, u32) -> String>(
    format_test_run: F,
    run: Option<JsonView>,
    runs: u32,
    report: Seq<char>,
)
    ensures
        words_asked(format_test_run, Some((run, runs)), report) <==> may_word(
            format_test_run,
            run,
            runs,
            report,
        ),
        words_asked(format_test_run, None, report),
{
    if words_asked(format_test_run, Some((run, runs)), report) {
        let (given, text) = choose|given: Option<&Json>, text: String|
            json_ref_view(given) == run && text@ == report && #[trigger] call_ensures(
                format_test_run,
                (given, runs),
                text,
            );
        assert(call_ensures(format_test_run, (given, runs), text));
    }
    if may_word(format_test_run, run, runs, report) {
        let (given, text) = choose|given: Option<&Json>, text: String| #[trigger]
            call_ensures(format_test_run, (given, runs), text) && text@ == report && (given is Some
                <==> run is Some) && (given is Some ==> run == Some(given->0@));
        assert(json_ref_view(given) == run);
    }
}

/// Whether `result` is what the tool `name` has to say of a session: the problem, the code, or
/// the last run as it is worded.
pub open spec fn tells_of<F: Fn(Option<&Json>, u32) -> String>(
    result: JsonView,
    name: Seq<char>,
    snapshot: SnapshotView,
    format_test_run: F,
) -> bool {
    &&& name == "get_problem"@ ==> says(result, false, problem_text(snapshot))
    &&& name == "get_code"@ ==> says(result, false, code_text(snapshot))
    &&& name == "get_test_results"@ ==> exists|report: Seq<char>| #[trigger]
        may_word(format_test_run, snapshot.last_test_run, snapshot.test_runs, report) && says(
            result,
            false,
            report,
        )
}

/// What a call results in: the session that is meant, told of by the tool, or the words that
/// say why none is.
proof fn lemma_call_tells<F: Fn(Option<&Json>, u32) -> String>(
    sessions: Sessions,
    fields: Map<Seq<char>, JsonView>,
    name: Seq<char>,
    now_seconds: u64,
    format_test_run: F,
    result: JsonView,
)
    requires
        fields.dom().contains("name"@),
        fields["name"@] == JsonView::String(name),
        name == "get_problem"@ || name == "get_code"@ || name == "get_test_results"@,
        tool_results(sessions, JsonView::Object(fields), now_seconds, format_test_run, result),
    ensures
        ({
            let session = picked(sessions, room_named(JsonView::Object(fields)));
            &&& session matches Ok(snapshot) ==> tells_of(result, name, snapshot, format_test_run)
            &&& session matches Err(words) ==> says(result, true, words)
        }),
{
    let params = JsonView::Object(fields);
    let report = choose|report: Seq<char>| #[trigger]
        words_asked(format_test_run, run_asked(sessions, params), report) && result == tool_result(
            tool_answer(sessions, params, now_seconds, report),
        );
    law_what_each_tool_answers(sessions, fields, name, now_seconds, report);
    law_a_result_says_the_answer(tool_answer(sessions, params, now_seconds, report));
    law_the_run_that_is_asked_for(sessions, fields, name);
    lemma_tools_differ();
    if let Ok(snapshot) = picked(sessions, room_named(params)) {
        law_a_run_is_worded_as_it_is(
            format_test_run,
            snapshot.last_test_run,
            snapshot.test_runs,
            report,
        );
    }
}

/// Law: a call that names a room reads that room and no other, whatever its name and whatever
/// else is live. Where the room is not live the call is turned down, in words that name it.
pub proof fn law_the_named_room_is_read<F: Fn(Option<&Json>, u32) -> String>(
    sessions: Sessions,
    fields: Map<Seq<char>, JsonView>,
    arguments: Map<Seq<char>, JsonView>,
    name: Seq<char>,
    room: Seq<char>,
    now_seconds: u64,
    format_test_run: F,
    result: JsonView,
)
    requires
        fields.dom().contains("name"@),
        fields["name"@] == JsonView::String(name),
        fields.dom().contains("arguments"@),
        fields["arguments"@] == JsonView::Object(arguments),
        arguments.dom().contains("room"@),
        arguments["room"@] == JsonView::String(room),
        name == "get_problem"@ || name == "get_code"@ || name == "get_test_results"@,
        tool_results(sessions, JsonView::Object(fields), now_seconds, format_test_run, result),
    ensures
        sessions.dom().contains(room) ==> tells_of(result, name, sessions[room], format_test_run),
        !sessions.dom().contains(room) ==> says(
            result,
            true,
            "No live session named "@ + room + ". Call list_sessions."@,
        ),
{
    lemma_call_tells(sessions, fields, name, now_seconds, format_test_run, result);
    law_what_a_call_names(JsonView::Object(fields), fields, arguments, room);
}

/// Law: a call that names no room reads the session live where it is the only one.
pub proof fn law_the_lone_room_is_read<F: Fn(Option<&Json>, u32) -> String>(
    room: Seq<char>,
    snapshot: SnapshotView,
    fields: Map<Seq<char>, JsonView>,
    name: Seq<char>,
    now_seconds: u64,
    format_test_run: F,
    result: JsonView,
)
    requires
        fields.dom().contains("name"@),
        fields["name"@] == JsonView::String(name),
        !fields.dom().contains("arguments"@) || (fields["arguments"@] matches JsonView::Object(
            arguments,
        ) ==> !arguments.dom().contains("room"@) || arguments["room"@] !is String),
        name == "get_problem"@ || name == "get_code"@ || name == "get_test_results"@,
        tool_results(
            Map::empty().insert(room, snapshot),
            JsonView::Object(fields),
            now_seconds,
            format_test_run,
            result,
        ),
    ensures
        tells_of(result, name, snapshot, format_test_run),
{
    let sessions: Sessions = Map::empty().insert(room, snapshot);
    lemma_call_tells(sessions, fields, name, now_seconds, format_test_run, result);
    law_the_session_that_is_meant(sessions, room, room, snapshot);
    assert(room_named(JsonView::Object(fields)) is None);
}

/// Law: a tool call for the listing says how the live sessions are listed, and one for a tool
/// there is not is turned down by its name.
pub proof fn law_the_other_calls<F: Fn(Option<&Json>, u32) -> String>(
    sessions: Sessions,
    fields: Map<Seq<char>, JsonView>,
    name: Seq<char>,
    now_seconds: u64,
    format_test_run: F,
    result: JsonView,
)
    requires
        fields.dom().contains("name"@),
        fields["name"@] == JsonView::String(name),
        tool_results(sessions, JsonView::Object(fields), now_seconds, format_test_run, result),
    ensures
        name == "list_sessions"@ ==> says(result, false, sessions_text(sessions, now_seconds)),
        name != "list_sessions"@ && name != "get_problem"@ && name != "get_code"@ && name
            != "get_test_results"@ ==> says(result, true, "Unknown tool: "@ + name),
{
    let params = JsonView::Object(fields);
    let report = choose|report: Seq<char>| #[trigger]
        words_asked(format_test_run, run_asked(sessions, params), report) && result == tool_result(
            tool_answer(sessions, params, now_seconds, report),
        );
    law_what_each_tool_answers(sessions, fields, name, now_seconds, report);
    law_a_result_says_the_answer(tool_answer(sessions, params, now_seconds, report));
}

/// Law: a call without a string for its name is turned down as a tool without a name.
pub proof fn law_a_call_without_a_name<F: Fn(Option<&Json>, u32) -> String>(
    sessions: Sessions,
    params: JsonView,
    now_seconds: u64,
    format_test_run: F,
    result: JsonView,
)
    requires
        params matches JsonView::Object(fields) ==> !fields.dom().contains("name"@)
            || fields["name"@] !is String,
        tool_results(sessions, params, now_seconds, format_test_run, result),
    ensures
        says(result, true, "Unknown tool: "@),
{
    reveal_strlit("list_sessions");
    reveal_strlit("get_problem");
    reveal_strlit("get_code");
    reveal_strlit("get_test_results");
    let report = choose|report: Seq<char>| #[trigger]
        words_asked(format_test_run, run_asked(sessions, params), report) && result == tool_result(
            tool_answer(sessions, params, now_seconds, report),
        );
    assert(tool_named(params) == Seq::<char>::empty());
    assert("Unknown tool: "@ + Seq::<char>::empty() =~= "Unknown tool: "@);
    law_a_result_says_the_answer(tool_answer(sessions, params, now_seconds, report));
}

/// Law: what an interviewer publishes is what a mentor reads there, as the interview stood then:
/// the code it had come to whole, and its last test run and number of runs, whatever the code.
pub proof fn law_the_published_state_is_read<F: Fn(Option<&Json>, u32) -> String>(
    sessions: Sessions,
    room: Seq<char>,
    problem: Problem,
    state: RuntimeState,
    published: u64,
    fields: Map<Seq<char>, JsonView>,
    arguments: Map<Seq<char>, JsonView>,
    name: Seq<char>,
    now_seconds: u64,
    format_test_run: F,
    result: JsonView,
)
    requires
        fields.dom().contains("name"@),
        fields["name"@] == JsonView::String(name),
        fields.dom().contains("arguments"@),
        fields["arguments"@] == JsonView::Object(arguments),
        arguments.dom().contains("room"@),
        arguments["room"@] == JsonView::String(room),
        tool_results(
            sessions.insert(room, seen(problem, state, published)),
            JsonView::Object(fields),
            now_seconds,
            format_test_run,
            result,
        ),
    ensures
        name == "get_test_results"@ ==> exists|given: Option<&Json>, text: String| #[trigger]
            call_ensures(format_test_run, (given, state.test_runs), text) && says(
                result,
                false,
                text@,
            ) && (given is Some <==> state.last_test_run is Some) && (given is Some ==> given->0@
                == state.last_test_run->0@),
        name == "get_code"@ && (exists|i: int|
            0 <= i < state.code@.len() && !white_space(#[trigger] state.code@[i])) ==> exists|
            head: Seq<char>,
            tail: Seq<char>,
        | says(result, false, #[trigger] (head + state.code@ + tail)),
        name == "get_problem"@ ==> says(
            result,
            false,
            problem.posed.title@ + seq!['\n', '\n'] + problem.posed.brief@,
        ),
{
    let all = sessions.insert(room, seen(problem, state, published));
    let snapshot = seen(problem, state, published);
    if name == "get_test_results"@ || name == "get_code"@ || name == "get_problem"@ {
        law_the_named_room_is_read(
            all,
            fields,
            arguments,
            name,
            room,
            now_seconds,
            format_test_run,
            result,
        );
    }
    if name == "get_test_results"@ {
        let report = choose|report: Seq<char>| #[trigger]
            may_word(format_test_run, snapshot.last_test_run, snapshot.test_runs, report) && says(
                result,
                false,
                report,
            );
        let (given, text) = choose|given: Option<&Json>, text: String| #[trigger]
            call_ensures(format_test_run, (given, snapshot.test_runs), text) && text@ == report && (
            given is Some <==> snapshot.last_test_run is Some) && (given is Some
                ==> snapshot.last_test_run == Some(given->0@));
        assert(call_ensures(format_test_run, (given, state.test_runs), text));
    }
    if name == "get_code"@ && (exists|i: int|
        0 <= i < state.code@.len() && !white_space(#[trigger] state.code@[i])) {
        let i = choose|i: int|
            0 <= i < state.code@.len() && !white_space(#[trigger] state.code@[i]);
        law_code_is_shown_whole(snapshot, i);
        let text = code_text(snapshot);
        let start: int = 16 + 2 * snapshot.language.len() as int;
        let head = text.take(start);
        let tail = text.skip(start + snapshot.code.len());
        assert(text =~= head + state.code@ + tail);
    }
    if name == "get_problem"@ {
        reveal_strlit("\n\n");
        assert(problem_text(snapshot) =~= problem.posed.title@ + seq!['\n', '\n']
            + problem.posed.brief@);
    }
}

/// Law: of two live sessions updated at different times up to now, the one that was updated
/// earlier is listed with the larger number of seconds.
pub proof fn law_earlier_updates_are_longer_ago(
    room: Seq<char>,
    one: SnapshotView,
    other_room: Seq<char>,
    other: SnapshotView,
    now_seconds: u64,
)
    requires
        one.updated_at < other.updated_at <= now_seconds,
    ensures
        ({
            let line = session_line(room, one, now_seconds);
            let later = session_line(other_room, other, now_seconds);
            let start: int = room.len() + one.title.len() + one.language.len() + 14int;
            let later_start: int = other_room.len() + other.title.len() + other.language.len()
                + 14int;
            reading(line.subrange(start, line.len() - 6)) > reading(
                later.subrange(later_start, later.len() - 6),
            )
        }),
{
    law_line_tells_of_its_session(room, one, now_seconds);
    law_line_tells_of_its_session(other_room, other, now_seconds);
}

} // verus!
