//! The JSON-RPC messages of a mentor and what each is answered.

use vstd::prelude::*;

use super::board::{law_listing_exists, listing, listing_of, lists, MentorBoard, Sessions};
use super::snapshot::{Snapshot, SnapshotView};
use crate::json::{json_ref_view, json_view, Fields, Items, Json, JsonView, Number};
use crate::text::{decimal, decimal_text, same_text, trim, trimmed};

verus! {

/// The protocol revision this server answers in when the client asks for one it does not
/// know. Tools are all it offers, and they have not changed shape across the revisions a
/// client is likely to send.
pub const PROTOCOL_VERSION: &'static str = "2025-06-18";

/// The version of this server.
pub const SERVER_VERSION: &'static str = "0.1.0";

/// The error code of a message that is not a request.
pub const INVALID_REQUEST: i64 = -32600;

/// The error code of a request for a method there is not.
pub const METHOD_NOT_FOUND: i64 = -32601;

/// The reply that carries a result.
pub open spec fn success(id: JsonView, result: JsonView) -> JsonView {
    JsonView::Object(
        map![
            "jsonrpc"@ => JsonView::String("2.0"@),
            "id"@ => id,
            "result"@ => result,
        ],
    )
}

/// The reply that carries an error.
pub open spec fn failure(id: JsonView, code: int, message: Seq<char>) -> JsonView {
    JsonView::Object(
        map![
            "jsonrpc"@ => JsonView::String("2.0"@),
            "id"@ => id,
            "error"@ => JsonView::Object(map![
                "code"@ => JsonView::Number(Number::whole(code)),
                "message"@ => JsonView::String(message),
            ]),
        ],
    )
}

/// The reply that carries a result.
fn rpc_result(id: Json, result: Json) -> (res: Json)
    ensures
        res@ == success(id@, result@),
{
    Fields::new().with("jsonrpc", Json::text("2.0")).with("id", id).with("result", result).object()
}

/// The reply that carries an error.
pub(crate) fn rpc_error(id: Json, code: i64, message: &str) -> (res: Json)
    ensures
        res@ == failure(id@, code as int, message@),
{
    let error = Fields::new().with("code", Json::whole(code)).with(
        "message",
        Json::text(message),
    ).object();
    Fields::new().with("jsonrpc", Json::text("2.0")).with("id", id).with("error", error).object()
}

/// Whether this server speaks the protocol revision `version`.
pub open spec fn known_version(version: Seq<char>) -> bool {
    version == "2024-11-05"@ || version == "2025-03-26"@ || version == "2025-06-18"@
}

/// The protocol revision that a client which asks for `requested` is answered in.
pub open spec fn agreed_version(requested: Option<Seq<char>>) -> Seq<char> {
    match requested {
        Some(version) => if known_version(version) {
            version
        } else {
            PROTOCOL_VERSION@
        },
        None => PROTOCOL_VERSION@,
    }
}

/// What a client is told when it introduces itself.
pub open spec fn introduction(params: JsonView) -> JsonView {
    JsonView::Object(
        map![
            "protocolVersion"@ => JsonView::String(
                agreed_version(params.text_field("protocolVersion"@)),
            ),
            "capabilities"@ => JsonView::Object(map!["tools"@ => JsonView::Object(Map::empty())]),
            "serverInfo"@ => JsonView::Object(map![
                "name"@ => JsonView::String("codetrial"@),
                "version"@ => JsonView::String(SERVER_VERSION@),
            ]),
            "instructions"@ => JsonView::String(
                "Read a CodeTrial candidate's live practice session: the problem as posed, their code and their test runs."@,
            ),
        ],
    )
}

/// What a client is told when it introduces itself.
fn initialize(params: &Json) -> (res: Json)
    ensures
        res@ == introduction(params@),
{
    let requested = match params.get("protocolVersion") {
        Some(version) => version.as_str(),
        None => None,
    };
    let version = match requested {
        Some(version) => if same_text(version, "2024-11-05") || same_text(version, "2025-03-26")
            || same_text(version, "2025-06-18") {
            version
        } else {
            PROTOCOL_VERSION
        },
        None => PROTOCOL_VERSION,
    };
    let tools = Fields::new().with("tools", Fields::new().object()).object();
    let server = Fields::new().with("name", Json::text("codetrial")).with(
        "version",
        Json::text(SERVER_VERSION),
    ).object();
    Fields::new().with("protocolVersion", Json::text(version)).with("capabilities", tools).with(
        "serverInfo",
        server,
    ).with(
        "instructions",
        Json::text(
            "Read a CodeTrial candidate's live practice session: the problem as posed, their code and their test runs.",
        ),
    ).object()
}

/// How a tool is offered.
pub open spec fn offer(name: Seq<char>, description: Seq<char>, schema: JsonView) -> JsonView {
    JsonView::Object(
        map![
            "name"@ => JsonView::String(name),
            "description"@ => JsonView::String(description),
            "inputSchema"@ => schema,
        ],
    )
}

/// The schema of a tool's arguments.
pub open spec fn schema(properties: JsonView) -> JsonView {
    JsonView::Object(map!["type"@ => JsonView::String("object"@), "properties"@ => properties])
}

/// The schema of the arguments of a tool that reads one session.
pub open spec fn room_schema() -> JsonView {
    schema(
        JsonView::Object(
            map![
                "room"@ => JsonView::Object(map![
                    "type"@ => JsonView::String("string"@),
                    "description"@ => JsonView::String(
                        "The session to read, from list_sessions. May be left out when exactly one session is live."@,
                    ),
                ]),
            ],
        ),
    )
}

/// The tools on offer.
pub open spec fn offers() -> Seq<JsonView> {
    seq![
        offer(
            "list_sessions"@,
            "List the CodeTrial sessions that are live right now."@,
            schema(JsonView::Object(Map::empty())),
        ),
        offer(
            "get_problem"@,
            "The problem the candidate is solving, as it was posed to them."@,
            room_schema(),
        ),
        offer(
            "get_code"@,
            "The candidate's current code and the language it is in."@,
            room_schema(),
        ),
        offer(
            "get_test_results"@,
            "The candidate's most recent test run. Tests run when the candidate presses Run, not when this is called."@,
            room_schema(),
        ),
    ]
}

fn tool(name: &str, description: &str, schema: Json) -> (res: Json)
    ensures
        res@ == offer(name@, description@, schema@),
{
    Fields::new().with("name", Json::text(name)).with("description", Json::text(description)).with(
        "inputSchema",
        schema,
    ).object()
}

fn arguments(properties: Json) -> (res: Json)
    ensures
        res@ == schema(properties@),
{
    Fields::new().with("type", Json::text("object")).with("properties", properties).object()
}

fn room_arguments() -> (res: Json)
    ensures
        res@ == room_schema(),
{
    let room = Fields::new().with("type", Json::text("string")).with(
        "description",
        Json::text(
            "The session to read, from list_sessions. May be left out when exactly one session is live.",
        ),
    ).object();
    arguments(Fields::new().with("room", room).object())
}

/// The tools on offer.
pub fn tool_definitions() -> (res: Json)
    ensures
        res@ == JsonView::Array(offers()),
{
    let list_sessions = tool(
        "list_sessions",
        "List the CodeTrial sessions that are live right now.",
        arguments(Fields::new().object()),
    );
    let get_problem = tool(
        "get_problem",
        "The problem the candidate is solving, as it was posed to them.",
        room_arguments(),
    );
    let get_code = tool(
        "get_code",
        "The candidate's current code and the language it is in.",
        room_arguments(),
    );
    let get_test_results = tool(
        "get_test_results",
        "The candidate's most recent test run. Tests run when the candidate presses Run, not when this is called.",
        room_arguments(),
    );
    let items = Items::new().with(list_sessions).with(get_problem).with(get_code).with(
        get_test_results,
    );
    assert(items@ =~= offers());
    items.array()
}

/// The lines, each on a line of its own.
pub open spec fn joined(lines: Seq<Seq<char>>) -> Seq<char>
    decreases lines.len(),
{
    if lines.len() == 0 {
        Seq::empty()
    } else if lines.len() == 1 {
        lines[0]
    } else {
        joined(lines.take(lines.len() - 1)) + "\n"@ + lines.last()
    }
}

/// The seconds from `then` to `now`, and none where `then` is the later.
pub open spec fn elapsed(now_seconds: u64, then: u64) -> nat {
    if now_seconds > then {
        (now_seconds - then) as nat
    } else {
        0
    }
}

/// How one session is listed.
pub open spec fn session_line(room: Seq<char>, snapshot: SnapshotView, now_seconds: u64) -> Seq<
    char,
> {
    room + ": "@ + snapshot.title + " ("@ + snapshot.language + ", updated "@ + decimal(
        elapsed(now_seconds, snapshot.updated_at),
    ) + "s ago)"@
}

/// How the live sessions are listed.
pub open spec fn sessions_text(sessions: Sessions, now_seconds: u64) -> Seq<char> {
    let listed = listing(sessions);
    if listed.len() == 0 {
        "No CodeTrial session is live right now."@
    } else {
        joined(
            listed.map_values(
                |entry: (Seq<char>, SnapshotView)| session_line(entry.0, entry.1, now_seconds),
            ),
        )
    }
}

/// How one session is listed.
fn line(room: &str, snapshot: &Snapshot, now_seconds: u64) -> (res: String)
    ensures
        res@ == session_line(room@, snapshot@, now_seconds),
{
    let seconds = decimal_text(now_seconds.saturating_sub(snapshot.updated_at));
    let mut text = room.to_owned();
    text.append(": ");
    text.append(snapshot.title);
    text.append(" (");
    text.append(&snapshot.language);
    text.append(", updated ");
    text.append(&seconds);
    text.append("s ago)");
    text
}

/// How the live sessions are listed.
fn list_sessions(board: &MentorBoard, now_seconds: u64) -> (res: String)
    ensures
        res@ == sessions_text(board@.sessions, now_seconds),
{
    let entries = board.entries();
    if entries.len() == 0 {
        return "No CodeTrial session is live right now.".to_owned();
    }
    let ghost lines = listing_of(entries@).map_values(
        |entry: (Seq<char>, SnapshotView)| session_line(entry.0, entry.1, now_seconds),
    );
    let mut text = line(&entries[0].0, &entries[0].1, now_seconds);
    let mut at: usize = 1;
    while at < entries.len()
        invariant
            1 <= at <= entries.len(),
            lines == listing_of(entries@).map_values(
                |entry: (Seq<char>, SnapshotView)| session_line(entry.0, entry.1, now_seconds),
            ),
            text@ == joined(lines.take(at as int)),
        decreases entries.len() - at,
    {
        text.append("\n");
        text.append(&line(&entries[at].0, &entries[at].1, now_seconds));
        assert(lines.take(at + 1).take(at as int) =~= lines.take(at as int));
        at = at + 1;
    }
    assert(lines.take(at as int) =~= lines);
    text
}

/// The text, where there is one.
pub open spec fn text_view(text: Option<&str>) -> Option<Seq<char>> {
    match text {
        Some(text) => Some(text@),
        None => None,
    }
}

/// The session that a tool call means: the one it names, or the only one live. Otherwise the
/// words in which the call is turned down.
pub open spec fn picked(sessions: Sessions, room: Option<Seq<char>>) -> Result<
    SnapshotView,
    Seq<char>,
> {
    match room {
        Some(room) => if sessions.contains_key(room) {
            Ok(sessions[room])
        } else {
            Err("No live session named "@ + room + ". Call list_sessions."@)
        },
        None => if sessions.len() > 1 {
            Err("More than one session is live; pass room. Call list_sessions."@)
        } else if sessions.len() == 1 {
            Ok(sessions[sessions.dom().choose()])
        } else {
            Err("No CodeTrial session is live right now."@)
        },
    }
}

/// The session that a tool call means: the one it names, or the only one live.
pub fn pick<'a>(board: &'a MentorBoard, room: Option<&str>) -> (res: Result<&'a Snapshot, String>)
    ensures
        match res {
            Ok(snapshot) => picked(board@.sessions, text_view(room)) == Ok::<
                SnapshotView,
                Seq<char>,
            >(snapshot@),
            Err(words) => picked(board@.sessions, text_view(room)) == Err::<
                SnapshotView,
                Seq<char>,
            >(words@),
        },
{
    let entries = board.entries();
    let ghost listed = listing_of(entries@);
    proof {
        law_listing_exists(board@.sessions);
    }
    match room {
        Some(name) => {
            let mut at: usize = 0;
            while at < entries.len()
                invariant
                    at <= entries.len(),
                    text_view(room) == Some(name@),
                    listed == listing_of(entries@),
                    lists(listed, board@.sessions),
                    forall|i: int| 0 <= i < at ==> (#[trigger] listed[i]).0 != name@,
                decreases entries.len() - at,
            {
                assert(listed[at as int] == (entries@[at as int].0@, entries@[at as int].1@));
                if same_text(&entries[at].0, name) {
                    return Ok(&entries[at].1);
                }
                at = at + 1;
            }
            let mut words = "No live session named ".to_owned();
            words.append(name);
            words.append(". Call list_sessions.");
            Err(words)
        },
        None => if entries.len() > 1 {
            Err("More than one session is live; pass room. Call list_sessions.".to_owned())
        } else if entries.len() == 1 {
            proof {
                let only = board@.sessions.dom().choose();
                assert(board@.sessions.dom().contains(only));
                assert(board@.sessions.contains_key(only));
                assert(listed[0] == (entries@[0].0@, entries@[0].1@));
            }
            Ok(&entries[0].1)
        } else {
            Err("No CodeTrial session is live right now.".to_owned())
        },
    }
}

/// The problem of a session, as it was posed.
pub open spec fn problem_text(snapshot: SnapshotView) -> Seq<char> {
    snapshot.title + "\n\n"@ + snapshot.brief
}

/// The code of a session and the language it is in.
pub open spec fn code_text(snapshot: SnapshotView) -> Seq<char> {
    if trimmed(snapshot.code).len() == 0 {
        "The editor is empty. Language: "@ + snapshot.language + "."@
    } else {
        "Language: "@ + snapshot.language + "\n\n```"@ + snapshot.language + "\n"@ + snapshot.code
            + "\n```"@
    }
}

fn problem_words(snapshot: &Snapshot) -> (res: String)
    ensures
        res@ == problem_text(snapshot@),
{
    let mut text = snapshot.title.to_owned();
    text.append("\n\n");
    text.append(&snapshot.brief);
    text
}

fn code_words(snapshot: &Snapshot) -> (res: String)
    ensures
        res@ == code_text(snapshot@),
{
    if trim(&snapshot.code).as_str().is_empty() {
        let mut text = "The editor is empty. Language: ".to_owned();
        text.append(&snapshot.language);
        text.append(".");
        text
    } else {
        let mut text = "Language: ".to_owned();
        text.append(&snapshot.language);
        text.append("\n\n```");
        text.append(&snapshot.language);
        text.append("\n");
        text.append(&snapshot.code);
        text.append("\n```");
        text
    }
}

/// The tool that a call names; a call that names none names the empty one.
pub open spec fn tool_named(params: JsonView) -> Seq<char> {
    match params.text_field("name"@) {
        Some(name) => name,
        None => Seq::empty(),
    }
}

/// The room that a tool call names.
pub open spec fn room_named(params: JsonView) -> Option<Seq<char>> {
    match params.field("arguments"@) {
        Some(arguments) => arguments.text_field("room"@),
        None => None,
    }
}

/// What a tool answers, or the words in which it turns the call down. `report` is how the
/// test run is worded, where the tool tells of one.
pub open spec fn tool_answer(
    sessions: Sessions,
    params: JsonView,
    now_seconds: u64,
    report: Seq<char>,
) -> Result<Seq<char>, Seq<char>> {
    let name = tool_named(params);
    let session = picked(sessions, room_named(params));
    if name == "list_sessions"@ {
        Ok(sessions_text(sessions, now_seconds))
    } else if name == "get_problem"@ {
        match session {
            Ok(snapshot) => Ok(problem_text(snapshot)),
            Err(words) => Err(words),
        }
    } else if name == "get_code"@ {
        match session {
            Ok(snapshot) => Ok(code_text(snapshot)),
            Err(words) => Err(words),
        }
    } else if name == "get_test_results"@ {
        match session {
            Ok(_) => Ok(report),
            Err(words) => Err(words),
        }
    } else {
        Err("Unknown tool: "@ + name)
    }
}

/// The text of a tool's answer.
pub open spec fn content(text: Seq<char>) -> JsonView {
    JsonView::Array(
        seq![
            JsonView::Object(
                map!["type"@ => JsonView::String("text"@), "text"@ => JsonView::String(text)],
            ),
        ],
    )
}

/// The result of a tool call.
pub open spec fn tool_result(answer: Result<Seq<char>, Seq<char>>) -> JsonView {
    match answer {
        Ok(text) => JsonView::Object(map!["content"@ => content(text)]),
        Err(words) => JsonView::Object(
            map!["content"@ => content(words), "isError"@ => JsonView::Bool(true)],
        ),
    }
}

/// The tools have names of their own.
pub(crate) proof fn lemma_tools_differ()
    ensures
        "list_sessions"@ != "get_problem"@,
        "list_sessions"@ != "get_code"@,
        "list_sessions"@ != "get_test_results"@,
        "get_problem"@ != "get_code"@,
        "get_problem"@ != "get_test_results"@,
        "get_code"@ != "get_test_results"@,
{
    reveal_strlit("list_sessions");
    reveal_strlit("get_problem");
    reveal_strlit("get_code");
    reveal_strlit("get_test_results");
    assert("list_sessions"@.len() == 13);
    assert("get_problem"@.len() == 11);
    assert("get_code"@.len() == 8);
    assert("get_test_results"@.len() == 16);
}

/// The methods have names of their own.
pub(crate) proof fn lemma_methods_differ()
    ensures
        "initialize"@ != "ping"@,
        "initialize"@ != "tools/list"@,
        "initialize"@ != "tools/call"@,
        "ping"@ != "tools/list"@,
        "ping"@ != "tools/call"@,
        "tools/list"@ != "tools/call"@,
{
    reveal_strlit("initialize");
    reveal_strlit("ping");
    reveal_strlit("tools/list");
    reveal_strlit("tools/call");
    assert("initialize"@.len() == 10 && "initialize"@[6] == 'l' && "initialize"@[0] == 'i');
    assert("ping"@.len() == 4);
    assert("tools/list"@.len() == 10 && "tools/list"@[6] == 'l' && "tools/list"@[0] == 't');
    assert("tools/call"@.len() == 10 && "tools/call"@[6] == 'c');
}

/// The last test run, and how many there were, that a tool call asks to have worded.
pub open spec fn run_asked(sessions: Sessions, params: JsonView) -> Option<
    (Option<JsonView>, u32),
> {
    if tool_named(params) == "get_test_results"@ {
        match picked(sessions, room_named(params)) {
            Ok(snapshot) => Some((snapshot.last_test_run, snapshot.test_runs)),
            Err(_) => None,
        }
    } else {
        None
    }
}

/// Whether `report` is how `format_test_run` words this last run of `runs`.
pub open spec fn words_run<F: Fn(Option<&Json>, u32) -> String>(
    format_test_run: F,
    run: Option<JsonView>,
    runs: u32,
    report: Seq<char>,
) -> bool {
    exists|given: Option<&Json>, text: String|
        json_ref_view(given) == run && text@ == report && #[trigger] call_ensures(
            format_test_run,
            (given, runs),
            text,
        )
}

/// Whether `report` is how `format_test_run` words the run that is asked for, if one is.
pub open spec fn words_asked<F: Fn(Option<&Json>, u32) -> String>(
    format_test_run: F,
    asked: Option<(Option<JsonView>, u32)>,
    report: Seq<char>,
) -> bool {
    match asked {
        Some((run, runs)) => words_run(format_test_run, run, runs, report),
        None => true,
    }
}

/// Whether `format_test_run` words equal runs equally: what it says of a run depends on the run
/// and on how many there were, and on nothing else.
pub open spec fn words_alike<F: Fn(Option<&Json>, u32) -> String>(format_test_run: F) -> bool {
    forall|one: Option<&Json>, other: Option<&Json>, runs: u32, first: String, second: String|
        json_ref_view(one) == json_ref_view(other) && #[trigger] call_ensures(
            format_test_run,
            (one, runs),
            first,
        ) && #[trigger] call_ensures(format_test_run, (other, runs), second) ==> first@ == second@
}

/// The text of a tool's answer.
fn text_result(text: &str) -> (res: Json)
    ensures
        res@ == content(text@),
{
    let block = Fields::new().with("type", Json::text("text")).with(
        "text",
        Json::text(text),
    ).object();
    let items = Items::new().with(block);
    items.array()
}

/// Whether `result` is what a tool call has for its result, with the test run worded by
/// `format_test_run` where the tool tells of one.
pub open spec fn tool_results<F: Fn(Option<&Json>, u32) -> String>(
    sessions: Sessions,
    params: JsonView,
    now_seconds: u64,
    format_test_run: F,
    result: JsonView,
) -> bool {
    exists|report: Seq<char>| #[trigger]
        words_asked(format_test_run, run_asked(sessions, params), report) && result
            == tool_result(tool_answer(sessions, params, now_seconds, report))
}

/// Calls the tool that `params` name. `format_test_run` words the last test run, if any, and
/// how many there were.
pub fn call_tool<F: Fn(Option<&Json>, u32) -> String>(
    board: &MentorBoard,
    params: &Json,
    now_seconds: u64,
    format_test_run: F,
) -> (res: Json)
    requires
        forall|run: Option<&Json>, runs: u32| #[trigger]
            call_requires(format_test_run, (run, runs)),
    ensures
        tool_results(board@.sessions, params@, now_seconds, format_test_run, res@),
{
    let name = match params.get("name") {
        Some(name) => match name.as_str() {
            Some(name) => name,
            None => "",
        },
        None => "",
    };
    let room = match params.get("arguments") {
        Some(arguments) => match arguments.get("room") {
            Some(room) => room.as_str(),
            None => None,
        },
        None => None,
    };
    proof {
        reveal_strlit("");
        lemma_tools_differ();
    }
    assert(name@ =~= tool_named(params@));
    assert(text_view(room) == room_named(params@));
    let ghost mut report: Seq<char> = Seq::empty();
    let answer: Result<String, String> = if same_text(name, "list_sessions") {
        Ok(list_sessions(board, now_seconds))
    } else if same_text(name, "get_problem") {
        match pick(board, room) {
            Ok(snapshot) => Ok(problem_words(snapshot)),
            Err(words) => Err(words),
        }
    } else if same_text(name, "get_code") {
        match pick(board, room) {
            Ok(snapshot) => Ok(code_words(snapshot)),
            Err(words) => Err(words),
        }
    } else if same_text(name, "get_test_results") {
        match pick(board, room) {
            Ok(snapshot) => {
                let run = snapshot.last_test_run.as_ref();
                let text = format_test_run(run, snapshot.test_runs);
                proof {
                    report = text@;
                    assert(json_ref_view(run) == snapshot@.last_test_run);
                    assert(words_run(
                        format_test_run,
                        snapshot@.last_test_run,
                        snapshot.test_runs,
                        report,
                    ));
                }
                Ok(text)
            },
            Err(words) => Err(words),
        }
    } else {
        let mut words = "Unknown tool: ".to_owned();
        words.append(name);
        Err(words)
    };
    assert(words_asked(format_test_run, run_asked(board@.sessions, params@), report));
    match answer {
        Ok(text) => Fields::new().with("content", text_result(&text)).object(),
        Err(words) => Fields::new().with("content", text_result(&words)).with(
            "isError",
            Json::Bool(true),
        ).object(),
    }
}

/// The parameters of a request; one that has none has a null.
pub open spec fn params_of(message: JsonView) -> JsonView {
    match message.field("params"@) {
        Some(params) => params,
        None => JsonView::Null,
    }
}

/// What a message is answered: `None` for a notification, which gets no reply. `report` is
/// how the test run is worded, where the reply tells of one.
pub open spec fn reply(
    sessions: Sessions,
    message: JsonView,
    now_seconds: u64,
    report: Seq<char>,
) -> Option<JsonView> {
    if message is Object {
        match message.field("id"@) {
            Some(id) => Some(
                match message.text_field("method"@) {
                    Some(method) => if method == "initialize"@ {
                        success(id, introduction(params_of(message)))
                    } else if method == "ping"@ {
                        success(id, JsonView::Object(Map::empty()))
                    } else if method == "tools/list"@ {
                        success(
                            id,
                            JsonView::Object(map!["tools"@ => JsonView::Array(offers())]),
                        )
                    } else if method == "tools/call"@ {
                        success(
                            id,
                            tool_result(
                                tool_answer(sessions, params_of(message), now_seconds, report),
                            ),
                        )
                    } else {
                        failure(id, METHOD_NOT_FOUND as int, "Method not found: "@ + method)
                    },
                    None => failure(id, INVALID_REQUEST as int, "Missing method."@),
                },
            ),
            None => None,
        }
    } else {
        Some(failure(JsonView::Null, INVALID_REQUEST as int, "Expected one JSON-RPC object."@))
    }
}

/// The last test run, and how many there were, that a message asks to have worded.
pub open spec fn run_asked_by(sessions: Sessions, message: JsonView) -> Option<
    (Option<JsonView>, u32),
> {
    if message.field("id"@) is Some && message.text_field("method"@) == Some("tools/call"@) {
        run_asked(sessions, params_of(message))
    } else {
        None
    }
}

/// Whether `answer` is what a message is answered, with the test run worded by
/// `format_test_run` where the reply tells of one.
pub open spec fn answers<F: Fn(Option<&Json>, u32) -> String>(
    sessions: Sessions,
    message: JsonView,
    now_seconds: u64,
    format_test_run: F,
    answer: Option<JsonView>,
) -> bool {
    exists|report: Seq<char>| #[trigger]
        words_asked(format_test_run, run_asked_by(sessions, message), report) && answer == reply(
            sessions,
            message,
            now_seconds,
            report,
        )
}

/// Answers one JSON-RPC message. `None` for a notification, which gets no reply.
/// `format_test_run` words the last test run, if any, and how many there were.
pub fn handle_message<F: Fn(Option<&Json>, u32) -> String>(
    board: &MentorBoard,
    message: &Json,
    now_seconds: u64,
    format_test_run: F,
) -> (res: Option<Json>)
    requires
        forall|run: Option<&Json>, runs: u32| #[trigger]
            call_requires(format_test_run, (run, runs)),
    ensures
        answers(board@.sessions, message@, now_seconds, format_test_run, json_view(res)),
{
    let ghost nothing: Seq<char> = Seq::empty();
    proof {
        lemma_methods_differ();
    }
    assert(run_asked_by(board@.sessions, message@) is None ==> words_asked(
        format_test_run,
        run_asked_by(board@.sessions, message@),
        nothing,
    ));
    match message {
        Json::Object(_) => {},
        _ => {
            return Some(rpc_error(Json::Null, INVALID_REQUEST, "Expected one JSON-RPC object."));
        },
    }
    let id = match message.get("id") {
        Some(id) => id.clone(),
        None => {
            return None;
        },
    };
    let params = match message.get("params") {
        Some(params) => params.clone(),
        None => Json::Null,
    };
    let method = match message.get("method") {
        Some(method) => method.as_str(),
        None => None,
    };
    assert(text_view(method) == message@.text_field("method"@));
    match method {
        Some(method) => if same_text(method, "initialize") {
            Some(rpc_result(id, initialize(&params)))
        } else if same_text(method, "ping") {
            Some(rpc_result(id, Fields::new().object()))
        } else if same_text(method, "tools/list") {
            Some(rpc_result(id, Fields::new().with("tools", tool_definitions()).object()))
        } else if same_text(method, "tools/call") {
            let result = call_tool(board, &params, now_seconds, format_test_run);
            proof {
                let asked = run_asked(board@.sessions, params@);
                assert(run_asked_by(board@.sessions, message@) == asked);
                let report = choose|report: Seq<char>| #[trigger]
                    words_asked(format_test_run, asked, report) && result@ == tool_result(
                        tool_answer(board@.sessions, params@, now_seconds, report),
                    );
                assert(words_asked(
                    format_test_run,
                    run_asked_by(board@.sessions, message@),
                    report,
                ));
            }
            Some(rpc_result(id, result))
        } else {
            let mut words = "Method not found: ".to_owned();
            words.append(method);
            Some(rpc_error(id, METHOD_NOT_FOUND, &words))
        },
        None => Some(rpc_error(id, INVALID_REQUEST, "Missing method.")),
    }
}

} // verus!
