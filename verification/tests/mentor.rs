use codetrial::agent::{Problem, RuntimeState, Variant};
use codetrial::json::{parse, Json, Number};
use codetrial::mentor::rpc::{call_tool, pick, tool_definitions};
use codetrial::mentor::{handle_message, MentorBoard, Published, Snapshot, PROTOCOL_VERSION};

fn get_problem() -> Problem {
    Problem {
        posed: Variant {
            title: "Two Sum",
            brief: "Given numbers and a target, return two indices that add up to it.".to_string(),
            contract: "exactly one answer exists",
            hints: vec!["what would you look up?", "store the complements"],
            clarifications: vec!["an element may not be used twice"],
        },
        optimal: "one pass over a hash map",
    }
}

fn fresh_state() -> RuntimeState {
    RuntimeState {
        language: "javascript".to_string(),
        code: String::new(),
        last_test_run: None,
        test_runs: 0,
    }
}

fn format_test_run(run: Option<&Json>, runs: u32) -> String {
    match run {
        None => "No test run was recorded.".to_string(),
        Some(run) => match run.get("passed") {
            Some(Json::Number(Number::Unsigned(passed))) => format!("run {runs}: {passed} passed"),
            _ => format!("run {runs}"),
        },
    }
}

fn board_with(rooms: &[(&str, &str)]) -> MentorBoard {
    let mut board = MentorBoard::with_token(Some("secret".to_string()));
    let problem = get_problem();
    for (room, code) in rooms {
        let mut state = fresh_state();
        state.language = "python".to_string();
        state.code = (*code).to_string();
        board.publish(room, Snapshot::of(&problem, &state, 100));
    }
    board
}

fn json(text: &str) -> Json {
    parse(text.as_bytes()).expect("JSON text")
}

fn send(board: &MentorBoard, message: &str, now: u64) -> Option<Json> {
    handle_message(board, &json(message), now, format_test_run)
}

fn call(board: &MentorBoard, name: &str, arguments: &str) -> Json {
    let request = format!(
        r#"{{ "jsonrpc": "2.0", "id": 7, "method": "tools/call",
              "params": {{ "name": "{name}", "arguments": {arguments} }} }}"#
    );
    let reply = send(board, &request, 130).expect("a request gets a reply");
    reply.get("result").expect("a tool call has a result").clone()
}

fn text(result: &Json) -> &str {
    match result.get("content") {
        Some(Json::Array(items)) => items[0].get("text").and_then(Json::as_str).unwrap_or_default(),
        _ => "",
    }
}

fn refused(result: &Json) -> bool {
    result.get("isError") == Some(&Json::Bool(true))
}

/// The route is off unless an operator gave it a token, and a blank one is
/// not a token: an empty line in a configuration must not open it to anyone
/// who sends an empty bearer.
#[test]
fn only_a_nonblank_token_turns_the_route_on() {
    assert!(!MentorBoard::with_token(None).enabled());
    assert!(!MentorBoard::with_token(Some("  ".to_string())).enabled());
    assert!(!MentorBoard::with_token(Some(String::new())).authorizes(""));

    let board = MentorBoard::with_token(Some(" secret ".to_string()));
    assert!(board.enabled());
    assert!(board.authorizes("secret"));
    assert!(!board.authorizes("secre"));
}

/// A client picks the protocol revision; a server that does not know it
/// answers in its own rather than echoing a revision it cannot speak.
#[test]
fn initialize_echoes_a_known_revision_and_falls_back_otherwise() {
    let board = MentorBoard::default();
    let reply = |version: &str| {
        let request = format!(
            r#"{{ "jsonrpc": "2.0", "id": 1, "method": "initialize",
                  "params": {{ "protocolVersion": "{version}", "capabilities": {{}},
                               "clientInfo": {{ "name": "t" }} }} }}"#
        );
        let reply = send(&board, &request, 0).unwrap();
        let result = reply.get("result").unwrap();
        result.get("protocolVersion").and_then(Json::as_str).unwrap().to_string()
    };
    assert_eq!(reply("2025-03-26"), "2025-03-26");
    assert_eq!(reply("2024-11-05"), "2024-11-05");
    assert_eq!(reply("2025-06-18"), "2025-06-18");
    assert_eq!(reply("1999-01-01"), PROTOCOL_VERSION);
    assert_eq!(PROTOCOL_VERSION, "2025-06-18");
}

#[test]
fn notifications_get_no_reply_and_unknown_methods_an_error() {
    let board = MentorBoard::default();
    let notification = r#"{ "jsonrpc": "2.0", "method": "notifications/initialized" }"#;
    assert_eq!(send(&board, notification, 0), None);

    let unknown = r#"{ "jsonrpc": "2.0", "id": 3, "method": "resources/list" }"#;
    let reply = send(&board, unknown, 0).unwrap();
    assert_eq!(reply.get("id"), Some(&Json::Number(Number::Unsigned(3))));
    let error = reply.get("error").unwrap();
    assert_eq!(error.get("code"), Some(&Json::Number(Number::Negative(-32601))));
}

/// The whole point of the module: a mentor sees what the candidate sees and
/// nothing the interviewer holds back.
#[test]
fn the_problem_is_the_posed_one_without_the_interviewers_half() {
    let board = board_with(&[("room-a", "")]);
    let problem = get_problem();
    let variant = problem.variant();
    let posed = text(&call(&board, "get_problem", "{}")).to_string();

    assert!(posed.contains(variant.title));
    assert!(posed.contains(&variant.brief_text()));
    assert!(
        !posed.contains(problem.optimal),
        "the optimal approach leaked"
    );
    assert!(!posed.contains(variant.contract), "the contract leaked");
    for hint in &variant.hints {
        assert!(!posed.contains(hint), "a hint rung leaked: {hint}");
    }
    for clarification in &variant.clarifications {
        assert!(!posed.contains(clarification), "a clarification leaked: {clarification}");
    }
}

#[test]
fn code_and_tests_come_from_the_live_state() {
    let board = board_with(&[("room-a", "def two_sum(nums, target):\n    return []")]);
    let code = text(&call(&board, "get_code", "{}")).to_string();
    assert!(code.contains("Language: python"));
    assert!(code.contains("def two_sum(nums, target):"));

    let tests = text(&call(&board, "get_test_results", "{}")).to_string();
    assert!(tests.starts_with("No test run was recorded"), "{tests}");
}

/// Leaving `room` out is only unambiguous with one session live; with two,
/// the model is told to ask rather than handed whichever sorts first.
#[test]
fn room_may_be_left_out_only_when_one_session_is_live() {
    let none = board_with(&[]);
    let result = call(&none, "get_code", "{}");
    assert!(refused(&result));

    let two = board_with(&[("room-a", "a = 1"), ("room-b", "b = 2")]);
    let ambiguous = call(&two, "get_code", "{}");
    assert!(refused(&ambiguous));
    assert!(text(&ambiguous).contains("pass room"));

    let named = call(&two, "get_code", r#"{ "room": "room-b" }"#);
    assert!(text(&named).contains("b = 2"));

    let listed = text(&call(&two, "list_sessions", "{}")).to_string();
    assert!(listed.contains("room-a") && listed.contains("room-b"));
    assert!(listed.contains("updated 30s ago"), "{listed}");
}

#[test]
fn a_finished_interview_takes_its_snapshot_with_it() {
    let mut board = board_with(&[]);
    let problem = get_problem();
    let published = Published::new("room-a");
    board.publish("room-a", Snapshot::of(&problem, &fresh_state(), 0));
    assert_eq!(board.sessions().len(), 1);
    published.end(&mut board);
    assert!(board.sessions().is_empty());
}

#[test]
fn ending_an_interview_leaves_the_other_rooms_as_they_were() {
    let mut board = board_with(&[("room-a", "a"), ("room-b", "b"), ("room-c", "c")]);
    Published::new("room-b").end(&mut board);
    let rooms: Vec<String> = board.sessions().into_iter().map(|(room, _)| room).collect();
    assert_eq!(rooms, ["room-a", "room-c"]);
    Published::new("room-x").end(&mut board);
    assert_eq!(board.sessions().len(), 2);
    assert_eq!(board.sessions()[1].1.code, "c");
}

#[test]
fn rooms_are_listed_in_byte_order_and_once() {
    let names = ["b", "a", "", "ab", "B", "\u{e9}", "z", "\u{1f600}", "\u{ffff}", "a"];
    let mut board = MentorBoard::default();
    for (at, name) in names.iter().enumerate() {
        let mut state = fresh_state();
        state.code = at.to_string();
        board.publish(name, Snapshot::of(&get_problem(), &state, 0));
    }
    let mut sorted: Vec<&str> = names.to_vec();
    sorted.sort_unstable();
    sorted.dedup();
    let rooms: Vec<String> = board.sessions().into_iter().map(|(room, _)| room).collect();
    assert_eq!(rooms, sorted);
    let shown = board.sessions().into_iter().find(|(room, _)| room == "a").unwrap();
    assert_eq!(shown.1.code, "9", "what was published last is what the room shows");
}

#[test]
fn a_snapshot_says_what_the_candidate_sees() {
    let mut state = fresh_state();
    state.last_test_run = Some(json(r#"{ "passed": 2, "total": 3 }"#));
    state.test_runs = 4;
    let snapshot = Snapshot::of(&get_problem(), &state, 17);
    assert_eq!(snapshot.title, "Two Sum");
    assert_eq!(snapshot.brief, get_problem().posed.brief);
    assert_eq!(snapshot.language, "javascript");
    assert_eq!(snapshot.code, "");
    assert_eq!(snapshot.last_test_run, Some(json(r#"{ "total": 3, "passed": 2 }"#)));
    assert_eq!(snapshot.test_runs, 4);
    assert_eq!(snapshot.updated_at, 17);
    assert!(snapshot == snapshot.clone());

    let mut other_half = get_problem();
    other_half.optimal = "sorting";
    other_half.posed.contract = "none";
    other_half.posed.hints.clear();
    other_half.posed.clarifications.clear();
    assert!(snapshot == Snapshot::of(&other_half, &state, 17));
    assert!(snapshot != Snapshot::of(&other_half, &state, 18));
    state.last_test_run = None;
    assert!(snapshot != Snapshot::of(&other_half, &state, 17));
}

#[test]
fn tools_answer_in_exact_words() {
    let board = board_with(&[("room-a", "x = 1")]);
    assert_eq!(
        text(&call(&board, "get_problem", "{}")),
        "Two Sum\n\nGiven numbers and a target, return two indices that add up to it."
    );
    assert_eq!(
        text(&call(&board, "get_code", "{}")),
        "Language: python\n\n```python\nx = 1\n```"
    );
    assert_eq!(
        text(&call(&board, "list_sessions", "{}")),
        "room-a: Two Sum (python, updated 30s ago)"
    );
    let blank = board_with(&[("room-a", " \n\t\u{2003}")]);
    assert_eq!(
        text(&call(&blank, "get_code", "{}")),
        "The editor is empty. Language: python."
    );
    let three = board_with(&[("c", ""), ("a", ""), ("b", "")]);
    assert_eq!(
        text(&call(&three, "list_sessions", "{}")),
        "a: Two Sum (python, updated 30s ago)\nb: Two Sum (python, updated 30s ago)\n\
         c: Two Sum (python, updated 30s ago)"
    );
}

#[test]
fn tools_turn_calls_down_in_exact_words() {
    let none = board_with(&[]);
    let two = board_with(&[("room-a", ""), ("room-b", "")]);
    for tool in ["get_problem", "get_code", "get_test_results"] {
        let result = call(&none, tool, "{}");
        assert!(refused(&result));
        assert_eq!(text(&result), "No CodeTrial session is live right now.");

        let result = call(&two, tool, "{}");
        assert!(refused(&result));
        assert_eq!(
            text(&result),
            "More than one session is live; pass room. Call list_sessions."
        );

        let result = call(&two, tool, r#"{ "room": "room-z" }"#);
        assert!(refused(&result));
        assert_eq!(
            text(&result),
            "No live session named room-z. Call list_sessions."
        );
    }
    let listed = call(&none, "list_sessions", "{}");
    assert!(!refused(&listed));
    assert_eq!(text(&listed), "No CodeTrial session is live right now.");

    let unknown = call(&two, "get_answer", "{}");
    assert!(refused(&unknown));
    assert_eq!(text(&unknown), "Unknown tool: get_answer");
    let nameless = r#"{ "id": 1, "method": "tools/call" }"#;
    let reply = send(&two, nameless, 0).unwrap();
    assert_eq!(text(reply.get("result").unwrap()), "Unknown tool: ");
    assert_eq!(reply.get("error"), None);
}

#[test]
fn a_room_that_is_not_text_is_left_out() {
    let one = board_with(&[("room-a", "a = 1")]);
    assert!(text(&call(&one, "get_code", r#"{ "room": 3 }"#)).contains("a = 1"));
    assert!(text(&call(&one, "get_code", r#"["room"]"#)).contains("a = 1"));
}

#[test]
fn a_test_run_is_worded_from_the_session_that_is_meant() {
    let mut board = board_with(&[("room-a", "")]);
    let mut state = fresh_state();
    state.last_test_run = Some(json(r#"{ "passed": 2 }"#));
    state.test_runs = 5;
    board.publish("room-b", Snapshot::of(&get_problem(), &state, 0));
    let told = call(&board, "get_test_results", r#"{ "room": "room-b" }"#);
    assert_eq!(text(&told), "run 5: 2 passed");
    let told = call(&board, "get_test_results", r#"{ "room": "room-a" }"#);
    assert_eq!(text(&told), "No test run was recorded.");
}

#[test]
fn a_snapshot_from_the_future_was_updated_just_now() {
    let board = board_with(&[("room-a", "")]);
    let request = r#"{ "id": 1, "method": "tools/call", "params": { "name": "list_sessions" } }"#;
    let reply = send(&board, request, 40).unwrap();
    assert_eq!(
        text(reply.get("result").unwrap()),
        "room-a: Two Sum (python, updated 0s ago)"
    );
    let reply = send(&board, request, u64::MAX).unwrap();
    assert_eq!(
        text(reply.get("result").unwrap()),
        "room-a: Two Sum (python, updated 18446744073709551515s ago)"
    );
}

#[test]
fn replies_are_whole() {
    let board = MentorBoard::default();
    assert_eq!(
        send(&board, r#"{ "id": "x", "method": "ping" }"#, 0),
        Some(json(r#"{ "jsonrpc": "2.0", "id": "x", "result": {} }"#))
    );
    assert_eq!(
        send(&board, r#"{ "id": null, "method": 7 }"#, 0),
        Some(json(
            r#"{ "jsonrpc": "2.0", "id": null,
                 "error": { "code": -32600, "message": "Missing method." } }"#
        ))
    );
    assert_eq!(
        send(&board, r#"{ "id": 1.5, "method": "nope" }"#, 0),
        Some(json(
            r#"{ "jsonrpc": "2.0", "id": 1.5,
                 "error": { "code": -32601, "message": "Method not found: nope" } }"#
        ))
    );
    for message in ["null", "[]", "7", r#""ping""#, "true"] {
        assert_eq!(
            send(&board, message, 0),
            Some(json(
                r#"{ "jsonrpc": "2.0", "id": null,
                     "error": { "code": -32600, "message": "Expected one JSON-RPC object." } }"#
            ))
        );
    }
    assert_eq!(
        send(&board, r#"{ "id": 1, "method": "initialize" }"#, 0),
        Some(json(
            r#"{ "jsonrpc": "2.0", "id": 1, "result": {
                   "protocolVersion": "2025-06-18",
                   "capabilities": { "tools": {} },
                   "serverInfo": { "name": "codetrial", "version": "0.1.0" },
                   "instructions": "Read a CodeTrial candidate's live practice session: the problem as posed, their code and their test runs."
               } }"#
        ))
    );
}

#[test]
fn the_tools_on_offer_are_the_tools_there_are() {
    let board = board_with(&[("room-a", "a")]);
    let room = r#"{ "type": "object", "properties": { "room": { "type": "string",
        "description": "The session to read, from list_sessions. May be left out when exactly one session is live." } } }"#;
    let listed = send(&board, r#"{ "id": 2, "method": "tools/list" }"#, 0).unwrap();
    let expected = format!(
        r#"{{ "tools": [
            {{ "name": "list_sessions",
               "description": "List the CodeTrial sessions that are live right now.",
               "inputSchema": {{ "type": "object", "properties": {{}} }} }},
            {{ "name": "get_problem",
               "description": "The problem the candidate is solving, as it was posed to them.",
               "inputSchema": {room} }},
            {{ "name": "get_code",
               "description": "The candidate's current code and the language it is in.",
               "inputSchema": {room} }},
            {{ "name": "get_test_results",
               "description": "The candidate's most recent test run. Tests run when the candidate presses Run, not when this is called.",
               "inputSchema": {room} }}
        ] }}"#
    );
    assert_eq!(listed.get("result"), Some(&json(&expected)));
    for tool in ["list_sessions", "get_problem", "get_code", "get_test_results"] {
        assert!(!refused(&call(&board, tool, "{}")));
    }
}

fn snapshot(code: &str, updated_at: u64) -> Snapshot {
    let mut state = fresh_state();
    state.language = "python".to_string();
    state.code = code.to_string();
    Snapshot::of(&get_problem(), &state, updated_at)
}

#[test]
fn snapshots_that_differ_in_the_sign_of_a_zero_are_equal() {
    let with_run = |run: &str| Snapshot { last_test_run: Some(json(run)), ..snapshot("a = 1", 5) };
    assert_eq!(with_run(r#"{ "score": 0.0 }"#), with_run(r#"{ "score": -0.0 }"#));
    assert_ne!(with_run(r#"{ "score": 0.0 }"#), with_run(r#"{ "score": 0.5 }"#));
    assert_ne!(with_run("0.0"), snapshot("a = 1", 5));
    assert_ne!(snapshot("a = 1", 5), snapshot("a = 1", 6));
    assert_eq!(snapshot("a = 1", 5), snapshot("a = 1", 5));
}

#[test]
fn a_reply_keeps_the_sign_of_its_id() {
    let reply = send(&MentorBoard::default(), r#"{ "id": -0.0, "method": "ping" }"#, 0).unwrap();
    match reply.get("id") {
        Some(Json::Number(Number::Double(bits))) => assert_eq!(*bits, (-0.0f64).to_bits()),
        other => panic!("{other:?}"),
    }
}

/// Two lone sessions that agree on what a tool shows are shown alike by it, and what they
/// differ in otherwise does not show.
#[test]
fn a_tool_shows_its_own_part_alone() {
    let run = Some(json(r#"{ "passed": 2 }"#));
    let lone = |room: &str, snapshot: Snapshot| {
        let mut board = MentorBoard::with_token(Some("secret".to_string()));
        board.publish(room, snapshot);
        board
    };
    let base = || Snapshot { last_test_run: run.clone(), test_runs: 3, ..snapshot("a = 1", 100) };
    let one = lone("room-a", base());

    let same_problem = lone("z", Snapshot { title: base().title, brief: base().brief, ..snapshot("b", 7) });
    assert_eq!(call(&one, "get_problem", "{}"), call(&same_problem, "get_problem", "{}"));

    let same_code = lone("z", Snapshot { title: "T", brief: String::new(), ..snapshot("a = 1", 7) });
    assert_eq!(call(&one, "get_code", "{}"), call(&same_code, "get_code", "{}"));

    let same_run =
        lone("z", Snapshot { title: "T", last_test_run: run.clone(), test_runs: 3, ..snapshot("", 7) });
    let results = call(&one, "get_test_results", "{}");
    assert_eq!(results, call(&same_run, "get_test_results", "{}"));
    assert_eq!(text(&results), "run 3: 2 passed");

    let other_count =
        lone("z", Snapshot { last_test_run: run.clone(), test_runs: 4, ..snapshot("a = 1", 100) });
    assert_ne!(results, call(&other_count, "get_test_results", "{}"));
}

#[test]
fn a_room_that_is_not_text_counts_as_left_out_for_every_tool() {
    for board in [board_with(&[]), board_with(&[("a", "1")]), board_with(&[("a", "1"), ("b", "2")])] {
        for tool in ["list_sessions", "get_problem", "get_code", "get_test_results", "other"] {
            let bare = json(&format!(r#"{{ "name": "{tool}" }}"#));
            let left_out = call_tool(&board, &bare, 130, format_test_run);
            for room in ["null", "5", r#"["a"]"#, "true", r#"{ "room": "a" }"#] {
                let params = json(&format!(
                    r#"{{ "name": "{tool}", "arguments": {{ "room": {room} }} }}"#
                ));
                assert_eq!(call_tool(&board, &params, 130, format_test_run), left_out, "{tool} {room}");
            }
        }
        let listed = call(&board, "list_sessions", "{}");
        assert_eq!(call(&board, "list_sessions", r#"{ "room": "nowhere" }"#), listed);
        assert_eq!(call(&board, "list_sessions", "7"), listed);
    }
}

/// Neither the id, nor the protocol a request names, nor a further field changes the answer.
#[test]
fn replies_to_one_method_and_params_differ_in_the_id_alone() {
    let board = board_with(&[("room-a", "a = 1")]);
    for asked in [
        r#""method": "initialize""#,
        r#""method": "tools/list""#,
        r#""method": "tools/call", "params": { "name": "get_code" }"#,
        r#""method": "tools/call", "params": null"#,
        r#""method": "resources/list""#,
        r#""other": 1"#,
    ] {
        let one = send(&board, &format!(r#"{{ "jsonrpc": "2.0", "id": 1, {asked} }}"#), 130).unwrap();
        let two = send(&board, &format!(r#"{{ "id": "x", "extra": [], {asked} }}"#), 130).unwrap();
        assert_eq!(one.get("id"), Some(&Json::whole(1)));
        assert_eq!(two.get("id"), Some(&Json::text("x")));
        for part in ["jsonrpc", "result", "error"] {
            assert_eq!(one.get(part), two.get(part), "{asked}");
        }
    }
    let absent = send(&board, r#"{ "id": 1, "method": "tools/call" }"#, 0);
    assert_eq!(absent, send(&board, r#"{ "id": 1, "method": "tools/call", "params": null }"#, 0));
}

#[test]
fn asking_again_is_answered_the_same() {
    let board = board_with(&[("room-a", "a = 1"), ("room-b", "b = 2")]);
    let before = board.sessions();
    for message in [
        r#"{ "id": 1, "method": "tools/call", "params": { "name": "list_sessions" } }"#,
        r#"{ "id": 2, "method": "tools/call",
             "params": { "name": "get_test_results", "arguments": { "room": "room-a" } } }"#,
        r#"{ "id": 3, "method": "tools/call", "params": { "name": "get_code" } }"#,
        r#"{ "method": "notifications/initialized" }"#,
        "[]",
    ] {
        let first = send(&board, message, 130);
        assert_eq!(send(&board, message, 130), first);
    }
    assert_eq!(board.sessions(), before);
    assert!(board.enabled());
}

#[test]
fn every_offered_tool_can_be_called_and_no_other() {
    let board = MentorBoard::default();
    let names: Vec<String> = match tool_definitions() {
        Json::Array(tools) => tools
            .iter()
            .map(|tool| tool.get("name").and_then(Json::as_str).unwrap().to_string())
            .collect(),
        other => panic!("{other:?}"),
    };
    assert_eq!(names, ["list_sessions", "get_problem", "get_code", "get_test_results"]);
    for name in ["list_sessions", "get_problem", "get_code", "get_test_results", "", "get_hints"] {
        let params = json(&format!(r#"{{ "name": "{name}" }}"#));
        let result = call_tool(&board, &params, 0, format_test_run);
        let unknown = refused(&result) && text(&result) == format!("Unknown tool: {name}");
        assert_eq!(unknown, !names.iter().any(|known| known == name), "{name}");
    }
}

#[test]
fn the_room_has_to_be_named_while_two_are_live() {
    let mut board = board_with(&[("room-a", "a = 1")]);
    let only = snapshot("a = 1", 100);
    assert_eq!(pick(&board, None), Ok(&only));
    assert_eq!(pick(&board, Some("room-a")), Ok(&only));

    board.publish("room-b", snapshot("b = 2", 101));
    assert_eq!(pick(&board, Some("room-a")), Ok(&only));
    assert_eq!(
        pick(&board, None),
        Err("More than one session is live; pass room. Call list_sessions.".to_string())
    );

    board.remove("room-b");
    assert_eq!(pick(&board, None), Ok(&only));
}
