use codetrial::agent::{Problem, RuntimeState, Variant};
use codetrial::json::{parse, Json};
use codetrial::mentor::{MentorBoard, Snapshot};
use codetrial::web::mentor::{bearer, mcp_answer, mcp_get_response, mcp_response, refusal, McpResponse};
use codetrial::web::{declared_routes, DEFAULT_WEB_DIR, MAX_BODY_BYTES, MAX_REPORT_BYTES, MCP_ROUTE};

#[test]
fn body_limit_matches_non_working_reference() {
    assert_eq!(MAX_BODY_BYTES, 8192);

    // Reports carry graded prose, so they get their own, larger ceiling; the
    // browser's per-field caps in web/lib.js are sized against this one.
    assert_eq!(MAX_REPORT_BYTES, 65536);
    assert_eq!(DEFAULT_WEB_DIR, "web");
}

#[test]
fn router_routes_match_a_fixed_allowlist() {
    let routes = declared_routes();
    let mut allowed = vec![
        "/healthz",
        "/runtime-config.js",
        "/api/token",
        "/api/observer-token",
        "/api/login",
        "/api/callback",
        "/api/session",
        "/api/logout",
        "/api/recordings",
        "/api/recordings/{id}",
        "/api/recordings/{id}/events",
        "/api/reports",
        "/api/interviews",
        "/api/interviews/{id}/consent",
        "/api/interviews/{id}/recording",
        "/api/interviews/{id}/end",
        "/api/interviews/{id}/events",
        "/api/interviews/{id}/snapshot",
        "/api/recording/replay",
        "/api/recording/webhook",
        "/mcp",
    ];
    allowed.sort_unstable();

    assert_eq!(
        routes, allowed,
        "the route list changed; a new one has to be added here deliberately, and none of them \
         may accept media"
    );
    assert!(routes.contains(&MCP_ROUTE));
}

fn format_test_run(_run: Option<&Json>, runs: u32) -> String {
    format!("{runs} runs")
}

fn json(text: &str) -> Json {
    parse(text.as_bytes()).expect("JSON text")
}

fn rpc(board: &MentorBoard, token: Option<&str>, body: &str) -> McpResponse {
    let header = token.map(|token| format!("Bearer {token}"));
    let header = header.as_ref().map(|header| header.as_bytes());
    mcp_response(board, header, body.as_bytes(), 0, format_test_run)
}

const PING: &str = r#"{ "jsonrpc": "2.0", "id": 1, "method": "ping" }"#;

/// Off unless an operator turned it on, and off looks like no route at all.
#[test]
fn the_route_is_absent_without_a_token() {
    let response = rpc(&MentorBoard::default(), Some("anything"), PING);
    assert_eq!(response.status, 404);
    assert_eq!(response.header, None);
    assert_eq!(response.body, None);
}

#[test]
fn a_wrong_or_missing_token_is_refused() {
    let board = MentorBoard::with_token(Some("right".to_string()));
    assert_eq!(rpc(&board, None, PING).status, 401);
    assert_eq!(rpc(&board, Some("wrong"), PING).status, 401);
    assert_eq!(rpc(&board, Some("right"), PING).status, 200);

    let refused = rpc(&board, Some("wrong"), "not json");
    assert_eq!(refused.header, Some(("www-authenticate", "Bearer")));
    assert_eq!(refused.body, None);
}

/// The handshake a real client runs, then a tool call that reads the board.
#[test]
fn a_client_can_initialize_list_tools_and_read_the_live_code() {
    let mut board = MentorBoard::with_token(Some("right".to_string()));
    let problem = Problem {
        posed: Variant {
            title: "Two Sum",
            brief: "Find the pair.".to_string(),
            contract: "one answer",
            hints: vec![],
            clarifications: vec![],
        },
        optimal: "a hash map",
    };
    let state = RuntimeState {
        language: "python".to_string(),
        code: "def two_sum(nums, target):\n    pass".to_string(),
        last_test_run: None,
        test_runs: 0,
    };
    board.publish("interview-1", Snapshot::of(&problem, &state, 0));

    let initialized = rpc(
        &board,
        Some("right"),
        r#"{ "jsonrpc": "2.0", "id": 1, "method": "initialize",
             "params": { "protocolVersion": "2025-06-18", "capabilities": {},
                         "clientInfo": { "name": "t", "version": "1" } } }"#,
    );
    assert_eq!(initialized.status, 200);
    let body = initialized.body.unwrap();
    let capabilities = body.get("result").and_then(|result| result.get("capabilities")).unwrap();
    assert_eq!(capabilities.get("tools"), Some(&json("{}")));

    let notified = rpc(
        &board,
        Some("right"),
        r#"{ "jsonrpc": "2.0", "method": "notifications/initialized" }"#,
    );
    assert_eq!(notified.status, 202);
    assert_eq!(notified.body, None);

    let tools = rpc(
        &board,
        Some("right"),
        r#"{ "jsonrpc": "2.0", "id": 2, "method": "tools/list" }"#,
    );
    let body = tools.body.unwrap();
    let names: Vec<&str> = match body.get("result").and_then(|result| result.get("tools")) {
        Some(Json::Array(tools)) => tools
            .iter()
            .filter_map(|tool| tool.get("name").and_then(Json::as_str))
            .collect(),
        _ => vec![],
    };
    assert_eq!(
        names,
        [
            "list_sessions",
            "get_problem",
            "get_code",
            "get_test_results"
        ]
    );

    let code = rpc(
        &board,
        Some("right"),
        r#"{ "jsonrpc": "2.0", "id": 3, "method": "tools/call",
             "params": { "name": "get_code", "arguments": {} } }"#,
    );
    let body = code.body.unwrap();
    let text = match body.get("result").and_then(|result| result.get("content")) {
        Some(Json::Array(items)) => items[0].get("text").and_then(Json::as_str).unwrap(),
        _ => "",
    };
    assert!(text.contains("def two_sum(nums, target):"), "{text}");
}

/// Nothing is pushed, so a client that opens the optional GET stream is told
/// there is none rather than left waiting on one.
#[test]
fn the_get_stream_is_not_offered() {
    let board = MentorBoard::with_token(Some("right".to_string()));
    let response = mcp_get_response(&board);
    assert_eq!(response.status, 405);
    assert_eq!(response.header, Some(("allow", "POST")));
    assert_eq!(mcp_get_response(&MentorBoard::default()).status, 404);
}

#[test]
fn a_body_that_is_not_json_is_a_parse_error() {
    let board = MentorBoard::with_token(Some("right".to_string()));
    let response = rpc(&board, Some("right"), "{");
    assert_eq!(response.status, 400);
    assert_eq!(response.header, None);
    assert_eq!(
        response.body,
        Some(json(
            r#"{ "jsonrpc": "2.0", "id": null,
                 "error": { "code": -32700, "message": "Parse error." } }"#
        ))
    );
}

#[test]
fn a_request_that_was_let_in_is_answered_by_what_its_body_says() {
    let board = MentorBoard::default();
    let ping = json(PING);
    assert_eq!(mcp_answer(&board, Some(&ping), 0, format_test_run).status, 200);
    assert_eq!(mcp_answer(&board, Some(&json("{}")), 0, format_test_run).status, 202);
    assert_eq!(mcp_answer(&board, Some(&json("[]")), 0, format_test_run).status, 200);
    assert_eq!(mcp_answer(&board, None, 0, format_test_run).status, 400);
}

#[test]
fn the_door_opens_only_to_the_token_that_turned_it_on() {
    assert_eq!(refusal(false, false).unwrap().status, 404);
    assert_eq!(refusal(false, true).unwrap().status, 404);
    assert_eq!(refusal(true, false).unwrap().status, 401);
    assert!(refusal(true, true).is_none());
}

#[test]
fn a_bearer_header_presents_its_token() {
    assert_eq!(bearer(None), "");
    assert_eq!(bearer(Some(b"Bearer abc")), "abc");
    assert_eq!(bearer(Some(b"Bearer   abc\t")), "abc");
    assert_eq!(bearer(Some(b"Bearer ")), "");
    assert_eq!(bearer(Some(b"Bearer")), "");
    assert_eq!(bearer(Some(b"bearer abc")), "");
    assert_eq!(bearer(Some(b"Basic abc")), "");
    assert_eq!(bearer(Some(b"Bearer ab\xe9")), "");
    assert_eq!(bearer(Some(b"Bearer ab\x7f")), "");
    assert_eq!(bearer(Some(b"Bearer ab\n")), "");
}

#[test]
fn a_token_is_presented_without_the_white_space_around_it() {
    let board = MentorBoard::with_token(Some("  right one ".to_string()));
    assert_eq!(rpc(&board, Some(" right one  "), PING).status, 200);
    assert_eq!(rpc(&board, Some("rightone"), PING).status, 401);
    let blank = MentorBoard::with_token(Some(" \t ".to_string()));
    assert_eq!(rpc(&blank, Some(""), PING).status, 404);
}

#[test]
fn a_token_given_with_a_line_end_is_sent_without_it() {
    let board = MentorBoard::with_token(Some("secret\n".to_string()));
    assert_eq!(rpc(&board, Some("secret"), PING).status, 200);
    assert_eq!(rpc(&board, Some("\tsecret "), PING).status, 200);
    assert_eq!(rpc(&board, Some("secret\n"), PING).status, 401);
}

#[test]
fn a_client_that_reconnects_is_answered_the_same() {
    let board = MentorBoard::with_token(Some("secret".to_string()));
    for (token, body) in [("secret", PING), ("other", PING), ("secret", "{"), ("secret", "{}")] {
        let first = rpc(&board, Some(token), body);
        let second = rpc(&board, Some(token), body);
        assert_eq!(first.status, second.status);
        assert_eq!(first.header, second.header);
        assert_eq!(first.body, second.body);
    }
}
