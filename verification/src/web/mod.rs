//! The HTTP face: its ceilings and its route allowlist.

use vstd::prelude::*;

pub mod laws;
pub mod mentor;

verus! {

/// The largest request body that a session request may have, in bytes.
pub const MAX_BODY_BYTES: usize = 8192;

/// The largest body that a report may have, in bytes. Reports carry graded prose, so their
/// ceiling is larger than the one of a session request.
pub const MAX_REPORT_BYTES: usize = 65536;

/// The directory that the browser's files are served from unless an operator names another.
pub const DEFAULT_WEB_DIR: &'static str = "web";

/// The path at which a mentor reads a live session.
pub const MCP_ROUTE: &'static str = "/mcp";

/// The allowlist of the whole server: every path that any of its routers may declare, in
/// order. No path takes media.
pub open spec fn routes() -> Seq<Seq<char>> {
    seq![
        "/api/callback"@,
        "/api/interviews"@,
        "/api/interviews/{id}/consent"@,
        "/api/interviews/{id}/end"@,
        "/api/interviews/{id}/events"@,
        "/api/interviews/{id}/recording"@,
        "/api/interviews/{id}/snapshot"@,
        "/api/login"@,
        "/api/logout"@,
        "/api/observer-token"@,
        "/api/recording/replay"@,
        "/api/recording/webhook"@,
        "/api/recordings"@,
        "/api/recordings/{id}"@,
        "/api/recordings/{id}/events"@,
        "/api/reports"@,
        "/api/session"@,
        "/api/token"@,
        "/healthz"@,
        "/mcp"@,
        "/runtime-config.js"@,
    ]
}

/// The allowlist of the whole server, in order.
pub fn declared_routes() -> (res: Vec<&'static str>)
    ensures
        res@.map_values(|route: &'static str| route@) == routes(),
{
    let res: Vec<&'static str> = vec![
        "/api/callback",
        "/api/interviews",
        "/api/interviews/{id}/consent",
        "/api/interviews/{id}/end",
        "/api/interviews/{id}/events",
        "/api/interviews/{id}/recording",
        "/api/interviews/{id}/snapshot",
        "/api/login",
        "/api/logout",
        "/api/observer-token",
        "/api/recording/replay",
        "/api/recording/webhook",
        "/api/recordings",
        "/api/recordings/{id}",
        "/api/recordings/{id}/events",
        "/api/reports",
        "/api/session",
        "/api/token",
        "/healthz",
        MCP_ROUTE,
        "/runtime-config.js",
    ];
    assert(res@.map_values(|route: &'static str| route@) =~= routes());
    res
}

} // verus!
