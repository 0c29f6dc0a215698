//! What each message is answered.

use vstd::prelude::*;

use super::board::Sessions;
use super::rpc::{
    answers, failure, introduction, lemma_methods_differ, offers, params_of, reply, run_asked,
    run_asked_by, tool_answer, tool_result, tool_results, words_asked,
};
use super::tool_laws::{law_a_run_is_worded_as_it_is, may_word};
use crate::json::{Json, JsonView, Number};

verus! {

/// Whether `response` is a JSON-RPC response with the id `id` and the result `result`, and
/// nothing else.
pub open spec fn is_result(response: JsonView, id: JsonView, result: JsonView) -> bool {
    &&& response is Object
    &&& response->Object_0.dom() =~= set!["jsonrpc"@, "id"@, "result"@]
    &&& response->Object_0["jsonrpc"@] == JsonView::String("2.0"@)
    &&& response->Object_0["id"@] == id
    &&& response->Object_0["result"@] == result
}

/// Whether `response` is a JSON-RPC response with the id `id` and an error of this code and
/// message, and nothing else.
pub open spec fn is_error(
    response: JsonView,
    id: JsonView,
    code: int,
    message: Seq<char>,
) -> bool {
    &&& response is Object
    &&& response->Object_0.dom() =~= set!["jsonrpc"@, "id"@, "error"@]
    &&& response->Object_0["jsonrpc"@] == JsonView::String("2.0"@)
    &&& response->Object_0["id"@] == id
    &&& {
        let error = response->Object_0["error"@];
        &&& error is Object
        &&& error->Object_0.dom() =~= set!["code"@, "message"@]
        &&& error->Object_0["code"@] matches JsonView::Number(Number::Negative(told)) && told
            == code
        &&& error->Object_0["message"@] == JsonView::String(message)
    }
}

/// Whether `told` is how this server introduces itself in the protocol revision `version`.
pub open spec fn introduces(told: JsonView, version: Seq<char>) -> bool {
    &&& told is Object
    &&& told->Object_0.dom() =~= set![
        "protocolVersion"@,
        "capabilities"@,
        "serverInfo"@,
        "instructions"@,
    ]
    &&& told->Object_0["protocolVersion"@] == JsonView::String(version)
    &&& {
        let capabilities = told->Object_0["capabilities"@];
        &&& capabilities is Object
        &&& capabilities->Object_0.dom() =~= set!["tools"@]
        &&& capabilities->Object_0["tools"@] is Object
        &&& capabilities->Object_0["tools"@]->Object_0.dom() =~= Set::<Seq<char>>::empty()
    }
    &&& {
        let server = told->Object_0["serverInfo"@];
        &&& server is Object
        &&& server->Object_0.dom() =~= set!["name"@, "version"@]
        &&& server->Object_0["name"@] == JsonView::String("codetrial"@)
        &&& server->Object_0["version"@] == JsonView::String("0.1.0"@)
    }
    &&& told->Object_0["instructions"@] == JsonView::String(
        "Read a CodeTrial candidate's live practice session: the problem as posed, their code and their test runs."@,
    )
}

/// The names of what messages are made of differ.
pub(crate) proof fn lemma_names_differ()
    ensures
        "jsonrpc"@ != "id"@ && "jsonrpc"@ != "result"@ && "jsonrpc"@ != "error"@,
        "id"@ != "result"@ && "id"@ != "error"@,
        "code"@ != "message"@,
        "protocolVersion"@ != "capabilities"@ && "protocolVersion"@ != "serverInfo"@,
        "protocolVersion"@ != "instructions"@ && "capabilities"@ != "serverInfo"@,
        "capabilities"@ != "instructions"@ && "serverInfo"@ != "instructions"@,
        "name"@ != "version"@,
{
    reveal_strlit("jsonrpc");
    reveal_strlit("id");
    reveal_strlit("result");
    reveal_strlit("error");
    reveal_strlit("code");
    reveal_strlit("message");
    reveal_strlit("protocolVersion");
    reveal_strlit("capabilities");
    reveal_strlit("serverInfo");
    reveal_strlit("instructions");
    reveal_strlit("name");
    reveal_strlit("version");
    assert("jsonrpc"@.len() == 7 && "id"@.len() == 2 && "result"@.len() == 6);
    assert("error"@.len() == 5 && "code"@.len() == 4 && "message"@.len() == 7);
    assert("protocolVersion"@[0] == 'p' && "capabilities"@[0] == 'c');
    assert("serverInfo"@[0] == 's' && "instructions"@[0] == 'i');
    assert("name"@.len() == 4 && "version"@.len() == 7);
}

/// Law: a client is introduced to the server in the protocol revision that it asks for where
/// that is one of the three the server speaks, and otherwise, whatever it asks, in the newest.
/// Nothing else that it sends changes the introduction.
pub proof fn law_the_introduction(
    params: JsonView,
    fields: Map<Seq<char>, JsonView>,
    version: Seq<char>,
)
    ensures
        ({
            let told = introduction(params);
            let spoken = version == "2024-11-05"@ || version == "2025-03-26"@ || version
                == "2025-06-18"@;
            let (asks, asked) = (
                fields.dom().contains("protocolVersion"@),
                fields["protocolVersion"@],
            );
            &&& params !is Object ==> introduces(told, "2025-06-18"@)
            &&& params == JsonView::Object(fields) && (!asks || asked !is String) ==> introduces(
                told,
                "2025-06-18"@,
            )
            &&& params == JsonView::Object(fields) && asks && asked == JsonView::String(version)
                ==> introduces(
                told,
                if spoken {
                    version
                } else {
                    "2025-06-18"@
                },
            )
        }),
{
    lemma_names_differ();
    let told = introduction(params);
    assert(told->Object_0.dom() =~= set![
        "protocolVersion"@,
        "capabilities"@,
        "serverInfo"@,
        "instructions"@,
    ]);
    assert(told->Object_0["capabilities"@]->Object_0.dom() =~= set!["tools"@]);
    assert(told->Object_0["capabilities"@]->Object_0["tools"@]->Object_0.dom() =~= Set::<
        Seq<char>,
    >::empty());
    assert(told->Object_0["serverInfo"@]->Object_0.dom() =~= set!["name"@, "version"@]);
}

/// An error response is what it is made of.
pub(crate) proof fn lemma_failure(id: JsonView, code: int, message: Seq<char>)
    requires
        i64::MIN <= code < 0,
    ensures
        is_error(failure(id, code, message), id, code, message),
{
    lemma_names_differ();
    let parts = failure(id, code, message)->Object_0;
    assert(parts.dom() =~= set!["jsonrpc"@, "id"@, "error"@]);
    assert(parts["error"@]->Object_0.dom() =~= set!["code"@, "message"@]);
}

/// Law: a message that is no object is answered with an error, without an id. An object without
/// an id is a notification and gets no answer.
pub proof fn law_what_is_no_request(
    sessions: Sessions,
    message: JsonView,
    now_seconds: u64,
    report: Seq<char>,
)
    ensures
        ({
            let answer = reply(sessions, message, now_seconds, report);
            &&& message !is Object ==> answer is Some && is_error(
                answer->0,
                JsonView::Null,
                -32600,
                "Expected one JSON-RPC object."@,
            )
            &&& message matches JsonView::Object(fields) ==> (answer is None
                <==> !fields.dom().contains("id"@))
        }),
{
    lemma_failure(JsonView::Null, -32600, "Expected one JSON-RPC object."@);
}

/// Law: a request is answered under its own id, with what its method is for: `ping` with an
/// empty result, `initialize` with the introduction, `tools/list` with the tools on offer and
/// `tools/call` with the result of the call. Any other method is an error that names it, and so
/// is a request without one.
pub proof fn law_what_a_request_is_answered(
    sessions: Sessions,
    fields: Map<Seq<char>, JsonView>,
    now_seconds: u64,
    report: Seq<char>,
)
    requires
        fields.dom().contains("id"@),
    ensures
        ({
            let answer = reply(sessions, JsonView::Object(fields), now_seconds, report);
            let response = answer->0;
            let id = fields["id"@];
            let params = if fields.dom().contains("params"@) {
                fields["params"@]
            } else {
                JsonView::Null
            };
            let has_method = fields.dom().contains("method"@) && fields["method"@] is String;
            let method = fields["method"@]->String_0;
            &&& answer is Some
            &&& !has_method ==> is_error(response, id, -32600, "Missing method."@)
            &&& has_method && method == "ping"@ ==> is_result(
                response,
                id,
                JsonView::Object(Map::empty()),
            )
            &&& has_method && method == "initialize"@ ==> is_result(
                response,
                id,
                introduction(params),
            )
            &&& has_method && method == "tools/list"@ ==> is_result(
                response,
                id,
                JsonView::Object(Map::empty().insert("tools"@, JsonView::Array(offers()))),
            )
            &&& has_method && method == "tools/call"@ ==> is_result(
                response,
                id,
                tool_result(tool_answer(sessions, params, now_seconds, report)),
            )
            &&& has_method && method != "ping"@ && method != "initialize"@ && method
                != "tools/list"@ && method != "tools/call"@ ==> is_error(
                response,
                id,
                -32601,
                "Method not found: "@ + method,
            )
        }),
{
    lemma_names_differ();
    lemma_methods_differ();
    let (id, answer) = (
        fields["id"@],
        reply(sessions, JsonView::Object(fields), now_seconds, report),
    );
    lemma_failure(id, -32600, "Missing method."@);
    if let JsonView::String(method) = fields["method"@] {
        lemma_failure(id, -32601, "Method not found: "@ + method);
    }
    if answer->0->Object_0.contains_key("result"@) {
        assert(answer->0->Object_0.dom() =~= set!["jsonrpc"@, "id"@, "result"@]);
    }
}

/// Law: the parameters of a request are what it has under `params`, and a null where it has
/// nothing there.
pub proof fn law_the_parameters_of_a_request(fields: Map<Seq<char>, JsonView>)
    ensures
        fields.dom().contains("params"@) ==> params_of(JsonView::Object(fields))
            == fields["params"@],
        !fields.dom().contains("params"@) ==> params_of(JsonView::Object(fields)) is Null,
{
}

/// Law: a message has a run worded exactly where it is a request to call a tool, and that call
/// has one worded.
pub proof fn law_the_run_a_message_asks_for(
    sessions: Sessions,
    message: JsonView,
    fields: Map<Seq<char>, JsonView>,
)
    ensures
        message !is Object ==> run_asked_by(sessions, message) is None,
        message == JsonView::Object(fields) ==> {
            let calls = fields.dom().contains("id"@) && fields.dom().contains("method"@)
                && fields["method"@] == JsonView::String("tools/call"@);
            &&& !calls ==> run_asked_by(sessions, message) is None
            &&& calls && fields.dom().contains("params"@) ==> run_asked_by(sessions, message)
                == run_asked(sessions, fields["params"@])
            &&& calls && !fields.dom().contains("params"@) ==> run_asked_by(
                sessions,
                message,
            ) is None
        },
{
    reveal_strlit("get_test_results");
    assert("get_test_results"@.len() == 16);
}

/// Law: an answer to a message is its reply, with the run that it asks for worded by whoever
/// words runs. Where it asks for none there is one answer, whatever anyone would word.
pub proof fn law_an_answer_is_the_reply<F: Fn(Option<&Json>, u32) -> String>(
    sessions: Sessions,
    message: JsonView,
    now_seconds: u64,
    format_test_run: F,
    answer: Option<JsonView>,
)
    ensures
        match run_asked_by(sessions, message) {
            None => answers(sessions, message, now_seconds, format_test_run, answer)
                <==> forall|report: Seq<char>|
                answer == #[trigger] reply(sessions, message, now_seconds, report),
            Some((run, runs)) => answers(sessions, message, now_seconds, format_test_run, answer)
                <==> exists|report: Seq<char>|
                may_word(format_test_run, run, runs, report) && answer == #[trigger] reply(
                    sessions,
                    message,
                    now_seconds,
                    report,
                ),
        },
{
    let asked = run_asked_by(sessions, message);
    let answered = answers(sessions, message, now_seconds, format_test_run, answer);
    match asked {
        None => {
            if answered {
                let told = choose|told: Seq<char>| #[trigger]
                    words_asked(format_test_run, asked, told) && answer == reply(
                        sessions,
                        message,
                        now_seconds,
                        told,
                    );
                assert forall|report: Seq<char>| answer == #[trigger] reply(
                    sessions,
                    message,
                    now_seconds,
                    report,
                ) by {
                    super::laws::law_report_is_told_only_when_asked(
                        sessions,
                        message,
                        now_seconds,
                        told,
                        report,
                    );
                }
            }
            if forall|report: Seq<char>|
                answer == #[trigger] reply(sessions, message, now_seconds, report) {
                let nothing: Seq<char> = Seq::empty();
                assert(words_asked(format_test_run, asked, nothing));
                assert(answer == reply(sessions, message, now_seconds, nothing));
            }
        },
        Some((run, runs)) => {
            if answered {
                let told = choose|told: Seq<char>| #[trigger]
                    words_asked(format_test_run, asked, told) && answer == reply(
                        sessions,
                        message,
                        now_seconds,
                        told,
                    );
                law_a_run_is_worded_as_it_is(format_test_run, run, runs, told);
                assert(answer == reply(sessions, message, now_seconds, told));
            }
            if exists|report: Seq<char>|
                may_word(format_test_run, run, runs, report) && answer == #[trigger] reply(
                    sessions,
                    message,
                    now_seconds,
                    report,
                ) {
                let told = choose|report: Seq<char>|
                    may_word(format_test_run, run, runs, report) && answer == #[trigger] reply(
                        sessions,
                        message,
                        now_seconds,
                        report,
                    );
                law_a_run_is_worded_as_it_is(format_test_run, run, runs, told);
                assert(words_asked(format_test_run, asked, told));
            }
        },
    }
}

/// Law: an answer carries the id of its request, unchanged, and a request is always answered.
/// The answer to a tool call carries a result of that call.
pub proof fn law_an_answer_carries_the_id<F: Fn(Option<&Json>, u32) -> String>(
    sessions: Sessions,
    fields: Map<Seq<char>, JsonView>,
    now_seconds: u64,
    format_test_run: F,
    answer: Option<JsonView>,
)
    requires
        fields.dom().contains("id"@),
        answers(sessions, JsonView::Object(fields), now_seconds, format_test_run, answer),
    ensures
        answer is Some,
        answer->0 is Object,
        answer->0->Object_0.dom().contains("jsonrpc"@),
        answer->0->Object_0["jsonrpc"@] == JsonView::String("2.0"@),
        answer->0->Object_0.dom().contains("id"@),
        answer->0->Object_0["id"@] == fields["id"@],
        fields.dom().contains("method"@) && fields["method"@] == JsonView::String("tools/call"@)
            && fields.dom().contains("params"@) ==> {
            let result = answer->0->Object_0["result"@];
            &&& is_result(answer->0, fields["id"@], result)
            &&& tool_results(sessions, fields["params"@], now_seconds, format_test_run, result)
        },
{
    let message = JsonView::Object(fields);
    let told = choose|told: Seq<char>| #[trigger]
        words_asked(format_test_run, run_asked_by(sessions, message), told) && answer == reply(
            sessions,
            message,
            now_seconds,
            told,
        );
    lemma_names_differ();
    law_what_a_request_is_answered(sessions, fields, now_seconds, told);
    law_the_run_a_message_asks_for(sessions, message, fields);
}

/// Law: the result of a tool call says the tool's answer, with the run that it asks for worded
/// by whoever words runs.
pub proof fn law_a_result_is_the_answer<F: Fn(Option<&Json>, u32) -> String>(
    sessions: Sessions,
    params: JsonView,
    now_seconds: u64,
    format_test_run: F,
    report: Seq<char>,
)
    requires
        match run_asked(sessions, params) {
            Some((run, runs)) => may_word(format_test_run, run, runs, report),
            None => true,
        },
    ensures
        tool_results(
            sessions,
            params,
            now_seconds,
            format_test_run,
            tool_result(tool_answer(sessions, params, now_seconds, report)),
        ),
{
    if let Some((run, runs)) = run_asked(sessions, params) {
        law_a_run_is_worded_as_it_is(format_test_run, run, runs, report);
    }
    assert(words_asked(format_test_run, run_asked(sessions, params), report));
}

} // verus!
