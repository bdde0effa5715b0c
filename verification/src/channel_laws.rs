//! What the answers of the side channel mean to the server, and which requests
//! and descriptors the side channel takes.

use vstd::prelude::*;

use crate::bridge_options;
use crate::bridge_options::BridgeOptions;
use crate::protocol::{ErrorView, RequestIdView};
use crate::side_channel;
use crate::side_channel::{
    AnsweredRequest, ResponseEventView, ResponseLine, ResponseOutcomeView, ServerRequestSideband,
    SessionFds, SidebandOutputs,
};
use crate::sideband;
use crate::sideband::{
    CommandExecutionApprovalDecision, CommandExecutionReading, FileChangeApprovalDecision,
    FileChangeReading, ItemRequestParams, LegacyApprovalParams, ManagedServerRequest,
    ManagedServerRequestKind, ManagedView, NamedFd, ResolutionView, ServerRequest, ServerRequestBody,
    SidebandResponseEnvelope,
};
use crate::text;

verus! {

/// The answer to a request, as JSON, that carries a word as its decision.
pub open spec fn answer_with(word: Seq<char>) -> Result<ResolutionView, Seq<char>> {
    Ok(ResolutionView::Resolve("{\"decision\":\""@ + word + "\"}"@))
}

/// Two answers that carry words are the same only where the words are.
proof fn lemma_answers_differ(left: Seq<char>, right: Seq<char>)
    ensures
        answer_with(left) == answer_with(right) ==> left == right,
{
    let open = "{\"decision\":\""@;
    let close = "\"}"@;
    if answer_with(left) == answer_with(right) {
        let one = open + left + close;
        let two = open + right + close;
        assert(one == two);
        assert(left.len() == right.len());
        let n = open.len() as int;
        assert(one.subrange(n, n + left.len()) =~= left);
        assert(two.subrange(n, n + right.len()) =~= right);
    }
}

/// The answer to a legacy patch approval approves exactly where the response
/// accepts: it carries "approved" exactly for an acceptance and
/// "approved_for_session" exactly for one of the session, and otherwise
/// "denied" exactly for a refusal and "abort" exactly for a cancellation.
pub proof fn a_legacy_patch_is_approved_where_it_is_accepted(response: SidebandResponseEnvelope)
    requires
        response.kind@ == "file_change_approval_response"@,
        response.response.file_change is Ok,
    ensures
        ({
            let kind = ManagedServerRequestKind::LegacyApplyPatchApproval;
            let answer = kind.answered(response);
            let decision = response.response.file_change->Ok_0.decision;
            &&& answer == answer_with("approved"@) <==> decision
                == FileChangeApprovalDecision::Accept
            &&& answer == answer_with("approved_for_session"@) <==> decision
                == FileChangeApprovalDecision::AcceptForSession
            &&& answer == answer_with("denied"@) <==> decision
                == FileChangeApprovalDecision::Decline
            &&& answer == answer_with("abort"@) <==> decision == FileChangeApprovalDecision::Cancel
        }),
{
    lemma_words_differ();
}

proof fn lemma_words_differ()
    ensures
        answer_with("approved"@) != answer_with("approved_for_session"@),
        answer_with("approved"@) != answer_with("denied"@),
        answer_with("approved"@) != answer_with("abort"@),
        answer_with("approved_for_session"@) != answer_with("denied"@),
        answer_with("approved_for_session"@) != answer_with("abort"@),
        answer_with("denied"@) != answer_with("abort"@),
{
    reveal_strlit("approved");
    reveal_strlit("approved_for_session");
    reveal_strlit("denied");
    reveal_strlit("abort");
    assert("approved"@.len() == 8);
    assert("approved_for_session"@.len() == 20);
    assert("denied"@.len() == 6);
    assert("abort"@.len() == 5);
    lemma_answers_differ("approved"@, "approved_for_session"@);
    lemma_answers_differ("approved"@, "denied"@);
    lemma_answers_differ("approved"@, "abort"@);
    lemma_answers_differ("approved_for_session"@, "denied"@);
    lemma_answers_differ("approved_for_session"@, "abort"@);
    lemma_answers_differ("denied"@, "abort"@);
}

/// The answer to a legacy command approval approves exactly where the response
/// accepts, in the same words; a decision that the legacy answer has no word for
/// is no answer.
pub proof fn a_legacy_command_is_approved_where_it_is_accepted(response: SidebandResponseEnvelope)
    requires
        response.kind@ == "command_execution_approval_response"@,
        response.response.command_execution is Ok,
    ensures
        ({
            let kind = ManagedServerRequestKind::LegacyExecCommandApproval;
            let answer = kind.answered(response);
            let decision = response.response.command_execution->Ok_0.decision;
            &&& answer == answer_with("approved"@) <==> decision
                == CommandExecutionApprovalDecision::Accept
            &&& answer == answer_with("approved_for_session"@) <==> decision
                == CommandExecutionApprovalDecision::AcceptForSession
            &&& answer == answer_with("denied"@) <==> decision
                == CommandExecutionApprovalDecision::Decline
            &&& answer == answer_with("abort"@) <==> decision
                == CommandExecutionApprovalDecision::Cancel
            &&& answer is Err <==> decision
                == CommandExecutionApprovalDecision::AcceptWithExecpolicyAmendment || decision
                == CommandExecutionApprovalDecision::ApplyNetworkPolicyAmendment
            &&& answer is Err ==> answer == Err::<ResolutionView, Seq<char>>(
                "legacy exec approvals do not support advanced approval decisions"@,
            )
        }),
{
    lemma_words_differ();
}

/// A decision on a legacy patch and the same decision on a legacy command are
/// put in the same words.
pub proof fn legacy_approvals_speak_alike(
    patch: SidebandResponseEnvelope,
    command: SidebandResponseEnvelope,
)
    requires
        patch.kind@ == "file_change_approval_response"@,
        command.kind@ == "command_execution_approval_response"@,
        patch.response.file_change is Ok,
        command.response.command_execution is Ok,
        match patch.response.file_change->Ok_0.decision {
            FileChangeApprovalDecision::Accept =>
                command.response.command_execution->Ok_0.decision
                == CommandExecutionApprovalDecision::Accept,
            FileChangeApprovalDecision::AcceptForSession =>
                command.response.command_execution->Ok_0.decision
                == CommandExecutionApprovalDecision::AcceptForSession,
            FileChangeApprovalDecision::Decline =>
                command.response.command_execution->Ok_0.decision
                == CommandExecutionApprovalDecision::Decline,
            FileChangeApprovalDecision::Cancel =>
                command.response.command_execution->Ok_0.decision
                == CommandExecutionApprovalDecision::Cancel,
        },
    ensures
        ManagedServerRequestKind::LegacyApplyPatchApproval.answered(patch)
            == ManagedServerRequestKind::LegacyExecCommandApproval.answered(command),
{
    a_legacy_patch_is_approved_where_it_is_accepted(patch);
    a_legacy_command_is_approved_where_it_is_accepted(command);
}

/// A response that could not be read as what the request asks for is no answer
/// to a legacy request either, and the reason is reported.
pub proof fn unread_responses_answer_no_legacy_request(
    response: SidebandResponseEnvelope,
    reason: String,
)
    ensures
        response.kind@ == "file_change_approval_response"@ && response.response.file_change
            == Err::<FileChangeReading, String>(reason)
            ==> ManagedServerRequestKind::LegacyApplyPatchApproval.answered(response) == Err::<
            ResolutionView,
            Seq<char>,
        >(reason@),
        response.kind@ == "command_execution_approval_response"@
            && response.response.command_execution == Err::<CommandExecutionReading, String>(reason)
            ==> ManagedServerRequestKind::LegacyExecCommandApproval.answered(response) == Err::<
            ResolutionView,
            Seq<char>,
        >(reason@),
{
}

/// A response of today's kinds is handed on just as it came, each from its own
/// reading, and what kept it from being read is reported.
pub proof fn responses_are_handed_on_unchanged(response: SidebandResponseEnvelope)
    ensures
        ({
            let readings = response.response;
            &&& response.kind@ == "command_execution_approval_response"@
                ==> ManagedServerRequestKind::CommandExecutionApproval.answered(response)
                == match readings.command_execution {
                Ok(reading) => Ok::<ResolutionView, Seq<char>>(
                    ResolutionView::Resolve(reading.json@),
                ),
                Err(message) => Err(message@),
            }
            &&& response.kind@ == "file_change_approval_response"@
                ==> ManagedServerRequestKind::FileChangeApproval.answered(response)
                == match readings.file_change {
                Ok(reading) => Ok::<ResolutionView, Seq<char>>(
                    ResolutionView::Resolve(reading.json@),
                ),
                Err(message) => Err(message@),
            }
            &&& response.kind@ == "permissions_approval_response"@
                ==> ManagedServerRequestKind::PermissionsApproval.answered(response)
                == match readings.permissions {
                Ok(json) => Ok::<ResolutionView, Seq<char>>(ResolutionView::Resolve(json@)),
                Err(message) => Err(message@),
            }
            &&& response.kind@ == "mcp_elicitation_response"@
                ==> ManagedServerRequestKind::McpElicitation.answered(response)
                == match readings.elicitation {
                Ok(json) => Ok::<ResolutionView, Seq<char>>(ResolutionView::Resolve(json@)),
                Err(message) => Err(message@),
            }
            &&& response.kind@ == "tool_user_input_response"@
                ==> ManagedServerRequestKind::ToolUserInput.answered(response)
                == match readings.tool_input {
                Ok(json) => Ok::<ResolutionView, Seq<char>>(ResolutionView::Resolve(json@)),
                Err(message) => Err(message@),
            }
        }),
{
}

/// The word that a kind of request is told by, without its ending.
pub open spec fn kind_word(kind: ManagedServerRequestKind) -> Seq<char> {
    match kind {
        ManagedServerRequestKind::CommandExecutionApproval
        | ManagedServerRequestKind::LegacyExecCommandApproval => "command_execution_approval"@,
        ManagedServerRequestKind::FileChangeApproval
        | ManagedServerRequestKind::LegacyApplyPatchApproval => "file_change_approval"@,
        ManagedServerRequestKind::PermissionsApproval => "permissions_approval"@,
        ManagedServerRequestKind::McpElicitation => "mcp_elicitation"@,
        ManagedServerRequestKind::ToolUserInput => "tool_user_input"@,
    }
}

/// A request is told, and answered, under the word of its kind: with "_request"
/// behind it the one, with "_response" the other. A legacy request goes by the
/// word of the request that has replaced it.
pub proof fn requests_and_responses_share_their_word(kind: ManagedServerRequestKind)
    ensures
        kind.request_name() == kind_word(kind) + "_request"@,
        kind.response_name() == kind_word(kind) + "_response"@,
{
    reveal_strlit("_request");
    reveal_strlit("_response");
    reveal_strlit("command_execution_approval");
    reveal_strlit("command_execution_approval_request");
    reveal_strlit("command_execution_approval_response");
    reveal_strlit("file_change_approval");
    reveal_strlit("file_change_approval_request");
    reveal_strlit("file_change_approval_response");
    reveal_strlit("permissions_approval");
    reveal_strlit("permissions_approval_request");
    reveal_strlit("permissions_approval_response");
    reveal_strlit("mcp_elicitation");
    reveal_strlit("mcp_elicitation_request");
    reveal_strlit("mcp_elicitation_response");
    reveal_strlit("tool_user_input");
    reveal_strlit("tool_user_input_request");
    reveal_strlit("tool_user_input_response");
    assert(kind.request_name() =~= kind_word(kind) + "_request"@);
    assert(kind.response_name() =~= kind_word(kind) + "_response"@);
}

/// A response of another kind than the request's is no answer, and the report
/// names both kinds.
pub proof fn a_response_of_another_kind_is_no_answer(
    kind: ManagedServerRequestKind,
    response: SidebandResponseEnvelope,
)
    requires
        response.kind@ != kind_word(kind) + "_response"@,
    ensures
        kind.answered(response) == Err::<ResolutionView, Seq<char>>(
            "response kind mismatch for request "@ + response.request_id@.debug_shown()
                + ": expected `"@ + (kind_word(kind) + "_response"@) + "`, got `"@ + response.kind@
                + "`"@,
        ),
{
    requests_and_responses_share_their_word(kind);
}

/// Where no response can come, no request is approved: approvals are declined or
/// denied, an elicitation is cancelled, and the other requests are refused with
/// an error.
pub proof fn nothing_is_approved_without_a_response(kind: ManagedServerRequestKind)
    ensures
        match kind {
            ManagedServerRequestKind::CommandExecutionApproval
            | ManagedServerRequestKind::FileChangeApproval => Ok::<ResolutionView, Seq<char>>(
                kind.fallback(),
            ) == answer_with("decline"@),
            ManagedServerRequestKind::LegacyExecCommandApproval
            | ManagedServerRequestKind::LegacyApplyPatchApproval => Ok::<
                ResolutionView,
                Seq<char>,
            >(kind.fallback()) == answer_with("denied"@),
            ManagedServerRequestKind::McpElicitation => kind.fallback() == ResolutionView::Resolve(
                "{\"action\":\"cancel\",\"content\":null,\"_meta\":null}"@,
            ),
            ManagedServerRequestKind::PermissionsApproval => kind.fallback()
                == ResolutionView::Reject(
                ErrorView {
                    code: -32000,
                    message: "turn-start bridge sideband unavailable: "@
                        + "permissions approval response channel closed"@,
                    data: None,
                },
            ),
            ManagedServerRequestKind::ToolUserInput => kind.fallback() == ResolutionView::Reject(
                ErrorView {
                    code: -32000,
                    message: "turn-start bridge sideband unavailable: "@
                        + "tool input response channel closed"@,
                    data: None,
                },
            ),
        },
        Ok::<ResolutionView, Seq<char>>(kind.fallback()) != answer_with("approved"@),
        Ok::<ResolutionView, Seq<char>>(kind.fallback()) != answer_with("approved_for_session"@),
        Ok::<ResolutionView, Seq<char>>(kind.fallback()) != answer_with("accept"@),
{
    lemma_words_differ();
    reveal_strlit("approved");
    reveal_strlit("approved_for_session");
    reveal_strlit("denied");
    reveal_strlit("decline");
    reveal_strlit("accept");
    reveal_strlit("{\"decision\":\"");
    reveal_strlit("\"}");
    reveal_strlit("{\"action\":\"cancel\",\"content\":null,\"_meta\":null}");
    assert("decline"@.len() == 7);
    assert("accept"@.len() == 6);
    assert("denied"@.len() == 6);
    assert("accept"@[0] == 'a');
    assert("denied"@[0] == 'd');
    lemma_answers_differ("decline"@, "approved"@);
    lemma_answers_differ("decline"@, "approved_for_session"@);
    lemma_answers_differ("decline"@, "accept"@);
    lemma_answers_differ("denied"@, "accept"@);
    let cancelled = "{\"action\":\"cancel\",\"content\":null,\"_meta\":null}"@;
    assert(cancelled[2] == 'a');
    assert(("{\"decision\":\""@ + "approved"@ + "\"}"@)[2] == 'd');
    assert(("{\"decision\":\""@ + "approved_for_session"@ + "\"}"@)[2] == 'd');
    assert(("{\"decision\":\""@ + "accept"@ + "\"}"@)[2] == 'd');
}

/// A request of the server is taken under its own kind and identifier and with
/// all that it says of where it belongs; a request of no known kind is not
/// taken.
pub proof fn requests_are_taken_as_they_are(request: ServerRequest)
    ensures
        request.body is Other <==> sideband::managed(request) is None,
        sideband::managed(request) matches Some(taken) ==> {
            &&& taken.request_id == request.request_id
            &&& match request.body {
                ServerRequestBody::CommandExecutionRequestApproval(params) => taken.kind
                    == ManagedServerRequestKind::CommandExecutionApproval && of_item(taken, params),
                ServerRequestBody::FileChangeRequestApproval(params) => taken.kind
                    == ManagedServerRequestKind::FileChangeApproval && of_item(taken, params),
                ServerRequestBody::PermissionsRequestApproval(params) => taken.kind
                    == ManagedServerRequestKind::PermissionsApproval && of_item(taken, params),
                ServerRequestBody::ToolRequestUserInput(params) => taken.kind
                    == ManagedServerRequestKind::ToolUserInput && of_item(taken, params),
                ServerRequestBody::McpServerElicitationRequest(params) => {
                    &&& taken.kind == ManagedServerRequestKind::McpElicitation
                    &&& taken.thread_id == Some(params.thread_id@)
                    &&& taken.turn_id == text::opt_text(params.turn_id)
                    &&& taken.item_id is None
                    &&& taken.server_name == Some(params.server_name@)
                    &&& params.json matches Ok(json) ==> taken.raw_payload == json@
                },
                ServerRequestBody::ExecCommandApproval(params) => taken.kind
                    == ManagedServerRequestKind::LegacyExecCommandApproval && of_call(
                    taken,
                    params,
                ),
                ServerRequestBody::ApplyPatchApproval(params) => taken.kind
                    == ManagedServerRequestKind::LegacyApplyPatchApproval && of_call(taken, params),
                ServerRequestBody::Other => true,
            }
        },
{
}

/// Whether a request tells of the item that its parameters name.
pub open spec fn of_item(taken: ManagedView, params: ItemRequestParams) -> bool {
    &&& taken.thread_id == Some(params.thread_id@)
    &&& taken.turn_id == Some(params.turn_id@)
    &&& taken.item_id == Some(params.item_id@)
    &&& taken.server_name is None
    &&& params.json matches Ok(json) ==> taken.raw_payload == json@
    &&& params.json matches Err(message) ==> taken.raw_payload == "{\"serialization_error\":"@
        + sideband::json_string(message@) + "}"@
}

/// Whether a legacy request tells of the call that its parameters name.
pub open spec fn of_call(taken: ManagedView, params: LegacyApprovalParams) -> bool {
    &&& taken.thread_id == Some(params.conversation_id@)
    &&& taken.turn_id is None
    &&& taken.item_id == Some(params.call_id@)
    &&& taken.server_name is None
    &&& params.json matches Ok(json) ==> taken.raw_payload == json@
    &&& params.json matches Err(message) ==> taken.raw_payload == "{\"serialization_error\":"@
        + sideband::json_string(message@) + "}"@
}

/// A request that waits at some place is found there, where no earlier one has
/// its identifier; and one that waits nowhere is found nowhere.
pub proof fn waiting_requests_are_found(requests: Seq<ManagedView>, id: RequestIdView, at: int)
    requires
        0 <= at <= requests.len(),
        forall|i: int| 0 <= i < at ==> (#[trigger] requests[i]).request_id@ != id,
    ensures
        at < requests.len() && requests[at].request_id@ == id ==> side_channel::request_place(
            requests,
            id,
        ) == Some(at),
        at == requests.len() ==> side_channel::request_place(requests, id) is None,
    decreases requests.len(),
{
    if requests.len() > 0 {
        let before = requests.drop_last();
        assert forall|i: int| 0 <= i < before.len() implies before[i] == requests[i] by {}
        if at < before.len() {
            waiting_requests_are_found(before, id, at);
        } else {
            waiting_requests_are_found(before, id, before.len() as int);
        }
    }
}

/// A new request waits behind the others; one with the identifier of a request
/// that waits already takes its place; and a request that is taken away leaves
/// the others in their order.
pub proof fn requests_wait_in_order(requests: Seq<ManagedView>, request: ManagedView, at: int)
    requires
        0 <= at <= requests.len(),
        forall|i: int|
            0 <= i < at ==> (#[trigger] requests[i]).request_id@ != request.request_id@,
    ensures
        at == requests.len() ==> {
            &&& side_channel::with_request(requests, request) == requests.push(request)
            &&& side_channel::without_request(requests, request.request_id@) == requests
        },
        at < requests.len() && requests[at].request_id@ == request.request_id@ ==> {
            &&& side_channel::with_request(requests, request) == requests.update(at, request)
            &&& side_channel::without_request(requests, request.request_id@) == requests.take(at)
                + requests.skip(at + 1)
        },
{
    waiting_requests_are_found(requests, request.request_id@, at);
    if at < requests.len() && requests[at].request_id@ == request.request_id@ {
        assert(requests.remove(at) =~= requests.take(at) + requests.skip(at + 1));
    }
}

/// A response is held against the request of its identifier, and against no
/// other: where that request takes it as its answer, the request is resolved
/// with that answer and waits no longer; where it does not, it goes on waiting;
/// and a response to a request that does not wait is unknown.
pub proof fn a_response_meets_its_request(
    requests: Seq<ManagedView>,
    response: SidebandResponseEnvelope,
    at: int,
)
    requires
        0 <= at <= requests.len(),
        forall|i: int|
            0 <= i < at ==> (#[trigger] requests[i]).request_id@ != response.request_id@,
    ensures
        ({
            let request_id = response.request_id@;
            let (after, outcome) = side_channel::responded(requests, response);
            &&& at == requests.len() ==> after == requests && outcome
                == (ResponseOutcomeView::Unknown { request_id })
            &&& at < requests.len() && requests[at].request_id@ == request_id
                ==> match requests[at].kind.answered(response) {
                Ok(resolution) => after == requests.take(at) + requests.skip(at + 1) && outcome == (
                ResponseOutcomeView::Resolved { request_id, resolution }),
                Err(message) => after == requests && outcome == (ResponseOutcomeView::Invalid {
                    request_id,
                    message,
                }),
            }
        }),
{
    waiting_requests_are_found(requests, response.request_id@, at);
    if at < requests.len() && requests[at].request_id@ == response.request_id@ {
        assert(requests.remove(at) =~= requests.take(at) + requests.skip(at + 1));
    }
}

/// Every request that waits gets its own fallback answer, in order.
pub proof fn fallbacks_are_given_in_order(requests: Seq<ManagedView>, at: int)
    requires
        0 <= at < requests.len(),
    ensures
        side_channel::fallbacks(requests).len() == requests.len(),
        side_channel::fallbacks(requests)[at] == (
            requests[at].request_id@,
            requests[at].kind.fallback(),
        ),
{
}

/// A line of the response lane that is blank is passed over; any other gives its
/// response, or a report where it holds none. The end of the lane and its
/// failure are told.
pub proof fn response_lines_are_read(line: ResponseLine)
    ensures
        match line {
            ResponseLine::Line { text, response } => {
                &&& side_channel::line_event(line) is None <==> text::trimmed_start(text@).len()
                    == 0
                &&& side_channel::line_event(line) is Some ==> match response {
                    Ok(response) => side_channel::line_event(line) == Some(
                        ResponseEventView::Response(response),
                    ),
                    Err(message) => side_channel::line_event(line) == Some(
                        ResponseEventView::ParseError(
                            "invalid sideband response JSON: "@ + message@,
                        ),
                    ),
                }
            },
            ResponseLine::Ended => side_channel::line_event(line) == Some(
                ResponseEventView::Closed,
            ),
            ResponseLine::Failed { message } => side_channel::line_event(line) == Some(
                ResponseEventView::ReadError("failed to read sideband responses: "@ + message@),
            ),
        },
{
}

/// The output descriptors are refused exactly where two options share one or one
/// is negative.
pub proof fn outputs_are_refused_where_they_clash(
    thread_id_fd: Option<i32>,
    server_request_events_fd: Option<i32>,
    control_events_fd: Option<i32>,
)
    ensures
        side_channel::outputs_error(thread_id_fd, server_request_events_fd, control_events_fd)
            is Some <==> {
            ||| thread_id_fd is Some && thread_id_fd == server_request_events_fd
            ||| thread_id_fd is Some && thread_id_fd == control_events_fd
            ||| server_request_events_fd is Some && server_request_events_fd == control_events_fd
            ||| thread_id_fd is Some && thread_id_fd->0 < 0
            ||| server_request_events_fd is Some && server_request_events_fd->0 < 0
            ||| control_events_fd is Some && control_events_fd->0 < 0
        },
{
    let entries = side_channel::output_fds(
        thread_id_fd,
        server_request_events_fd,
        control_events_fd,
    );
    sideband::shared_descriptors_are_found(entries);
    assert(entries[0].fd == thread_id_fd);
    assert(entries[1].fd == server_request_events_fd);
    assert(entries[2].fd == control_events_fd);
}

/// The descriptors of a session are refused exactly where the side channel is
/// asked for on a system without it, where two options share a descriptor, where
/// responses come from two lanes, and where they come without a lane for events.
pub proof fn session_descriptors_are_refused_where_they_clash(fds: SessionFds, unix: bool)
    ensures
        ({
            let error = side_channel::session_fds_error(fds, unix);
            let events = fds.server_request_events_fd is Some || fds.control_events_fd is Some;
            let responses = fds.server_request_responses_fd is Some || fds.control_responses_fd
                is Some;
            &&& !unix && (events || responses) ==> error == Some(
                "server-request sideband FDs are only supported on Unix targets"@,
            )
            &&& !unix && !events && !responses ==> error is None
            &&& unix ==> (error is Some <==> {
                ||| sideband::shared_fd(side_channel::session_fds(fds)) is Some
                ||| fds.server_request_responses_fd is Some && fds.control_responses_fd is Some
                ||| responses && !events
            })
            &&& unix && fds.xml_input_fd is Some && (fds.xml_input_fd
                == fds.server_request_events_fd || fds.xml_input_fd
                == fds.server_request_responses_fd || fds.xml_input_fd == fds.control_events_fd
                || fds.xml_input_fd == fds.control_responses_fd) ==> error is Some
            &&& unix && fds.server_request_events_fd is Some && (fds.server_request_events_fd
                == fds.server_request_responses_fd || fds.server_request_events_fd
                == fds.control_events_fd || fds.server_request_events_fd
                == fds.control_responses_fd) ==> error is Some
            &&& unix && fds.control_events_fd is Some && (fds.control_events_fd
                == fds.control_responses_fd || fds.control_events_fd
                == fds.server_request_responses_fd) ==> error is Some
        }),
{
    let entries = side_channel::session_fds(fds);
    sideband::shared_descriptors_are_found(entries);
    assert(entries[0].fd == fds.xml_input_fd);
    assert(entries[1].fd == fds.server_request_events_fd);
    assert(entries[2].fd == fds.server_request_responses_fd);
    assert(entries[3].fd == fds.control_events_fd);
    assert(entries[4].fd == fds.control_responses_fd);
}
/// Of descriptors that are shared, the first repetition is reported: no earlier
/// descriptor stands twice, and the other place named is the first one of that
/// descriptor. The report names the descriptor and both options.
pub proof fn the_first_repetition_is_reported(
    entries: Seq<NamedFd<'_>>,
    advice: Seq<char>,
    i: int,
    j: int,
)
    requires
        0 <= i < j < entries.len(),
        entries[i].fd is Some,
        entries[i].fd == entries[j].fd,
        forall|a: int, b: int|
            #![trigger entries[a], entries[b]]
            0 <= a < b < j && entries[a].fd is Some ==> entries[a].fd != entries[b].fd,
    ensures
        sideband::shared_fd(entries) == Some((i, j)),
        sideband::shared_fd_message(entries, (i, j), advice) == "fd `"@ + text::decimal_int(
            entries[i].fd->0 as int,
        ) + "` is configured for both `--"@ + entries[i].name@ + "` and `--"@ + entries[j].name@
            + "`; "@ + advice,
    decreases entries.len(),
{
    let before = entries.drop_last();
    if j < entries.len() - 1 {
        assert(before[i] == entries[i] && before[j] == entries[j]);
        assert forall|a: int, b: int|
            #![trigger before[a], before[b]]
            0 <= a < b < j && before[a].fd is Some implies before[a].fd != before[b].fd by {
            assert(before[a] == entries[a] && before[b] == entries[b]);
        }
        the_first_repetition_is_reported(before, advice, i, j);
    } else {
        sideband::shared_descriptors_are_found(before);
        assert(sideband::shared_fd(before) is None) by {
            if let Some((a, b)) = sideband::shared_fd(before) {
                assert(before[a] == entries[a] && before[b] == entries[b]);
                assert(false);
            }
        }
        assert forall|a: int| 0 <= a < i implies (#[trigger] before[a]).fd != entries[i].fd by {
            assert(before[a] == entries[a]);
            if entries[a].fd == entries[i].fd {
                assert(entries[a].fd is Some);
                assert(entries[a].fd != entries[i].fd);
            }
        }
        lemma_first_place(before, entries[i].fd->0, i);
    }
}

proof fn lemma_first_place(entries: Seq<NamedFd<'_>>, fd: i32, at: int)
    requires
        0 <= at < entries.len(),
        entries[at].fd == Some(fd),
        forall|a: int| 0 <= a < at ==> (#[trigger] entries[a]).fd != Some(fd),
    ensures
        sideband::fd_place(entries, fd) == Some(at),
    decreases entries.len(),
{
    let before = entries.drop_last();
    assert forall|a: int| 0 <= a < before.len() implies before[a] == entries[a] by {}
    if at < before.len() {
        lemma_first_place(before, fd, at);
    } else {
        lemma_no_place(before, fd);
    }
}

proof fn lemma_no_place(entries: Seq<NamedFd<'_>>, fd: i32)
    requires
        forall|a: int| 0 <= a < entries.len() ==> (#[trigger] entries[a]).fd != Some(fd),
    ensures
        sideband::fd_place(entries, fd) is None,
    decreases entries.len(),
{
    if entries.len() > 0 {
        let before = entries.drop_last();
        assert forall|a: int| 0 <= a < before.len() implies (#[trigger] before[a]).fd != Some(
            fd,
        ) by {
            assert(before[a] == entries[a]);
        }
        lemma_no_place(before, fd);
    }
}

/// The thread is told to the descriptors for that, requests to those for
/// requests and for control events, and control events to their own.
pub proof fn outputs_go_to_their_descriptors(
    thread_id_fd: Option<i32>,
    events_fd: Option<i32>,
    control_fd: Option<i32>,
    outputs: Result<SidebandOutputs, String>,
    fd: i32,
)
    requires
        call_ensures(
            SidebandOutputs::from_fds,
            (thread_id_fd, events_fd, control_fd),
            outputs,
        ),
        outputs is Ok,
    ensures
        outputs->Ok_0.thread_id_sinks@.contains(fd) <==> thread_id_fd == Some(fd),
        outputs->Ok_0.request_event_sinks@.contains(fd) <==> events_fd == Some(fd) || control_fd
            == Some(fd),
        outputs->Ok_0.control_event_sinks@.contains(fd) <==> control_fd == Some(fd),
{
    let found = outputs->Ok_0;
    if thread_id_fd is Some {
        assert(found.thread_id_sinks@[0] == thread_id_fd->0);
    }
    if control_fd is Some {
        assert(found.control_event_sinks@[0] == control_fd->0);
        assert(found.request_event_sinks@.last() == control_fd->0);
    }
    if events_fd is Some {
        assert(found.request_event_sinks@[0] == events_fd->0);
    }
}

/// A side channel is there where requests are told somewhere or responses come
/// from somewhere, and takes responses only in the latter case.
pub proof fn a_side_channel_needs_a_lane(
    outputs: &SidebandOutputs,
    has_reader: bool,
    channel: Option<ServerRequestSideband>,
)
    requires
        call_ensures(ServerRequestSideband::new, (outputs, has_reader), channel),
    ensures
        channel is Some <==> outputs.request_event_sinks@.len() > 0 || has_reader,
        channel is Some ==> channel->0.response_available == has_reader && channel->0.has_reader
            == has_reader && channel->0.pending_requests@.len() == 0,
{
}

/// A request that was told waits only where answers can come.
pub proof fn requests_wait_where_answers_can_come(
    channel: &mut ServerRequestSideband,
    request: ManagedServerRequest,
)
    requires
        call_ensures(ServerRequestSideband::note_server_request, (channel, request), ()),
    ensures
        final(channel).response_available == old(channel).response_available,
        old(channel).response_available ==> final(channel).pending_requests@
            == side_channel::with_request(old(channel).pending_requests@, request@),
        !old(channel).response_available ==> final(channel).pending_requests@
            == old(channel).pending_requests@,
{
}

/// A response that is an answer is handed out with its request; one that is none
/// gives a warning that names the request; and one that no request waits for
/// gives neither.
pub proof fn answers_are_handed_out(
    channel: &mut ServerRequestSideband,
    response: SidebandResponseEnvelope,
    taken: (Option<AnsweredRequest>, Option<String>),
    at: int,
)
    requires
        call_ensures(ServerRequestSideband::take_valid_response, (channel, response), taken),
        0 <= at <= old(channel).pending_requests@.len(),
        forall|i: int|
            0 <= i < at ==> (#[trigger] old(channel).pending_requests@[i]).request_id@
                != response.request_id@,
    ensures
        ({
            let requests = old(channel).pending_requests@;
            let id = response.request_id@;
            &&& at == requests.len() ==> taken.0 is None && taken.1 is None
                && final(channel).pending_requests@ == requests
            &&& at < requests.len() && requests[at].request_id@ == id
                ==> match requests[at].kind.answered(response) {
                Ok(resolution) => {
                    &&& taken.0 is Some && taken.1 is None
                    &&& taken.0->0.request_id@ == id
                    &&& taken.0->0.resolution@ == resolution
                    &&& final(channel).pending_requests@ == requests.take(at) + requests.skip(
                        at + 1,
                    )
                },
                Err(message) => {
                    &&& taken.0 is None
                    &&& text::opt_text(taken.1) == Some(
                        "ignoring invalid sideband response for request id `"@ + id.shown()
                            + "`: "@ + message,
                    )
                    &&& final(channel).pending_requests@ == requests
                },
            }
        }),
{
    a_response_meets_its_request(old(channel).pending_requests@, response, at);
}

/// A closed response lane leaves no request waiting, and takes no response any
/// more.
pub proof fn a_closed_lane_lets_nothing_wait(
    channel: &mut ServerRequestSideband,
    reason: &str,
    warning: String,
)
    requires
        call_ensures(ServerRequestSideband::close_response_reader, (channel, reason), warning),
    ensures
        !final(channel).has_reader,
        !final(channel).response_available,
        final(channel).pending_requests@.len() == 0,
        warning@ == "server-request sideband response channel closed: "@ + reason@,
{
}

/// Every descriptor goes by the name of its own option.
pub proof fn descriptors_go_by_their_options(
    fds: SessionFds,
    options: BridgeOptions,
    thread_id_fd: Option<i32>,
    events_fd: Option<i32>,
    control_fd: Option<i32>,
    entry: NamedFd<'static>,
)
    requires
        side_channel::session_fds(fds).contains(entry) || bridge_options::sideband_fds(
            options,
        ).contains(entry) || side_channel::output_fds(
            thread_id_fd,
            events_fd,
            control_fd,
        ).contains(entry),
    ensures
        side_channel::session_fds(fds).contains(entry) ==> {
            ||| entry.name@ == "xml-input-fd"@ && entry.fd == fds.xml_input_fd
            ||| entry.name@ == "server-request-events-fd"@ && entry.fd
                == fds.server_request_events_fd
            ||| entry.name@ == "server-request-responses-fd"@ && entry.fd
                == fds.server_request_responses_fd
            ||| entry.name@ == "control-events-fd"@ && entry.fd == fds.control_events_fd
            ||| entry.name@ == "control-responses-fd"@ && entry.fd == fds.control_responses_fd
        },
        bridge_options::sideband_fds(options).contains(entry) ==> {
            ||| entry.name@ == "xml-input-fd"@ && entry.fd == options.xml_input_fd
            ||| entry.name@ == "thread-id-fd"@ && entry.fd == options.thread_id_fd
            ||| entry.name@ == "server-request-events-fd"@ && entry.fd
                == options.server_request_events_fd
            ||| entry.name@ == "server-request-responses-fd"@ && entry.fd
                == options.server_request_responses_fd
            ||| entry.name@ == "control-events-fd"@ && entry.fd == options.control_events_fd
            ||| entry.name@ == "control-responses-fd"@ && entry.fd == options.control_responses_fd
        },
        side_channel::output_fds(thread_id_fd, events_fd, control_fd).contains(entry) ==> {
            ||| entry.name@ == "thread-id-fd"@ && entry.fd == thread_id_fd
            ||| entry.name@ == "server-request-events-fd"@ && entry.fd == events_fd
            ||| entry.name@ == "control-events-fd"@ && entry.fd == control_fd
        },
{
}


} // verus!
