//! Server requests that a supervising process answers over side channels.

use vstd::prelude::*;

use crate::protocol::{ErrorView, JSONRPCErrorError, RequestId};
use crate::text;

verus! {

/// What tells a supervisor which thread the bridge works on.
#[derive(Clone, Debug, PartialEq, Eq)]
pub struct ThreadResolvedPayload {
    pub thread_id: String,
    pub source: String,
}

impl ThreadResolvedPayload {
    /// A thread that was started.
    pub fn started(thread_id: &str) -> (payload: Self)
        ensures
            payload.thread_id@ == thread_id@,
            payload.source@ == "started"@,
    {
        ThreadResolvedPayload { thread_id: thread_id.to_owned(), source: "started".to_owned() }
    }

    /// A thread that was resumed.
    pub fn resumed(thread_id: &str) -> (payload: Self)
        ensures
            payload.thread_id@ == thread_id@,
            payload.source@ == "resumed"@,
    {
        ThreadResolvedPayload { thread_id: thread_id.to_owned(), source: "resumed".to_owned() }
    }
}

/// The requests of the server that can be answered over a side channel.
#[derive(Clone, Copy, Debug, PartialEq, Eq, Structural)]
pub enum ManagedServerRequestKind {
    CommandExecutionApproval,
    FileChangeApproval,
    PermissionsApproval,
    McpElicitation,
    ToolUserInput,
    LegacyExecCommandApproval,
    LegacyApplyPatchApproval,
}

/// A decision on the execution of a command.
#[derive(Clone, Copy, Debug, PartialEq, Eq, Structural)]
pub enum CommandExecutionApprovalDecision {
    Accept,
    AcceptForSession,
    AcceptWithExecpolicyAmendment,
    ApplyNetworkPolicyAmendment,
    Decline,
    Cancel,
}

/// A decision on a change of files.
#[derive(Clone, Copy, Debug, PartialEq, Eq, Structural)]
pub enum FileChangeApprovalDecision {
    Accept,
    AcceptForSession,
    Decline,
    Cancel,
}

/// A response on the execution of a command: its decision, and the whole
/// response as JSON text.
#[derive(Clone, Debug, PartialEq, Eq)]
pub struct CommandExecutionReading {
    pub decision: CommandExecutionApprovalDecision,
    pub json: String,
}

/// A response on a change of files: its decision, and the whole response as JSON
/// text.
#[derive(Clone, Debug, PartialEq, Eq)]
pub struct FileChangeReading {
    pub decision: FileChangeApprovalDecision,
    pub json: String,
}

/// What the response types of the protocol make of one response: each reading is
/// the response as its type holds it, or why it is none of that type.
#[derive(Debug, PartialEq, Eq)]
pub struct ResponseReadings {
    pub command_execution: Result<CommandExecutionReading, String>,
    pub file_change: Result<FileChangeReading, String>,
    pub permissions: Result<String, String>,
    pub elicitation: Result<String, String>,
    pub tool_input: Result<String, String>,
}

/// A response that came over a side channel.
#[derive(Debug, PartialEq, Eq)]
pub struct SidebandResponseEnvelope {
    pub kind: String,
    pub request_id: RequestId,
    pub response: ResponseReadings,
}

/// How a server request is answered: with a result, as JSON text, or an error.
#[derive(Clone, Debug, PartialEq, Eq)]
pub enum ServerRequestResolution {
    Resolve(String),
    Reject(JSONRPCErrorError),
}

/// How a server request is answered, as mathematical text.
#[verifier::ext_equal]
pub enum ResolutionView {
    Resolve(Seq<char>),
    Reject(ErrorView),
}

impl View for ServerRequestResolution {
    type V = ResolutionView;

    open spec fn view(&self) -> ResolutionView {
        match *self {
            ServerRequestResolution::Resolve(json) => ResolutionView::Resolve(json@),
            ServerRequestResolution::Reject(error) => ResolutionView::Reject(error@),
        }
    }
}

/// The JSON object that carries a decision.
pub open spec fn decision_json(decision: Seq<char>) -> Seq<char> {
    "{\"decision\":\""@ + decision + "\"}"@
}

/// The JSON object that carries a decision; the decisions are plain words.
fn decision_object(decision: &str) -> (json: String)
    ensures
        json@ == decision_json(decision@),
{
    text::concat3("{\"decision\":\"", decision, "\"}")
}

/// The error for a request whose side channel is gone.
pub open spec fn unavailable(message: Seq<char>) -> ErrorView {
    ErrorView::plain(-32000, "turn-start bridge sideband unavailable: "@ + message)
}

/// The error for a request whose side channel is gone.
fn sideband_unavailable_error(message: &str) -> (error: JSONRPCErrorError)
    ensures
        error@ == unavailable(message@),
{
    JSONRPCErrorError {
        code: -32000,
        message: text::concat2("turn-start bridge sideband unavailable: ", message),
        data: None,
    }
}

/// The word that a legacy approval uses for a decision on a command; advanced
/// decisions have none.
pub open spec fn legacy_exec_word(decision: CommandExecutionApprovalDecision) -> Option<Seq<char>> {
    match decision {
        CommandExecutionApprovalDecision::Accept => Some("approved"@),
        CommandExecutionApprovalDecision::AcceptForSession => Some("approved_for_session"@),
        CommandExecutionApprovalDecision::Decline => Some("denied"@),
        CommandExecutionApprovalDecision::Cancel => Some("abort"@),
        CommandExecutionApprovalDecision::AcceptWithExecpolicyAmendment
        | CommandExecutionApprovalDecision::ApplyNetworkPolicyAmendment => None,
    }
}

/// The word that a legacy approval uses for a decision on a change of files.
pub open spec fn legacy_patch_word(decision: FileChangeApprovalDecision) -> Seq<char> {
    match decision {
        FileChangeApprovalDecision::Accept => "approved"@,
        FileChangeApprovalDecision::AcceptForSession => "approved_for_session"@,
        FileChangeApprovalDecision::Decline => "denied"@,
        FileChangeApprovalDecision::Cancel => "abort"@,
    }
}

/// The legacy response for a decision on a command.
fn legacy_exec_command_response_value(decision: CommandExecutionApprovalDecision) -> (value: Result<
    String,
    String,
>)
    ensures
        match (value, legacy_exec_word(decision)) {
            (Ok(json), Some(word)) => json@ == decision_json(word),
            (Err(message), None) => message@
                == "legacy exec approvals do not support advanced approval decisions"@,
            _ => false,
        },
{
    match decision {
        CommandExecutionApprovalDecision::Accept => Ok(decision_object("approved")),
        CommandExecutionApprovalDecision::AcceptForSession => Ok(
            decision_object("approved_for_session"),
        ),
        CommandExecutionApprovalDecision::Decline => Ok(decision_object("denied")),
        CommandExecutionApprovalDecision::Cancel => Ok(decision_object("abort")),
        CommandExecutionApprovalDecision::AcceptWithExecpolicyAmendment
        | CommandExecutionApprovalDecision::ApplyNetworkPolicyAmendment => Err(
            "legacy exec approvals do not support advanced approval decisions".to_owned(),
        ),
    }
}

/// The legacy response for a decision on a change of files.
fn legacy_apply_patch_response_value(decision: FileChangeApprovalDecision) -> (json: String)
    ensures
        json@ == decision_json(legacy_patch_word(decision)),
{
    match decision {
        FileChangeApprovalDecision::Accept => decision_object("approved"),
        FileChangeApprovalDecision::AcceptForSession => decision_object("approved_for_session"),
        FileChangeApprovalDecision::Decline => decision_object("denied"),
        FileChangeApprovalDecision::Cancel => decision_object("abort"),
    }
}

/// The outcome of reading a response.
pub open spec fn resolution_result(result: Result<ServerRequestResolution, String>) -> Result<
    ResolutionView,
    Seq<char>,
> {
    match result {
        Ok(resolution) => Ok(resolution@),
        Err(message) => Err(message@),
    }
}

/// A typed reading as the answer to a request.
pub open spec fn resolved(reading: Result<String, String>) -> Result<ResolutionView, Seq<char>> {
    match reading {
        Ok(json) => Ok(ResolutionView::Resolve(json@)),
        Err(message) => Err(message@),
    }
}

impl ManagedServerRequestKind {
    /// The name under which a request is announced.
    pub open spec fn request_name(self) -> Seq<char> {
        match self {
            ManagedServerRequestKind::CommandExecutionApproval
            | ManagedServerRequestKind::LegacyExecCommandApproval =>
                "command_execution_approval_request"@,
            ManagedServerRequestKind::FileChangeApproval
            | ManagedServerRequestKind::LegacyApplyPatchApproval =>
                "file_change_approval_request"@,
            ManagedServerRequestKind::PermissionsApproval => "permissions_approval_request"@,
            ManagedServerRequestKind::McpElicitation => "mcp_elicitation_request"@,
            ManagedServerRequestKind::ToolUserInput => "tool_user_input_request"@,
        }
    }

    /// The name under which a request is announced.
    pub fn request_kind(self) -> (name: &'static str)
        ensures
            name@ == self.request_name(),
    {
        match self {
            Self::CommandExecutionApproval | Self::LegacyExecCommandApproval =>
                "command_execution_approval_request",
            Self::FileChangeApproval | Self::LegacyApplyPatchApproval =>
                "file_change_approval_request",
            Self::PermissionsApproval => "permissions_approval_request",
            Self::McpElicitation => "mcp_elicitation_request",
            Self::ToolUserInput => "tool_user_input_request",
        }
    }

    /// The name that a response must carry.
    pub open spec fn response_name(self) -> Seq<char> {
        match self {
            ManagedServerRequestKind::CommandExecutionApproval
            | ManagedServerRequestKind::LegacyExecCommandApproval =>
                "command_execution_approval_response"@,
            ManagedServerRequestKind::FileChangeApproval
            | ManagedServerRequestKind::LegacyApplyPatchApproval =>
                "file_change_approval_response"@,
            ManagedServerRequestKind::PermissionsApproval => "permissions_approval_response"@,
            ManagedServerRequestKind::McpElicitation => "mcp_elicitation_response"@,
            ManagedServerRequestKind::ToolUserInput => "tool_user_input_response"@,
        }
    }

    /// The name that a response must carry.
    pub fn response_kind(self) -> (name: &'static str)
        ensures
            name@ == self.response_name(),
    {
        match self {
            Self::CommandExecutionApproval | Self::LegacyExecCommandApproval =>
                "command_execution_approval_response",
            Self::FileChangeApproval | Self::LegacyApplyPatchApproval =>
                "file_change_approval_response",
            Self::PermissionsApproval => "permissions_approval_response",
            Self::McpElicitation => "mcp_elicitation_response",
            Self::ToolUserInput => "tool_user_input_response",
        }
    }

    /// How a request is answered once nobody can answer it: what would let the
    /// agent act is declined, an elicitation is cancelled, and what needs an
    /// answer of its own is rejected.
    pub open spec fn fallback(self) -> ResolutionView {
        match self {
            ManagedServerRequestKind::CommandExecutionApproval
            | ManagedServerRequestKind::FileChangeApproval => ResolutionView::Resolve(
                decision_json("decline"@),
            ),
            ManagedServerRequestKind::PermissionsApproval => ResolutionView::Reject(
                unavailable("permissions approval response channel closed"@),
            ),
            ManagedServerRequestKind::McpElicitation => ResolutionView::Resolve(
                "{\"action\":\"cancel\",\"content\":null,\"_meta\":null}"@,
            ),
            ManagedServerRequestKind::ToolUserInput => ResolutionView::Reject(
                unavailable("tool input response channel closed"@),
            ),
            ManagedServerRequestKind::LegacyExecCommandApproval
            | ManagedServerRequestKind::LegacyApplyPatchApproval => ResolutionView::Resolve(
                decision_json("denied"@),
            ),
        }
    }

    /// How a request is answered once nobody can answer it.
    pub fn default_resolution_on_input_closed(self) -> (resolution: ServerRequestResolution)
        ensures
            resolution@ == self.fallback(),
    {
        match self {
            Self::CommandExecutionApproval | Self::FileChangeApproval =>
                ServerRequestResolution::Resolve(decision_object("decline")),
            Self::PermissionsApproval => ServerRequestResolution::Reject(
                sideband_unavailable_error("permissions approval response channel closed"),
            ),
            Self::McpElicitation => ServerRequestResolution::Resolve(
                "{\"action\":\"cancel\",\"content\":null,\"_meta\":null}".to_owned(),
            ),
            Self::ToolUserInput => ServerRequestResolution::Reject(
                sideband_unavailable_error("tool input response channel closed"),
            ),
            Self::LegacyExecCommandApproval | Self::LegacyApplyPatchApproval =>
                ServerRequestResolution::Resolve(decision_object("denied")),
        }
    }

    /// How a response answers a request: it must carry the right name and read
    /// as the right type, and a legacy request gets its own words.
    pub open spec fn answered(self, response: SidebandResponseEnvelope) -> Result<
        ResolutionView,
        Seq<char>,
    > {
        if response.kind@ != self.response_name() {
            Err(
                "response kind mismatch for request "@ + response.request_id@.debug_shown()
                    + ": expected `"@ + self.response_name() + "`, got `"@ + response.kind@ + "`"@,
            )
        } else {
            match self {
                ManagedServerRequestKind::CommandExecutionApproval => {
                    match response.response.command_execution {
                        Ok(reading) => Ok(ResolutionView::Resolve(reading.json@)),
                        Err(message) => Err(message@),
                    }
                },
                ManagedServerRequestKind::FileChangeApproval => {
                    match response.response.file_change {
                        Ok(reading) => Ok(ResolutionView::Resolve(reading.json@)),
                        Err(message) => Err(message@),
                    }
                },
                ManagedServerRequestKind::PermissionsApproval => resolved(
                    response.response.permissions,
                ),
                ManagedServerRequestKind::McpElicitation => resolved(
                    response.response.elicitation,
                ),
                ManagedServerRequestKind::ToolUserInput => resolved(response.response.tool_input),
                ManagedServerRequestKind::LegacyExecCommandApproval => {
                    match response.response.command_execution {
                        Ok(reading) => match legacy_exec_word(reading.decision) {
                            Some(word) => Ok(ResolutionView::Resolve(decision_json(word))),
                            None => Err(
                                "legacy exec approvals do not support advanced approval decisions"@,
                            ),
                        },
                        Err(message) => Err(message@),
                    }
                },
                ManagedServerRequestKind::LegacyApplyPatchApproval => {
                    match response.response.file_change {
                        Ok(reading) => Ok(
                            ResolutionView::Resolve(
                                decision_json(legacy_patch_word(reading.decision)),
                            ),
                        ),
                        Err(message) => Err(message@),
                    }
                },
            }
        }
    }

    /// Reads a response to a request.
    pub fn parse_response(self, response: SidebandResponseEnvelope) -> (resolution: Result<
        ServerRequestResolution,
        String,
    >)
        ensures
            resolution_result(resolution) == self.answered(response),
    {
        let expected = self.response_kind();
        if !text::text_eq(response.kind.as_str(), expected) {
            let subject = text::concat2(
                "response kind mismatch for request ",
                response.request_id.to_debug_string().as_str(),
            );
            let mut message = text::concat3(subject.as_str(), ": expected `", expected);
            message.append("`, got `");
            message.append(response.kind.as_str());
            message.append("`");
            return Err(message);
        }
        match self {
            Self::CommandExecutionApproval => match response.response.command_execution {
                Ok(reading) => Ok(ServerRequestResolution::Resolve(reading.json)),
                Err(message) => Err(message),
            },
            Self::FileChangeApproval => match response.response.file_change {
                Ok(reading) => Ok(ServerRequestResolution::Resolve(reading.json)),
                Err(message) => Err(message),
            },
            Self::PermissionsApproval => match response.response.permissions {
                Ok(json) => Ok(ServerRequestResolution::Resolve(json)),
                Err(message) => Err(message),
            },
            Self::McpElicitation => match response.response.elicitation {
                Ok(json) => Ok(ServerRequestResolution::Resolve(json)),
                Err(message) => Err(message),
            },
            Self::ToolUserInput => match response.response.tool_input {
                Ok(json) => Ok(ServerRequestResolution::Resolve(json)),
                Err(message) => Err(message),
            },
            Self::LegacyExecCommandApproval => match response.response.command_execution {
                Ok(reading) => match legacy_exec_command_response_value(reading.decision) {
                    Ok(json) => Ok(ServerRequestResolution::Resolve(json)),
                    Err(message) => Err(message),
                },
                Err(message) => Err(message),
            },
            Self::LegacyApplyPatchApproval => match response.response.file_change {
                Ok(reading) => Ok(
                    ServerRequestResolution::Resolve(
                        legacy_apply_patch_response_value(reading.decision),
                    ),
                ),
                Err(message) => Err(message),
            },
        }
    }
}

/// The parameters of a request about one item of a turn. The last field is the
/// parameters as JSON text, or why they cannot be written as such.
#[derive(Debug, PartialEq, Eq)]
pub struct ItemRequestParams {
    pub thread_id: String,
    pub turn_id: String,
    pub item_id: String,
    pub json: Result<String, String>,
}

/// The parameters of an elicitation.
#[derive(Debug, PartialEq, Eq)]
pub struct McpServerElicitationRequestParams {
    pub thread_id: String,
    pub turn_id: Option<String>,
    pub server_name: String,
    pub json: Result<String, String>,
}

/// The parameters of a legacy approval.
#[derive(Debug, PartialEq, Eq)]
pub struct LegacyApprovalParams {
    pub conversation_id: String,
    pub call_id: String,
    pub json: Result<String, String>,
}

/// What a request of the server asks.
#[derive(Debug, PartialEq, Eq)]
pub enum ServerRequestBody {
    CommandExecutionRequestApproval(ItemRequestParams),
    FileChangeRequestApproval(ItemRequestParams),
    PermissionsRequestApproval(ItemRequestParams),
    McpServerElicitationRequest(McpServerElicitationRequestParams),
    ToolRequestUserInput(ItemRequestParams),
    ExecCommandApproval(LegacyApprovalParams),
    ApplyPatchApproval(LegacyApprovalParams),
    /// A request that no side channel answers.
    Other,
}

/// A request of the server, with the whole request as JSON text where it can be
/// written as such.
#[derive(Debug, PartialEq, Eq)]
pub struct ServerRequest {
    pub request_id: RequestId,
    pub json: Option<String>,
    pub body: ServerRequestBody,
}

/// A request of the server that a side channel answers.
#[derive(Debug, PartialEq, Eq)]
pub struct ManagedServerRequest {
    pub kind: ManagedServerRequestKind,
    pub request_id: RequestId,
    pub thread_id: Option<String>,
    pub turn_id: Option<String>,
    pub item_id: Option<String>,
    pub server_name: Option<String>,
    pub raw_payload: String,
}

/// A request of the server that a side channel answers, as mathematical text.
#[verifier::ext_equal]
pub struct ManagedView {
    pub kind: ManagedServerRequestKind,
    pub request_id: RequestId,
    pub thread_id: Option<Seq<char>>,
    pub turn_id: Option<Seq<char>>,
    pub item_id: Option<Seq<char>>,
    pub server_name: Option<Seq<char>>,
    pub raw_payload: Seq<char>,
}

impl View for ManagedServerRequest {
    type V = ManagedView;

    open spec fn view(&self) -> ManagedView {
        ManagedView {
            kind: self.kind,
            request_id: self.request_id,
            thread_id: text::opt_text(self.thread_id),
            turn_id: text::opt_text(self.turn_id),
            item_id: text::opt_text(self.item_id),
            server_name: text::opt_text(self.server_name),
            raw_payload: self.raw_payload@,
        }
    }
}

/// The JSON text under which parameters are announced.
pub open spec fn announced_json(json: Result<String, String>) -> Seq<char> {
    match json {
        Ok(json) => json@,
        Err(message) => "{\"serialization_error\":"@ + json_string(message@) + "}"@,
    }
}

/// A text as a JSON string, as `serde_json` writes it.
pub uninterp spec fn json_string(text: Seq<char>) -> Seq<char>;

/// `<serde_json::Value as Display>::fmt` of a JSON string: the text between
/// double quotes, with the characters escaped that JSON requires.
#[verifier::external_body]
fn to_json_string(text: &str) -> (json: String)
    ensures
        json@ == json_string(text@),
{
    serde_json::Value::from(text).to_string()
}

/// The JSON text under which parameters are announced.
fn serialize_request_payload(json: &Result<String, String>) -> (payload: String)
    ensures
        payload@ == announced_json(*json),
{
    match json {
        Ok(json) => json.clone(),
        Err(message) => text::concat3(
            "{\"serialization_error\":",
            to_json_string(message.as_str()).as_str(),
            "}",
        ),
    }
}

/// What a request about one item becomes.
pub open spec fn managed_item(
    kind: ManagedServerRequestKind,
    request_id: RequestId,
    params: ItemRequestParams,
) -> ManagedView {
    ManagedView {
        kind,
        request_id,
        thread_id: Some(params.thread_id@),
        turn_id: Some(params.turn_id@),
        item_id: Some(params.item_id@),
        server_name: None,
        raw_payload: announced_json(params.json),
    }
}

/// What a legacy approval becomes.
pub open spec fn managed_legacy(
    kind: ManagedServerRequestKind,
    request_id: RequestId,
    params: LegacyApprovalParams,
) -> ManagedView {
    ManagedView {
        kind,
        request_id,
        thread_id: Some(params.conversation_id@),
        turn_id: None,
        item_id: Some(params.call_id@),
        server_name: None,
        raw_payload: announced_json(params.json),
    }
}

/// What a request of the server becomes where a side channel answers it.
pub open spec fn managed(request: ServerRequest) -> Option<ManagedView> {
    match request.body {
        ServerRequestBody::CommandExecutionRequestApproval(params) => Some(
            managed_item(
                ManagedServerRequestKind::CommandExecutionApproval,
                request.request_id,
                params,
            ),
        ),
        ServerRequestBody::FileChangeRequestApproval(params) => Some(
            managed_item(
                ManagedServerRequestKind::FileChangeApproval,
                request.request_id,
                params,
            ),
        ),
        ServerRequestBody::PermissionsRequestApproval(params) => Some(
            managed_item(
                ManagedServerRequestKind::PermissionsApproval,
                request.request_id,
                params,
            ),
        ),
        ServerRequestBody::McpServerElicitationRequest(params) => Some(
            ManagedView {
                kind: ManagedServerRequestKind::McpElicitation,
                request_id: request.request_id,
                thread_id: Some(params.thread_id@),
                turn_id: text::opt_text(params.turn_id),
                item_id: None,
                server_name: Some(params.server_name@),
                raw_payload: announced_json(params.json),
            },
        ),
        ServerRequestBody::ToolRequestUserInput(params) => Some(
            managed_item(ManagedServerRequestKind::ToolUserInput, request.request_id, params),
        ),
        ServerRequestBody::ExecCommandApproval(params) => Some(
            managed_legacy(
                ManagedServerRequestKind::LegacyExecCommandApproval,
                request.request_id,
                params,
            ),
        ),
        ServerRequestBody::ApplyPatchApproval(params) => Some(
            managed_legacy(
                ManagedServerRequestKind::LegacyApplyPatchApproval,
                request.request_id,
                params,
            ),
        ),
        ServerRequestBody::Other => None,
    }
}

fn manage_item(
    kind: ManagedServerRequestKind,
    request_id: &RequestId,
    params: &ItemRequestParams,
) -> (request: ManagedServerRequest)
    ensures
        request@ == managed_item(kind, *request_id, *params),
{
    ManagedServerRequest {
        kind,
        request_id: request_id.clone(),
        thread_id: Some(params.thread_id.clone()),
        turn_id: Some(params.turn_id.clone()),
        item_id: Some(params.item_id.clone()),
        server_name: None,
        raw_payload: serialize_request_payload(&params.json),
    }
}

fn manage_legacy(
    kind: ManagedServerRequestKind,
    request_id: &RequestId,
    params: &LegacyApprovalParams,
) -> (request: ManagedServerRequest)
    ensures
        request@ == managed_legacy(kind, *request_id, *params),
{
    ManagedServerRequest {
        kind,
        request_id: request_id.clone(),
        thread_id: Some(params.conversation_id.clone()),
        turn_id: None,
        item_id: Some(params.call_id.clone()),
        server_name: None,
        raw_payload: serialize_request_payload(&params.json),
    }
}

/// What is announced of a request over a side channel.
#[derive(Debug, PartialEq, Eq)]
pub struct ManagedServerRequestEvent<'a> {
    pub kind: &'static str,
    pub request_id: &'a RequestId,
    pub thread_id: Option<&'a str>,
    pub turn_id: Option<&'a str>,
    pub item_id: Option<&'a str>,
    pub server_name: Option<&'a str>,
    pub raw: &'a str,
}

/// The text held by an optional string slice.
pub open spec fn opt_str(text: Option<&str>) -> Option<Seq<char>> {
    match text {
        Some(text) => Some(text@),
        None => None,
    }
}

fn as_opt_str(text: &Option<String>) -> (slice: Option<&str>)
    ensures
        opt_str(slice) == text::opt_text(*text),
{
    match text {
        Some(text) => Some(text.as_str()),
        None => None,
    }
}

impl ManagedServerRequest {
    /// Takes up a request that a side channel answers; any other is refused.
    pub fn try_from(request: &ServerRequest) -> (taken: Result<Self, ()>)
        ensures
            match taken {
                Ok(taken) => managed(*request) == Some(taken@),
                Err(_) => managed(*request) is None,
            },
    {
        let id = &request.request_id;
        match &request.body {
            ServerRequestBody::CommandExecutionRequestApproval(params) => Ok(
                manage_item(ManagedServerRequestKind::CommandExecutionApproval, id, params),
            ),
            ServerRequestBody::FileChangeRequestApproval(params) => Ok(
                manage_item(ManagedServerRequestKind::FileChangeApproval, id, params),
            ),
            ServerRequestBody::PermissionsRequestApproval(params) => Ok(
                manage_item(ManagedServerRequestKind::PermissionsApproval, id, params),
            ),
            ServerRequestBody::McpServerElicitationRequest(params) => Ok(
                ManagedServerRequest {
                    kind: ManagedServerRequestKind::McpElicitation,
                    request_id: id.clone(),
                    thread_id: Some(params.thread_id.clone()),
                    turn_id: text::opt_clone(&params.turn_id),
                    item_id: None,
                    server_name: Some(params.server_name.clone()),
                    raw_payload: serialize_request_payload(&params.json),
                },
            ),
            ServerRequestBody::ToolRequestUserInput(params) => Ok(
                manage_item(ManagedServerRequestKind::ToolUserInput, id, params),
            ),
            ServerRequestBody::ExecCommandApproval(params) => Ok(
                manage_legacy(ManagedServerRequestKind::LegacyExecCommandApproval, id, params),
            ),
            ServerRequestBody::ApplyPatchApproval(params) => Ok(
                manage_legacy(ManagedServerRequestKind::LegacyApplyPatchApproval, id, params),
            ),
            ServerRequestBody::Other => Err(()),
        }
    }

    /// The name under which the request is announced.
    pub fn kind(&self) -> (name: &'static str)
        ensures
            name@ == self@.kind.request_name(),
    {
        self.kind.request_kind()
    }

    /// The identifier of the request.
    pub fn request_id(&self) -> (id: &RequestId)
        ensures
            *id == self@.request_id,
    {
        &self.request_id
    }

    /// The thread of the request.
    pub fn thread_id(&self) -> (thread_id: Option<&str>)
        ensures
            opt_str(thread_id) == self@.thread_id,
    {
        as_opt_str(&self.thread_id)
    }

    /// The turn of the request.
    pub fn turn_id(&self) -> (turn_id: Option<&str>)
        ensures
            opt_str(turn_id) == self@.turn_id,
    {
        as_opt_str(&self.turn_id)
    }

    /// The parameters of the request as JSON text.
    pub fn raw_payload(&self) -> (payload: &str)
        ensures
            payload@ == self@.raw_payload,
    {
        self.raw_payload.as_str()
    }

    /// What is announced of the request.
    pub fn event(&self) -> (event: ManagedServerRequestEvent<'_>)
        ensures
            event.kind@ == self@.kind.request_name(),
            *event.request_id == self@.request_id,
            opt_str(event.thread_id) == self@.thread_id,
            opt_str(event.turn_id) == self@.turn_id,
            opt_str(event.item_id) == self@.item_id,
            opt_str(event.server_name) == self@.server_name,
            event.raw@ == self@.raw_payload,
    {
        ManagedServerRequestEvent {
            kind: self.kind.request_kind(),
            request_id: &self.request_id,
            thread_id: as_opt_str(&self.thread_id),
            turn_id: as_opt_str(&self.turn_id),
            item_id: as_opt_str(&self.item_id),
            server_name: as_opt_str(&self.server_name),
            raw: self.raw_payload.as_str(),
        }
    }

    /// Reads a response to the request.
    pub fn parse_response(&self, response: SidebandResponseEnvelope) -> (resolution: Result<
        ServerRequestResolution,
        String,
    >)
        ensures
            resolution_result(resolution) == self@.kind.answered(response),
    {
        self.kind.parse_response(response)
    }

    /// How the request is answered once nobody can answer it.
    pub fn default_resolution_on_input_closed(&self) -> (resolution: ServerRequestResolution)
        ensures
            resolution@ == self@.kind.fallback(),
    {
        self.kind.default_resolution_on_input_closed()
    }
}

/// A file descriptor under the name of its option.
#[derive(Clone, Copy, Debug, PartialEq, Eq)]
pub struct NamedFd<'a> {
    pub name: &'a str,
    pub fd: Option<i32>,
}

/// The first place at which a descriptor stands.
pub open spec fn fd_place(entries: Seq<NamedFd<'_>>, fd: i32) -> Option<int>
    decreases entries.len(),
{
    if entries.len() == 0 {
        None
    } else {
        match fd_place(entries.drop_last(), fd) {
            Some(place) => Some(place),
            None => if entries.last().fd == Some(fd) {
                Some(entries.len() - 1)
            } else {
                None
            },
        }
    }
}

/// The first descriptor that stands twice, as its two places.
pub open spec fn shared_fd(entries: Seq<NamedFd<'_>>) -> Option<(int, int)>
    decreases entries.len(),
{
    if entries.len() == 0 {
        None
    } else {
        match shared_fd(entries.drop_last()) {
            Some(places) => Some(places),
            None => match entries.last().fd {
                Some(fd) => match fd_place(entries.drop_last(), fd) {
                    Some(place) => Some((place, entries.len() - 1)),
                    None => None,
                },
                None => None,
            },
        }
    }
}

/// What is reported of a descriptor that stands twice.
pub open spec fn shared_fd_message(
    entries: Seq<NamedFd<'_>>,
    places: (int, int),
    advice: Seq<char>,
) -> Seq<char> {
    "fd `"@ + text::decimal_int(entries[places.1].fd->0 as int)
        + "` is configured for both `--"@ + entries[places.0].name@ + "` and `--"@
        + entries[places.1].name@ + "`; "@ + advice
}

fn find_fd(entries: &Vec<NamedFd<'_>>, upto: usize, fd: i32) -> (place: Option<usize>)
    requires
        upto <= entries@.len(),
    ensures
        match place {
            Some(place) => fd_place(entries@.take(upto as int), fd) == Some(place as int) && place
                < upto,
            None => fd_place(entries@.take(upto as int), fd) is None,
        },
{
    let mut i: usize = 0;
    assert(entries@.take(0) =~= Seq::empty());
    while i < upto
        invariant
            i <= upto <= entries@.len(),
            fd_place(entries@.take(i as int), fd) is None,
        decreases upto - i,
    {
        let ghost prefix = entries@.take(i + 1);
        assert(prefix.drop_last() =~= entries@.take(i as int));
        assert(prefix.last() == entries@[i as int]);
        if let Some(held) = entries[i].fd {
            if held == fd {
                proof {
                    lemma_fd_place_stays(entries@.take(upto as int), i + 1, fd);
                    assert(entries@.take(upto as int).take(i + 1) =~= prefix);
                }
                return Some(i);
            }
        }
        i += 1;
    }
    None
}

proof fn lemma_fd_place_stays(entries: Seq<NamedFd<'_>>, at: int, fd: i32)
    requires
        0 <= at <= entries.len(),
    ensures
        fd_place(entries.take(at), fd) is Some ==> fd_place(entries, fd) == fd_place(
            entries.take(at),
            fd,
        ),
    decreases entries.len(),
{
    if at == entries.len() {
        assert(entries.take(at) =~= entries);
    } else {
        lemma_fd_place_stays(entries.drop_last(), at, fd);
        assert(entries.drop_last().take(at) =~= entries.take(at));
    }
}

proof fn lemma_shared_fd_stays(entries: Seq<NamedFd<'_>>, at: int)
    requires
        0 <= at <= entries.len(),
    ensures
        shared_fd(entries.take(at)) is Some ==> shared_fd(entries) == shared_fd(entries.take(at)),
    decreases entries.len(),
{
    if at == entries.len() {
        assert(entries.take(at) =~= entries);
    } else {
        lemma_shared_fd_stays(entries.drop_last(), at);
        assert(entries.drop_last().take(at) =~= entries.take(at));
    }
}

/// Checks that no descriptor stands twice; what is reported ends with `advice`.
pub fn check_unique_fds(entries: &Vec<NamedFd<'_>>, advice: &str) -> (checked: Result<(), String>)
    ensures
        match (checked, shared_fd(entries@)) {
            (Ok(_), None) => true,
            (Err(message), Some(places)) => message@ == shared_fd_message(
                entries@,
                places,
                advice@,
            ),
            _ => false,
        },
{
    let mut i: usize = 0;
    assert(entries@.take(0) =~= Seq::empty());
    while i < entries.len()
        invariant
            i <= entries@.len(),
            shared_fd(entries@.take(i as int)) is None,
        decreases entries@.len() - i,
    {
        let ghost prefix = entries@.take(i + 1);
        assert(prefix.drop_last() =~= entries@.take(i as int));
        assert(prefix.last() == entries@[i as int]);
        if let Some(fd) = entries[i].fd {
            if let Some(place) = find_fd(entries, i, fd) {
                proof {
                    lemma_shared_fd_stays(entries@, i + 1);
                }
                let subject = text::concat3(
                    "fd `",
                    text::decimal_i64(fd as i64).as_str(),
                    "` is configured for both `--",
                );
                let mut message = text::concat3(
                    subject.as_str(),
                    entries[place].name,
                    "` and `--",
                );
                message.append(entries[i].name);
                message.append("`; ");
                message.append(advice);
                return Err(message);
            }
        }
        i += 1;
    }
    assert(entries@.take(i as int) =~= entries@);
    Ok(())
}

/// Checks that the output descriptors are distinct.
pub fn validate_unique_fds(entries: &Vec<NamedFd<'_>>) -> (checked: Result<(), String>)
    ensures
        match (checked, shared_fd(entries@)) {
            (Ok(_), None) => true,
            (Err(message), Some(places)) => message@ == shared_fd_message(
                entries@,
                places,
                "use a single control lane instead of reusing the same fd"@,
            ),
            _ => false,
        },
{
    check_unique_fds(entries, "use a single control lane instead of reusing the same fd")
}

/// Descriptors pass the check exactly where no two entries share one, and a
/// report names two entries that do.
pub proof fn shared_descriptors_are_found(entries: Seq<NamedFd<'_>>)
    ensures
        shared_fd(entries) is None <==> forall|i: int, j: int|
            #![trigger entries[i], entries[j]]
            0 <= i < j < entries.len() && entries[i].fd is Some ==> entries[i].fd
                != entries[j].fd,
        shared_fd(entries) matches Some((i, j)) ==> 0 <= i < j < entries.len()
            && entries[i].fd is Some && entries[i].fd == entries[j].fd,
    decreases entries.len(),
{
    if entries.len() > 0 {
        let rest = entries.drop_last();
        let last = entries.len() - 1;
        shared_descriptors_are_found(rest);
        if let Some(fd) = entries.last().fd {
            lemma_fd_place(rest, fd);
        }
        assert forall|i: int| 0 <= i < rest.len() implies rest[i] == entries[i] by {}
        if shared_fd(entries) is None {
            assert forall|i: int, j: int|
                #![trigger entries[i], entries[j]]
                0 <= i < j < entries.len() && entries[i].fd is Some implies entries[i].fd
                != entries[j].fd by {
                if j < last {
                    assert(rest[i].fd != rest[j].fd);
                } else {
                    assert(rest[i] == entries[i]);
                }
            }
        } else if shared_fd(rest) is Some {
            let (i, j) = shared_fd(rest)->0;
            assert(rest[i] == entries[i] && rest[j] == entries[j]);
        } else {
            let (i, j) = shared_fd(entries)->0;
            assert(rest[i] == entries[i]);
            assert(entries[j] == entries.last());
        }
    }
}

proof fn lemma_fd_place(entries: Seq<NamedFd<'_>>, fd: i32)
    ensures
        fd_place(entries, fd) matches Some(place) ==> 0 <= place < entries.len()
            && entries[place].fd == Some(fd),
        fd_place(entries, fd) is None ==> forall|i: int|
            0 <= i < entries.len() ==> (#[trigger] entries[i]).fd != Some(fd),
    decreases entries.len(),
{
    if entries.len() > 0 {
        lemma_fd_place(entries.drop_last(), fd);
        assert forall|i: int| 0 <= i < entries.len() - 1 implies (#[trigger] entries[i])
            == entries.drop_last()[i] by {}
    }
}

} // verus!
