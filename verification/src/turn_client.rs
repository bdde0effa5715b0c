//! Requests that start or resume a thread and start or steer a turn, and the
//! session that they belong to.

use vstd::prelude::*;

use crate::protocol::{
    ApprovalsReviewer, AskForApproval, RequestId, RequestIdView, Thread,
};
use crate::stdio::TypedRequestError;
use crate::text;

verus! {

/// What a caller wants of a thread: to resume it where it is named, else to
/// start one.
#[derive(Clone, Debug, PartialEq, Eq)]
pub struct ThreadSessionRequest {
    pub thread_id: Option<String>,
    pub model: Option<String>,
    pub cwd: Option<String>,
    pub approval_policy: Option<AskForApproval>,
    pub approvals_reviewer: Option<ApprovalsReviewer>,
    pub base_instructions: Option<String>,
}

/// What a caller wants of a turn.
#[derive(Clone, Debug, PartialEq, Eq)]
pub struct TurnRequest {
    pub text: String,
    pub model: Option<String>,
    pub cwd: Option<String>,
    pub approval_policy: Option<AskForApproval>,
    pub approvals_reviewer: Option<ApprovalsReviewer>,
}

impl Default for ThreadSessionRequest {
    fn default() -> (request: Self)
        ensures
            request == (ThreadSessionRequest {
                thread_id: None,
                model: None,
                cwd: None,
                approval_policy: None,
                approvals_reviewer: None,
                base_instructions: None,
            }),
    {
        ThreadSessionRequest {
            thread_id: None,
            model: None,
            cwd: None,
            approval_policy: None,
            approvals_reviewer: None,
            base_instructions: None,
        }
    }
}

impl Default for TurnRequest {
    fn default() -> (request: Self)
        ensures
            request.text@ == Seq::<char>::empty(),
            request.model is None,
            request.cwd is None,
            request.approval_policy is None,
            request.approvals_reviewer is None,
    {
        TurnRequest {
            text: String::new(),
            model: None,
            cwd: None,
            approval_policy: None,
            approvals_reviewer: None,
        }
    }
}

/// A thread that was started or resumed, and the session on it.
#[derive(Clone, Debug, PartialEq, Eq)]
pub struct ThreadSessionStart {
    pub session: CodexTurnSession,
    pub thread: Thread,
}

/// A session: its thread and the turn that is known to run.
#[derive(Debug, PartialEq, Eq)]
pub struct CodexTurnSession {
    thread_id: String,
    active_turn_id: Option<String>,
}

/// A session, as mathematical text.
#[verifier::ext_equal]
pub struct SessionView {
    pub thread_id: Seq<char>,
    pub active_turn_id: Option<Seq<char>>,
}

/// Why a turn client call failed.
#[derive(Debug, PartialEq, Eq)]
pub enum TurnClientError {
    MissingThread,
    Request(TypedRequestError),
}

impl From<TypedRequestError> for TurnClientError {
    fn from(source: TypedRequestError) -> (error: Self) {
        TurnClientError::Request(source)
    }
}

impl vstd::std_specs::convert::FromSpecImpl<TypedRequestError> for TurnClientError {
    open spec fn obeys_from_spec() -> bool {
        true
    }

    /// The failure of a call whose request failed.
    open spec fn from_spec(source: TypedRequestError) -> Self {
        TurnClientError::Request(source)
    }
}

/// A part of a text that stands for something else.
#[derive(Clone, Debug, PartialEq, Eq)]
pub struct TextElement {
    pub start: usize,
    pub end: usize,
}

/// Input of a user.
#[derive(Clone, Debug, PartialEq, Eq)]
pub enum UserInput {
    Text { text: String, text_elements: Vec<TextElement> },
}

/// The parameters of `thread/resume`.
#[derive(Clone, Debug, PartialEq, Eq)]
pub struct ThreadResumeParams {
    pub thread_id: String,
    pub model: Option<String>,
    pub model_provider: Option<String>,
    pub cwd: Option<String>,
    pub approval_policy: Option<AskForApproval>,
    pub approvals_reviewer: Option<ApprovalsReviewer>,
    pub base_instructions: Option<String>,
}

/// The parameters of `thread/start`.
#[derive(Clone, Debug, PartialEq, Eq)]
pub struct ThreadStartParams {
    pub model: Option<String>,
    pub model_provider: Option<String>,
    pub cwd: Option<String>,
    pub approval_policy: Option<AskForApproval>,
    pub approvals_reviewer: Option<ApprovalsReviewer>,
    pub base_instructions: Option<String>,
    pub experimental_raw_events: bool,
}

/// The parameters of `turn/start`. What is not typed here is JSON text.
#[derive(Clone, Debug, PartialEq, Eq)]
pub struct TurnStartParams {
    pub thread_id: String,
    pub input: Vec<UserInput>,
    pub prefixed_messages: Option<String>,
    pub responsesapi_client_metadata: Option<String>,
    pub cwd: Option<String>,
    pub approval_policy: Option<AskForApproval>,
    pub approvals_reviewer: Option<ApprovalsReviewer>,
    pub sandbox_policy: Option<String>,
    pub model: Option<String>,
    pub service_tier: Option<String>,
    pub effort: Option<String>,
    pub summary: Option<String>,
    pub personality: Option<String>,
    pub output_schema: Option<String>,
    pub collaboration_mode: Option<String>,
    pub base_instructions: Option<String>,
    pub developer_instructions: Option<String>,
}

/// The parameters of `turn/steer`. What is not typed here is JSON text.
#[derive(Clone, Debug, PartialEq, Eq)]
pub struct TurnSteerParams {
    pub thread_id: String,
    pub input: Vec<UserInput>,
    pub responsesapi_client_metadata: Option<String>,
    pub expected_turn_id: String,
}

/// A request of the client.
#[derive(Clone, Debug, PartialEq, Eq)]
pub enum ClientRequest {
    ThreadResume { request_id: RequestId, params: ThreadResumeParams },
    ThreadStart { request_id: RequestId, params: ThreadStartParams },
    TurnStart { request_id: RequestId, params: TurnStartParams },
    TurnSteer { request_id: RequestId, params: TurnSteerParams },
    /// Any other request, with its method and its parameters as JSON text.
    Other { request_id: RequestId, method: String, params: String },
}

impl ClientRequest {
    /// The identifier of the request.
    pub open spec fn spec_id(&self) -> RequestIdView {
        match *self {
            ClientRequest::ThreadResume { request_id, .. } => request_id@,
            ClientRequest::ThreadStart { request_id, .. } => request_id@,
            ClientRequest::TurnStart { request_id, .. } => request_id@,
            ClientRequest::TurnSteer { request_id, .. } => request_id@,
            ClientRequest::Other { request_id, .. } => request_id@,
        }
    }

    /// The method that the request asks for.
    pub open spec fn spec_method(&self) -> Seq<char> {
        match *self {
            ClientRequest::ThreadResume { .. } => "thread/resume"@,
            ClientRequest::ThreadStart { .. } => "thread/start"@,
            ClientRequest::TurnStart { .. } => "turn/start"@,
            ClientRequest::TurnSteer { .. } => "turn/steer"@,
            ClientRequest::Other { method, .. } => method@,
        }
    }

    /// The method that the request asks for.
    pub fn method(&self) -> (method: &str)
        ensures
            method@ == self.spec_method(),
    {
        match self {
            ClientRequest::ThreadResume { .. } => "thread/resume",
            ClientRequest::ThreadStart { .. } => "thread/start",
            ClientRequest::TurnStart { .. } => "turn/start",
            ClientRequest::TurnSteer { .. } => "turn/steer",
            ClientRequest::Other { method, .. } => method.as_str(),
        }
    }

    /// The identifier of the request.
    pub fn id(&self) -> (id: &RequestId)
        ensures
            id@ == self.spec_id(),
    {
        match self {
            ClientRequest::ThreadResume { request_id, .. } => request_id,
            ClientRequest::ThreadStart { request_id, .. } => request_id,
            ClientRequest::TurnStart { request_id, .. } => request_id,
            ClientRequest::TurnSteer { request_id, .. } => request_id,
            ClientRequest::Other { request_id, .. } => request_id,
        }
    }
}

/// Whether some input is exactly one text without elements.
pub open spec fn is_one_text(input: Seq<UserInput>, text: Seq<char>) -> bool {
    &&& input.len() == 1
    &&& input[0] matches UserInput::Text { text: held, text_elements }
    &&& held@ == text
    &&& text_elements@.len() == 0
}

fn one_text(text: String) -> (input: Vec<UserInput>)
    ensures
        is_one_text(input@, text@),
{
    let mut input: Vec<UserInput> = Vec::new();
    input.push(UserInput::Text { text, text_elements: Vec::new() });
    input
}

/// Builds the request for a thread: `thread/resume` for a named thread, else
/// `thread/start`.
pub fn build_thread_request(request_id: RequestId, request: ThreadSessionRequest) -> (built:
    ClientRequest)
    ensures
        match request.thread_id {
            Some(thread_id) => built == (ClientRequest::ThreadResume {
                request_id,
                params: ThreadResumeParams {
                    thread_id,
                    model: request.model,
                    model_provider: None,
                    cwd: request.cwd,
                    approval_policy: request.approval_policy,
                    approvals_reviewer: request.approvals_reviewer,
                    base_instructions: request.base_instructions,
                },
            }),
            None => built == (ClientRequest::ThreadStart {
                request_id,
                params: ThreadStartParams {
                    model: request.model,
                    model_provider: None,
                    cwd: request.cwd,
                    approval_policy: request.approval_policy,
                    approvals_reviewer: request.approvals_reviewer,
                    base_instructions: request.base_instructions,
                    experimental_raw_events: false,
                },
            }),
        },
{
    match request.thread_id {
        Some(thread_id) => ClientRequest::ThreadResume {
            request_id,
            params: ThreadResumeParams {
                thread_id,
                model: request.model,
                model_provider: None,
                cwd: request.cwd,
                approval_policy: request.approval_policy,
                approvals_reviewer: request.approvals_reviewer,
                base_instructions: request.base_instructions,
            },
        },
        None => ClientRequest::ThreadStart {
            request_id,
            params: ThreadStartParams {
                model: request.model,
                model_provider: None,
                cwd: request.cwd,
                approval_policy: request.approval_policy,
                approvals_reviewer: request.approvals_reviewer,
                base_instructions: request.base_instructions,
                experimental_raw_events: false,
            },
        },
    }
}

/// What `turn/start` says for a turn of a thread: its text, the overrides that
/// the caller gave, and nothing else.
pub open spec fn starts_turn(params: TurnStartParams, thread_id: Seq<char>, request: TurnRequest) -> bool {
    &&& params.thread_id@ == thread_id
    &&& is_one_text(params.input@, request.text@)
    &&& params.cwd == request.cwd
    &&& params.approval_policy == request.approval_policy
    &&& params.approvals_reviewer == request.approvals_reviewer
    &&& params.model == request.model
    &&& params.prefixed_messages is None
    &&& params.responsesapi_client_metadata is None
    &&& params.sandbox_policy is None
    &&& params.service_tier is None
    &&& params.effort is None
    &&& params.summary is None
    &&& params.personality is None
    &&& params.output_schema is None
    &&& params.collaboration_mode is None
    &&& params.base_instructions is None
    &&& params.developer_instructions is None
}

/// Builds the request that starts a turn of a thread.
pub fn build_turn_start_request(request_id: RequestId, thread_id: &str, request: TurnRequest) -> (
built: ClientRequest)
    ensures
        built matches ClientRequest::TurnStart { request_id: id, params } && id == request_id
            && starts_turn(params, thread_id@, request),
{
    ClientRequest::TurnStart {
        request_id,
        params: TurnStartParams {
            thread_id: thread_id.to_owned(),
            input: one_text(request.text),
            prefixed_messages: None,
            responsesapi_client_metadata: None,
            cwd: request.cwd,
            approval_policy: request.approval_policy,
            approvals_reviewer: request.approvals_reviewer,
            sandbox_policy: None,
            model: request.model,
            service_tier: None,
            effort: None,
            summary: None,
            personality: None,
            output_schema: None,
            collaboration_mode: None,
            base_instructions: None,
            developer_instructions: None,
        },
    }
}

/// Builds the request that steers a turn of a thread.
pub fn build_turn_steer_request(
    request_id: RequestId,
    thread_id: &str,
    expected_turn_id: String,
    text: String,
) -> (built: ClientRequest)
    ensures
        built matches ClientRequest::TurnSteer { request_id: id, params } && id == request_id
            && params.thread_id@ == thread_id@ && is_one_text(params.input@, text@)
            && params.responsesapi_client_metadata is None && params.expected_turn_id
            == expected_turn_id,
{
    ClientRequest::TurnSteer {
        request_id,
        params: TurnSteerParams {
            thread_id: thread_id.to_owned(),
            input: one_text(text),
            responsesapi_client_metadata: None,
            expected_turn_id,
        },
    }
}

impl View for CodexTurnSession {
    type V = SessionView;

    closed spec fn view(&self) -> SessionView {
        SessionView {
            thread_id: self.thread_id@,
            active_turn_id: text::opt_text(self.active_turn_id),
        }
    }
}

impl SessionView {
    /// The session after a turn of some thread has started.
    pub open spec fn turn_started(self, thread_id: Seq<char>, turn_id: Seq<char>) -> Self {
        if thread_id == self.thread_id {
            SessionView { active_turn_id: Some(turn_id), ..self }
        } else {
            self
        }
    }

    /// The session after a turn of some thread has ended.
    pub open spec fn turn_completed(self, thread_id: Seq<char>, turn_id: Seq<char>) -> Self {
        if thread_id == self.thread_id && self.active_turn_id == Some(turn_id) {
            SessionView { active_turn_id: None, ..self }
        } else {
            self
        }
    }
}

impl CodexTurnSession {
    /// The session on a thread: an active thread's last turn in progress runs.
    pub fn from_thread(thread: &Thread) -> (session: Self)
        ensures
            session@ == (SessionView {
                thread_id: thread.id@,
                active_turn_id: thread.turn_in_progress(),
            }),
    {
        CodexTurnSession { thread_id: thread.id.clone(), active_turn_id: thread.active_turn() }
    }

    /// The thread of the session.
    pub fn thread_id(&self) -> (thread_id: &str)
        ensures
            thread_id@ == self@.thread_id,
    {
        self.thread_id.as_str()
    }

    /// The turn that is known to run.
    pub fn active_turn_id(&self) -> (turn_id: Option<&str>)
        ensures
            match turn_id {
                Some(turn_id) => self@.active_turn_id == Some(turn_id@),
                None => self@.active_turn_id is None,
            },
    {
        match &self.active_turn_id {
            Some(turn_id) => Some(turn_id.as_str()),
            None => None,
        }
    }

    /// Notes that a turn of some thread has started.
    pub fn on_turn_started(&mut self, thread_id: &str, turn_id: &str)
        ensures
            final(self)@ == old(self)@.turn_started(thread_id@, turn_id@),
    {
        if text::text_eq(thread_id, self.thread_id.as_str()) {
            self.active_turn_id = Some(turn_id.to_owned());
        }
    }

    /// Notes that a turn of some thread has ended.
    pub fn on_turn_completed(&mut self, thread_id: &str, turn_id: &str)
        ensures
            final(self)@ == old(self)@.turn_completed(thread_id@, turn_id@),
    {
        if text::text_eq(thread_id, self.thread_id.as_str()) && text::opt_is(
            &self.active_turn_id,
            turn_id,
        ) {
            self.active_turn_id = None;
        }
    }
}

impl Clone for CodexTurnSession {
    fn clone(&self) -> (copy: Self)
        ensures
            copy == *self,
    {
        CodexTurnSession {
            thread_id: self.thread_id.clone(),
            active_turn_id: text::opt_clone(&self.active_turn_id),
        }
    }
}

impl TurnClientError {
    /// What the error shows.
    pub open spec fn shown(&self) -> Seq<char> {
        match *self {
            TurnClientError::MissingThread => "thread session is not initialized"@,
            TurnClientError::Request(source) => source@.shown(),
        }
    }

    /// What the error shows.
    pub fn to_string(&self) -> (shown: String)
        ensures
            shown@ == self.shown(),
    {
        match self {
            TurnClientError::MissingThread => "thread session is not initialized".to_owned(),
            TurnClientError::Request(source) => source.to_string(),
        }
    }
}

/// The session of a started or resumed thread, with the thread.
pub fn session_start(thread: Thread) -> (start: ThreadSessionStart)
    ensures
        start.thread == thread,
        start.session@ == (SessionView {
            thread_id: thread.id@,
            active_turn_id: thread.turn_in_progress(),
        }),
{
    ThreadSessionStart { session: CodexTurnSession::from_thread(&thread), thread }
}

/// A session follows its own thread only, and a turn that has started and then
/// ended leaves no active turn, whatever ran before.
pub proof fn sessions_follow_their_thread(
    session: SessionView,
    thread_id: Seq<char>,
    turn_id: Seq<char>,
)
    ensures
        thread_id != session.thread_id ==> session.turn_started(thread_id, turn_id) == session
            && session.turn_completed(thread_id, turn_id) == session,
        session.turn_started(session.thread_id, turn_id).turn_completed(
            session.thread_id,
            turn_id,
        ).active_turn_id is None,
        session.turn_started(session.thread_id, turn_id).active_turn_id == Some(turn_id),
{
}

} // verus!
