//! The app server at the other end of a pair of pipes: what is sent, what comes
//! back, how the connection is set up and what its failures are called.

use std::collections::VecDeque;

use vstd::prelude::*;

use crate::items::ServerNotification;
use crate::protocol::{ErrorView, JSONRPCErrorError, RequestId, RequestIdView};
use crate::sideband::ServerRequest;
use crate::text;
use crate::turn_client::ClientRequest;

verus! {

/// The kind of a failure of the connection.
#[derive(Clone, Copy, Debug, PartialEq, Eq, Structural)]
pub enum TransportErrorKind {
    InvalidInput,
    BrokenPipe,
    UnexpectedEof,
    TimedOut,
    Other,
}

/// A failure of the connection.
#[derive(Debug, PartialEq, Eq)]
pub struct TransportError {
    pub kind: TransportErrorKind,
    pub message: String,
}

/// A failure of the connection, as mathematical text.
#[verifier::ext_equal]
pub struct TransportErrorView {
    pub kind: TransportErrorKind,
    pub message: Seq<char>,
}

impl View for TransportError {
    type V = TransportErrorView;

    open spec fn view(&self) -> TransportErrorView {
        TransportErrorView { kind: self.kind, message: self.message@ }
    }
}

impl Clone for TransportError {
    fn clone(&self) -> (copy: Self)
        ensures
            copy == *self,
    {
        TransportError { kind: self.kind, message: self.message.clone() }
    }
}

impl TransportErrorView {
    /// A failure of no particular kind.
    pub open spec fn other(message: Seq<char>) -> Self {
        TransportErrorView { kind: TransportErrorKind::Other, message }
    }

    /// A failure because the other side is gone.
    pub open spec fn broken_pipe(message: Seq<char>) -> Self {
        TransportErrorView { kind: TransportErrorKind::BrokenPipe, message }
    }
}

impl TransportError {
    /// A failure of no particular kind.
    pub fn other(message: String) -> (error: Self)
        ensures
            error@ == TransportErrorView::other(message@),
    {
        TransportError { kind: TransportErrorKind::Other, message }
    }

    /// A failure because the other side is gone.
    pub fn broken_pipe(message: &str) -> (error: Self)
        ensures
            error@ == TransportErrorView::broken_pipe(message@),
    {
        TransportError { kind: TransportErrorKind::BrokenPipe, message: message.to_owned() }
    }
}

/// Whether something succeeded, as mathematical text.
pub open spec fn transport_result(result: Result<(), TransportError>) -> Result<
    (),
    TransportErrorView,
> {
    match result {
        Ok(_) => Ok(()),
        Err(error) => Err(error@),
    }
}

/// What the client says to the app server without asking anything.
#[derive(Clone, Debug, PartialEq, Eq)]
pub enum ClientNotification {
    Initialized,
}

/// A message of the client to the app server.
#[derive(Debug, PartialEq, Eq)]
pub enum OutgoingMessage {
    Request(ClientRequest),
    /// The request that sets up the connection, with its parameters as JSON
    /// text.
    Initialize { id: RequestId, params: String },
    Notification(ClientNotification),
    /// The result of a request of the server, as JSON text.
    Response { id: RequestId, result: String },
    Error { id: RequestId, error: JSONRPCErrorError },
}

/// A message of the client to the app server, as mathematical text.
#[verifier::ext_equal]
pub enum OutgoingView {
    Request(ClientRequest),
    Initialize { id: RequestIdView, params: Seq<char> },
    Notification(ClientNotification),
    Response { id: RequestIdView, result: Seq<char> },
    Error { id: RequestIdView, error: ErrorView },
}

impl View for OutgoingMessage {
    type V = OutgoingView;

    open spec fn view(&self) -> OutgoingView {
        match *self {
            OutgoingMessage::Request(request) => OutgoingView::Request(request),
            OutgoingMessage::Initialize { id, params } => OutgoingView::Initialize {
                id: id@,
                params: params@,
            },
            OutgoingMessage::Notification(notification) => OutgoingView::Notification(
                notification,
            ),
            OutgoingMessage::Response { id, result } => OutgoingView::Response {
                id: id@,
                result: result@,
            },
            OutgoingMessage::Error { id, error } => OutgoingView::Error { id: id@, error: error@ },
        }
    }
}

/// A message of the app server to the client.
#[derive(Debug, PartialEq, Eq)]
pub enum IncomingMessage {
    /// The result of a request of the client, as JSON text.
    Response { id: RequestId, result: String },
    Error { id: RequestId, error: JSONRPCErrorError },
    /// A notification, where the client knows it, and whether it must not be
    /// dropped.
    Notification { notification: Option<ServerNotification>, requires_delivery: bool },
    /// A request, with its content where the client knows it.
    Request { id: RequestId, method: String, request: Option<ServerRequest> },
}

/// What the client hands to its user.
#[derive(Debug, PartialEq, Eq)]
pub enum AppServerEvent {
    /// A notification of the app server; some must not be dropped.
    ServerNotification { notification: ServerNotification, requires_delivery: bool },
    ServerRequest(ServerRequest),
    /// Some events were dropped because they were not taken in time.
    Lagged { skipped: usize },
    Disconnected { message: String },
}

/// What the client hands to its user, as mathematical text.
#[verifier::ext_equal]
pub enum AppServerEventView {
    ServerNotification { notification: ServerNotification, requires_delivery: bool },
    ServerRequest(ServerRequest),
    Lagged { skipped: nat },
    Disconnected { message: Seq<char> },
}

impl View for AppServerEvent {
    type V = AppServerEventView;

    open spec fn view(&self) -> AppServerEventView {
        match *self {
            AppServerEvent::ServerNotification { notification, requires_delivery } =>
                AppServerEventView::ServerNotification { notification, requires_delivery },
            AppServerEvent::ServerRequest(request) => AppServerEventView::ServerRequest(request),
            AppServerEvent::Lagged { skipped } => AppServerEventView::Lagged {
                skipped: skipped as nat,
            },
            AppServerEvent::Disconnected { message } => AppServerEventView::Disconnected {
                message: message@,
            },
        }
    }
}

impl AppServerEventView {
    /// Whether an event must not be dropped.
    pub open spec fn requires_delivery(self) -> bool {
        match self {
            AppServerEventView::ServerNotification { requires_delivery, .. } => requires_delivery,
            AppServerEventView::Disconnected { .. } => true,
            AppServerEventView::Lagged { .. } | AppServerEventView::ServerRequest(_) => false,
        }
    }

    /// The request that an event carries.
    pub open spec fn request_id(self) -> Option<RequestIdView> {
        match self {
            AppServerEventView::ServerRequest(request) => Some(request.request_id@),
            _ => None,
        }
    }
}

/// Tells whether an event must not be dropped.
pub fn event_requires_delivery(event: &AppServerEvent) -> (required: bool)
    ensures
        required == event@.requires_delivery(),
{
    match event {
        AppServerEvent::ServerNotification { requires_delivery, .. } => *requires_delivery,
        AppServerEvent::Disconnected { .. } => true,
        AppServerEvent::Lagged { .. } | AppServerEvent::ServerRequest(_) => false,
    }
}

/// The request that an event carries, as mathematical text.
pub open spec fn opt_id(id: Option<RequestId>) -> Option<RequestIdView> {
    match id {
        Some(id) => Some(id@),
        None => None,
    }
}

/// The request that an event carries.
pub fn event_request_id(event: &AppServerEvent) -> (id: Option<RequestId>)
    ensures
        opt_id(id) == event@.request_id(),
{
    match event {
        AppServerEvent::ServerRequest(request) => Some(request.request_id.clone()),
        _ => None,
    }
}

/// The event for a notification that the client knows.
pub open spec fn notification_event(
    notification: Option<ServerNotification>,
    requires_delivery: bool,
) -> Option<AppServerEventView> {
    match notification {
        Some(notification) => Some(
            AppServerEventView::ServerNotification { notification, requires_delivery },
        ),
        None => None,
    }
}

/// The event for a notification; one that the client does not know is ignored.
pub fn app_server_event_from_notification(
    notification: Option<ServerNotification>,
    requires_delivery: bool,
) -> (event: Option<AppServerEvent>)
    ensures
        match event {
            Some(event) => notification_event(notification, requires_delivery) == Some(event@),
            None => notification_event(notification, requires_delivery) is None,
        },
{
    match notification {
        Some(notification) => Some(
            AppServerEvent::ServerNotification { notification, requires_delivery },
        ),
        None => None,
    }
}

/// The refusal of a request that the client does not know.
pub open spec fn unsupported_request(method: Seq<char>) -> ErrorView {
    ErrorView::plain(-32601, "unsupported stdio app-server request `"@ + method + "`"@)
}

/// The refusal of a request for which there was no room.
pub open spec fn overflow() -> ErrorView {
    ErrorView::plain(-32001, "stdio app-server event queue is full"@)
}

/// Refuses a request that the client does not know.
pub fn unsupported_request_error(method: &str) -> (error: JSONRPCErrorError)
    ensures
        error@ == unsupported_request(method@),
{
    JSONRPCErrorError {
        code: -32601,
        message: text::concat3("unsupported stdio app-server request `", method, "`"),
        data: None,
    }
}

/// Refuses a request for which there was no room.
pub fn overflow_error() -> (error: JSONRPCErrorError)
    ensures
        error@ == overflow(),
{
    JSONRPCErrorError {
        code: -32001,
        message: "stdio app-server event queue is full".to_owned(),
        data: None,
    }
}

/// How the app server is started and what the client says of itself.
#[derive(Debug, Clone, PartialEq, Eq)]
pub struct StdioAppServerConnectArgs {
    /// The path of the program, as it is shown.
    pub codex_bin: String,
    pub config_overrides: Vec<String>,
    pub client_name: String,
    pub client_version: String,
    pub experimental_api: bool,
    pub opt_out_notification_methods: Vec<String>,
    pub channel_capacity: usize,
}

/// Who the client is.
#[derive(Debug, Clone, PartialEq, Eq)]
pub struct ClientInfo {
    pub name: String,
    pub title: Option<String>,
    pub version: String,
}

/// What the client can do.
#[derive(Debug, Clone, PartialEq, Eq)]
pub struct InitializeCapabilities {
    pub experimental_api: bool,
    pub opt_out_notification_methods: Option<Vec<String>>,
}

/// The introduction of the client.
#[derive(Debug, Clone, PartialEq, Eq)]
pub struct InitializeParams {
    pub client_info: ClientInfo,
    pub capabilities: Option<InitializeCapabilities>,
}

/// A copy of some texts.
fn copy_texts(items: &Vec<String>) -> (copy: Vec<String>)
    ensures
        copy@ == items@,
{
    let mut copy: Vec<String> = Vec::new();
    let mut i: usize = 0;
    while i < items.len()
        invariant
            i <= items@.len(),
            copy@ == items@.take(i as int),
        decreases items@.len() - i,
    {
        copy.push(items[i].clone());
        assert(copy@ =~= items@.take(i + 1));
        i += 1;
    }
    assert(items@.take(i as int) =~= items@);
    copy
}

/// The arguments that hand configuration overrides to the app server.
pub open spec fn override_arguments(overrides: Seq<Seq<char>>) -> Seq<Seq<char>>
    decreases overrides.len(),
{
    if overrides.len() == 0 {
        Seq::empty()
    } else {
        override_arguments(overrides.drop_last()) + seq!["--config"@, overrides.last()]
    }
}

impl StdioAppServerConnectArgs {
    /// What the client says of itself. An empty list of notifications to leave
    /// out is left out itself.
    pub fn initialize_params(&self) -> (params: InitializeParams)
        ensures
            params.client_info.name@ == self.client_name@,
            params.client_info.title is None,
            params.client_info.version@ == self.client_version@,
            params.capabilities matches Some(capabilities) && {
                &&& capabilities.experimental_api == self.experimental_api
                &&& match capabilities.opt_out_notification_methods {
                    Some(methods) => methods@.len() > 0 && methods@
                        == self.opt_out_notification_methods@,
                    None => self.opt_out_notification_methods@.len() == 0,
                }
            },
    {
        let opt_out_notification_methods = if self.opt_out_notification_methods.len() == 0 {
            None
        } else {
            Some(copy_texts(&self.opt_out_notification_methods))
        };
        let capabilities = InitializeCapabilities {
            experimental_api: self.experimental_api,
            opt_out_notification_methods,
        };
        InitializeParams {
            client_info: ClientInfo {
                name: self.client_name.clone(),
                title: None,
                version: self.client_version.clone(),
            },
            capabilities: Some(capabilities),
        }
    }

    /// The arguments with which the app server is started.
    pub fn command_arguments(&self) -> (arguments: Vec<String>)
        ensures
            text::texts(arguments@) == override_arguments(
                text::texts(self.config_overrides@),
            ).push("app-server"@),
    {
        let ghost overrides = text::texts(self.config_overrides@);
        let mut arguments: Vec<String> = Vec::new();
        let mut i: usize = 0;
        assert(overrides.take(0) =~= Seq::empty());
        assert(text::texts(arguments@) =~= Seq::empty());
        while i < self.config_overrides.len()
            invariant
                i <= self.config_overrides@.len(),
                overrides == text::texts(self.config_overrides@),
                text::texts(arguments@) == override_arguments(overrides.take(i as int)),
            decreases self.config_overrides@.len() - i,
        {
            let ghost before = text::texts(arguments@);
            arguments.push("--config".to_owned());
            arguments.push(self.config_overrides[i].clone());
            proof {
                let taken = overrides.take(i + 1);
                assert(taken.drop_last() =~= overrides.take(i as int));
                assert(taken.last() == self.config_overrides@[i as int]@);
                assert(text::texts(arguments@) =~= before + seq![
                    "--config"@,
                    self.config_overrides@[i as int]@,
                ]);
            }
            i += 1;
        }
        assert(overrides.take(i as int) =~= overrides);
        let ghost before = text::texts(arguments@);
        arguments.push("app-server".to_owned());
        assert(text::texts(arguments@) =~= before.push("app-server"@));
        arguments
    }

    /// The name of the connection in messages.
    pub fn connection_label(&self) -> (label: String)
        ensures
            label@ == "stdio app server `"@ + self.codex_bin@ + "`"@,
    {
        text::concat3("stdio app server `", self.codex_bin.as_str(), "`")
    }

    /// The failure to start the app server.
    pub fn start_failure(&self, message: &str) -> (error: TransportError)
        ensures
            error@ == TransportErrorView::other(
                "failed to start `"@ + self.codex_bin@ + "` app-server: "@ + message@,
            ),
    {
        let what = text::concat3("failed to start `", self.codex_bin.as_str(), "` app-server: ");
        TransportError::other(text::concat2(what.as_str(), message))
    }

    /// The number of commands and of events for which there is room: at least
    /// one each.
    pub fn usable_capacity(&self) -> (capacity: usize)
        ensures
            capacity == if self.channel_capacity < 1 {
                1
            } else {
                self.channel_capacity
            },
    {
        if self.channel_capacity < 1 {
            1
        } else {
            self.channel_capacity
        }
    }
}

/// A pipe of the app server.
#[derive(Clone, Copy, Debug, PartialEq, Eq, Structural)]
pub enum ServerPipe {
    Stdin,
    Stdout,
}

/// The failure to get hold of a pipe of the app server.
pub fn missing_pipe(pipe: ServerPipe) -> (error: TransportError)
    ensures
        error@ == TransportErrorView::broken_pipe(
            match pipe {
                ServerPipe::Stdin => "spawned codex app-server stdin unavailable"@,
                ServerPipe::Stdout => "spawned codex app-server stdout unavailable"@,
            },
        ),
{
    match pipe {
        ServerPipe::Stdin => TransportError::broken_pipe(
            "spawned codex app-server stdin unavailable",
        ),
        ServerPipe::Stdout => TransportError::broken_pipe(
            "spawned codex app-server stdout unavailable",
        ),
    }
}

/// What kept a message from being written.
#[derive(Debug, Clone, PartialEq, Eq)]
pub enum WriteFailure {
    Encode { message: String },
    Write { message: String },
    Flush { message: String },
}

/// The failure to write a message.
pub open spec fn write_failure(failure: WriteFailure, label: Seq<char>) -> TransportErrorView {
    TransportErrorView::other(
        match failure {
            WriteFailure::Encode { message } => message@,
            WriteFailure::Write { message } => "failed to write stdio message to "@ + label + ": "@
                + message@,
            WriteFailure::Flush { message } => "failed to flush stdio message to "@ + label + ": "@
                + message@,
        },
    )
}

/// The failure to write a message.
pub fn write_jsonrpc_failure(failure: WriteFailure, connection_label: &str) -> (error:
    TransportError)
    ensures
        error@ == write_failure(failure, connection_label@),
{
    let message = match failure {
        WriteFailure::Encode { message } => message,
        WriteFailure::Write { message } => {
            let what = text::concat3("failed to write stdio message to ", connection_label, ": ");
            text::concat2(what.as_str(), message.as_str())
        },
        WriteFailure::Flush { message } => {
            let what = text::concat3("failed to flush stdio message to ", connection_label, ": ");
            text::concat2(what.as_str(), message.as_str())
        },
    };
    TransportError::other(message)
}

/// A message as one line.
pub fn jsonrpc_line(payload: String) -> (line: String)
    ensures
        line@ == payload@ + "\n"@,
{
    let mut line = payload;
    line.append("\n");
    line
}

/// How the app server ended.
#[derive(Debug, Clone, PartialEq, Eq)]
pub enum ServerExit {
    /// There was none to end.
    NoServer,
    /// It ended by itself in time.
    Exited,
    WaitFailed { message: String },
    /// It did not end in time and was killed.
    Killed,
    KillFailed { message: String },
    KilledWaitFailed { message: String },
}

/// Whether the app server was ended.
pub open spec fn exit_result(exit: ServerExit, label: Seq<char>) -> Result<
    (),
    TransportErrorView,
> {
    match exit {
        ServerExit::NoServer | ServerExit::Exited | ServerExit::Killed => Ok(()),
        ServerExit::WaitFailed { message } => Err(
            TransportErrorView::other(
                "failed waiting for "@ + label + " shutdown: "@ + message@,
            ),
        ),
        ServerExit::KillFailed { message } => Err(
            TransportErrorView::other(
                "failed killing "@ + label + " after shutdown timeout: "@ + message@,
            ),
        ),
        ServerExit::KilledWaitFailed { message } => Err(
            TransportErrorView::other("failed waiting for killed "@ + label + ": "@ + message@),
        ),
    }
}

/// Tells whether the app server was ended.
pub fn shutdown_outcome(exit: ServerExit, connection_label: &str) -> (result: Result<
    (),
    TransportError,
>)
    ensures
        transport_result(result) == exit_result(exit, connection_label@),
{
    let (what, message) = match exit {
        ServerExit::NoServer | ServerExit::Exited | ServerExit::Killed => return Ok(()),
        ServerExit::WaitFailed { message } => (
            text::concat3("failed waiting for ", connection_label, " shutdown: "),
            message,
        ),
        ServerExit::KillFailed { message } => (
            text::concat3("failed killing ", connection_label, " after shutdown timeout: "),
            message,
        ),
        ServerExit::KilledWaitFailed { message } => (
            text::concat3("failed waiting for killed ", connection_label, ": "),
            message,
        ),
    };
    Err(TransportError::other(text::concat2(what.as_str(), message.as_str())))
}

/// What the user of the client waits for.
#[derive(Clone, Copy, Debug, PartialEq, Eq, Structural)]
pub enum CommandKind {
    Request,
    Notify,
    Resolve,
    Reject,
}

/// What came of handing a command to the worker.
#[derive(Clone, Copy, Debug, PartialEq, Eq, Structural)]
pub enum CommandFailure {
    /// The worker takes no commands any more.
    NotTaken,
    /// The worker took the command and did not answer it.
    NotAnswered,
}

/// The failure of a command.
pub open spec fn command_failure_text(kind: CommandKind, failure: CommandFailure) -> Seq<char> {
    match (failure, kind) {
        (CommandFailure::NotTaken, _) => "stdio app-server worker channel is closed"@,
        (CommandFailure::NotAnswered, CommandKind::Request) =>
            "stdio app-server request channel is closed"@,
        (CommandFailure::NotAnswered, CommandKind::Notify) =>
            "stdio app-server notify channel is closed"@,
        (CommandFailure::NotAnswered, CommandKind::Resolve) =>
            "stdio app-server resolve channel is closed"@,
        (CommandFailure::NotAnswered, CommandKind::Reject) =>
            "stdio app-server reject channel is closed"@,
    }
}

/// The failure of a command.
pub fn command_failure(kind: CommandKind, failure: CommandFailure) -> (error: TransportError)
    ensures
        error@ == TransportErrorView::broken_pipe(command_failure_text(kind, failure)),
{
    match (failure, kind) {
        (CommandFailure::NotTaken, _) => TransportError::broken_pipe(
            "stdio app-server worker channel is closed",
        ),
        (CommandFailure::NotAnswered, CommandKind::Request) => TransportError::broken_pipe(
            "stdio app-server request channel is closed",
        ),
        (CommandFailure::NotAnswered, CommandKind::Notify) => TransportError::broken_pipe(
            "stdio app-server notify channel is closed",
        ),
        (CommandFailure::NotAnswered, CommandKind::Resolve) => TransportError::broken_pipe(
            "stdio app-server resolve channel is closed",
        ),
        (CommandFailure::NotAnswered, CommandKind::Reject) => TransportError::broken_pipe(
            "stdio app-server reject channel is closed",
        ),
    }
}

/// What comes of asking the worker to shut down: the failure that it reports,
/// where it took the command and answered in time.
pub fn shutdown_result(reply: Option<Result<(), TransportError>>) -> (result: Result<
    (),
    TransportError,
>)
    ensures
        transport_result(result) == match reply {
            Some(reply) => transport_result(reply),
            None => Ok::<(), TransportErrorView>(()),
        },
{
    match reply {
        Some(reply) => reply,
        None => Ok(()),
    }
}

/// Why a request of the client gave no result.
#[derive(Debug, PartialEq, Eq)]
pub enum TypedRequestError {
    Transport { method: String, source: TransportError },
    Server { method: String, source: JSONRPCErrorError },
    Deserialize { method: String, message: String },
}

/// Why a request of the client gave no result, as mathematical text.
#[verifier::ext_equal]
pub enum TypedRequestErrorView {
    Transport { method: Seq<char>, source: TransportErrorView },
    Server { method: Seq<char>, source: ErrorView },
    Deserialize { method: Seq<char>, message: Seq<char> },
}

impl View for TypedRequestError {
    type V = TypedRequestErrorView;

    open spec fn view(&self) -> TypedRequestErrorView {
        match *self {
            TypedRequestError::Transport { method, source } => TypedRequestErrorView::Transport {
                method: method@,
                source: source@,
            },
            TypedRequestError::Server { method, source } => TypedRequestErrorView::Server {
                method: method@,
                source: source@,
            },
            TypedRequestError::Deserialize { method, message } =>
                TypedRequestErrorView::Deserialize { method: method@, message: message@ },
        }
    }
}

impl TypedRequestErrorView {
    /// What the error shows.
    pub open spec fn shown(self) -> Seq<char> {
        match self {
            TypedRequestErrorView::Transport { method, source } => method + " transport error: "@
                + source.message,
            TypedRequestErrorView::Server { method, source } => method + " failed: "@
                + source.message,
            TypedRequestErrorView::Deserialize { method, message } => method
                + " response decode error: "@ + message,
        }
    }
}

impl TypedRequestError {
    /// What the error shows.
    pub fn to_string(&self) -> (shown: String)
        ensures
            shown@ == self@.shown(),
    {
        match self {
            TypedRequestError::Transport { method, source } => text::concat3(
                method.as_str(),
                " transport error: ",
                source.message.as_str(),
            ),
            TypedRequestError::Server { method, source } => text::concat3(
                method.as_str(),
                " failed: ",
                source.message.as_str(),
            ),
            TypedRequestError::Deserialize { method, message } => text::concat3(
                method.as_str(),
                " response decode error: ",
                message.as_str(),
            ),
        }
    }
}

/// The result of a request of the client as the user gets it.
pub open spec fn typed_result(method: Seq<char>, response: RequestResult) -> Result<
    Seq<char>,
    TypedRequestErrorView,
> {
    match response {
        Err(source) => Err(TypedRequestErrorView::Transport { method, source: source@ }),
        Ok(Err(source)) => Err(TypedRequestErrorView::Server { method, source: source@ }),
        Ok(Ok(result)) => Ok(result@),
    }
}

/// What a request of the client comes to: the connection failed, or the app
/// server refused it, or its result as JSON text.
pub type RequestResult = Result<Result<String, JSONRPCErrorError>, TransportError>;

/// Takes the result of a request out of what it came to. What stands in the
/// result is read by the user, with `undecodable_result` where that fails.
pub fn request_typed(method: String, response: RequestResult) -> (result: Result<
    String,
    TypedRequestError,
>)
    ensures
        match result {
            Ok(result) => typed_result(method@, response) == Ok::<
                Seq<char>,
                TypedRequestErrorView,
            >(result@),
            Err(error) => typed_result(method@, response) == Err::<
                Seq<char>,
                TypedRequestErrorView,
            >(error@),
        },
{
    match response {
        Err(source) => Err(TypedRequestError::Transport { method, source }),
        Ok(Err(source)) => Err(TypedRequestError::Server { method, source }),
        Ok(Ok(result)) => Ok(result),
    }
}

/// The failure to read a result.
pub fn undecodable_result(method: String, message: String) -> (error: TypedRequestError)
    ensures
        error@ == (TypedRequestErrorView::Deserialize { method: method@, message: message@ }),
{
    TypedRequestError::Deserialize { method, message }
}

/// The events that came while the connection was set up, which come before all
/// others.
pub fn next_pending_event(pending_events: &mut VecDeque<AppServerEvent>) -> (event: Option<
    AppServerEvent,
>)
    ensures
        match event {
            Some(event) => old(pending_events)@.len() > 0 && event == old(pending_events)@[0]
                && final(pending_events)@ == old(pending_events)@.drop_first(),
            None => old(pending_events)@.len() == 0 && final(pending_events)@
                == old(pending_events)@,
        },
{
    let event = pending_events.pop_front();
    assert(old(pending_events)@.len() > 0 ==> pending_events@
        =~= old(pending_events)@.drop_first());
    event
}

} // verus!
