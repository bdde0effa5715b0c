//! The worker of a connection: it routes requests and responses, hands events
//! to the user of the client, and answers every request that it took.

use vstd::multiset::Multiset;
use vstd::prelude::*;

use crate::protocol::{ErrorView, JSONRPCErrorError, RequestId, RequestIdView};
use crate::stdio;
use crate::stdio::{
    AppServerEvent, AppServerEventView, ClientNotification, IncomingMessage, OutgoingMessage,
    OutgoingView, TransportError, TransportErrorKind, TransportErrorView,
};
use crate::text;
use crate::turn_client::ClientRequest;

verus! {

/// What the user of the client asks the worker to do.
#[derive(Debug, PartialEq, Eq)]
pub enum StdioClientCommand {
    Request(ClientRequest),
    Notify(ClientNotification),
    /// The result is JSON text.
    ResolveServerRequest { request_id: RequestId, result: String },
    RejectServerRequest { request_id: RequestId, error: JSONRPCErrorError },
    Shutdown,
}

/// What came of handing an event to the user.
#[derive(Clone, Copy, Debug, PartialEq, Eq, Structural)]
pub enum SendOutcome {
    Sent,
    /// There was no room.
    Full,
    /// Nobody takes events any more.
    Closed,
}

/// What the worker is waiting for.
#[derive(Debug, PartialEq, Eq)]
pub enum WorkerStage {
    /// The next command or the next line.
    Waiting,
    /// A request of the client is being written.
    WritingRequest { id: RequestId },
    /// What a command asked to write is being written.
    WritingCommand,
    /// The refusal of an unknown request is being written.
    WritingRefusal,
    /// The number of dropped events is being handed over, and then an event.
    SendingLagged { event: AppServerEvent },
    /// An event is being handed over.
    SendingEvent { request_id: Option<RequestId>, required: bool, last: bool },
    /// The refusal of a request that was dropped is being written.
    WritingOverflow,
    /// The app server is being ended; a command may wait for that.
    EndingServer { commanded: bool },
    Stopped,
}

/// What the worker is waiting for, as mathematical values.
#[verifier::ext_equal]
pub enum WorkerStageView {
    Waiting,
    WritingRequest { id: RequestIdView },
    WritingCommand,
    WritingRefusal,
    SendingLagged { event: AppServerEventView },
    SendingEvent { request_id: Option<RequestIdView>, required: bool, last: bool },
    WritingOverflow,
    EndingServer { commanded: bool },
    Stopped,
}

impl View for WorkerStage {
    type V = WorkerStageView;

    open spec fn view(&self) -> WorkerStageView {
        match *self {
            WorkerStage::Waiting => WorkerStageView::Waiting,
            WorkerStage::WritingRequest { id } => WorkerStageView::WritingRequest { id: id@ },
            WorkerStage::WritingCommand => WorkerStageView::WritingCommand,
            WorkerStage::WritingRefusal => WorkerStageView::WritingRefusal,
            WorkerStage::SendingLagged { event } => WorkerStageView::SendingLagged {
                event: event@,
            },
            WorkerStage::SendingEvent { request_id, required, last } =>
                WorkerStageView::SendingEvent {
                    request_id: stdio::opt_id(request_id),
                    required,
                    last,
                },
            WorkerStage::WritingOverflow => WorkerStageView::WritingOverflow,
            WorkerStage::EndingServer { commanded } => WorkerStageView::EndingServer { commanded },
            WorkerStage::Stopped => WorkerStageView::Stopped,
        }
    }
}

/// What came about.
#[derive(Debug, PartialEq, Eq)]
pub enum WorkerInput {
    Command(StdioClientCommand),
    /// No command will come any more.
    CommandsClosed,
    /// A line was read; it is a message, or why it is none.
    Line(Result<IncomingMessage, String>),
    LinesEnded,
    LinesFailed { message: String },
    Written(Result<(), TransportError>),
    Sent(SendOutcome),
    ServerEnded(Result<(), TransportError>),
}

/// The answer to a request of the client.
#[derive(Debug, PartialEq, Eq)]
pub enum Answer {
    /// The result, as JSON text.
    Result(String),
    Error(JSONRPCErrorError),
    Failed(TransportError),
}

/// The answer to a request of the client, as mathematical text.
#[verifier::ext_equal]
pub enum AnswerView {
    Result(Seq<char>),
    Error(ErrorView),
    Failed(TransportErrorView),
}

impl View for Answer {
    type V = AnswerView;

    open spec fn view(&self) -> AnswerView {
        match *self {
            Answer::Result(result) => AnswerView::Result(result@),
            Answer::Error(error) => AnswerView::Error(error@),
            Answer::Failed(error) => AnswerView::Failed(error@),
        }
    }
}

/// What is to be done, in order.
#[derive(Debug, PartialEq, Eq)]
pub enum WorkerAction {
    /// Keep whoever made the current request, under its identifier.
    Hold { id: RequestId },
    /// Answer whoever made the current request, and keep nothing.
    Refuse(TransportError),
    /// Answer a request that is held.
    Answer { id: RequestId, answer: Answer },
    /// Answer whoever gave the current command.
    Reply(Result<(), TransportError>),
    Write(OutgoingMessage),
    /// Hand over an event, and wait until there is room.
    Send(AppServerEvent),
    /// Hand over an event if there is room.
    TrySend(AppServerEvent),
    /// Close the pipe to the app server and end it.
    EndServer,
    Stop,
}

/// What is to be done, as mathematical values.
#[verifier::ext_equal]
pub enum WorkerActionView {
    Hold { id: RequestIdView },
    Refuse(TransportErrorView),
    Answer { id: RequestIdView, answer: AnswerView },
    Reply(Result<(), TransportErrorView>),
    Write(OutgoingView),
    Send(AppServerEventView),
    TrySend(AppServerEventView),
    EndServer,
    Stop,
}

impl View for WorkerAction {
    type V = WorkerActionView;

    open spec fn view(&self) -> WorkerActionView {
        match *self {
            WorkerAction::Hold { id } => WorkerActionView::Hold { id: id@ },
            WorkerAction::Refuse(error) => WorkerActionView::Refuse(error@),
            WorkerAction::Answer { id, answer } => WorkerActionView::Answer {
                id: id@,
                answer: answer@,
            },
            WorkerAction::Reply(result) => WorkerActionView::Reply(stdio::transport_result(result)),
            WorkerAction::Write(message) => WorkerActionView::Write(message@),
            WorkerAction::Send(event) => WorkerActionView::Send(event@),
            WorkerAction::TrySend(event) => WorkerActionView::TrySend(event@),
            WorkerAction::EndServer => WorkerActionView::EndServer,
            WorkerAction::Stop => WorkerActionView::Stop,
        }
    }
}

/// What is to be done, in order.
pub open spec fn worker_actions(actions: Seq<WorkerAction>) -> Seq<WorkerActionView> {
    actions.map_values(|action: WorkerAction| action@)
}

/// The state of a worker, as mathematical values. The requests that are held
/// stand in the order in which they came.
#[verifier::ext_equal]
pub struct WorkerView {
    pub label: Seq<char>,
    pub pending: Seq<RequestIdView>,
    pub skipped: nat,
    pub stage: WorkerStageView,
}

/// A state, with what is to be done.
pub type WorkerOutcome = (WorkerView, Seq<WorkerActionView>);

/// The failure of every request that is still held when the worker stops.
pub open spec fn worker_gone() -> TransportErrorView {
    TransportErrorView::broken_pipe("stdio app-server worker channel is closed"@)
}

/// The answers to requests that the worker leaves behind.
pub open spec fn left_behind(pending: Seq<RequestIdView>) -> Seq<WorkerActionView> {
    pending.map_values(
        |id: RequestIdView|
            WorkerActionView::Answer { id, answer: AnswerView::Failed(worker_gone()) },
    )
}

/// Some requests without one of them.
pub open spec fn without(pending: Seq<RequestIdView>, id: RequestIdView) -> Seq<RequestIdView>
    decreases pending.len(),
{
    if pending.len() == 0 {
        pending
    } else if pending.first() == id {
        pending.drop_first()
    } else {
        seq![pending.first()] + without(pending.drop_first(), id)
    }
}

impl WorkerView {
    pub open spec fn at(self, stage: WorkerStageView) -> Self {
        WorkerView { stage, ..self }
    }

    /// The worker waits for the next command or line.
    pub open spec fn wait(self) -> WorkerOutcome {
        (self.at(WorkerStageView::Waiting), Seq::empty())
    }

    /// Writes a message.
    pub open spec fn write(self, stage: WorkerStageView, message: OutgoingView) -> WorkerOutcome {
        (self.at(stage), seq![WorkerActionView::Write(message)])
    }

    /// The worker stops, and every request that it holds is answered.
    pub open spec fn stop(self) -> WorkerOutcome {
        (
            WorkerView { pending: Seq::empty(), ..self.at(WorkerStageView::Stopped) },
            left_behind(self.pending).push(WorkerActionView::Stop),
        )
    }

    /// Hands over an event.
    pub open spec fn send(self, event: AppServerEventView) -> WorkerOutcome {
        (
            self.at(
                WorkerStageView::SendingEvent {
                    request_id: event.request_id(),
                    required: event.requires_delivery(),
                    last: event is Disconnected,
                },
            ),
            seq![
                if event.requires_delivery() {
                    WorkerActionView::Send(event)
                } else {
                    WorkerActionView::TrySend(event)
                },
            ],
        )
    }

    /// Hands over an event, and before it the number of events that were
    /// dropped.
    pub open spec fn deliver(self, event: AppServerEventView) -> WorkerOutcome {
        if self.skipped > 0 {
            let lagged = AppServerEventView::Lagged { skipped: self.skipped };
            (
                self.at(WorkerStageView::SendingLagged { event }),
                seq![
                    if event.requires_delivery() {
                        WorkerActionView::Send(lagged)
                    } else {
                        WorkerActionView::TrySend(lagged)
                    },
                ],
            )
        } else {
            self.send(event)
        }
    }

    /// The connection is lost: that is the last event.
    pub open spec fn disconnect(self, what: Seq<char>) -> WorkerOutcome {
        self.deliver(AppServerEventView::Disconnected { message: self.label + what })
    }

    /// There was no room for an event: it counts as dropped, and where it
    /// carries a request the app server is told.
    pub open spec fn dropped(self, request_id: Option<RequestIdView>) -> WorkerOutcome {
        let counted = WorkerView {
            skipped: if self.skipped < usize::MAX {
                self.skipped + 1
            } else {
                self.skipped
            },
            ..self
        };
        match request_id {
            Some(id) => counted.write(
                WorkerStageView::WritingOverflow,
                OutgoingView::Error { id, error: stdio::overflow() },
            ),
            None => counted.wait(),
        }
    }

    /// A command comes.
    pub open spec fn command(self, command: StdioClientCommand) -> WorkerOutcome {
        match command {
            StdioClientCommand::Request(request) => {
                let id = request.spec_id();
                if self.pending.contains(id) {
                    (
                        self,
                        seq![
                            WorkerActionView::Refuse(
                                TransportErrorView {
                                    kind: TransportErrorKind::InvalidInput,
                                    message: "duplicate stdio app-server request id `"@
                                        + id.shown() + "`"@,
                                },
                            ),
                        ],
                    )
                } else {
                    (
                        WorkerView {
                            pending: self.pending.push(id),
                            ..self.at(WorkerStageView::WritingRequest { id })
                        },
                        seq![
                            WorkerActionView::Hold { id },
                            WorkerActionView::Write(OutgoingView::Request(request)),
                        ],
                    )
                }
            },
            StdioClientCommand::Notify(notification) => self.write(
                WorkerStageView::WritingCommand,
                OutgoingView::Notification(notification),
            ),
            StdioClientCommand::ResolveServerRequest { request_id, result } => self.write(
                WorkerStageView::WritingCommand,
                OutgoingView::Response { id: request_id@, result: result@ },
            ),
            StdioClientCommand::RejectServerRequest { request_id, error } => self.write(
                WorkerStageView::WritingCommand,
                OutgoingView::Error { id: request_id@, error: error@ },
            ),
            StdioClientCommand::Shutdown => (
                self.at(WorkerStageView::EndingServer { commanded: true }),
                seq![WorkerActionView::EndServer],
            ),
        }
    }

    /// A request of the client is answered, where it is held.
    pub open spec fn answered(self, id: RequestIdView, answer: AnswerView) -> WorkerOutcome {
        if self.pending.contains(id) {
            (
                WorkerView { pending: without(self.pending, id), ..self },
                seq![WorkerActionView::Answer { id, answer }],
            )
        } else {
            (self, Seq::empty())
        }
    }

    /// A message comes from the app server.
    pub open spec fn message(self, message: IncomingMessage) -> WorkerOutcome {
        match message {
            IncomingMessage::Response { id, result } => self.answered(
                id@,
                AnswerView::Result(result@),
            ),
            IncomingMessage::Error { id, error } => self.answered(id@, AnswerView::Error(error@)),
            IncomingMessage::Notification { notification, requires_delivery } =>
                match stdio::notification_event(notification, requires_delivery) {
                    Some(event) => self.deliver(event),
                    None => (self, Seq::empty()),
                },
            IncomingMessage::Request { id, method, request } => match request {
                Some(request) => self.deliver(AppServerEventView::ServerRequest(request)),
                None => self.write(
                    WorkerStageView::WritingRefusal,
                    OutgoingView::Error { id: id@, error: stdio::unsupported_request(method@) },
                ),
            },
        }
    }

    /// A request could not be written: whoever made it is told, and the
    /// connection is lost.
    pub open spec fn unwritten_request(self, id: RequestIdView, error: TransportErrorView)
        -> WorkerOutcome {
        let (answered, actions) = self.answered(id, AnswerView::Failed(error));
        let (after, more) = answered.disconnect(" write failed: "@ + error.message);
        (after, actions + more)
    }

    /// What comes of an input. An input that the worker does not wait for
    /// changes nothing.
    pub open spec fn step(self, input: WorkerInput) -> WorkerOutcome {
        match (self.stage, input) {
            (WorkerStageView::Waiting, WorkerInput::Command(command)) => self.command(command),
            (WorkerStageView::Waiting, WorkerInput::CommandsClosed) => (
                self.at(WorkerStageView::EndingServer { commanded: false }),
                seq![WorkerActionView::EndServer],
            ),
            (WorkerStageView::Waiting, WorkerInput::Line(Ok(message))) => self.message(message),
            (WorkerStageView::Waiting, WorkerInput::Line(Err(message))) => self.disconnect(
                " sent invalid JSON-RPC: "@ + message@,
            ),
            (WorkerStageView::Waiting, WorkerInput::LinesEnded) => self.disconnect(
                " closed the connection"@,
            ),
            (WorkerStageView::Waiting, WorkerInput::LinesFailed { message }) => self.disconnect(
                " transport failed: "@ + message@,
            ),
            (WorkerStageView::WritingRequest { id }, WorkerInput::Written(written)) => {
                match written {
                    Ok(_) => self.wait(),
                    Err(error) => self.unwritten_request(id, error@),
                }
            },
            (WorkerStageView::WritingCommand, WorkerInput::Written(written)) => {
                let reply = seq![WorkerActionView::Reply(stdio::transport_result(written))];
                let (after, actions) = match written {
                    Ok(_) => self.wait(),
                    Err(error) => self.disconnect(" write failed: "@ + error.message@),
                };
                (after, reply + actions)
            },
            (WorkerStageView::WritingRefusal, WorkerInput::Written(written)) => match written {
                Ok(_) => self.wait(),
                Err(error) => self.disconnect(" write failed: "@ + error.message@),
            },
            (WorkerStageView::WritingOverflow, WorkerInput::Written(written)) => match written {
                Ok(_) => self.wait(),
                Err(_) => self.stop(),
            },
            (WorkerStageView::SendingLagged { event }, WorkerInput::Sent(outcome)) => {
                match outcome {
                    SendOutcome::Sent => WorkerView { skipped: 0, ..self }.send(event),
                    SendOutcome::Full => if event.requires_delivery() {
                        (self, Seq::empty())
                    } else {
                        self.dropped(event.request_id())
                    },
                    SendOutcome::Closed => self.stop(),
                }
            },
            (
                WorkerStageView::SendingEvent { request_id, required, last },
                WorkerInput::Sent(outcome),
            ) => match outcome {
                SendOutcome::Sent => if last {
                    self.stop()
                } else {
                    self.wait()
                },
                SendOutcome::Full => if required {
                    (self, Seq::empty())
                } else {
                    self.dropped(request_id)
                },
                SendOutcome::Closed => self.stop(),
            },
            (WorkerStageView::EndingServer { commanded }, WorkerInput::ServerEnded(ended)) => {
                let reply = if commanded {
                    seq![WorkerActionView::Reply(stdio::transport_result(ended))]
                } else {
                    Seq::empty()
                };
                let (after, actions) = self.stop();
                (after, reply + actions)
            },
            _ => (self, Seq::empty()),
        }
    }
}

/// The identifiers of some requests, as mathematical text.
pub open spec fn request_ids(pending: Seq<RequestId>) -> Seq<RequestIdView> {
    pending.map_values(|id: RequestId| id@)
}

/// The worker of a connection.
#[derive(Debug, PartialEq, Eq)]
pub struct StdioWorker {
    label: String,
    pending: Vec<RequestId>,
    skipped: usize,
    stage: WorkerStage,
}

impl View for StdioWorker {
    type V = WorkerView;

    closed spec fn view(&self) -> WorkerView {
        WorkerView {
            label: self.label@,
            pending: request_ids(self.pending@),
            skipped: self.skipped as nat,
            stage: self.stage@,
        }
    }
}

fn no_actions() -> (actions: Vec<WorkerAction>)
    ensures
        worker_actions(actions@) == Seq::<WorkerActionView>::empty(),
{
    let actions: Vec<WorkerAction> = Vec::new();
    assert(worker_actions(actions@) =~= Seq::empty());
    actions
}

fn add_action(actions: &mut Vec<WorkerAction>, action: WorkerAction)
    ensures
        worker_actions(final(actions)@) == worker_actions(old(actions)@).push(action@),
{
    actions.push(action);
    assert(worker_actions(actions@) =~= worker_actions(old(actions)@).push(action@));
}

fn one_action(action: WorkerAction) -> (actions: Vec<WorkerAction>)
    ensures
        worker_actions(actions@) == seq![action@],
{
    let mut actions = no_actions();
    add_action(&mut actions, action);
    assert(worker_actions(actions@) =~= seq![action@]);
    actions
}

fn join_actions(first: Vec<WorkerAction>, second: Vec<WorkerAction>) -> (joined: Vec<WorkerAction>)
    ensures
        worker_actions(joined@) == worker_actions(first@) + worker_actions(second@),
{
    let mut joined = first;
    let mut second = second;
    let ghost left = joined@;
    let ghost right = second@;
    joined.append(&mut second);
    assert(worker_actions(left + right) =~= worker_actions(left) + worker_actions(right));
    joined
}

proof fn lemma_without(pending: Seq<RequestIdView>, at: int)
    requires
        0 <= at < pending.len(),
        forall|i: int| 0 <= i < at ==> (#[trigger] pending[i]) != pending[at],
    ensures
        without(pending, pending[at]) == pending.remove(at),
    decreases at,
{
    if at > 0 {
        let rest = pending.drop_first();
        assert(rest[at - 1] == pending[at]);
        assert forall|i: int| 0 <= i < at - 1 implies (#[trigger] rest[i]) != rest[at - 1] by {
            assert(rest[i] == pending[i + 1]);
        }
        lemma_without(rest, at - 1);
        assert(pending[0] != pending[at]);
        assert(seq![pending.first()] + rest.remove(at - 1) =~= pending.remove(at));
    } else {
        assert(pending.drop_first() =~= pending.remove(0));
    }
}

impl StdioWorker {
    /// A worker that has taken nothing yet. The label names the connection in
    /// messages.
    pub fn new(label: String) -> (worker: Self)
        ensures
            worker@ == (WorkerView {
                label: label@,
                pending: Seq::empty(),
                skipped: 0,
                stage: WorkerStageView::Waiting,
            }),
    {
        let worker = StdioWorker {
            label,
            pending: Vec::new(),
            skipped: 0,
            stage: WorkerStage::Waiting,
        };
        assert(worker@.pending =~= Seq::empty());
        worker
    }

    /// What the worker is waiting for.
    pub fn stage(&self) -> (stage: &WorkerStage)
        ensures
            stage@ == self@.stage,
    {
        &self.stage
    }

    /// The place of the first request with an identifier.
    fn position(&self, id: &RequestId) -> (at: Option<usize>)
        ensures
            match at {
                Some(at) => {
                    &&& at < self@.pending.len()
                    &&& self@.pending[at as int] == id@
                    &&& forall|i: int| 0 <= i < at ==> (#[trigger] self@.pending[i]) != id@
                },
                None => !self@.pending.contains(id@),
            },
    {
        let mut i: usize = 0;
        while i < self.pending.len()
            invariant
                i <= self.pending@.len(),
                forall|j: int| 0 <= j < i ==> (#[trigger] self@.pending[j]) != id@,
            decreases self.pending@.len() - i,
        {
            if self.pending[i].same(id) {
                return Some(i);
            }
            i += 1;
        }
        None
    }

    fn wait(&mut self) -> (actions: Vec<WorkerAction>)
        ensures
            (final(self)@, worker_actions(actions@)) == old(self)@.wait(),
    {
        self.stage = WorkerStage::Waiting;
        no_actions()
    }

    fn write(&mut self, stage: WorkerStage, message: OutgoingMessage) -> (actions: Vec<
        WorkerAction,
    >)
        ensures
            (final(self)@, worker_actions(actions@)) == old(self)@.write(stage@, message@),
    {
        self.stage = stage;
        one_action(WorkerAction::Write(message))
    }

    fn stop(&mut self) -> (actions: Vec<WorkerAction>)
        ensures
            (final(self)@, worker_actions(actions@)) == old(self)@.stop(),
    {
        let mut pending: Vec<RequestId> = Vec::new();
        std::mem::swap(&mut pending, &mut self.pending);
        self.stage = WorkerStage::Stopped;
        assert(self@.pending =~= Seq::empty());
        let ghost ids = request_ids(pending@);
        let ghost left = left_behind(ids);
        let mut actions = no_actions();
        assert(left.take(0) =~= Seq::empty());
        for id in iter: pending
            invariant
                iter.seq() == pending@,
                ids == request_ids(pending@),
                left == left_behind(ids),
                worker_actions(actions@) == left.take(iter.index()),
        {
            let ghost done = iter.index();
            assert(id == pending@[done]);
            let error = TransportError::broken_pipe("stdio app-server worker channel is closed");
            add_action(&mut actions, WorkerAction::Answer { id, answer: Answer::Failed(error) });
            assert(ids[done] == id@);
            assert(worker_actions(actions@) =~= left.take(done + 1));
        }
        assert(left.take(pending@.len() as int) =~= left);
        add_action(&mut actions, WorkerAction::Stop);
        actions
    }

    fn send(&mut self, event: AppServerEvent) -> (actions: Vec<WorkerAction>)
        ensures
            (final(self)@, worker_actions(actions@)) == old(self)@.send(event@),
    {
        let required = stdio::event_requires_delivery(&event);
        let last = match &event {
            AppServerEvent::Disconnected { .. } => true,
            _ => false,
        };
        self.stage = WorkerStage::SendingEvent {
            request_id: stdio::event_request_id(&event),
            required,
            last,
        };
        if required {
            one_action(WorkerAction::Send(event))
        } else {
            one_action(WorkerAction::TrySend(event))
        }
    }

    /// Hands over an event, and before it the number of events that were
    /// dropped.
    fn deliver_event(&mut self, event: AppServerEvent) -> (actions: Vec<WorkerAction>)
        ensures
            (final(self)@, worker_actions(actions@)) == old(self)@.deliver(event@),
    {
        if self.skipped == 0 {
            return self.send(event);
        }
        let lagged = AppServerEvent::Lagged { skipped: self.skipped };
        let required = stdio::event_requires_delivery(&event);
        self.stage = WorkerStage::SendingLagged { event };
        if required {
            one_action(WorkerAction::Send(lagged))
        } else {
            one_action(WorkerAction::TrySend(lagged))
        }
    }

    fn disconnect(&mut self, what: &str) -> (actions: Vec<WorkerAction>)
        ensures
            (final(self)@, worker_actions(actions@)) == old(self)@.disconnect(what@),
    {
        let message = text::concat2(self.label.as_str(), what);
        self.deliver_event(AppServerEvent::Disconnected { message })
    }

    fn disconnect_because(&mut self, what: &str, message: &str) -> (actions: Vec<WorkerAction>)
        ensures
            (final(self)@, worker_actions(actions@)) == old(self)@.disconnect(what@ + message@),
    {
        let what = text::concat2(what, message);
        self.disconnect(what.as_str())
    }

    /// Counts an event as dropped; where it carries a request, the app server
    /// is told.
    fn reject_if_server_request_dropped(&mut self, request_id: Option<RequestId>) -> (actions: Vec<
        WorkerAction,
    >)
        ensures
            (final(self)@, worker_actions(actions@)) == old(self)@.dropped(
                stdio::opt_id(request_id),
            ),
    {
        if self.skipped < usize::MAX {
            self.skipped = self.skipped + 1;
        }
        match request_id {
            Some(id) => self.write(
                WorkerStage::WritingOverflow,
                OutgoingMessage::Error { id, error: stdio::overflow_error() },
            ),
            None => self.wait(),
        }
    }

    fn command(&mut self, command: StdioClientCommand) -> (actions: Vec<WorkerAction>)
        ensures
            (final(self)@, worker_actions(actions@)) == old(self)@.command(command),
    {
        match command {
            StdioClientCommand::Request(request) => {
                let id = request.id().clone();
                if let Some(at) = self.position(&id) {
                    assert(self@.pending.contains(id@));
                    let message = text::concat3(
                        "duplicate stdio app-server request id `",
                        id.to_string().as_str(),
                        "`",
                    );
                    return one_action(
                        WorkerAction::Refuse(
                            TransportError { kind: TransportErrorKind::InvalidInput, message },
                        ),
                    );
                }
                self.pending.push(id.clone());
                self.stage = WorkerStage::WritingRequest { id: id.clone() };
                assert(self@.pending =~= old(self)@.pending.push(id@));
                let mut actions = one_action(WorkerAction::Hold { id });
                add_action(&mut actions, WorkerAction::Write(OutgoingMessage::Request(request)));
                assert(worker_actions(actions@) =~= old(self)@.command(command).1);
                actions
            },
            StdioClientCommand::Notify(notification) => self.write(
                WorkerStage::WritingCommand,
                OutgoingMessage::Notification(notification),
            ),
            StdioClientCommand::ResolveServerRequest { request_id, result } => self.write(
                WorkerStage::WritingCommand,
                OutgoingMessage::Response { id: request_id, result },
            ),
            StdioClientCommand::RejectServerRequest { request_id, error } => self.write(
                WorkerStage::WritingCommand,
                OutgoingMessage::Error { id: request_id, error },
            ),
            StdioClientCommand::Shutdown => {
                self.stage = WorkerStage::EndingServer { commanded: true };
                one_action(WorkerAction::EndServer)
            },
        }
    }

    fn answer(&mut self, id: RequestId, answer: Answer) -> (actions: Vec<WorkerAction>)
        ensures
            (final(self)@, worker_actions(actions@)) == old(self)@.answered(id@, answer@),
    {
        match self.position(&id) {
            Some(at) => {
                let held = self.pending.remove(at);
                proof {
                    lemma_without(old(self)@.pending, at as int);
                    assert(self@.pending =~= old(self)@.pending.remove(at as int));
                    assert(old(self)@.pending.contains(id@));
                }
                one_action(WorkerAction::Answer { id: held, answer })
            },
            None => no_actions(),
        }
    }

    fn message(&mut self, message: IncomingMessage) -> (actions: Vec<WorkerAction>)
        ensures
            (final(self)@, worker_actions(actions@)) == old(self)@.message(message),
    {
        match message {
            IncomingMessage::Response { id, result } => self.answer(id, Answer::Result(result)),
            IncomingMessage::Error { id, error } => self.answer(id, Answer::Error(error)),
            IncomingMessage::Notification { notification, requires_delivery } => {
                match stdio::app_server_event_from_notification(notification, requires_delivery) {
                    Some(event) => self.deliver_event(event),
                    None => no_actions(),
                }
            },
            IncomingMessage::Request { id, method, request } => match request {
                Some(request) => self.deliver_event(AppServerEvent::ServerRequest(request)),
                None => self.write(
                    WorkerStage::WritingRefusal,
                    OutgoingMessage::Error {
                        id,
                        error: stdio::unsupported_request_error(method.as_str()),
                    },
                ),
            },
        }
    }

    /// Takes in what came about. An input that the worker does not wait for
    /// changes nothing.
    pub fn step(&mut self, input: WorkerInput) -> (actions: Vec<WorkerAction>)
        ensures
            (final(self)@, worker_actions(actions@)) == old(self)@.step(input),
    {
        let mut stage = WorkerStage::Stopped;
        std::mem::swap(&mut stage, &mut self.stage);
        match (stage, input) {
            (WorkerStage::Waiting, WorkerInput::Command(command)) => {
                self.stage = WorkerStage::Waiting;
                self.command(command)
            },
            (WorkerStage::Waiting, WorkerInput::CommandsClosed) => {
                self.stage = WorkerStage::EndingServer { commanded: false };
                one_action(WorkerAction::EndServer)
            },
            (WorkerStage::Waiting, WorkerInput::Line(Ok(message))) => {
                self.stage = WorkerStage::Waiting;
                self.message(message)
            },
            (WorkerStage::Waiting, WorkerInput::Line(Err(message))) => self.disconnect_because(
                " sent invalid JSON-RPC: ",
                message.as_str(),
            ),
            (WorkerStage::Waiting, WorkerInput::LinesEnded) => self.disconnect(
                " closed the connection",
            ),
            (WorkerStage::Waiting, WorkerInput::LinesFailed { message }) =>
                self.disconnect_because(" transport failed: ", message.as_str()),
            (WorkerStage::WritingRequest { id }, WorkerInput::Written(written)) => match written {
                Ok(_) => self.wait(),
                Err(error) => {
                    let message = error.message.clone();
                    let actions = self.answer(id, Answer::Failed(error));
                    let more = self.disconnect_because(" write failed: ", message.as_str());
                    join_actions(actions, more)
                },
            },
            (WorkerStage::WritingCommand, WorkerInput::Written(written)) => {
                let failure = match &written {
                    Ok(_) => None,
                    Err(error) => Some(error.message.clone()),
                };
                let reply = one_action(WorkerAction::Reply(written));
                let actions = match failure {
                    None => self.wait(),
                    Some(message) => self.disconnect_because(" write failed: ", message.as_str()),
                };
                join_actions(reply, actions)
            },
            (WorkerStage::WritingRefusal, WorkerInput::Written(written)) => match written {
                Ok(_) => self.wait(),
                Err(error) => self.disconnect_because(" write failed: ", error.message.as_str()),
            },
            (WorkerStage::WritingOverflow, WorkerInput::Written(written)) => match written {
                Ok(_) => self.wait(),
                Err(_) => self.stop(),
            },
            (WorkerStage::SendingLagged { event }, WorkerInput::Sent(outcome)) => match outcome {
                SendOutcome::Sent => {
                    self.skipped = 0;
                    self.send(event)
                },
                SendOutcome::Full => {
                    if stdio::event_requires_delivery(&event) {
                        self.stage = WorkerStage::SendingLagged { event };
                        no_actions()
                    } else {
                        let request_id = stdio::event_request_id(&event);
                        self.reject_if_server_request_dropped(request_id)
                    }
                },
                SendOutcome::Closed => self.stop(),
            },
            (
                WorkerStage::SendingEvent { request_id, required, last },
                WorkerInput::Sent(outcome),
            ) => match outcome {
                SendOutcome::Sent => {
                    if last {
                        self.stop()
                    } else {
                        self.wait()
                    }
                },
                SendOutcome::Full => {
                    if required {
                        self.stage = WorkerStage::SendingEvent { request_id, required, last };
                        no_actions()
                    } else {
                        self.reject_if_server_request_dropped(request_id)
                    }
                },
                SendOutcome::Closed => self.stop(),
            },
            (WorkerStage::EndingServer { commanded }, WorkerInput::ServerEnded(ended)) => {
                let reply = if commanded {
                    one_action(WorkerAction::Reply(ended))
                } else {
                    no_actions()
                };
                let actions = self.stop();
                join_actions(reply, actions)
            },
            (stage, _) => {
                self.stage = stage;
                no_actions()
            },
        }
    }
}

/// The requests that some actions start to hold.
pub open spec fn held_by(actions: Seq<WorkerActionView>) -> Multiset<RequestIdView>
    decreases actions.len(),
{
    if actions.len() == 0 {
        Multiset::empty()
    } else {
        held_by(actions.drop_last()).add(
            match actions.last() {
                WorkerActionView::Hold { id } => Multiset::singleton(id),
                _ => Multiset::empty(),
            },
        )
    }
}

/// The requests that some actions answer.
pub open spec fn answered_by(actions: Seq<WorkerActionView>) -> Multiset<RequestIdView>
    decreases actions.len(),
{
    if actions.len() == 0 {
        Multiset::empty()
    } else {
        answered_by(actions.drop_last()).add(
            match actions.last() {
                WorkerActionView::Answer { id, .. } => Multiset::singleton(id),
                _ => Multiset::empty(),
            },
        )
    }
}

impl WorkerView {
    /// Whether no request is held twice, and the one that is being written is
    /// held.
    pub open spec fn sound(self) -> bool {
        &&& self.pending.no_duplicates()
        &&& self.stage matches WorkerStageView::WritingRequest { id } ==> self.pending.contains(id)
    }
}

proof fn lemma_counts_add(first: Seq<WorkerActionView>, second: Seq<WorkerActionView>)
    ensures
        held_by(first + second) == held_by(first).add(held_by(second)),
        answered_by(first + second) == answered_by(first).add(answered_by(second)),
    decreases second.len(),
{
    broadcast use vstd::multiset::group_multiset_axioms;

    if second.len() == 0 {
        assert(first + second =~= first);
        assert(held_by(first).add(Multiset::empty()) =~= held_by(first));
        assert(answered_by(first).add(Multiset::empty()) =~= answered_by(first));
    } else {
        lemma_counts_add(first, second.drop_last());
        assert((first + second).drop_last() =~= first + second.drop_last());
        assert(held_by(first + second) =~= held_by(first).add(held_by(second)));
        assert(answered_by(first + second) =~= answered_by(first).add(answered_by(second)));
    }
}

proof fn lemma_counts_one(action: WorkerActionView)
    ensures
        held_by(seq![action]) == match action {
            WorkerActionView::Hold { id } => Multiset::singleton(id),
            _ => Multiset::empty(),
        },
        answered_by(seq![action]) == match action {
            WorkerActionView::Answer { id, .. } => Multiset::singleton(id),
            _ => Multiset::empty(),
        },
{
    broadcast use vstd::multiset::group_multiset_axioms;

    reveal_with_fuel(held_by, 2);
    reveal_with_fuel(answered_by, 2);
    assert(seq![action].drop_last() =~= Seq::empty());
    assert(held_by(seq![action]) =~= match action {
        WorkerActionView::Hold { id } => Multiset::singleton(id),
        _ => Multiset::empty(),
    });
    assert(answered_by(seq![action]) =~= match action {
        WorkerActionView::Answer { id, .. } => Multiset::singleton(id),
        _ => Multiset::empty(),
    });
}

proof fn lemma_left_behind(pending: Seq<RequestIdView>)
    ensures
        held_by(left_behind(pending)) == Multiset::<RequestIdView>::empty(),
        answered_by(left_behind(pending)) == pending.to_multiset(),
    decreases pending.len(),
{
    broadcast use vstd::multiset::group_multiset_axioms;
    broadcast use vstd::seq_lib::group_to_multiset_ensures;

    if pending.len() == 0 {
        assert(answered_by(left_behind(pending)) =~= pending.to_multiset());
    } else {
        let front = pending.drop_last();
        let last = WorkerActionView::Answer {
            id: pending.last(),
            answer: AnswerView::Failed(worker_gone()),
        };
        lemma_left_behind(front);
        lemma_counts_one(last);
        lemma_counts_add(left_behind(front), seq![last]);
        assert(left_behind(pending) =~= left_behind(front) + seq![last]);
        assert(front.push(pending.last()) =~= pending);
        assert(held_by(left_behind(pending)) =~= Multiset::empty());
        assert(answered_by(left_behind(pending)) =~= pending.to_multiset());
    }
}

proof fn lemma_stop_counts(state: WorkerView)
    ensures
        held_by(state.stop().1) == Multiset::<RequestIdView>::empty(),
        answered_by(state.stop().1) == state.pending.to_multiset(),
{
    broadcast use vstd::multiset::group_multiset_axioms;

    let left = left_behind(state.pending);
    lemma_left_behind(state.pending);
    lemma_counts_one(WorkerActionView::Stop);
    lemma_counts_add(left, seq![WorkerActionView::Stop]);
    assert(state.stop().1 =~= left + seq![WorkerActionView::Stop]);
    assert(held_by(state.stop().1) =~= Multiset::empty());
    assert(answered_by(state.stop().1) =~= state.pending.to_multiset());
}

proof fn lemma_without_counts(pending: Seq<RequestIdView>, id: RequestIdView)
    requires
        pending.contains(id),
    ensures
        without(pending, id).to_multiset().add(Multiset::singleton(id)) == pending.to_multiset(),
    decreases pending.len(),
{
    broadcast use vstd::multiset::group_multiset_axioms;
    broadcast use vstd::seq_lib::group_to_multiset_ensures;

    let rest = pending.drop_first();
    assert(pending =~= seq![pending.first()] + rest);
    vstd::seq_lib::lemma_multiset_commutative(seq![pending.first()], rest);
    assert(seq![pending.first()] =~= Seq::<RequestIdView>::empty().push(pending.first()));
    assert(seq![pending.first()].to_multiset() =~= Multiset::singleton(pending.first()));
    if pending.first() != id {
        let at = choose|at: int| 0 <= at < pending.len() && pending[at] == id;
        assert(rest[at - 1] == id);
        lemma_without_counts(rest, id);
        vstd::seq_lib::lemma_multiset_commutative(seq![pending.first()], without(rest, id));
        assert(without(pending, id).to_multiset().add(Multiset::singleton(id))
            =~= pending.to_multiset());
    } else {
        assert(without(pending, id).to_multiset().add(Multiset::singleton(id))
            =~= pending.to_multiset());
    }
}

proof fn lemma_answered_counts(state: WorkerView, id: RequestIdView, answer: AnswerView)
    ensures
        ({
            let (after, actions) = state.answered(id, answer);
            &&& held_by(actions) == Multiset::<RequestIdView>::empty()
            &&& after.pending.to_multiset().add(answered_by(actions)) == state.pending.to_multiset()
        }),
{
    broadcast use vstd::multiset::group_multiset_axioms;

    lemma_counts_one(WorkerActionView::Answer { id, answer });
    if state.pending.contains(id) {
        lemma_without_counts(state.pending, id);
    } else {
        assert(state.pending.to_multiset().add(Multiset::empty()) =~= state.pending.to_multiset());
    }
}

/// Whether some actions neither hold nor answer a request.
spec fn about_no_request(actions: Seq<WorkerActionView>) -> bool {
    held_by(actions) == Multiset::<RequestIdView>::empty() && answered_by(actions) == Multiset::<
        RequestIdView,
    >::empty()
}

proof fn lemma_deliver_counts(state: WorkerView, event: AppServerEventView)
    ensures
        about_no_request(state.deliver(event).1),
        about_no_request(state.send(event).1),
        state.deliver(event).0.pending == state.pending,
{
    let lagged = AppServerEventView::Lagged { skipped: state.skipped };
    lemma_counts_one(WorkerActionView::Send(event));
    lemma_counts_one(WorkerActionView::TrySend(event));
    lemma_counts_one(WorkerActionView::Send(lagged));
    lemma_counts_one(WorkerActionView::TrySend(lagged));
}

proof fn lemma_dropped_counts(state: WorkerView, request_id: Option<RequestIdView>)
    ensures
        about_no_request(state.dropped(request_id).1),
        state.dropped(request_id).0.pending == state.pending,
{
    if let Some(id) = request_id {
        lemma_counts_one(
            WorkerActionView::Write(OutgoingView::Error { id, error: stdio::overflow() }),
        );
    }
}

/// Every request is answered exactly once: the requests that are held after a
/// step, together with those that the step answers, are those that were held
/// before, together with those that the step starts to hold.
pub proof fn every_request_is_answered_once(state: WorkerView, input: WorkerInput)
    requires
        state.sound(),
    ensures
        ({
            let (after, actions) = state.step(input);
            after.pending.to_multiset().add(answered_by(actions))
                == state.pending.to_multiset().add(held_by(actions))
        }),
{
    broadcast use vstd::multiset::group_multiset_axioms;
    broadcast use vstd::seq_lib::group_to_multiset_ensures;

    let (after, actions) = state.step(input);
    let before = state.pending.to_multiset();
    assert(before.add(Multiset::empty()) =~= before);
    assert(Multiset::<RequestIdView>::empty().add(before) =~= before);
    lemma_stop_counts(state);
    assert(Seq::<RequestIdView>::empty().to_multiset() =~= Multiset::empty());
    match (state.stage, input) {
        (WorkerStageView::Waiting, WorkerInput::Command(command)) => {
            if let StdioClientCommand::Request(request) = command {
                let id = request.spec_id();
                if !state.pending.contains(id) {
                    let write = WorkerActionView::Write(OutgoingView::Request(request));
                    let hold = WorkerActionView::Hold { id };
                    lemma_counts_one(hold);
                    lemma_counts_one(write);
                    lemma_counts_add(seq![hold], seq![write]);
                    assert(actions =~= seq![hold] + seq![write]);
                    assert(after.pending.to_multiset() =~= before.insert(id));
                    assert(after.pending.to_multiset().add(answered_by(actions)) =~= before.add(
                        held_by(actions),
                    ));
                } else {
                    lemma_counts_one(actions[0]);
                    assert(actions =~= seq![actions[0]]);
                }
            } else {
                lemma_counts_one(actions[0]);
                assert(actions =~= seq![actions[0]]);
            }
        },
        (WorkerStageView::Waiting, WorkerInput::CommandsClosed) => {
            lemma_counts_one(WorkerActionView::EndServer);
        },
        (WorkerStageView::Waiting, WorkerInput::Line(Ok(message))) => match message {
            IncomingMessage::Response { id, result } => {
                lemma_answered_counts(state, id@, AnswerView::Result(result@));
            },
            IncomingMessage::Error { id, error } => {
                lemma_answered_counts(state, id@, AnswerView::Error(error@));
            },
            IncomingMessage::Notification { notification, requires_delivery } => {
                if let Some(event) = stdio::notification_event(notification, requires_delivery) {
                    lemma_deliver_counts(state, event);
                }
            },
            IncomingMessage::Request { id, method, request } => match request {
                Some(request) => {
                    lemma_deliver_counts(state, AppServerEventView::ServerRequest(request));
                },
                None => {
                    lemma_counts_one(actions[0]);
                    assert(actions =~= seq![actions[0]]);
                },
            },
        },
        (WorkerStageView::Waiting, WorkerInput::Line(Err(message))) => {
            let message = state.label + (" sent invalid JSON-RPC: "@ + message@);
            lemma_deliver_counts(state, AppServerEventView::Disconnected { message });
        },
        (WorkerStageView::Waiting, WorkerInput::LinesEnded) => {
            let message = state.label + " closed the connection"@;
            lemma_deliver_counts(state, AppServerEventView::Disconnected { message });
        },
        (WorkerStageView::Waiting, WorkerInput::LinesFailed { message }) => {
            let message = state.label + (" transport failed: "@ + message@);
            lemma_deliver_counts(state, AppServerEventView::Disconnected { message });
        },
        (WorkerStageView::WritingRequest { id }, WorkerInput::Written(Err(error))) => {
            let failed = AnswerView::Failed(error@);
            let (answered, first) = state.answered(id, failed);
            let message = state.label + (" write failed: "@ + error@.message);
            let event = AppServerEventView::Disconnected { message };
            lemma_answered_counts(state, id, failed);
            lemma_deliver_counts(answered, event);
            lemma_counts_add(first, answered.deliver(event).1);
            assert(answered_by(actions) =~= answered_by(first));
            assert(held_by(actions) =~= Multiset::empty());
        },
        (WorkerStageView::WritingCommand, WorkerInput::Written(written)) => {
            let reply = WorkerActionView::Reply(stdio::transport_result(written));
            lemma_counts_one(reply);
            if let Err(error) = written {
                let message = state.label + (" write failed: "@ + error@.message);
                let event = AppServerEventView::Disconnected { message };
                lemma_deliver_counts(state, event);
                lemma_counts_add(seq![reply], state.deliver(event).1);
            } else {
                assert(seq![reply] + Seq::empty() =~= seq![reply]);
            }
            assert(answered_by(actions) =~= Multiset::empty());
            assert(held_by(actions) =~= Multiset::empty());
        },
        (WorkerStageView::WritingRefusal, WorkerInput::Written(Err(error))) => {
            let message = state.label + (" write failed: "@ + error@.message);
            lemma_deliver_counts(state, AppServerEventView::Disconnected { message });
        },
        (WorkerStageView::SendingLagged { event }, WorkerInput::Sent(_)) => {
            lemma_deliver_counts(WorkerView { skipped: 0, ..state }, event);
            lemma_dropped_counts(state, event.request_id());
        },
        (WorkerStageView::SendingEvent { request_id, .. }, WorkerInput::Sent(_)) => {
            lemma_dropped_counts(state, request_id);
        },
        (WorkerStageView::EndingServer { commanded }, WorkerInput::ServerEnded(ended)) => {
            let reply = WorkerActionView::Reply(stdio::transport_result(ended));
            lemma_counts_one(reply);
            lemma_counts_add(seq![reply], state.stop().1);
            assert(Seq::<WorkerActionView>::empty() + state.stop().1 =~= state.stop().1);
            assert(answered_by(actions) =~= before);
            assert(held_by(actions) =~= Multiset::empty());
        },
        _ => {},
    }
    assert(after.pending.to_multiset().add(answered_by(actions)) =~= before.add(held_by(actions)));
}

proof fn lemma_without_keeps(pending: Seq<RequestIdView>, id: RequestIdView)
    requires
        pending.no_duplicates(),
    ensures
        without(pending, id).no_duplicates(),
        forall|other: RequestIdView|
            #[trigger] without(pending, id).contains(other) <==> pending.contains(other) && other
                != id,
    decreases pending.len(),
{
    if pending.len() > 0 {
        let rest = pending.drop_first();
        assert(rest.no_duplicates());
        assert forall|other: RequestIdView|
            pending.contains(other) <==> other == pending.first() || #[trigger] rest.contains(
                other,
            ) by {
            if pending.contains(other) {
                let at = choose|at: int| 0 <= at < pending.len() && pending[at] == other;
                assert(at > 0 ==> rest[at - 1] == other);
            }
            if rest.contains(other) {
                let at = choose|at: int| 0 <= at < rest.len() && rest[at] == other;
                assert(pending[at + 1] == other);
            }
        }
        assert(!rest.contains(pending.first())) by {
            if rest.contains(pending.first()) {
                let at = choose|at: int| 0 <= at < rest.len() && rest[at] == pending.first();
                assert(pending[at + 1] == pending[0]);
            }
        }
        lemma_without_keeps(rest, id);
        if pending.first() != id {
            let left = without(rest, id);
            let all = seq![pending.first()] + left;
            assert(!left.contains(pending.first()));
            assert(all.no_duplicates()) by {
                assert forall|i: int, j: int|
                    0 <= i < all.len() && 0 <= j < all.len() && i != j implies all[i] != all[j] by {
                    if i > 0 {
                        assert(left.contains(left[i - 1]));
                    }
                    if j > 0 {
                        assert(left.contains(left[j - 1]));
                    }
                }
            }
            assert forall|other: RequestIdView|
                #[trigger] all.contains(other) <==> other == pending.first() || left.contains(
                    other,
                ) by {
                if left.contains(other) {
                    let at = choose|at: int| 0 <= at < left.len() && left[at] == other;
                    assert(all[at + 1] == other);
                }
                if all.contains(other) {
                    let at = choose|at: int| 0 <= at < all.len() && all[at] == other;
                    assert(at > 0 ==> left[at - 1] == other);
                }
                assert(all[0] == pending.first());
            }
        }
    }
}

/// A worker never holds a request twice, and holds the one that it writes.
pub proof fn workers_stay_sound(state: WorkerView, input: WorkerInput)
    requires
        state.sound(),
    ensures
        state.step(input).0.sound(),
{
    let after = state.step(input).0;
    match (state.stage, input) {
        (WorkerStageView::Waiting, WorkerInput::Command(StdioClientCommand::Request(request))) => {
            let id = request.spec_id();
            if !state.pending.contains(id) {
                assert(after.pending[state.pending.len() as int] == id);
                assert forall|i: int, j: int|
                    0 <= i < after.pending.len() && 0 <= j < after.pending.len() && i
                        != j implies after.pending[i] != after.pending[j] by {
                    if i < state.pending.len() {
                        assert(state.pending.contains(state.pending[i]));
                    }
                    if j < state.pending.len() {
                        assert(state.pending.contains(state.pending[j]));
                    }
                }
            }
        },
        (
            WorkerStageView::Waiting,
            WorkerInput::Line(Ok(IncomingMessage::Response { id, .. })),
        ) => {
            lemma_without_keeps(state.pending, id@);
        },
        (
            WorkerStageView::Waiting,
            WorkerInput::Line(Ok(IncomingMessage::Error { id, .. })),
        ) => {
            lemma_without_keeps(state.pending, id@);
        },
        (WorkerStageView::WritingRequest { id }, WorkerInput::Written(_)) => {
            lemma_without_keeps(state.pending, id);
        },
        _ => {},
    }
}

/// A response reaches the request with its identifier, whatever other requests
/// are held; those go on waiting. A response to no request that is held is
/// ignored.
pub proof fn responses_are_routed_by_identifier(state: WorkerView, id: RequestId, result: String)
    requires
        state.sound(),
        state.stage is Waiting,
    ensures
        ({
            let (after, actions) = state.step(
                WorkerInput::Line(Ok(IncomingMessage::Response { id, result })),
            );
            &&& after.stage is Waiting
            &&& forall|other: RequestIdView|
                #[trigger] after.pending.contains(other) <==> state.pending.contains(other) && other
                    != id@
            &&& actions == if state.pending.contains(id@) {
                seq![
                    WorkerActionView::Answer { id: id@, answer: AnswerView::Result(result@) },
                ]
            } else {
                Seq::empty()
            }
        }),
{
    lemma_without_keeps(state.pending, id@);
}

/// An error of the app server reaches the request with its identifier in the same
/// way, whatever other requests are held; those go on waiting. An error for no
/// request that is held is ignored.
pub proof fn errors_are_routed_by_identifier(
    state: WorkerView,
    id: RequestId,
    error: JSONRPCErrorError,
)
    requires
        state.sound(),
        state.stage is Waiting,
    ensures
        ({
            let (after, actions) = state.step(
                WorkerInput::Line(Ok(IncomingMessage::Error { id, error })),
            );
            &&& after.stage is Waiting
            &&& forall|other: RequestIdView|
                #[trigger] after.pending.contains(other) <==> state.pending.contains(other) && other
                    != id@
            &&& actions == if state.pending.contains(id@) {
                seq![WorkerActionView::Answer { id: id@, answer: AnswerView::Error(error@) }]
            } else {
                Seq::empty()
            }
        }),
{
    lemma_without_keeps(state.pending, id@);
}

/// A request with an identifier that is in use is refused at once: it is not
/// written, and the earlier request goes on waiting.
pub proof fn a_used_identifier_is_refused(state: WorkerView, request: ClientRequest)
    requires
        state.stage is Waiting,
        state.pending.contains(request.spec_id()),
    ensures
        ({
            let (after, actions) = state.step(
                WorkerInput::Command(StdioClientCommand::Request(request)),
            );
            &&& after == state
            &&& actions.len() == 1
            &&& actions[0] matches WorkerActionView::Refuse(error) && error.kind
                == TransportErrorKind::InvalidInput
        }),
{
}

/// The event that is being handed over.
pub open spec fn must_arrive(stage: WorkerStageView) -> bool {
    match stage {
        WorkerStageView::SendingLagged { event } => event.requires_delivery(),
        WorkerStageView::SendingEvent { required, .. } => required,
        _ => false,
    }
}

/// An event that must not be dropped is not: the worker goes on with other work
/// only once the event has been taken, and else stops because nobody takes
/// events any more. The count of dropped events does not grow meanwhile.
pub proof fn required_events_are_not_dropped(state: WorkerView, input: WorkerInput)
    requires
        must_arrive(state.stage),
    ensures
        ({
            let after = state.step(input).0;
            &&& after.skipped <= state.skipped
            &&& !must_arrive(after.stage) ==> input == WorkerInput::Sent(SendOutcome::Closed) || (
            state.stage is SendingEvent && input == WorkerInput::Sent(SendOutcome::Sent))
        }),
{
}

/// Dropped events are counted, and the count is told before the next event: it
/// grows by one with each event for which there is no room, and falls to zero
/// only when it has been handed over.
pub proof fn dropped_events_are_counted(state: WorkerView, input: WorkerInput)
    requires
        state.skipped < usize::MAX,
    ensures
        ({
            let (after, actions) = state.step(input);
            &&& after.skipped == state.skipped || after.skipped == state.skipped + 1
                || after.skipped == 0
            &&& after.skipped == state.skipped + 1 <==> input == WorkerInput::Sent(
                SendOutcome::Full,
            ) && !must_arrive(state.stage) && (state.stage is SendingLagged
                || state.stage is SendingEvent)
            &&& after.skipped == 0 && state.skipped > 0 ==> state.stage is SendingLagged && input
                == WorkerInput::Sent(SendOutcome::Sent)
            &&& after.stage is SendingLagged && !(state.stage is SendingLagged)
                ==> actions.last() == WorkerActionView::Send(
                AppServerEventView::Lagged { skipped: state.skipped },
            ) || actions.last() == WorkerActionView::TrySend(
                AppServerEventView::Lagged { skipped: state.skipped },
            )
        }),
{
    if let (WorkerStageView::WritingRequest { id }, WorkerInput::Written(Err(error))) = (
        state.stage,
        input,
    ) {
        let (answered, first) = state.answered(id, AnswerView::Failed(error@));
        let more = answered.disconnect(" write failed: "@ + error@.message).1;
        assert((first + more).last() == more.last());
    }
    if let (WorkerStageView::WritingCommand, WorkerInput::Written(Err(error))) = (
        state.stage,
        input,
    ) {
        let more = state.disconnect(" write failed: "@ + error@.message).1;
        let reply = WorkerActionView::Reply(
            stdio::transport_result(Err::<(), TransportError>(error)),
        );
        assert((seq![reply] + more).last() == more.last());
    }
}

/// A request of the server for which there is no room is refused.
pub proof fn dropped_requests_are_refused(state: WorkerView, id: RequestIdView)
    requires
        !must_arrive(state.stage),
        match state.stage {
            WorkerStageView::SendingLagged { event } => event.request_id() == Some(id),
            WorkerStageView::SendingEvent { request_id, .. } => request_id == Some(id),
            _ => false,
        },
    ensures
        state.step(WorkerInput::Sent(SendOutcome::Full)).1 == seq![
            WorkerActionView::Write(OutgoingView::Error { id, error: stdio::overflow() }),
        ],
{
}

/// A worker that has stopped holds no request, has said so last, and does
/// nothing more.
pub proof fn a_stopped_worker_is_done(state: WorkerView, input: WorkerInput)
    ensures
        state.stage is Stopped ==> state.step(input) == (state, Seq::<WorkerActionView>::empty()),
        !(state.stage is Stopped) && state.step(input).0.stage is Stopped ==> {
            &&& state.step(input).0.pending.len() == 0
            &&& state.step(input).1.last() == WorkerActionView::Stop
        },
{
    if let (WorkerStageView::EndingServer { .. }, WorkerInput::ServerEnded(ended)) = (
        state.stage,
        input,
    ) {
        let reply = seq![WorkerActionView::Reply(stdio::transport_result(ended))];
        assert((reply + state.stop().1).last() == state.stop().1.last());
        assert((Seq::<WorkerActionView>::empty() + state.stop().1).last() == state.stop().1.last());
    }
}

} // verus!
