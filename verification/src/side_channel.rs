//! The side channel on which requests of the server are told and answered: its
//! descriptors, the requests that wait for an answer, and what its lines say.

use vstd::prelude::*;

use crate::protocol::{RequestId, RequestIdView};
use crate::sideband;
use crate::sideband::{
    ManagedServerRequest, ManagedView, NamedFd, ResolutionView, ServerRequest,
    ServerRequestResolution, SidebandResponseEnvelope, ThreadResolvedPayload,
};
use crate::text;

verus! {

/// Checks that a descriptor can be used: its number is not negative.
pub fn check_fd(fd: i32) -> (checked: Result<(), String>)
    ensures
        match checked {
            Ok(_) => fd >= 0,
            Err(message) => fd < 0 && message@ == invalid_fd(fd),
        },
{
    if fd < 0 {
        let shown = text::decimal_i64(fd as i64);
        Err(text::concat3("invalid fd value `", shown.as_str(), "`"))
    } else {
        Ok(())
    }
}

/// What is reported of a descriptor with a negative number.
pub open spec fn invalid_fd(fd: i32) -> Seq<char> {
    "invalid fd value `"@ + text::decimal_int(fd as int) + "`"@
}

/// Which descriptor tells what.
#[derive(Clone, Debug, PartialEq, Eq)]
pub struct SidebandOutputs {
    /// The thread, once it is known.
    pub thread_id_sinks: Vec<i32>,
    /// The requests of the server.
    pub request_event_sinks: Vec<i32>,
    /// The thread, once it is known, as an event.
    pub control_event_sinks: Vec<i32>,
}

/// The output descriptors, each under its name.
pub open spec fn output_fds(
    thread_id_fd: Option<i32>,
    server_request_events_fd: Option<i32>,
    control_events_fd: Option<i32>,
) -> Seq<NamedFd<'static>> {
    seq![
        NamedFd { name: "thread-id-fd", fd: thread_id_fd },
        NamedFd { name: "server-request-events-fd", fd: server_request_events_fd },
        NamedFd { name: "control-events-fd", fd: control_events_fd },
    ]
}

/// A descriptor that is given and cannot be used.
pub open spec fn bad_fd(fd: Option<i32>) -> bool {
    fd matches Some(fd) && fd < 0
}

/// The descriptors of an option.
pub open spec fn fds(fd: Option<i32>) -> Seq<i32> {
    match fd {
        Some(fd) => seq![fd],
        None => Seq::empty(),
    }
}

/// What is reported of the output descriptors: one that serves two options, or
/// else the first that cannot be used.
pub open spec fn outputs_error(
    thread_id_fd: Option<i32>,
    server_request_events_fd: Option<i32>,
    control_events_fd: Option<i32>,
) -> Option<Seq<char>> {
    let entries = output_fds(thread_id_fd, server_request_events_fd, control_events_fd);
    match sideband::shared_fd(entries) {
        Some(places) => Some(
            sideband::shared_fd_message(
                entries,
                places,
                "use a single control lane instead of reusing the same fd"@,
            ),
        ),
        None => if bad_fd(thread_id_fd) {
            Some(invalid_fd(thread_id_fd->0))
        } else if bad_fd(server_request_events_fd) {
            Some(invalid_fd(server_request_events_fd->0))
        } else if bad_fd(control_events_fd) {
            Some(invalid_fd(control_events_fd->0))
        } else {
            None
        },
    }
}

fn usable(fd: Option<i32>) -> (usable: Result<Vec<i32>, String>)
    ensures
        match usable {
            Ok(list) => !bad_fd(fd) && list@ == fds(fd),
            Err(message) => bad_fd(fd) && message@ == invalid_fd(fd->0),
        },
{
    let mut list: Vec<i32> = Vec::new();
    if let Some(fd) = fd {
        match check_fd(fd) {
            Ok(_) => list.push(fd),
            Err(message) => return Err(message),
        }
    }
    assert(list@ =~= fds(fd));
    Ok(list)
}

impl SidebandOutputs {
    /// Assigns the output descriptors: the control lane tells both the requests
    /// and the thread.
    pub fn from_fds(
        thread_id_fd: Option<i32>,
        server_request_events_fd: Option<i32>,
        control_events_fd: Option<i32>,
    ) -> (outputs: Result<Self, String>)
        ensures
            match outputs {
                Ok(outputs) => {
                    &&& outputs_error(
                        thread_id_fd,
                        server_request_events_fd,
                        control_events_fd,
                    ) is None
                    &&& outputs.thread_id_sinks@ == fds(thread_id_fd)
                    &&& outputs.request_event_sinks@ == fds(server_request_events_fd) + fds(
                        control_events_fd,
                    )
                    &&& outputs.control_event_sinks@ == fds(control_events_fd)
                },
                Err(message) => outputs_error(
                    thread_id_fd,
                    server_request_events_fd,
                    control_events_fd,
                ) == Some(message@),
            },
    {
        let mut entries: Vec<NamedFd<'static>> = Vec::new();
        entries.push(NamedFd { name: "thread-id-fd", fd: thread_id_fd });
        entries.push(NamedFd { name: "server-request-events-fd", fd: server_request_events_fd });
        entries.push(NamedFd { name: "control-events-fd", fd: control_events_fd });
        assert(entries@ =~= output_fds(thread_id_fd, server_request_events_fd, control_events_fd));
        if let Err(message) = sideband::validate_unique_fds(&entries) {
            return Err(message);
        }
        let thread_id_sinks = match usable(thread_id_fd) {
            Ok(list) => list,
            Err(message) => return Err(message),
        };
        let mut request_event_sinks = match usable(server_request_events_fd) {
            Ok(list) => list,
            Err(message) => return Err(message),
        };
        let control_event_sinks = match usable(control_events_fd) {
            Ok(list) => list,
            Err(message) => return Err(message),
        };
        if let Some(fd) = control_events_fd {
            request_event_sinks.push(fd);
        }
        assert(request_event_sinks@ =~= fds(server_request_events_fd) + fds(control_events_fd));
        Ok(SidebandOutputs { thread_id_sinks, request_event_sinks, control_event_sinks })
    }

    /// Tells whether requests of the server are told to anybody.
    pub fn has_request_event_sink(&self) -> (has: bool)
        ensures
            has == (self.request_event_sinks@.len() > 0),
    {
        self.request_event_sinks.len() > 0
    }
}

/// What is told of the thread on the control lane.
#[derive(Clone, Debug, PartialEq, Eq)]
pub struct ControlThreadResolvedEvent {
    pub kind: String,
    pub thread_id: String,
    pub source: String,
}

/// The event for a thread that is known.
pub fn control_thread_resolved(payload: &ThreadResolvedPayload) -> (event:
    ControlThreadResolvedEvent)
    ensures
        event.kind@ == "thread_resolved"@,
        event.thread_id@ == payload.thread_id@,
        event.source@ == payload.source@,
{
    ControlThreadResolvedEvent {
        kind: "thread_resolved".to_owned(),
        thread_id: payload.thread_id.clone(),
        source: payload.source.clone(),
    }
}

/// What comes from the response lane.
#[derive(Debug, PartialEq, Eq)]
pub enum SidebandResponseEvent {
    Response(SidebandResponseEnvelope),
    ParseError(String),
    ReadError(String),
    Closed,
}

/// What comes from the response lane, as mathematical text.
#[verifier::ext_equal]
pub enum ResponseEventView {
    Response(SidebandResponseEnvelope),
    ParseError(Seq<char>),
    ReadError(Seq<char>),
    Closed,
}

impl View for SidebandResponseEvent {
    type V = ResponseEventView;

    open spec fn view(&self) -> ResponseEventView {
        match *self {
            SidebandResponseEvent::Response(response) => ResponseEventView::Response(response),
            SidebandResponseEvent::ParseError(message) => ResponseEventView::ParseError(message@),
            SidebandResponseEvent::ReadError(message) => ResponseEventView::ReadError(message@),
            SidebandResponseEvent::Closed => ResponseEventView::Closed,
        }
    }
}

/// What came of reading the response lane.
#[derive(Debug, PartialEq, Eq)]
pub enum ResponseLine {
    /// A line, with the response that it holds or why it holds none.
    Line { text: String, response: Result<SidebandResponseEnvelope, String> },
    Ended,
    Failed { message: String },
}

/// What a line of the response lane says. A blank line says nothing.
pub open spec fn line_event(line: ResponseLine) -> Option<ResponseEventView> {
    match line {
        ResponseLine::Line { text, response } => if text::trimmed_start(text@).len() == 0 {
            None
        } else {
            Some(
                match response {
                    Ok(response) => ResponseEventView::Response(response),
                    Err(message) => ResponseEventView::ParseError(
                        "invalid sideband response JSON: "@ + message@,
                    ),
                },
            )
        },
        ResponseLine::Ended => Some(ResponseEventView::Closed),
        ResponseLine::Failed { message } => Some(
            ResponseEventView::ReadError("failed to read sideband responses: "@ + message@),
        ),
    }
}

/// Reads a line of the response lane.
pub fn read_response_line(line: ResponseLine) -> (event: Option<SidebandResponseEvent>)
    ensures
        match event {
            Some(event) => line_event(line) == Some(event@),
            None => line_event(line) is None,
        },
{
    match line {
        ResponseLine::Line { text, response } => {
            let chars = text::chars_of(text.as_str());
            let white: usize = text::count_leading_white(&chars, 0);
            assert(chars@.skip(0) =~= chars@);
            if white == chars.len() {
                return None;
            }
            match response {
                Ok(response) => Some(SidebandResponseEvent::Response(response)),
                Err(message) => Some(
                    SidebandResponseEvent::ParseError(
                        text::concat2("invalid sideband response JSON: ", message.as_str()),
                    ),
                ),
            }
        },
        ResponseLine::Ended => Some(SidebandResponseEvent::Closed),
        ResponseLine::Failed { message } => Some(
            SidebandResponseEvent::ReadError(
                text::concat2("failed to read sideband responses: ", message.as_str()),
            ),
        ),
    }
}

/// The place of the request with an identifier.
pub open spec fn request_place(requests: Seq<ManagedView>, id: RequestIdView) -> Option<int>
    decreases requests.len(),
{
    if requests.len() == 0 {
        None
    } else {
        match request_place(requests.drop_last(), id) {
            Some(place) => Some(place),
            None => if requests.last().request_id@ == id {
                Some(requests.len() - 1)
            } else {
                None
            },
        }
    }
}

/// Some requests with one more, which takes the place of one with the same
/// identifier.
pub open spec fn with_request(requests: Seq<ManagedView>, request: ManagedView) -> Seq<
    ManagedView,
> {
    match request_place(requests, request.request_id@) {
        Some(place) => requests.update(place, request),
        None => requests.push(request),
    }
}

/// Some requests without the one with an identifier.
pub open spec fn without_request(requests: Seq<ManagedView>, id: RequestIdView) -> Seq<
    ManagedView,
> {
    match request_place(requests, id) {
        Some(place) => requests.remove(place),
        None => requests,
    }
}

/// What comes of a response.
#[derive(Debug, PartialEq, Eq)]
pub enum ResponseOutcome {
    /// The request is answered and waits no longer.
    Resolved { request_id: RequestId, resolution: ServerRequestResolution },
    /// No request waits for it.
    Unknown { request_id: RequestId },
    /// It is no answer to the request, which goes on waiting.
    Invalid { request_id: RequestId, message: String },
}

/// What comes of a response, as mathematical text.
#[verifier::ext_equal]
pub enum ResponseOutcomeView {
    Resolved { request_id: RequestIdView, resolution: ResolutionView },
    Unknown { request_id: RequestIdView },
    Invalid { request_id: RequestIdView, message: Seq<char> },
}

impl View for ResponseOutcome {
    type V = ResponseOutcomeView;

    open spec fn view(&self) -> ResponseOutcomeView {
        match *self {
            ResponseOutcome::Resolved { request_id, resolution } => ResponseOutcomeView::Resolved {
                request_id: request_id@,
                resolution: resolution@,
            },
            ResponseOutcome::Unknown { request_id } => ResponseOutcomeView::Unknown {
                request_id: request_id@,
            },
            ResponseOutcome::Invalid { request_id, message } => ResponseOutcomeView::Invalid {
                request_id: request_id@,
                message: message@,
            },
        }
    }
}

/// The requests that still wait after a response, and what comes of it.
pub open spec fn responded(requests: Seq<ManagedView>, response: SidebandResponseEnvelope) -> (
    Seq<ManagedView>,
    ResponseOutcomeView,
) {
    let request_id = response.request_id@;
    match request_place(requests, request_id) {
        None => (requests, ResponseOutcomeView::Unknown { request_id }),
        Some(place) => match requests[place].kind.answered(response) {
            Ok(resolution) => (
                requests.remove(place),
                ResponseOutcomeView::Resolved { request_id, resolution },
            ),
            Err(message) => (requests, ResponseOutcomeView::Invalid { request_id, message }),
        },
    }
}

/// A request and how it is answered.
#[derive(Debug, PartialEq, Eq)]
pub struct AnsweredRequest {
    pub request_id: RequestId,
    pub resolution: ServerRequestResolution,
}

/// Requests and how they are answered, as mathematical text.
pub open spec fn answered_views(answered: Seq<AnsweredRequest>) -> Seq<
    (RequestIdView, ResolutionView),
> {
    answered.map_values(
        |answer: AnsweredRequest| (answer.request_id@, answer.resolution@),
    )
}

/// How some requests are answered once nobody can answer them.
pub open spec fn fallbacks(requests: Seq<ManagedView>) -> Seq<(RequestIdView, ResolutionView)> {
    requests.map_values(|request: ManagedView| (request.request_id@, request.kind.fallback()))
}

/// The requests of a vector.
pub open spec fn managed_views(requests: Seq<ManagedServerRequest>) -> Seq<ManagedView> {
    requests.map_values(|request: ManagedServerRequest| request@)
}

/// The requests of the server that wait for an answer, in the order in which
/// they came.
#[derive(Debug, PartialEq, Eq)]
pub struct PendingRequests {
    requests: Vec<ManagedServerRequest>,
}

impl View for PendingRequests {
    type V = Seq<ManagedView>;

    closed spec fn view(&self) -> Seq<ManagedView> {
        managed_views(self.requests@)
    }
}

impl PendingRequests {
    /// No request waits.
    pub fn new() -> (pending: Self)
        ensures
            pending@ == Seq::<ManagedView>::empty(),
    {
        let pending = PendingRequests { requests: Vec::new() };
        assert(pending@ =~= Seq::empty());
        pending
    }

    /// Tells how many requests wait.
    pub fn len(&self) -> (count: usize)
        ensures
            count == self@.len(),
    {
        self.requests.len()
    }

    fn place(&self, id: &RequestId) -> (place: Option<usize>)
        ensures
            match place {
                Some(place) => request_place(self@, id@) == Some(place as int) && place
                    < self@.len() && self@[place as int].request_id@ == id@,
                None => request_place(self@, id@) is None,
            },
    {
        let ghost all = self@;
        let mut i: usize = 0;
        let mut found: Option<usize> = None;
        assert(all.take(0) =~= Seq::empty());
        while i < self.requests.len()
            invariant
                all == self@,
                i <= self.requests@.len(),
                match found {
                    Some(place) => request_place(all.take(i as int), id@) == Some(place as int)
                        && place < i && all[place as int].request_id@ == id@,
                    None => request_place(all.take(i as int), id@) is None,
                },
            decreases self.requests@.len() - i,
        {
            assert(all.take(i + 1).drop_last() =~= all.take(i as int));
            assert(all.take(i + 1).last() == self.requests@[i as int]@);
            if found.is_none() && self.requests[i].request_id().same(id) {
                found = Some(i);
            }
            i += 1;
        }
        assert(all.take(i as int) =~= all);
        found
    }

    /// Tells whether a request waits.
    pub fn contains(&self, id: &RequestId) -> (waits: bool)
        ensures
            waits == (request_place(self@, id@) is Some),
    {
        self.place(id).is_some()
    }

    /// Lets a request wait, in place of one with the same identifier.
    pub fn insert(&mut self, request: ManagedServerRequest)
        ensures
            final(self)@ == with_request(old(self)@, request@),
    {
        let place = self.place(request.request_id());
        match place {
            Some(place) => {
                self.requests[place] = request;
                assert(self@ =~= old(self)@.update(place as int, request@));
            },
            None => {
                self.requests.push(request);
                assert(self@ =~= old(self)@.push(request@));
            },
        }
    }

    /// Lets a request wait no longer.
    pub fn remove(&mut self, id: &RequestId)
        ensures
            final(self)@ == without_request(old(self)@, id@),
    {
        if let Some(place) = self.place(id) {
            let _removed = self.requests.remove(place);
            assert(self@ =~= old(self)@.remove(place as int));
        }
    }

    /// Lets no request wait any longer.
    pub fn clear(&mut self)
        ensures
            final(self)@ == Seq::<ManagedView>::empty(),
    {
        self.requests = Vec::new();
        assert(self@ =~= Seq::empty());
    }

    /// Takes in a response: it answers the request that waits for it, or it is
    /// ignored and the request goes on waiting.
    pub fn take_valid_sideband_response(&mut self, response: SidebandResponseEnvelope) -> (outcome:
        ResponseOutcome)
        ensures
            (final(self)@, outcome@) == responded(old(self)@, response),
    {
        let request_id = response.request_id.clone();
        let place: usize = match self.place(&request_id) {
            Some(place) => place,
            None => return ResponseOutcome::Unknown { request_id },
        };
        match self.requests[place].parse_response(response) {
            Ok(resolution) => {
                let _removed = self.requests.remove(place);
                assert(self@ =~= old(self)@.remove(place as int));
                ResponseOutcome::Resolved { request_id, resolution }
            },
            Err(message) => ResponseOutcome::Invalid { request_id, message },
        }
    }

    /// Answers every request that waits, because nobody else can any more.
    pub fn resolve_all(&mut self) -> (answered: Vec<AnsweredRequest>)
        ensures
            final(self)@ == Seq::<ManagedView>::empty(),
            answered_views(answered@) == fallbacks(old(self)@),
    {
        let ghost all = fallbacks(self@);
        let mut answered: Vec<AnsweredRequest> = Vec::new();
        let mut i: usize = 0;
        assert(answered_views(answered@) =~= all.take(0));
        while i < self.requests.len()
            invariant
                self@ == old(self)@,
                all == fallbacks(self@),
                i <= self.requests@.len(),
                answered_views(answered@) == all.take(i as int),
            decreases self.requests@.len() - i,
        {
            let ghost before = answered_views(answered@);
            let request = &self.requests[i];
            answered.push(
                AnsweredRequest {
                    request_id: request.request_id().clone(),
                    resolution: request.default_resolution_on_input_closed(),
                },
            );
            assert(answered_views(answered@) =~= before.push(all[i as int]));
            assert(all.take(i + 1) =~= all.take(i as int).push(all[i as int]));
            i += 1;
        }
        assert(all.take(i as int) =~= all);
        self.clear();
        answered
    }
}

/// Whether no two requests have the same identifier.
pub open spec fn distinct_requests(requests: Seq<ManagedView>) -> bool {
    forall|i: int, j: int|
        0 <= i < j < requests.len() ==> (#[trigger] requests[i]).request_id@ != (
        #[trigger] requests[j]).request_id@
}

proof fn lemma_request_place(requests: Seq<ManagedView>, id: RequestIdView)
    ensures
        match request_place(requests, id) {
            Some(place) => 0 <= place < requests.len() && requests[place].request_id@ == id,
            None => forall|i: int|
                0 <= i < requests.len() ==> (#[trigger] requests[i]).request_id@ != id,
        },
    decreases requests.len(),
{
    if requests.len() > 0 {
        lemma_request_place(requests.drop_last(), id);
        assert forall|i: int| 0 <= i < requests.len() - 1 implies (#[trigger] requests[i])
            == requests.drop_last()[i] by {}
    }
}

/// A request waits at most once, whatever comes and goes.
pub proof fn a_request_waits_once(
    requests: Seq<ManagedView>,
    request: ManagedView,
    response: SidebandResponseEnvelope,
)
    requires
        distinct_requests(requests),
    ensures
        distinct_requests(with_request(requests, request)),
        distinct_requests(without_request(requests, request.request_id@)),
        distinct_requests(responded(requests, response).0),
{
    lemma_request_place(requests, request.request_id@);
    lemma_request_place(requests, response.request_id@);
}

/// A response that is no answer leaves every request waiting; one that is an
/// answer leaves every other request waiting, and its own no longer.
pub proof fn a_response_answers_its_own_request(
    requests: Seq<ManagedView>,
    response: SidebandResponseEnvelope,
)
    requires
        distinct_requests(requests),
    ensures
        ({
            let (after, outcome) = responded(requests, response);
            &&& !(outcome is Resolved) ==> after == requests
            &&& outcome is Resolved ==> {
                &&& request_place(requests, response.request_id@) is Some
                &&& request_place(after, response.request_id@) is None
                &&& forall|id: RequestIdView|
                    id != response.request_id@ ==> (request_place(after, id) is Some <==> (
                    #[trigger] request_place(requests, id)) is Some)
            }
        }),
{
    let id = response.request_id@;
    let (after, outcome) = responded(requests, response);
    lemma_request_place(requests, id);
    lemma_request_place(after, id);
    if outcome is Resolved {
        let place = request_place(requests, id)->0;
        if request_place(after, id) is Some {
            let left = request_place(after, id)->0;
            assert(after[left] == requests[if left < place {
                left
            } else {
                left + 1
            }]);
            assert(false);
        }
        assert forall|other: RequestIdView| other != id implies (request_place(after, other) is Some
            <==> (#[trigger] request_place(requests, other)) is Some) by {
            lemma_request_place(requests, other);
            lemma_request_place(after, other);
            if request_place(requests, other) is Some {
                let at = request_place(requests, other)->0;
                assert(after[if at < place {
                    at
                } else {
                    at - 1
                }] == requests[at]);
            }
            if request_place(after, other) is Some {
                let at = request_place(after, other)->0;
                assert(after[at] == requests[if at < place {
                    at
                } else {
                    at + 1
                }]);
            }
        }
    }
}

/// The side channel of an interactive session.
#[derive(Debug, PartialEq, Eq)]
pub struct ServerRequestSideband {
    pub has_reader: bool,
    pub response_available: bool,
    pub pending_requests: PendingRequests,
}

impl ServerRequestSideband {
    /// A side channel on which nothing has happened yet. There is none where
    /// requests are neither told nor answered.
    pub fn new(outputs: &SidebandOutputs, has_reader: bool) -> (sideband: Option<Self>)
        ensures
            match sideband {
                Some(sideband) => {
                    &&& outputs.request_event_sinks@.len() > 0 || has_reader
                    &&& sideband.has_reader == has_reader
                    &&& sideband.response_available == has_reader
                    &&& sideband.pending_requests@.len() == 0
                },
                None => outputs.request_event_sinks@.len() == 0 && !has_reader,
            },
    {
        if !outputs.has_request_event_sink() && !has_reader {
            return None;
        }
        Some(
            ServerRequestSideband {
                has_reader,
                response_available: has_reader,
                pending_requests: PendingRequests::new(),
            },
        )
    }

    /// Tells whether responses are read.
    pub fn has_response_reader(&self) -> (has: bool)
        ensures
            has == self.has_reader,
    {
        self.has_reader
    }

    /// What is to be told of a request; nothing where no side channel answers
    /// it.
    pub fn request_to_tell(request: &ServerRequest) -> (managed: Option<ManagedServerRequest>)
        ensures
            match managed {
                Some(managed) => sideband::managed(*request) == Some(managed@),
                None => sideband::managed(*request) is None,
            },
    {
        match ManagedServerRequest::try_from(request) {
            Ok(managed) => Some(managed),
            Err(_) => None,
        }
    }

    /// Notes a request that was told: it waits for an answer, where answers can
    /// come.
    pub fn note_server_request(&mut self, managed: ManagedServerRequest)
        ensures
            final(self).has_reader == old(self).has_reader,
            final(self).response_available == old(self).response_available,
            final(self).pending_requests@ == if old(self).response_available {
                with_request(old(self).pending_requests@, managed@)
            } else {
                old(self).pending_requests@
            },
    {
        if self.response_available {
            self.pending_requests.insert(managed);
        }
    }

    /// Takes in a response. One that is no answer is ignored, with a warning
    /// where its request waits.
    pub fn take_valid_response(&mut self, response: SidebandResponseEnvelope) -> (taken: (
        Option<AnsweredRequest>,
        Option<String>,
    ))
        ensures
            final(self).has_reader == old(self).has_reader,
            final(self).response_available == old(self).response_available,
            ({
                let (after, outcome) = responded(old(self).pending_requests@, response);
                &&& final(self).pending_requests@ == after
                &&& match outcome {
                    ResponseOutcomeView::Resolved { request_id, resolution } => {
                        &&& taken.0 matches Some(answered) && answered.request_id@ == request_id
                            && answered.resolution@ == resolution
                        &&& taken.1 is None
                    },
                    ResponseOutcomeView::Unknown { .. } => taken.0 is None && taken.1 is None,
                    ResponseOutcomeView::Invalid { request_id, message } => {
                        &&& taken.0 is None
                        &&& text::opt_text(taken.1) == Some(
                            "ignoring invalid sideband response for request id `"@
                                + request_id.shown() + "`: "@ + message,
                        )
                    },
                }
            }),
    {
        match self.pending_requests.take_valid_sideband_response(response) {
            ResponseOutcome::Resolved { request_id, resolution } => (
                Some(AnsweredRequest { request_id, resolution }),
                None,
            ),
            ResponseOutcome::Unknown { .. } => (None, None),
            ResponseOutcome::Invalid { request_id, message } => {
                let what = text::concat3(
                    "ignoring invalid sideband response for request id `",
                    request_id.to_string().as_str(),
                    "`: ",
                );
                (None, Some(text::concat2(what.as_str(), message.as_str())))
            },
        }
    }

    /// Lets a request wait no longer, because it was answered elsewhere.
    pub fn remove_pending_request(&mut self, request_id: &RequestId)
        ensures
            final(self).has_reader == old(self).has_reader,
            final(self).response_available == old(self).response_available,
            final(self).pending_requests@ == without_request(
                old(self).pending_requests@,
                request_id@,
            ),
    {
        self.pending_requests.remove(request_id);
    }

    /// Ends the response lane: nothing is read and nothing waits any more. The
    /// warning says why.
    pub fn close_response_reader(&mut self, reason: &str) -> (warning: String)
        ensures
            !final(self).has_reader,
            !final(self).response_available,
            final(self).pending_requests@.len() == 0,
            warning@ == "server-request sideband response channel closed: "@ + reason@,
    {
        self.has_reader = false;
        self.response_available = false;
        self.pending_requests.clear();
        text::concat2("server-request sideband response channel closed: ", reason)
    }

    /// Tells whether a request waits.
    pub fn has_pending_request(&self, request_id: &RequestId) -> (waits: bool)
        ensures
            waits == (request_place(self.pending_requests@, request_id@) is Some),
    {
        self.pending_requests.contains(request_id)
    }
}

/// The descriptors of an interactive session.
#[derive(Clone, Copy, Debug, PartialEq, Eq, Structural)]
pub struct SessionFds {
    pub xml_input_fd: Option<i32>,
    pub server_request_events_fd: Option<i32>,
    pub server_request_responses_fd: Option<i32>,
    pub control_events_fd: Option<i32>,
    pub control_responses_fd: Option<i32>,
}

/// The descriptors of an interactive session, each under its name.
pub open spec fn session_fds(fds: SessionFds) -> Seq<NamedFd<'static>> {
    seq![
        NamedFd { name: "xml-input-fd", fd: fds.xml_input_fd },
        NamedFd { name: "server-request-events-fd", fd: fds.server_request_events_fd },
        NamedFd { name: "server-request-responses-fd", fd: fds.server_request_responses_fd },
        NamedFd { name: "control-events-fd", fd: fds.control_events_fd },
        NamedFd { name: "control-responses-fd", fd: fds.control_responses_fd },
    ]
}

/// What is reported of the descriptors of an interactive session.
pub open spec fn session_fds_error(fds: SessionFds, unix: bool) -> Option<Seq<char>> {
    if !unix && (fds.server_request_events_fd is Some || fds.server_request_responses_fd is Some
        || fds.control_events_fd is Some || fds.control_responses_fd is Some) {
        Some("server-request sideband FDs are only supported on Unix targets"@)
    } else if unix && sideband::shared_fd(session_fds(fds)) is Some {
        Some(
            sideband::shared_fd_message(
                session_fds(fds),
                sideband::shared_fd(session_fds(fds))->0,
                "use distinct sideband file descriptors"@,
            ),
        )
    } else if fds.server_request_responses_fd is Some && fds.control_responses_fd is Some {
        Some("--server-request-responses-fd and --control-responses-fd are mutually exclusive"@)
    } else if (fds.server_request_responses_fd is Some || fds.control_responses_fd is Some)
        && fds.server_request_events_fd is None && fds.control_events_fd is None {
        Some(
            "a sideband response fd requires either --server-request-events-fd or --control-events-fd"@,
        )
    } else {
        None
    }
}

/// Checks the descriptors of an interactive session; `unix` tells whether the
/// platform has such descriptors.
pub fn validate_cli_fds(fds: SessionFds, unix: bool) -> (checked: Result<(), String>)
    ensures
        match checked {
            Ok(_) => session_fds_error(fds, unix) is None,
            Err(message) => session_fds_error(fds, unix) == Some(message@),
        },
{
    if !unix {
        if fds.server_request_events_fd.is_some() || fds.server_request_responses_fd.is_some()
            || fds.control_events_fd.is_some() || fds.control_responses_fd.is_some() {
            return Err(
                "server-request sideband FDs are only supported on Unix targets".to_owned(),
            );
        }
    } else {
        let mut entries: Vec<NamedFd<'static>> = Vec::new();
        entries.push(NamedFd { name: "xml-input-fd", fd: fds.xml_input_fd });
        entries.push(
            NamedFd { name: "server-request-events-fd", fd: fds.server_request_events_fd },
        );
        entries.push(
            NamedFd { name: "server-request-responses-fd", fd: fds.server_request_responses_fd },
        );
        entries.push(NamedFd { name: "control-events-fd", fd: fds.control_events_fd });
        entries.push(NamedFd { name: "control-responses-fd", fd: fds.control_responses_fd });
        assert(entries@ =~= session_fds(fds));
        if let Err(message) = sideband::check_unique_fds(
            &entries,
            "use distinct sideband file descriptors",
        ) {
            return Err(message);
        }
    }
    if fds.server_request_responses_fd.is_some() && fds.control_responses_fd.is_some() {
        return Err(
            "--server-request-responses-fd and --control-responses-fd are mutually exclusive".to_owned(),
        );
    }
    if (fds.server_request_responses_fd.is_some() || fds.control_responses_fd.is_some())
        && fds.server_request_events_fd.is_none() && fds.control_events_fd.is_none() {
        return Err(
            "a sideband response fd requires either --server-request-events-fd or --control-events-fd".to_owned(),
        );
    }
    Ok(())
}

} // verus!
