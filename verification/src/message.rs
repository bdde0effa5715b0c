//! Messages as they come in: XML fragments and prefixed lines.

use vstd::prelude::*;
use vstd::utf8::*;

use crate::controller_model::MessageView;
use crate::queue_mode;
use crate::queue_mode::QueueMode;
use crate::text;
use crate::xml;
use crate::xml::{XmlAttribute, XmlAttributeView, XmlErrorKind, XmlEvent, XmlEventView, XmlStepView};

verus! {

/// A message and the point at which it wants to be released.
#[derive(Clone, Debug, PartialEq, Eq)]
pub struct ParsedMessage {
    pub queue_mode: QueueMode,
    pub text: String,
}

/// One complete piece of XML input.
#[derive(Clone, Debug, PartialEq, Eq)]
pub enum ParsedXmlInput {
    SystemPrompt(String),
    Message(ParsedMessage),
}

/// One complete piece of XML input, as mathematical text.
#[verifier::ext_equal]
pub enum ParsedView {
    SystemPrompt(Seq<char>),
    Message(MessageView),
}

/// Why input cannot be read.
#[derive(Clone, Debug, PartialEq, Eq)]
pub struct XmlInputError {
    message: String,
}

impl View for ParsedMessage {
    type V = MessageView;

    open spec fn view(&self) -> MessageView {
        MessageView { queue_mode: self.queue_mode, text: self.text@ }
    }
}

impl View for ParsedXmlInput {
    type V = ParsedView;

    open spec fn view(&self) -> ParsedView {
        match *self {
            ParsedXmlInput::SystemPrompt(text) => ParsedView::SystemPrompt(text@),
            ParsedXmlInput::Message(message) => ParsedView::Message(message@),
        }
    }
}

impl View for XmlInputError {
    type V = Seq<char>;

    closed spec fn view(&self) -> Seq<char> {
        self.message@
    }
}

impl XmlInputError {
    fn new(message: &str) -> (error: Self)
        ensures
            error@ == message@,
    {
        XmlInputError { message: message.to_owned() }
    }

    fn quoting(before: &str, quoted: &str, after: &str) -> (error: Self)
        ensures
            error@ == before@ + quoted@ + after@,
    {
        XmlInputError { message: text::concat3(before, quoted, after) }
    }

    /// The description of the error.
    pub fn to_string(&self) -> (message: String)
        ensures
            message@ == self@,
    {
        self.message.clone()
    }
}

/// What is reported for input that is none of the two known elements.
pub open spec fn unexpected_root() -> Seq<char> {
    "expected system_prompt or message XML fragment"@
}

/// Whether a text can be the start of one of the two known elements.
pub open spec fn supported_root_prefix(buffer: Seq<char>) -> bool {
    ||| "<system_prompt"@.is_prefix_of(buffer)
    ||| buffer.is_prefix_of("<system_prompt"@)
    ||| "<message"@.is_prefix_of(buffer)
    ||| buffer.is_prefix_of("<message"@)
}

/// A text that can be the start of a known element is empty or starts a tag.
proof fn lemma_root_prefix_is_a_tag(buffer: Seq<char>)
    requires
        supported_root_prefix(buffer),
        buffer.len() > 0,
    ensures
        buffer[0] == '<',
{
    reveal_strlit("<system_prompt");
    reveal_strlit("<message");
    let prompt = "<system_prompt"@;
    let message = "<message"@;
    assert(prompt.len() <= buffer.len() ==> buffer.subrange(0, prompt.len() as int)[0] == buffer[0]);
    assert(message.len() <= buffer.len() ==> buffer.subrange(0, message.len() as int)[0]
        == buffer[0]);
    assert(buffer.len() <= prompt.len() ==> prompt.subrange(0, buffer.len() as int)[0] == '<');
    assert(buffer.len() <= message.len() ==> message.subrange(0, buffer.len() as int)[0] == '<');
}

/// What can be the start of a known element, and holds a closing angle bracket,
/// still can when more comes behind it.
proof fn lemma_root_prefix_longer(buffer: Seq<char>, more: Seq<char>)
    requires
        supported_root_prefix(buffer),
        buffer.contains('>'),
    ensures
        supported_root_prefix(buffer + more),
{
    reveal_strlit("<system_prompt");
    reveal_strlit("<message");
    let prompt = "<system_prompt"@;
    let message = "<message"@;
    let bracket = choose|i: int| 0 <= i < buffer.len() && buffer[i] == '>';
    assert(buffer.is_prefix_of(prompt) ==> prompt.subrange(0, buffer.len() as int)[bracket]
        == prompt[bracket]);
    assert(buffer.is_prefix_of(message) ==> message.subrange(0, buffer.len() as int)[bracket]
        == message[bracket]);
    if prompt.is_prefix_of(buffer) {
        assert((buffer + more).subrange(0, prompt.len() as int) =~= buffer.subrange(
            0,
            prompt.len() as int,
        ));
    } else {
        assert((buffer + more).subrange(0, message.len() as int) =~= buffer.subrange(
            0,
            message.len() as int,
        ));
    }
}

/// A text that starts with a known one, or with which the known one starts, is
/// such a text at each of its own starts.
proof fn lemma_start_of_start(known: Seq<char>, buffer: Seq<char>, more: Seq<char>)
    ensures
        known.is_prefix_of(buffer + more) || (buffer + more).is_prefix_of(known)
            ==> known.is_prefix_of(buffer) || buffer.is_prefix_of(known),
{
    let longer = buffer + more;
    if known.is_prefix_of(longer) && known.len() <= buffer.len() {
        assert(buffer.subrange(0, known.len() as int) =~= longer.subrange(0, known.len() as int));
    } else if known.is_prefix_of(longer) {
        assert(known.subrange(0, buffer.len() as int) =~= buffer);
    } else if longer.is_prefix_of(known) {
        assert(known.subrange(0, buffer.len() as int) =~= buffer) by {
            assert forall|i: int| 0 <= i < buffer.len() implies known[i] == buffer[i] by {
                assert(known.subrange(0, longer.len() as int)[i] == longer[i]);
            }
        }
    }
}

/// Tells whether a text can be the start of one of the two known elements.
fn has_supported_root_prefix(buffer: &str) -> (supported: bool)
    ensures
        supported == supported_root_prefix(buffer@),
{
    text::starts_with(buffer, "<system_prompt") || text::starts_with("<system_prompt", buffer)
        || text::starts_with(buffer, "<message") || text::starts_with("<message", buffer)
}

/// Whether a character separates the name of a tag from its attributes.
pub open spec fn tag_space(c: char) -> bool {
    c == ' ' || c == '\t' || c == '\r' || c == '\n'
}

/// The number of characters of a tag before its first space.
pub open spec fn name_length(content: Seq<char>) -> nat
    decreases content.len(),
{
    if content.len() > 0 && !tag_space(content[0]) {
        1 + name_length(content.drop_first())
    } else {
        0
    }
}

/// The name of a tag.
pub open spec fn name_of(content: Seq<char>) -> Seq<char> {
    content.take(name_length(content) as int)
}

/// The name of a tag.
fn tag_name(content: &str) -> (name: &str)
    ensures
        name@ == name_of(content@),
{
    let chars = text::chars_of(content);
    let mut at: usize = 0;
    assert(content@.skip(0) =~= content@);
    while at < chars.len() && !(chars[at] == ' ' || chars[at] == '\t' || chars[at] == '\r'
        || chars[at] == '\n')
        invariant
            chars@ == content@,
            at <= content@.len(),
            name_length(content@) == at + name_length(content@.skip(at as int)),
        decreases content@.len() - at,
    {
        assert(content@.skip(at as int).drop_first() =~= content@.skip(at + 1));
        at += 1;
    }
    let name = content.substring_char(0, at);
    assert(name@ =~= name_of(content@));
    name
}

/// How far the scan for the end of a root element has come.
#[verifier::ext_equal]
pub struct RootScanView {
    pub depth: nat,
    pub root_name: Option<Seq<char>>,
}

/// What an event means for the scan.
#[verifier::ext_equal]
pub enum ScanStepView {
    Continue,
    Complete,
    Incomplete,
    Failed(Seq<char>),
}

/// Whether a name is one of the two known elements.
pub open spec fn supported_root(name: Seq<char>) -> bool {
    name == "system_prompt"@ || name == "message"@
}

/// Whether a failure at the end of the input means that more input is needed.
pub open spec fn needs_more(kind: XmlErrorKind, at_end: bool) -> bool {
    at_end && kind != XmlErrorKind::Other
}

impl RootScanView {
    /// The start of a scan.
    pub open spec fn start() -> Self {
        RootScanView { depth: 0, root_name: None }
    }

    /// What an event means; `at_end` says whether all input has been read.
    pub open spec fn step(self, event: XmlEventView, at_end: bool) -> (Self, ScanStepView) {
        match event {
            XmlEventView::Start(content) => {
                if self.depth > 0 {
                    (RootScanView { depth: self.depth + 1, ..self }, ScanStepView::Continue)
                } else if supported_root(name_of(content)) {
                    (
                        RootScanView { depth: 1, root_name: Some(name_of(content)) },
                        ScanStepView::Continue,
                    )
                } else {
                    (self, ScanStepView::Failed(unexpected_root()))
                }
            },
            XmlEventView::Empty(content) => {
                if self.depth > 0 {
                    (self, ScanStepView::Continue)
                } else if supported_root(name_of(content)) {
                    (self, ScanStepView::Complete)
                } else {
                    (self, ScanStepView::Failed(unexpected_root()))
                }
            },
            XmlEventView::End(name) => {
                if self.depth == 0 {
                    (self, ScanStepView::Failed("unexpected XML closing tag"@))
                } else {
                    let inner = RootScanView { depth: (self.depth - 1) as nat, ..self };
                    if self.depth > 1 {
                        (inner, ScanStepView::Continue)
                    } else {
                        match self.root_name {
                            None => (inner, ScanStepView::Failed(unexpected_root())),
                            Some(root) => if root == name {
                                (inner, ScanStepView::Complete)
                            } else {
                                (
                                    inner,
                                    ScanStepView::Failed(
                                        "mismatched XML closing tag `</"@ + name + ">`"@,
                                    ),
                                )
                            },
                        }
                    }
                }
            },
            XmlEventView::DocType | XmlEventView::Other => {
                if self.depth > 0 {
                    (self, ScanStepView::Continue)
                } else {
                    (self, ScanStepView::Failed(unexpected_root()))
                }
            },
            XmlEventView::Eof => (self, ScanStepView::Incomplete),
            XmlEventView::Failed { kind, message } => {
                if needs_more(kind, at_end) {
                    (self, ScanStepView::Incomplete)
                } else {
                    (self, ScanStepView::Failed("failed to parse XML input: "@ + message))
                }
            },
        }
    }
}

/// How far the scan for the end of a root element has come.
#[derive(Clone, Debug, PartialEq, Eq)]
pub struct RootScan {
    pub depth: usize,
    pub root_name: Option<String>,
}

/// What an event means for the scan.
#[derive(Clone, Debug, PartialEq, Eq)]
pub enum ScanStep {
    /// The root element is not complete yet.
    Continue,
    /// The root element ends with this event.
    Complete,
    /// More input is needed.
    Incomplete,
    /// The input is malformed.
    Failed(XmlInputError),
}

impl View for RootScan {
    type V = RootScanView;

    open spec fn view(&self) -> RootScanView {
        RootScanView { depth: self.depth as nat, root_name: text::opt_text(self.root_name) }
    }
}

impl View for ScanStep {
    type V = ScanStepView;

    open spec fn view(&self) -> ScanStepView {
        match *self {
            ScanStep::Continue => ScanStepView::Continue,
            ScanStep::Complete => ScanStepView::Complete,
            ScanStep::Incomplete => ScanStepView::Incomplete,
            ScanStep::Failed(error) => ScanStepView::Failed(error@),
        }
    }
}

/// Tells whether a name is one of the two known elements.
fn is_supported_root(name: &str) -> (supported: bool)
    ensures
        supported == supported_root(name@),
{
    text::text_eq(name, "system_prompt") || text::text_eq(name, "message")
}

/// Tells whether a failure means that more input is needed.
fn is_incomplete_root_fragment_error(
    kind: XmlErrorKind,
    buffer_position: u64,
    buffer_len: usize,
) -> (incomplete: bool)
    ensures
        incomplete == needs_more(kind, buffer_position >= buffer_len),
{
    if buffer_position < buffer_len as u64 {
        return false;
    }
    kind != XmlErrorKind::Other
}

impl RootScan {
    /// The start of a scan.
    pub fn new() -> (scan: Self)
        ensures
            scan@ == RootScanView::start(),
    {
        RootScan { depth: 0, root_name: None }
    }

    /// Takes in one event, read up to `buffer_position` of `buffer_len` bytes.
    pub fn advance(&mut self, event: &XmlEvent, buffer_position: u64, buffer_len: usize) -> (step:
        ScanStep)
        requires
            event is Start ==> old(self).depth < usize::MAX,
        ensures
            (final(self)@, step@) == old(self)@.step(event@, buffer_position >= buffer_len),
    {
        match event {
            XmlEvent::Start(content) => {
                if self.depth == 0 {
                    let name = tag_name(content.as_str());
                    if !is_supported_root(name) {
                        return ScanStep::Failed(
                            XmlInputError::new("expected system_prompt or message XML fragment"),
                        );
                    }
                    self.root_name = Some(name.to_owned());
                }
                self.depth = self.depth + 1;
                ScanStep::Continue
            },
            XmlEvent::Empty(content) => {
                if self.depth == 0 {
                    if !is_supported_root(tag_name(content.as_str())) {
                        return ScanStep::Failed(
                            XmlInputError::new("expected system_prompt or message XML fragment"),
                        );
                    }
                    return ScanStep::Complete;
                }
                ScanStep::Continue
            },
            XmlEvent::End(name) => {
                if self.depth == 0 {
                    return ScanStep::Failed(XmlInputError::new("unexpected XML closing tag"));
                }
                self.depth = self.depth - 1;
                if self.depth > 0 {
                    return ScanStep::Continue;
                }
                match &self.root_name {
                    None => ScanStep::Failed(
                        XmlInputError::new("expected system_prompt or message XML fragment"),
                    ),
                    Some(root) => if text::text_eq(root.as_str(), name.as_str()) {
                        ScanStep::Complete
                    } else {
                        ScanStep::Failed(
                            XmlInputError::quoting(
                                "mismatched XML closing tag `</",
                                name.as_str(),
                                ">`",
                            ),
                        )
                    },
                }
            },
            XmlEvent::DocType | XmlEvent::Other => {
                if self.depth == 0 {
                    return ScanStep::Failed(
                        XmlInputError::new("expected system_prompt or message XML fragment"),
                    );
                }
                ScanStep::Continue
            },
            XmlEvent::Eof => ScanStep::Incomplete,
            XmlEvent::Failed { kind, message } => {
                if is_incomplete_root_fragment_error(*kind, buffer_position, buffer_len) {
                    return ScanStep::Incomplete;
                }
                ScanStep::Failed(
                    XmlInputError {
                        message: text::concat2("failed to parse XML input: ", message.as_str()),
                    },
                )
            },
        }
    }
}

/// Where the scan of the remaining events of a text finds the end of the root
/// element; `None` where more input is needed.
pub open spec fn scan_rest(
    scan: RootScanView,
    steps: Seq<XmlStepView>,
    buffer: Seq<char>,
) -> Result<Option<nat>, Seq<char>>
    decreases steps.len(),
{
    if steps.len() == 0 {
        Ok(None)
    } else {
        let (next, step) = scan.step(steps[0].event, xml::read_out(buffer, steps[0].position));
        match step {
            ScanStepView::Continue => scan_rest(next, steps.drop_first(), buffer),
            ScanStepView::Complete => Ok(Some(steps[0].position)),
            ScanStepView::Incomplete => Ok(None),
            ScanStepView::Failed(message) => Err(message),
        }
    }
}

/// The byte position behind the root element at the start of a text.
pub open spec fn root_end(buffer: Seq<char>) -> Result<Option<nat>, Seq<char>> {
    scan_rest(RootScanView::start(), xml::xml_steps(buffer), buffer)
}

/// A root element that is complete ends with a tag, and it ends there whatever
/// comes behind that tag.
proof fn lemma_scan_same(
    scan: RootScanView,
    steps: Seq<XmlStepView>,
    buffer: Seq<char>,
    others: Seq<XmlStepView>,
    other: Seq<char>,
)
    requires
        scan_rest(scan, steps, buffer) matches Ok(Some(end)) && xml::same_up_to_tag(
            steps,
            others,
            end,
        ),
    ensures
        scan_rest(scan, others, other) == scan_rest(scan, steps, buffer),
        exists|i: int|
            0 <= i < steps.len() && (#[trigger] steps[i]).event.is_tag() && Ok::<
                Option<nat>,
                Seq<char>,
            >(Some(steps[i].position)) == scan_rest(scan, steps, buffer),
    decreases steps.len(),
{
    let end = scan_rest(scan, steps, buffer)->Ok_0->Some_0;
    let (next, step) = scan.step(steps[0].event, xml::read_out(buffer, steps[0].position));
    if step is Complete {
        assert(steps[0].event.is_tag());
        assert(others.take(1)[0] == steps.take(1)[0]);
    } else {
        let rest = steps.drop_first();
        let others_rest = others.drop_first();
        assert forall|i: int|
            0 <= i < rest.len() && (#[trigger] rest[i]).event.is_tag() && rest[i].position
                == end implies i < others_rest.len() && others_rest.take(i + 1) == rest.take(
            i + 1,
        ) by {
            assert(steps[i + 1].event.is_tag());
            assert(others_rest.take(i + 1) =~= others.take(i + 2).drop_first());
            assert(rest.take(i + 1) =~= steps.take(i + 2).drop_first());
        }
        lemma_scan_same(next, rest, buffer, others_rest, other);
        let tag = choose|i: int|
            0 <= i < rest.len() && (#[trigger] rest[i]).event.is_tag() && rest[i].position == end;
        assert(steps[tag + 1].event.is_tag());
        assert(others.take(tag + 2)[0] == steps.take(tag + 2)[0]);
    }
}

/// What can become a root element, or has one at its start, is not malformed
/// before it is all there.
proof fn lemma_scan_cut(
    scan: RootScanView,
    steps: Seq<XmlStepView>,
    buffer: Seq<char>,
    longer: Seq<XmlStepView>,
    more: Seq<char>,
    done: int,
)
    requires
        0 <= done <= steps.len(),
        done <= longer.len(),
        longer.take(done) == steps.take(done),
        xml::same_while_it_lasts(buffer, steps, longer),
        scan_rest(scan, longer.skip(done), buffer + more) is Ok,
    ensures
        scan_rest(scan, steps.skip(done), buffer) is Ok,
    decreases steps.len() - done,
{
    if done < steps.len() {
        let step = steps[done];
        assert(steps.skip(done)[0] == step);
        assert(steps.skip(done).drop_first() =~= steps.skip(done + 1));
        if !xml::ran_out(buffer, step) {
            assert(longer.skip(done)[0] == longer[done]);
            assert(longer.skip(done).drop_first() =~= longer.skip(done + 1));
            if longer.take(done + 1) == steps.take(done + 1) {
                assert(longer.take(done + 1)[done] == steps.take(done + 1)[done]);
                text::lemma_longer_bytes(buffer, more);
                assert(more.len() == 0 ==> buffer + more =~= buffer);
                let (next, found) = scan.step(step.event, xml::read_out(buffer, step.position));
                if found is Continue {
                    lemma_scan_cut(next, steps, buffer, longer, more, done + 1);
                }
            } else {
                assert(steps.skip(done + 1)[0] == steps[done + 1]);
                assert(scan_rest(scan, steps.skip(done + 1), buffer) is Ok);
            }
        }
    }
}

/// How many elements are open behind some events.
pub open spec fn open_elements(steps: Seq<XmlStepView>) -> int
    decreases steps.len(),
{
    if steps.len() == 0 {
        0
    } else {
        open_elements(steps.drop_last()) + match steps.last().event {
            XmlEventView::Start(_) => 1int,
            XmlEventView::End(_) => -1int,
            _ => 0int,
        }
    }
}

/// Whether some events are those of one whole element with some name: its start
/// and its end, between which it stays open, or a self-closing tag.
pub open spec fn one_element(steps: Seq<XmlStepView>, name: Seq<char>) -> bool {
    &&& steps.len() > 0
    &&& match steps[0].event {
        XmlEventView::Empty(content) => steps.len() == 1 && name_of(content) == name,
        XmlEventView::Start(content) => {
            &&& name_of(content) == name
            &&& steps.last().event == XmlEventView::End(name)
            &&& open_elements(steps) == 0
            &&& forall|i: int| 0 < i < steps.len() ==> open_elements(#[trigger] steps.take(i)) > 0
        },
        _ => false,
    }
}

proof fn lemma_scan_is_one_element(
    scan: RootScanView,
    steps: Seq<XmlStepView>,
    buffer: Seq<char>,
    done: int,
) -> (last: int)
    requires
        0 < done <= steps.len(),
        scan_rest(scan, steps.skip(done), buffer) matches Ok(Some(_)),
        steps[0].event matches XmlEventView::Start(content) && scan.root_name == Some(
            name_of(content),
        ),
        scan.depth == open_elements(steps.take(done)),
        forall|i: int| 0 < i <= done ==> open_elements(#[trigger] steps.take(i)) > 0,
    ensures
        done <= last < steps.len(),
        Ok::<Option<nat>, Seq<char>>(Some(steps[last].position)) == scan_rest(
            scan,
            steps.skip(done),
            buffer,
        ),
        one_element(steps.take(last + 1), scan.root_name->Some_0),
    decreases steps.len() - done,
{
    assert(steps.skip(done)[0] == steps[done]);
    assert(steps.skip(done).drop_first() =~= steps.skip(done + 1));
    assert(steps.take(done + 1).drop_last() =~= steps.take(done));
    let (next, step) = scan.step(steps[done].event, xml::read_out(buffer, steps[done].position));
    if step is Complete {
        let whole = steps.take(done + 1);
        assert forall|i: int| 0 < i < whole.len() implies open_elements(#[trigger] whole.take(i))
            > 0 by {
            assert(whole.take(i) =~= steps.take(i));
        }
        done
    } else {
        lemma_scan_is_one_element(next, steps, buffer, done + 1)
    }
}

/// Whether the root element at the start of a text is one whole element with
/// some name, and its end is the event at some place.
pub open spec fn is_root(buffer: Seq<char>, last: int, name: Seq<char>) -> bool {
    let steps = xml::xml_steps(buffer);
    &&& 0 <= last < steps.len()
    &&& root_end(buffer) == Ok::<Option<nat>, Seq<char>>(Some(steps[last].position))
    &&& one_element(steps.take(last + 1), name)
}

/// What is taken for an element is one whole element of a known name at the
/// start of the text: an element inside it does not end it, whatever its name.
pub proof fn a_root_is_one_element(buffer: Seq<char>)
    requires
        root_end(buffer) matches Ok(Some(_)),
    ensures
        exists|last: int, name: Seq<char>| #[trigger]
            is_root(buffer, last, name) && supported_root(name),
{
    let steps = xml::xml_steps(buffer);
    let start = RootScanView::start();
    let (next, step) = start.step(steps[0].event, xml::read_out(buffer, steps[0].position));
    let name = match steps[0].event {
        XmlEventView::Start(content) | XmlEventView::Empty(content) => name_of(content),
        _ => Seq::empty(),
    };
    let last = if step is Complete {
        0
    } else {
        assert(steps.drop_first() =~= steps.skip(1));
        assert(steps.take(1).drop_last() =~= Seq::empty());
        assert(open_elements(steps.take(1).drop_last()) == 0);
        assert(open_elements(steps.take(1)) == 1);
        lemma_scan_is_one_element(next, steps, buffer, 1)
    };
    assert(is_root(buffer, last, name));
}

/// Tells whether a text ends with the first two characters of a comment or of
/// another declaration.
fn has_bang_at_end(buffer: &str) -> (bang: bool)
    ensures
        bang == xml::ends_in_bang(buffer@),
{
    let chars = text::chars_of(buffer);
    let len: usize = chars.len();
    len >= 2 && chars[len - 2] == '<' && chars[len - 1] == '!'
}

/// Finds the byte position behind the root element at the start of a text. What
/// is found is one whole element of a known name; what comes behind it does not
/// matter, and what is malformed stays so whatever comes behind it. A byte order
/// mark does not count for the position.
pub fn next_root_fragment_end(buffer: &str) -> (end: Result<Option<usize>, XmlInputError>)
    ensures
        match end {
            Ok(Some(end)) => root_end(buffer@) == Ok::<Option<nat>, Seq<char>>(Some(end as nat)),
            Ok(None) => root_end(buffer@) == Ok::<Option<nat>, Seq<char>>(None),
            Err(error) => root_end(buffer@) == Err::<Option<nat>, Seq<char>>(error@),
        },
        end matches Ok(Some(end)) ==> {
            &&& 0 < end <= encode_utf8(buffer@).len()
            &&& buffer@.contains('>')
            &&& exists|last: int, name: Seq<char>| #[trigger]
                is_root(buffer@, last, name) && supported_root(name)
            &&& !xml::marked(buffer@) ==> {
                &&& text::between_chars(buffer@, end as int)
                &&& forall|more: Seq<char>| #[trigger]
                    root_end(text::chars_between(buffer@, 0, end as int) + more) == root_end(
                        buffer@,
                    )
            }
        },
        end is Err && !xml::marked(buffer@) ==> forall|more: Seq<char>| #[trigger]
            root_end(buffer@ + more) is Err,
{
    let mut reader = xml::xml_reader(buffer);
    let mut scan = RootScan::new();
    let buffer_len: usize = buffer.as_bytes().len();
    let ghost steps = xml::xml_steps(buffer@);
    let ghost mut done: int = 0;
    assert(steps.skip(0) =~= steps);
    loop
        invariant
            buffer_len == encode_utf8(buffer@).len(),
            steps == xml::xml_steps(buffer@),
            xml::well_read(buffer@, steps),
            !xml::marked(buffer@) ==> {
                &&& forall|end: nat, more: Seq<char>|
                    xml::same_up_to_tag(
                        steps,
                        #[trigger] xml::xml_steps(
                            text::chars_between(buffer@, 0, end as int) + more,
                        ),
                        end,
                    )
                &&& forall|more: Seq<char>|
                    xml::same_while_it_lasts(
                        buffer@,
                        steps,
                        #[trigger] xml::xml_steps(buffer@ + more),
                    )
            },
            0 <= done < steps.len(),
            xml::pending_steps(reader) == steps.skip(done),
            scan.depth <= done,
            done > 0 ==> done <= steps[done - 1].position,
            root_end(buffer@) == scan_rest(scan@, steps.skip(done), buffer@),
        decreases steps.len() - done,
    {
        let ghost step = steps[done];
        assert(steps.skip(done)[0] == step);
        assert(steps.skip(done).drop_first() =~= steps.skip(done + 1));
        let event = xml::read_event(&mut reader);
        let position: u64 = xml::buffer_position(&reader);
        assert(!step.event.is_last() ==> done + 1 <= step.position <= buffer_len);
        assert(done > 0 ==> done <= buffer_len);
        let left_bang = position < buffer_len as u64 && buffer_len as u64 - position == 1
            && has_bang_at_end(buffer);
        let looked_at: u64 = if left_bang {
            buffer_len as u64
        } else {
            position
        };
        match scan.advance(&event, looked_at, buffer_len) {
            ScanStep::Continue => {},
            ScanStep::Complete => {
                assert forall|more: Seq<char>| !xml::marked(buffer@) implies #[trigger]
                    root_end(text::chars_between(buffer@, 0, position as int) + more) == root_end(
                        buffer@,
                    ) by {
                    let other = text::chars_between(buffer@, 0, position as nat as int) + more;
                    lemma_scan_same(
                        RootScanView::start(),
                        steps,
                        buffer@,
                        xml::xml_steps(other),
                        other,
                    );
                }
                proof {
                    assert(step.event.is_tag());
                    a_root_is_one_element(buffer@);
                }
                return Ok(Some(position as usize));
            },
            ScanStep::Incomplete => return Ok(None),
            ScanStep::Failed(error) => {
                assert forall|more: Seq<char>| !xml::marked(buffer@) implies #[trigger]
                    root_end(buffer@ + more) is Err by {
                    let longer = xml::xml_steps(buffer@ + more);
                    assert(steps.skip(0) =~= steps);
                    assert(longer.skip(0) =~= longer);
                    assert(longer.take(0) =~= steps.take(0));
                    if root_end(buffer@ + more) is Ok {
                        lemma_scan_cut(RootScanView::start(), steps, buffer@, longer, more, 0);
                    }
                }
                return Err(error);
            },
        }
        proof {
            done = done + 1;
        }
    }
}

/// Whether a tag opens or closes at a place of a text, judged by the character
/// behind the angle bracket.
pub open spec fn tag_at(raw: Seq<char>, at: int) -> bool {
    &&& 0 <= at < raw.len() - 1
    &&& raw[at] == '<'
    &&& {
        let c = raw[at + 1];
        'a' <= c <= 'z' || 'A' <= c <= 'Z' || c == '/' || c == '_'
    }
}

/// Whether, from a place of a text on, a tag stands outside character data.
pub open spec fn tag_from(raw: Seq<char>, at: int) -> bool
    decreases raw.len() - at,
{
    if at < 0 || at >= raw.len() {
        false
    } else if text::occurs_at(raw, at, "<![CDATA["@) {
        match text::first_at(raw, at, "]]>"@) {
            Some(end) => if at <= end <= raw.len() - 3 {
                tag_from(raw, end + 3)
            } else {
                false
            },
            None => false,
        }
    } else {
        tag_at(raw, at) || tag_from(raw, at + 1)
    }
}

/// Tells whether the content of a message holds a tag outside character data.
fn contains_nested_xml_markup(raw_inner_xml: &str) -> (nested: bool)
    ensures
        nested == tag_from(raw_inner_xml@, 0),
{
    let raw = text::chars_of(raw_inner_xml);
    let cdata_start = text::chars_of("<![CDATA[");
    let cdata_end = text::chars_of("]]>");
    proof {
        reveal_strlit("]]>");
    }
    let mut at: usize = 0;
    while at < raw.len()
        invariant
            raw@ == raw_inner_xml@,
            cdata_start@ == "<![CDATA["@,
            cdata_end@ == "]]>"@,
            cdata_end@.len() == 3,
            at <= raw@.len(),
            tag_from(raw@, 0) == tag_from(raw@, at as int),
        decreases raw@.len() - at,
    {
        if text::matches_at(&raw, at, &cdata_start) {
            match text::find_from(&raw, at, &cdata_end) {
                Some(end) => {
                    at = end + 3;
                },
                None => return false,
            }
        } else {
            if is_nested_xml_marker(&raw, at) {
                return true;
            }
            at += 1;
        }
    }
    false
}

/// Tells whether a tag opens or closes at a place of a text.
fn is_nested_xml_marker(raw: &Vec<char>, at: usize) -> (marker: bool)
    requires
        at < raw@.len(),
    ensures
        marker == tag_at(raw@, at as int),
{
    if raw[at] != '<' || raw.len() - at == 1 {
        return false;
    }
    let c = raw[at + 1];
    ('a' <= c && c <= 'z') || ('A' <= c && c <= 'Z') || c == '/' || c == '_'
}

/// The attributes of a message that matter.
#[verifier::ext_equal]
pub struct MessageAttributesView {
    pub message_type: Option<Seq<char>>,
    pub queue: Option<Seq<char>>,
}

/// The attributes of a message that matter.
#[derive(Clone, Debug, PartialEq, Eq)]
pub struct MessageAttributes {
    pub message_type: Option<String>,
    pub queue: Option<String>,
}

impl View for MessageAttributes {
    type V = MessageAttributesView;

    open spec fn view(&self) -> MessageAttributesView {
        MessageAttributesView {
            message_type: text::opt_text(self.message_type),
            queue: text::opt_text(self.queue),
        }
    }
}

/// What the attributes of a tag say: of each name the last value counts, and
/// nothing counts where an attribute cannot be read.
pub open spec fn message_attributes(attributes: Seq<XmlAttributeView>) -> Result<
    MessageAttributesView,
    Seq<char>,
>
    decreases attributes.len(),
{
    if attributes.len() == 0 {
        Ok(MessageAttributesView { message_type: None, queue: None })
    } else {
        match message_attributes(attributes.drop_last()) {
            Err(message) => Err(message),
            Ok(found) => match attributes.last() {
                XmlAttributeView::Invalid { message } => Err(
                    "failed to parse message attributes: "@ + message,
                ),
                XmlAttributeView::Valid { key, value } => Ok(
                    if key == "type"@ {
                        MessageAttributesView { message_type: Some(value), ..found }
                    } else if key == "queue"@ {
                        MessageAttributesView { queue: Some(value), ..found }
                    } else {
                        found
                    },
                ),
            },
        }
    }
}

/// A failure to read attributes stays one, whatever follows.
proof fn lemma_message_attributes_fail_early(attributes: Seq<XmlAttributeView>, at: int)
    requires
        0 <= at <= attributes.len(),
        message_attributes(attributes.take(at)) is Err,
    ensures
        message_attributes(attributes) == message_attributes(attributes.take(at)),
    decreases attributes.len(),
{
    if at == attributes.len() {
        assert(attributes.take(at) =~= attributes);
    } else {
        assert(attributes.drop_last().take(at) =~= attributes.take(at));
        lemma_message_attributes_fail_early(attributes.drop_last(), at);
    }
}

/// Picks the attributes of a message that matter.
pub fn pick_message_attributes(attributes: &Vec<XmlAttribute>) -> (picked: Result<
    MessageAttributes,
    XmlInputError,
>)
    ensures
        match picked {
            Ok(picked) => message_attributes(xml::attribute_views(attributes@)) == Ok::<
                MessageAttributesView,
                Seq<char>,
            >(picked@),
            Err(error) => message_attributes(xml::attribute_views(attributes@)) == Err::<
                MessageAttributesView,
                Seq<char>,
            >(error@),
        },
{
    let ghost all = xml::attribute_views(attributes@);
    let mut picked = MessageAttributes { message_type: None, queue: None };
    let mut i: usize = 0;
    assert(all.take(0) =~= Seq::empty());
    while i < attributes.len()
        invariant
            i <= attributes@.len(),
            all == xml::attribute_views(attributes@),
            all.len() == attributes@.len(),
            message_attributes(all.take(i as int)) == Ok::<MessageAttributesView, Seq<char>>(
                picked@,
            ),
        decreases attributes@.len() - i,
    {
        proof {
            assert(all.take(i + 1).drop_last() =~= all.take(i as int));
            assert(all.take(i + 1).last() == attributes@[i as int]@);
        }
        match &attributes[i] {
            XmlAttribute::Valid { key, value } => {
                if text::text_eq(key.as_str(), "type") {
                    picked.message_type = Some(value.clone());
                } else if text::text_eq(key.as_str(), "queue") {
                    picked.queue = Some(value.clone());
                }
            },
            XmlAttribute::Invalid { message } => {
                proof {
                    lemma_message_attributes_fail_early(all, i + 1);
                }
                return Err(
                    XmlInputError {
                        message: text::concat2(
                            "failed to parse message attributes: ",
                            message.as_str(),
                        ),
                    },
                );
            },
        }
        i += 1;
    }
    assert(all.take(i as int) =~= all);
    Ok(picked)
}

/// What the start tag of a message says.
pub open spec fn start_tag_attributes(start_tag: Seq<char>) -> Result<
    MessageAttributesView,
    Seq<char>,
> {
    match xml::xml_steps(start_tag)[0].event {
        XmlEventView::Start(content) => message_attributes(
            xml::xml_attributes(content, encode_utf8(name_of(content)).len()).map_values(
                |attribute: XmlAttributeView| xml::unescaped(attribute),
            ),
        ),
        XmlEventView::Failed { kind, message } => Err(
            "failed to parse message attributes: "@ + message,
        ),
        _ => Err("failed to parse message: expected opening message tag"@),
    }
}

/// The start of a text takes no more bytes than the text.
proof fn lemma_start_is_shorter(text: Seq<char>, count: int)
    requires
        0 <= count <= text.len(),
    ensures
        encode_utf8(text.take(count)).len() <= encode_utf8(text).len(),
    decreases text.len(),
{
    if count > 0 {
        lemma_start_is_shorter(text.drop_first(), count - 1);
        assert(text.take(count).drop_first() =~= text.drop_first().take(count - 1));
    } else {
        assert(encode_utf8(text.take(0)).len() == 0);
    }
}

/// A name is no longer than the tag that it stands in.
proof fn lemma_name_is_shorter(content: Seq<char>)
    ensures
        name_length(content) <= content.len(),
    decreases content.len(),
{
    if content.len() > 0 {
        lemma_name_is_shorter(content.drop_first());
    }
}

/// Reads the start tag of a message.
fn read_start_tag(start_tag: &str) -> (attributes: Result<MessageAttributes, XmlInputError>)
    ensures
        match attributes {
            Ok(attributes) => start_tag_attributes(start_tag@) == Ok::<
                MessageAttributesView,
                Seq<char>,
            >(attributes@),
            Err(error) => start_tag_attributes(start_tag@) == Err::<
                MessageAttributesView,
                Seq<char>,
            >(error@),
        },
{
    let mut reader = xml::xml_reader(start_tag);
    match xml::read_event(&mut reader) {
        XmlEvent::Start(content) => {
            let name_len: usize = tag_name(content.as_str()).as_bytes().len();
            proof {
                lemma_name_is_shorter(content@);
                lemma_start_is_shorter(content@, name_length(content@) as int);
            }
            let attributes = xml::tag_attributes(content.as_str(), name_len);
            pick_message_attributes(&xml::unescape_attributes(attributes))
        },
        XmlEvent::Failed { kind: _, message } => Err(
            XmlInputError {
                message: text::concat2("failed to parse message attributes: ", message.as_str()),
            },
        ),
        _ => Err(XmlInputError::new("failed to parse message: expected opening message tag")),
    }
}

/// What a message says before its text is read.
#[verifier::ext_equal]
pub struct MessageMetadataView {
    pub message_type: Seq<char>,
    pub queue: Option<Seq<char>>,
    pub raw_inner_xml: Seq<char>,
}

/// The type, the queue and the content of a message. The start tag ends with
/// the first closing angle bracket; the content ends with the last closing tag
/// behind it.
pub open spec fn message_metadata(fragment: Seq<char>) -> Result<MessageMetadataView, Seq<char>> {
    match text::first_at(fragment, 0, ">"@) {
        None => Err("failed to parse message: missing start tag"@),
        Some(start_tag_end) => {
            match text::last_at(fragment, fragment.len() as int, "</message>"@) {
                Some(close_tag_start) if start_tag_end < close_tag_start => {
                    match start_tag_attributes(fragment.take(start_tag_end + 1)) {
                        Err(message) => Err(message),
                        Ok(attributes) => match attributes.message_type {
                            None => Err("failed to parse message: missing type attribute"@),
                            Some(message_type) => Ok(
                                MessageMetadataView {
                                    message_type,
                                    queue: attributes.queue,
                                    raw_inner_xml: fragment.subrange(
                                        start_tag_end + 1,
                                        close_tag_start,
                                    ),
                                },
                            ),
                        },
                    }
                },
                _ => Err("failed to parse message: missing closing tag"@),
            }
        },
    }
}

/// Reads the type, the queue and the content of a message.
fn parse_message_fragment_metadata(fragment: &str) -> (metadata: Result<
    (String, Option<String>, String),
    XmlInputError,
>)
    ensures
        match metadata {
            Ok((message_type, queue, raw_inner_xml)) => message_metadata(fragment@) == Ok::<
                MessageMetadataView,
                Seq<char>,
            >(
                MessageMetadataView {
                    message_type: message_type@,
                    queue: text::opt_text(queue),
                    raw_inner_xml: raw_inner_xml@,
                },
            ),
            Err(error) => message_metadata(fragment@) == Err::<MessageMetadataView, Seq<char>>(
                error@,
            ),
        },
{
    let chars = text::chars_of(fragment);
    proof {
        reveal_strlit(">");
    }
    let start_tag_end: usize = match text::find_from(&chars, 0, &text::chars_of(">")) {
        Some(at) => at,
        None => return Err(XmlInputError::new("failed to parse message: missing start tag")),
    };
    let close_tag_start: usize = match text::find_last(&chars, &text::chars_of("</message>")) {
        Some(at) => at,
        None => return Err(XmlInputError::new("failed to parse message: missing closing tag")),
    };
    if close_tag_start <= start_tag_end {
        return Err(XmlInputError::new("failed to parse message: missing closing tag"));
    }
    let start_tag = fragment.substring_char(0, start_tag_end + 1);
    assert(start_tag@ =~= fragment@.take(start_tag_end + 1));
    let attributes = match read_start_tag(start_tag) {
        Ok(attributes) => attributes,
        Err(error) => return Err(error),
    };
    match attributes.message_type {
        None => Err(XmlInputError::new("failed to parse message: missing type attribute")),
        Some(message_type) => Ok(
            (
                message_type,
                attributes.queue,
                fragment.substring_char(start_tag_end + 1, close_tag_start).to_owned(),
            ),
        ),
    }
}

/// The name of an element without its prefix.
pub open spec fn local_name(name: Seq<char>) -> Seq<char> {
    match text::first_at(name, 0, ":"@) {
        Some(at) => name.skip(at + 1),
        None => name,
    }
}

/// Whether an element stands for the text of the element that it is in.
pub open spec fn names_text(content: Seq<char>) -> bool {
    local_name(name_of(content)) == "$text"@
}

/// Tells whether an element stands for the text of the element that it is in.
fn is_text_field(content: &str) -> (is: bool)
    ensures
        is == names_text(content@),
{
    let name = tag_name(content);
    let chars = text::chars_of(name);
    let colon = text::chars_of(":");
    proof {
        reveal_strlit(":");
    }
    match text::find_from(&chars, 0, &colon) {
        Some(at) => {
            let len: usize = chars.len();
            let local = name.substring_char(at + 1, len);
            assert(local@ =~= name@.skip(at + 1));
            text::text_eq(local, "$text")
        },
        None => text::text_eq(name, "$text"),
    }
}

/// How far the search for the text of an element has come: the depth, the byte
/// position at which the current run of text starts, the one read so far, and
/// the one at which a child element that stands for the text starts.
#[verifier::ext_equal]
pub struct TextScanView {
    pub depth: nat,
    pub from: nat,
    pub read: nat,
    pub field: Option<nat>,
}

/// What an event means for the search: the bounds of a run of text directly in
/// the element and of a child element that stands for the text, where they are
/// complete, and whether the element is.
#[verifier::ext_equal]
pub struct TextStepView {
    pub run: Option<(nat, nat)>,
    pub field: Option<(nat, nat)>,
    pub over: bool,
}

impl TextScanView {
    /// The search behind the start tag of an element.
    pub open spec fn behind_start_tag(position: nat) -> Self {
        TextScanView { depth: 1, from: position, read: position, field: None }
    }

    /// What an event means: child elements and document type declarations part
    /// the text of the element into runs.
    pub open spec fn step(self, event: XmlEventView, position: nat) -> (Self, TextStepView) {
        let deeper = (
            TextScanView { read: position, ..self },
            TextStepView { run: None, field: None, over: false },
        );
        let behind = TextScanView { from: position, read: position, ..self };
        let parted = TextStepView { run: Some((self.from, self.read)), field: None, over: false };
        match event {
            XmlEventView::Start(content) => if self.depth == 1 {
                (
                    TextScanView {
                        depth: 2,
                        field: if names_text(content) {
                            Some(self.read)
                        } else {
                            None
                        },
                        ..behind
                    },
                    parted,
                )
            } else {
                (TextScanView { depth: self.depth + 1, ..deeper.0 }, deeper.1)
            },
            XmlEventView::Empty(content) => if self.depth == 1 {
                (
                    behind,
                    TextStepView {
                        field: if names_text(content) {
                            Some((self.read, position))
                        } else {
                            None
                        },
                        ..parted
                    },
                )
            } else {
                deeper
            },
            XmlEventView::DocType => if self.depth == 1 {
                (behind, parted)
            } else {
                deeper
            },
            XmlEventView::End(_) => if self.depth <= 1 {
                (self, TextStepView { over: true, ..parted })
            } else if self.depth == 2 {
                (
                    TextScanView { depth: 1, field: None, ..behind },
                    TextStepView {
                        field: match self.field {
                            Some(start) => Some((start, position)),
                            None => None,
                        },
                        ..deeper.1
                    },
                )
            } else {
                (TextScanView { depth: (self.depth - 1) as nat, ..deeper.0 }, deeper.1)
            },
            XmlEventView::Other => deeper,
            XmlEventView::Eof | XmlEventView::Failed { .. } => (
                self,
                TextStepView { run: None, field: None, over: true },
            ),
        }
    }
}

/// How far the search for the text of an element has come.
#[derive(Clone, Copy, Debug, PartialEq, Eq)]
pub struct TextScan {
    pub depth: usize,
    pub from: usize,
    pub read: usize,
    pub field: Option<usize>,
}

/// What an event means for the search.
#[derive(Clone, Copy, Debug, PartialEq, Eq)]
pub struct TextStep {
    pub run: Option<(usize, usize)>,
    pub field: Option<(usize, usize)>,
    pub over: bool,
}

/// The bounds of a piece, as mathematical numbers.
pub open spec fn bounds(piece: Option<(usize, usize)>) -> Option<(nat, nat)> {
    match piece {
        Some((from, to)) => Some((from as nat, to as nat)),
        None => None,
    }
}

impl View for TextScan {
    type V = TextScanView;

    open spec fn view(&self) -> TextScanView {
        TextScanView {
            depth: self.depth as nat,
            from: self.from as nat,
            read: self.read as nat,
            field: match self.field {
                Some(start) => Some(start as nat),
                None => None,
            },
        }
    }
}

impl View for TextStep {
    type V = TextStepView;

    open spec fn view(&self) -> TextStepView {
        TextStepView { run: bounds(self.run), field: bounds(self.field), over: self.over }
    }
}

impl TextScan {
    /// Takes in one event, read up to `position`.
    pub fn advance(&mut self, event: &XmlEvent, position: usize) -> (step: TextStep)
        requires
            event is Start ==> old(self).depth < usize::MAX,
        ensures
            (final(self)@, step@) == old(self)@.step(event@, position as nat),
    {
        let run = Some((self.from, self.read));
        let start: usize = self.read;
        match event {
            XmlEvent::Start(content) => {
                let direct = self.depth == 1;
                self.depth = self.depth + 1;
                self.read = position;
                if direct {
                    self.from = position;
                    self.field = if is_text_field(content.as_str()) {
                        Some(start)
                    } else {
                        None
                    };
                    TextStep { run, field: None, over: false }
                } else {
                    TextStep { run: None, field: None, over: false }
                }
            },
            XmlEvent::Empty(content) => {
                self.read = position;
                if self.depth == 1 {
                    self.from = position;
                    let field = if is_text_field(content.as_str()) {
                        Some((start, position))
                    } else {
                        None
                    };
                    TextStep { run, field, over: false }
                } else {
                    TextStep { run: None, field: None, over: false }
                }
            },
            XmlEvent::DocType => {
                self.read = position;
                if self.depth == 1 {
                    self.from = position;
                    TextStep { run, field: None, over: false }
                } else {
                    TextStep { run: None, field: None, over: false }
                }
            },
            XmlEvent::End(_) => {
                if self.depth <= 1 {
                    return TextStep { run, field: None, over: true };
                }
                self.depth = self.depth - 1;
                self.read = position;
                if self.depth == 1 {
                    self.from = position;
                    let field = match self.field {
                        Some(start) => Some((start, position)),
                        None => None,
                    };
                    self.field = None;
                    TextStep { run: None, field, over: false }
                } else {
                    TextStep { run: None, field: None, over: false }
                }
            },
            XmlEvent::Other => {
                self.read = position;
                TextStep { run: None, field: None, over: false }
            },
            XmlEvent::Eof | XmlEvent::Failed { .. } => TextStep {
                run: None,
                field: None,
                over: true,
            },
        }
    }
}

/// The text of an element after one more piece: an element has at most one that
/// is not blank. `fault` says why the element cannot be read as far as that.
pub open spec fn text_with_piece(
    found: Option<Seq<char>>,
    piece: Result<Option<Seq<char>>, Seq<char>>,
    fault: Option<Seq<char>>,
) -> Result<Option<Seq<char>>, Seq<char>> {
    match (piece, fault) {
        (Ok(None), _) => Ok(found),
        (_, Some(message)) => Err(message),
        _ => if found is Some {
            Err("duplicate field `$text`"@)
        } else {
            piece
        },
    }
}

/// The text of an element once all pieces are known: an element has a text.
/// `fault` says why the element cannot be read.
pub open spec fn text_complete(found: Option<Seq<char>>, fault: Option<Seq<char>>) -> Result<
    Seq<char>,
    Seq<char>,
> {
    match (fault, found) {
        (Some(message), _) => Err(message),
        (None, Some(text)) => Ok(text),
        (None, None) => Err("missing field `$text`"@),
    }
}

/// Takes one more piece into the text of an element.
pub fn add_text_piece(
    found: Option<String>,
    piece: Result<Option<String>, String>,
    fault: Option<String>,
) -> (text: Result<Option<String>, String>)
    ensures
        xml::text_result(text) == text_with_piece(
            text::opt_text(found),
            xml::text_result(piece),
            text::opt_text(fault),
        ),
{
    match (piece, fault) {
        (Ok(None), _) => Ok(found),
        (_, Some(message)) => Err(message),
        (piece, None) => if found.is_some() {
            Err("duplicate field `$text`".to_owned())
        } else {
            piece
        },
    }
}

/// The outcome of reading the text of an element.
pub open spec fn element_text_result(text: Result<String, String>) -> Result<Seq<char>, Seq<char>> {
    match text {
        Ok(text) => Ok(text@),
        Err(message) => Err(message@),
    }
}

/// The text of an element whose pieces are all known.
pub fn complete_text(found: Option<String>, fault: Option<String>) -> (text: Result<
    String,
    String,
>)
    ensures
        element_text_result(text) == text_complete(text::opt_text(found), text::opt_text(fault)),
{
    match (fault, found) {
        (Some(message), _) => Err(message),
        (None, Some(text)) => Ok(text),
        (None, None) => Err("missing field `$text`".to_owned()),
    }
}

/// The text in a piece between two byte positions of an element.
pub open spec fn piece_text(fragment: Seq<char>, from: nat, to: nat) -> Result<
    Option<Seq<char>>,
    Seq<char>,
> {
    xml::xml_text(
        "<text>"@ + text::chars_between(fragment, from as int, to as int) + "</text>"@,
        "$text"@,
    )
}

/// Why an element with some name cannot be read up to a byte position, where it
/// cannot.
pub open spec fn fault_before(fragment: Seq<char>, name: Seq<char>, to: nat) -> Option<Seq<char>> {
    xml::xml_fault(text::chars_between(fragment, 0, to as int) + "</"@ + name + ">"@)
}

/// The text of an element after a run of text. It is read before it counts.
pub open spec fn text_with_run(
    fragment: Seq<char>,
    name: Seq<char>,
    found: Option<Seq<char>>,
    run: Option<(nat, nat)>,
) -> Result<Option<Seq<char>>, Seq<char>> {
    match run {
        Some((from, to)) => text_with_piece(
            found,
            piece_text(fragment, from, to),
            fault_before(fragment, name, to),
        ),
        None => Ok(found),
    }
}

/// The text of an element after a child element that stands for it. It counts
/// before it is read.
pub open spec fn text_with_field(
    fragment: Seq<char>,
    name: Seq<char>,
    found: Option<Seq<char>>,
    field: Option<(nat, nat)>,
) -> Result<Option<Seq<char>>, Seq<char>> {
    match field {
        Some((from, to)) => text_with_piece(
            found,
            piece_text(fragment, from, to),
            fault_before(fragment, name, from),
        ),
        None => Ok(found),
    }
}

/// The text of an element with some name, from the events that are still to
/// come.
pub open spec fn text_from(
    fragment: Seq<char>,
    name: Seq<char>,
    scan: TextScanView,
    found: Option<Seq<char>>,
    steps: Seq<XmlStepView>,
) -> Result<Seq<char>, Seq<char>>
    decreases steps.len(),
{
    if steps.len() == 0 {
        text_complete(found, xml::xml_fault(fragment))
    } else {
        let (next, step) = scan.step(steps[0].event, steps[0].position);
        match text_with_run(fragment, name, found, step.run) {
            Err(message) => Err(message),
            Ok(found) => match text_with_field(fragment, name, found, step.field) {
                Err(message) => Err(message),
                Ok(found) => if step.over {
                    text_complete(found, xml::xml_fault(fragment))
                } else {
                    text_from(fragment, name, next, found, steps.drop_first())
                },
            },
        }
    }
}

/// The text directly in the root element of a fragment.
pub open spec fn element_text(fragment: Seq<char>) -> Result<Seq<char>, Seq<char>> {
    let steps = xml::xml_steps(fragment);
    match steps[0].event {
        XmlEventView::Start(content) => text_from(
            fragment,
            name_of(content),
            TextScanView::behind_start_tag(steps[0].position),
            None,
            steps.drop_first(),
        ),
        _ => text_complete(None, xml::xml_fault(fragment)),
    }
}

/// Takes a piece between two byte positions of an element into its text, where
/// the element can be read up to a third.
fn read_piece(
    fragment: &str,
    name: &str,
    found: Option<String>,
    from: usize,
    to: usize,
    readable: usize,
) -> (text: Result<Option<String>, String>)
    requires
        text::between_chars(fragment@, from as int),
        text::between_chars(fragment@, to as int),
        text::between_chars(fragment@, readable as int),
        from <= to,
    ensures
        xml::text_result(text) == text_with_piece(
            text::opt_text(found),
            piece_text(fragment@, from as nat, to as nat),
            fault_before(fragment@, name@, readable as nat),
        ),
{
    let part = text::byte_range(fragment, from, to);
    let piece = xml::read_xml_text(text::concat3("<text>", part, "</text>").as_str(), "$text");
    if let Ok(None) = piece {
        return Ok(found);
    }
    let start = text::split_at_byte(fragment, readable).0;
    let mut document = text::concat3(start, "</", name);
    document.append(">");
    add_text_piece(found, piece, xml::find_xml_fault(document.as_str()))
}

/// Reads the text directly in the root element of a fragment that starts with a
/// tag.
fn read_element_text(fragment: &str) -> (text: Result<String, String>)
    requires
        fragment@.len() > 0,
        fragment@[0] == '<',
    ensures
        element_text_result(text) == element_text(fragment@),
{
    let mut reader = xml::xml_reader(fragment);
    let buffer_len: usize = fragment.as_bytes().len();
    let ghost steps = xml::xml_steps(fragment@);
    let root = match xml::read_event(&mut reader) {
        XmlEvent::Start(content) => content,
        _ => return complete_text(None, xml::find_xml_fault(fragment)),
    };
    let name = tag_name(root.as_str());
    assert(!steps[0].event.is_last());
    let position: usize = xml::buffer_position(&reader) as usize;
    let mut scan = TextScan { depth: 1, from: position, read: position, field: None };
    let mut found: Option<String> = None;
    let ghost mut done: int = 1;
    assert(steps.drop_first() =~= steps.skip(1));
    loop
        invariant
            fragment@.len() > 0,
            fragment@[0] == '<',
            buffer_len == encode_utf8(fragment@).len(),
            steps == xml::xml_steps(fragment@),
            xml::well_read(fragment@, steps),
            1 <= done < steps.len(),
            xml::pending_steps(reader) == steps.skip(done),
            1 <= scan.depth <= done,
            done <= steps[done - 1].position,
            scan.read == steps[done - 1].position,
            scan.from <= scan.read,
            text::between_chars(fragment@, scan.from as int),
            text::between_chars(fragment@, scan.read as int),
            scan.field matches Some(start) ==> start <= scan.read && text::between_chars(
                fragment@,
                start as int,
            ),
            element_text(fragment@) == text_from(
                fragment@,
                name@,
                scan@,
                text::opt_text(found),
                steps.skip(done),
            ),
        decreases steps.len() - done,
    {
        let ghost step = steps[done];
        assert(steps.skip(done)[0] == step);
        assert(steps.skip(done).drop_first() =~= steps.skip(done + 1));
        let event = xml::read_event(&mut reader);
        let read: u64 = xml::buffer_position(&reader);
        match event {
            XmlEvent::Eof | XmlEvent::Failed { .. } => {
                return complete_text(found, xml::find_xml_fault(fragment));
            },
            _ => {},
        }
        assert(!step.event.is_last());
        assert(steps[done - 1].position < step.position);
        let meant = scan.advance(&event, read as usize);
        if let Some((from, to)) = meant.run {
            match read_piece(fragment, name, found, from, to, to) {
                Err(message) => return Err(message),
                Ok(text) => {
                    found = text;
                },
            }
        }
        if let Some((from, to)) = meant.field {
            match read_piece(fragment, name, found, from, to, from) {
                Err(message) => return Err(message),
                Ok(text) => {
                    found = text;
                },
            }
        }
        if meant.over {
            return complete_text(found, xml::find_xml_fault(fragment));
        }
        proof {
            done = done + 1;
        }
    }
}

/// The state of an XML input parser: what is not yet parsed, and whether a
/// message has been seen.
#[verifier::ext_equal]
pub struct ParserView {
    pub buffer: Seq<char>,
    pub seen_message: bool,
}

/// The next complete element of a buffer, with what stays in the buffer: white
/// space before the element is dropped. An element is not empty.
pub open spec fn next_fragment(buffer: Seq<char>) -> (
    Seq<char>,
    Result<Option<Seq<char>>, Seq<char>>,
) {
    let buffer = text::trimmed_start(buffer);
    if buffer.len() == 0 {
        (buffer, Ok(None))
    } else if !supported_root_prefix(buffer) {
        (buffer, Err(unexpected_root()))
    } else {
        match root_end(buffer) {
            Ok(Some(end)) => {
                let rest = text::chars_between(
                    buffer,
                    end as int,
                    encode_utf8(buffer).len() as int,
                );
                if rest.len() < buffer.len() {
                    (rest, Ok(Some(text::chars_between(buffer, 0, end as int))))
                } else {
                    (buffer, Ok(None))
                }
            },
            Ok(None) => (buffer, Ok(None)),
            Err(message) => (buffer, Err(message)),
        }
    }
}

/// The queue mode that an attribute asks for.
pub open spec fn requested_mode(queue: Option<Seq<char>>) -> Result<QueueMode, Seq<char>> {
    match queue {
        None => Ok(QueueMode::Default),
        Some(queue) => match queue_mode::queue_mode_named(queue) {
            Some(queue_mode) => Ok(queue_mode),
            None => Err("unknown queue mode `"@ + queue + "`"@),
        },
    }
}

/// The text of a message: its content as it stands where it holds a tag, else
/// the text that it encodes.
pub open spec fn message_text(fragment: Seq<char>, raw_inner_xml: Seq<char>) -> Result<
    Seq<char>,
    Seq<char>,
> {
    if tag_from(raw_inner_xml, 0) {
        Ok(raw_inner_xml)
    } else {
        match element_text(fragment) {
            Ok(text) => Ok(text),
            Err(message) => Err("failed to parse message: "@ + message),
        }
    }
}

/// What an element says, with whether a message has been seen by then.
pub open spec fn parse_fragment(seen_message: bool, fragment: Seq<char>) -> (
    bool,
    Result<ParsedView, Seq<char>>,
) {
    if "<system_prompt>"@.is_prefix_of(fragment) {
        (
            seen_message,
            if seen_message {
                Err("system_prompt must appear before the first message"@)
            } else {
                match element_text(fragment) {
                    Ok(text) => Ok(ParsedView::SystemPrompt(text)),
                    Err(message) => Err("failed to parse system_prompt: "@ + message),
                }
            },
        )
    } else {
        match message_metadata(fragment) {
            Err(message) => (seen_message, Err(message)),
            Ok(metadata) => if metadata.message_type != "user"@ {
                (
                    seen_message,
                    Err("unsupported message type `"@ + metadata.message_type + "`"@),
                )
            } else {
                (
                    true,
                    match requested_mode(metadata.queue) {
                        Err(message) => Err(message),
                        Ok(queue_mode) => match message_text(fragment, metadata.raw_inner_xml) {
                            Err(message) => Err(message),
                            Ok(text) => Ok(ParsedView::Message(MessageView { queue_mode, text })),
                        },
                    },
                )
            },
        }
    }
}

/// What a parser finds next in its buffer.
#[verifier::ext_equal]
pub enum NextInputView {
    Parsed(ParsedView),
    Refused(Seq<char>),
    Malformed(Seq<char>),
    Incomplete,
}

impl ParserView {
    /// The state with more input in the buffer.
    pub open spec fn extended(self, more: Seq<char>) -> Self {
        ParserView { buffer: self.buffer + more, ..self }
    }

    /// Takes the next element out of the buffer. An element that is refused
    /// leaves the buffer too; malformed input stays.
    pub open spec fn next(self) -> (Self, NextInputView) {
        let (rest, next) = next_fragment(self.buffer);
        match next {
            Err(message) => (
                ParserView { buffer: rest, ..self },
                NextInputView::Malformed(message),
            ),
            Ok(None) => (ParserView { buffer: rest, ..self }, NextInputView::Incomplete),
            Ok(Some(fragment)) => {
                let (seen_message, parsed) = parse_fragment(self.seen_message, fragment);
                (
                    ParserView { buffer: rest, seen_message },
                    match parsed {
                        Ok(item) => NextInputView::Parsed(item),
                        Err(message) => NextInputView::Refused(message),
                    },
                )
            },
        }
    }

    /// Parses every complete element of the buffer, up to the first failure.
    pub open spec fn drained(self) -> (Self, Result<Seq<ParsedView>, Seq<char>>)
        decreases self.buffer.len(),
    {
        proof {
            text::lemma_trimmed_longer(self.buffer, Seq::empty());
        }
        match self.next() {
            (after, NextInputView::Parsed(item)) => behind(seq![item], after.drained()),
            (after, NextInputView::Refused(message) | NextInputView::Malformed(message)) => (
                after,
                Err(message),
            ),
            (after, NextInputView::Incomplete) => (after, Ok(Seq::empty())),
        }
    }
}

/// An outcome with earlier items before its own.
pub open spec fn behind(
    items: Seq<ParsedView>,
    outcome: (ParserView, Result<Seq<ParsedView>, Seq<char>>),
) -> (ParserView, Result<Seq<ParsedView>, Seq<char>>) {
    (
        outcome.0,
        match outcome.1 {
            Ok(more) => Ok(items + more),
            Err(message) => Err(message),
        },
    )
}

/// An outcome with no earlier items is the outcome itself.
proof fn lemma_behind_nothing(outcome: (ParserView, Result<Seq<ParsedView>, Seq<char>>))
    ensures
        behind(Seq::empty(), outcome) == outcome,
{
    if let Ok(items) = outcome.1 {
        assert(Seq::<ParsedView>::empty() + items =~= items);
    }
}

/// Items can be put before an outcome one part after the other.
proof fn lemma_behind_both(
    first: Seq<ParsedView>,
    second: Seq<ParsedView>,
    outcome: (ParserView, Result<Seq<ParsedView>, Seq<char>>),
)
    ensures
        behind(first, behind(second, outcome)) == behind(first + second, outcome),
{
    if let Ok(items) = outcome.1 {
        assert(first + (second + items) =~= (first + second) + items);
    }
}

/// White space at the start of the buffer does not matter.
proof fn lemma_drained_from_trimmed(state: ParserView, more: Seq<char>)
    ensures
        state.extended(more).drained() == (ParserView {
            buffer: text::trimmed_start(state.buffer),
            ..state
        }).extended(more).drained(),
{
    text::lemma_trimmed_longer(state.buffer, more);
    text::lemma_trimmed_longer(state.buffer + more, Seq::empty());
    text::lemma_trimmed_longer(text::trimmed_start(state.buffer) + more, Seq::empty());
}

/// The parsed items of a vector.
pub open spec fn parsed_items(items: Seq<ParsedXmlInput>) -> Seq<ParsedView> {
    items.map_values(|item: ParsedXmlInput| item@)
}

/// What a parser finds next in its buffer.
#[derive(Clone, Debug, PartialEq, Eq)]
pub enum NextInput {
    /// An element.
    Parsed(ParsedXmlInput),
    /// A complete element that says nothing valid; it has left the buffer.
    Refused(XmlInputError),
    /// Text that cannot become an element; it is still in the buffer.
    Malformed(XmlInputError),
    /// No element is complete.
    Incomplete,
}

impl View for NextInput {
    type V = NextInputView;

    open spec fn view(&self) -> NextInputView {
        match *self {
            NextInput::Parsed(item) => NextInputView::Parsed(item@),
            NextInput::Refused(error) => NextInputView::Refused(error@),
            NextInput::Malformed(error) => NextInputView::Malformed(error@),
            NextInput::Incomplete => NextInputView::Incomplete,
        }
    }
}

/// Parses a stream of XML elements that arrives in arbitrary pieces.
#[derive(Clone, Debug)]
pub struct XmlInputParser {
    pub buffer: String,
    pub seen_message: bool,
}

impl View for XmlInputParser {
    type V = ParserView;

    open spec fn view(&self) -> ParserView {
        ParserView { buffer: self.buffer@, seen_message: self.seen_message }
    }
}

impl Default for XmlInputParser {
    fn default() -> (parser: Self)
        ensures
            parser@ == (ParserView { buffer: Seq::empty(), seen_message: false }),
    {
        XmlInputParser { buffer: String::new(), seen_message: false }
    }
}

impl XmlInputParser {
    /// Takes in more input and hands out the elements that are complete. On
    /// malformed input nothing is handed out; an element that was read in full
    /// has then left the buffer. It does not matter where input is cut into
    /// pieces: what comes later gives what it would give together with this
    /// piece, and a piece fails only where it does whatever comes later.
    pub fn push(&mut self, input: &str) -> (parsed: Result<Vec<ParsedXmlInput>, XmlInputError>)
        ensures
            final(self)@.buffer.len() <= old(self)@.buffer.len() + input@.len(),
            ({
                let (state, outcome) = old(self)@.extended(input@).drained();
                &&& final(self)@ == state
                &&& match parsed {
                    Ok(items) => outcome == Ok::<Seq<ParsedView>, Seq<char>>(
                        parsed_items(items@),
                    ),
                    Err(error) => outcome == Err::<Seq<ParsedView>, Seq<char>>(error@),
                }
            }),
            parsed matches Ok(items) ==> forall|more: Seq<char>| #[trigger]
                old(self)@.extended(input@ + more).drained() == behind(
                    parsed_items(items@),
                    final(self)@.extended(more).drained(),
                ),
            parsed is Err ==> forall|more: Seq<char>|
                (#[trigger] old(self)@.extended(input@ + more).drained()).1 is Err,
    {
        self.buffer.append(input);
        let ghost start = self@;
        let mut parsed: Vec<ParsedXmlInput> = Vec::new();
        assert(parsed_items(parsed@) =~= Seq::empty());
        proof {
            lemma_behind_nothing(start.drained());
            assert forall|more: Seq<char>| #[trigger]
                start.extended(more).drained() == behind(
                    parsed_items(parsed@),
                    start.extended(more).drained(),
                ) by {
                lemma_behind_nothing(start.extended(more).drained());
            }
        }
        loop
            invariant
                start == old(self)@.extended(input@),
                self@.buffer.len() <= start.buffer.len(),
                start.drained() == behind(parsed_items(parsed@), self@.drained()),
                forall|more: Seq<char>| #[trigger]
                    start.extended(more).drained() == behind(
                        parsed_items(parsed@),
                        self@.extended(more).drained(),
                    ),
            decreases self@.buffer.len(),
        {
            let ghost before = self@;
            let ghost earlier = parsed_items(parsed@);
            match self.next_input() {
                NextInput::Parsed(item) => {
                    parsed.push(item);
                    proof {
                        let items = earlier + seq![item@];
                        assert(parsed_items(parsed@) =~= items);
                        lemma_behind_both(earlier, seq![item@], self@.drained());
                        assert forall|more: Seq<char>| #[trigger]
                            start.extended(more).drained() == behind(
                                items,
                                self@.extended(more).drained(),
                            ) by {
                            assert(before.extended(more).next() == (
                                self@.extended(more),
                                NextInputView::Parsed(item@),
                            ));
                            lemma_behind_both(
                                earlier,
                                seq![item@],
                                self@.extended(more).drained(),
                            );
                        }
                    }
                },
                NextInput::Refused(error) | NextInput::Malformed(error) => {
                    assert forall|more: Seq<char>|
                        (#[trigger] old(self)@.extended(input@ + more).drained()).1 is Err by {
                        assert(old(self)@.extended(input@ + more) =~= start.extended(more));
                        assert(!(before.extended(more).next().1 is Parsed));
                        assert(!(before.extended(more).next().1 is Incomplete));
                    }
                    return Err(error);
                },
                NextInput::Incomplete => {
                    assert(earlier + Seq::empty() =~= earlier);
                    assert forall|more: Seq<char>| #[trigger]
                        old(self)@.extended(input@ + more).drained() == behind(
                            earlier,
                            self@.extended(more).drained(),
                        ) by {
                        assert(old(self)@.extended(input@ + more) =~= start.extended(more));
                        lemma_drained_from_trimmed(before, more);
                    }
                    return Ok(parsed);
                },
            }
        }
    }

    /// Takes the next element out of the buffer. An element that is refused
    /// leaves the buffer too; malformed input stays. What comes behind the
    /// element, or behind malformed input, does not matter.
    pub fn next_input(&mut self) -> (next: NextInput)
        ensures
            (final(self)@, next@) == old(self)@.next(),
            final(self)@.buffer.len() <= old(self)@.buffer.len(),
            next is Parsed || next is Refused ==> final(self)@.buffer.len()
                < old(self)@.buffer.len() && forall|more: Seq<char>| #[trigger]
                old(self)@.extended(more).next() == (final(self)@.extended(more), next@),
            next is Malformed ==> forall|more: Seq<char>|
                (#[trigger] old(self)@.extended(more).next()).1 is Malformed,
    {
        let ghost before = self@;
        let fragment = match self.next_fragment() {
            Ok(Some(fragment)) => fragment,
            Ok(None) => return NextInput::Incomplete,
            Err(error) => {
                assert forall|more: Seq<char>|
                    (#[trigger] before.extended(more).next()).1 is Malformed by {
                    assert(next_fragment(before.buffer + more).1 is Err);
                }
                return NextInput::Malformed(error);
            },
        };
        let parsed = self.parse_fragment(fragment.as_str());
        assert forall|more: Seq<char>| #[trigger]
            before.extended(more).next() == (self@.extended(more), before.next().1) by {
            assert(next_fragment(before.buffer + more).1 is Ok);
        }
        match parsed {
            Ok(item) => NextInput::Parsed(item),
            Err(error) => NextInput::Refused(error),
        }
    }

    /// Ends the input: nothing but white space may be left.
    pub fn finish(&self) -> (finished: Result<(), XmlInputError>)
        ensures
            match finished {
                Ok(_) => text::trimmed_start(self@.buffer).len() == 0,
                Err(error) => text::trimmed_start(self@.buffer).len() > 0 && error@
                    == "incomplete XML stdin fragment"@,
            },
    {
        let chars = text::chars_of(self.buffer.as_str());
        let white: usize = text::count_leading_white(&chars, 0);
        assert(chars@.skip(0) =~= chars@);
        if white == chars.len() {
            Ok(())
        } else {
            Err(XmlInputError::new("incomplete XML stdin fragment"))
        }
    }

    /// Takes the next complete element out of the buffer.
    fn next_fragment(&mut self) -> (fragment: Result<Option<String>, XmlInputError>)
        ensures
            final(self).seen_message == old(self).seen_message,
            final(self)@.buffer == next_fragment(old(self)@.buffer).0,
            final(self)@.buffer.len() <= old(self)@.buffer.len(),
            match fragment {
                Ok(Some(fragment)) => {
                    &&& next_fragment(old(self)@.buffer).1 == Ok::<Option<Seq<char>>, Seq<char>>(
                        Some(fragment@),
                    )
                    &&& final(self)@.buffer.len() < old(self)@.buffer.len()
                    &&& fragment@.len() > 0 && fragment@[0] == '<'
                    &&& forall|more: Seq<char>| #[trigger]
                        next_fragment(old(self)@.buffer + more) == (
                            final(self)@.buffer + more,
                            Ok::<Option<Seq<char>>, Seq<char>>(Some(fragment@)),
                        )
                },
                Ok(None) => next_fragment(old(self)@.buffer).1 == Ok::<
                    Option<Seq<char>>,
                    Seq<char>,
                >(None),
                Err(error) => {
                    &&& next_fragment(old(self)@.buffer).1 == Err::<Option<Seq<char>>, Seq<char>>(
                        error@,
                    )
                    &&& forall|more: Seq<char>|
                        (#[trigger] next_fragment(old(self)@.buffer + more)).1 is Err
                },
            },
    {
        let chars = text::chars_of(self.buffer.as_str());
        let white: usize = text::count_leading_white(&chars, 0);
        assert(chars@.skip(0) =~= chars@);
        if white > 0 {
            self.buffer = self.buffer.as_str().substring_char(white, chars.len()).to_owned();
        }
        assert(self.buffer@ =~= text::trimmed_start(old(self)@.buffer));
        if self.buffer.as_str().is_empty() {
            return Ok(None);
        }
        let ghost buffer = self.buffer@;
        assert forall|more: Seq<char>|
            text::trimmed_start(#[trigger] (old(self)@.buffer + more)) == buffer + more by {
            text::lemma_trimmed_longer(old(self)@.buffer, more);
        }
        if !has_supported_root_prefix(self.buffer.as_str()) {
            assert forall|more: Seq<char>|
                (#[trigger] next_fragment(old(self)@.buffer + more)).1 is Err by {
                lemma_start_of_start("<system_prompt"@, buffer, more);
                lemma_start_of_start("<message"@, buffer, more);
            }
            return Err(XmlInputError::new("expected system_prompt or message XML fragment"));
        }
        proof {
            lemma_root_prefix_is_a_tag(buffer);
        }
        let end: usize = match next_root_fragment_end(self.buffer.as_str()) {
            Ok(Some(end)) => end,
            Ok(None) => return Ok(None),
            Err(error) => {
                assert forall|more: Seq<char>|
                    (#[trigger] next_fragment(old(self)@.buffer + more)).1 is Err by {
                    assert(root_end(buffer + more) is Err);
                }
                return Err(error);
            },
        };
        let parts = text::split_at_byte(self.buffer.as_str(), end);
        let fragment = parts.0.to_owned();
        let rest = parts.1.to_owned();
        proof {
            assert(buffer == fragment@ + rest@);
            assert((fragment@ + rest@)[0] == fragment@[0]);
            text::lemma_trimmed_longer(old(self)@.buffer, Seq::empty());
            assert forall|more: Seq<char>| #[trigger]
                next_fragment(old(self)@.buffer + more) == (
                    rest@ + more,
                    Ok::<Option<Seq<char>>, Seq<char>>(Some(fragment@)),
                ) by {
                text::lemma_trimmed_longer(old(self)@.buffer, more);
                lemma_root_prefix_longer(buffer, more);
                assert(buffer + more =~= fragment@ + (rest@ + more));
                assert(root_end(fragment@ + (rest@ + more)) == root_end(buffer));
                text::lemma_split_longer(buffer, more, end as int);
            }
        }
        self.buffer = rest;
        Ok(Some(fragment))
    }

    /// Reads one complete element.
    fn parse_fragment(&mut self, fragment: &str) -> (parsed: Result<ParsedXmlInput, XmlInputError>)
        requires
            fragment@.len() > 0,
            fragment@[0] == '<',
        ensures
            final(self)@.buffer == old(self)@.buffer,
            final(self).seen_message == parse_fragment(old(self).seen_message, fragment@).0,
            match parsed {
                Ok(item) => parse_fragment(old(self).seen_message, fragment@).1 == Ok::<
                    ParsedView,
                    Seq<char>,
                >(item@),
                Err(error) => parse_fragment(old(self).seen_message, fragment@).1 == Err::<
                    ParsedView,
                    Seq<char>,
                >(error@),
            },
    {
        if text::starts_with(fragment, "<system_prompt>") {
            if self.seen_message {
                return Err(
                    XmlInputError::new("system_prompt must appear before the first message"),
                );
            }
            return match read_element_text(fragment) {
                Ok(text) => Ok(ParsedXmlInput::SystemPrompt(text)),
                Err(message) => Err(
                    XmlInputError {
                        message: text::concat2("failed to parse system_prompt: ", message.as_str()),
                    },
                ),
            };
        }
        let (message_type, queue, raw_inner_xml) = match parse_message_fragment_metadata(fragment) {
            Ok(metadata) => metadata,
            Err(error) => return Err(error),
        };
        if !text::text_eq(message_type.as_str(), "user") {
            return Err(
                XmlInputError::quoting("unsupported message type `", message_type.as_str(), "`"),
            );
        }
        self.seen_message = true;
        let queue_mode = match queue {
            Some(queue) => match QueueMode::parse(queue.as_str()) {
                Ok(queue_mode) => queue_mode,
                Err(_) => return Err(
                    XmlInputError::quoting("unknown queue mode `", queue.as_str(), "`"),
                ),
            },
            None => QueueMode::Default,
        };
        let text = if contains_nested_xml_markup(raw_inner_xml.as_str()) {
            raw_inner_xml
        } else {
            match read_element_text(fragment) {
                Ok(text) => text,
                Err(message) => return Err(
                    XmlInputError {
                        message: text::concat2("failed to parse message: ", message.as_str()),
                    },
                ),
            }
        };
        Ok(ParsedXmlInput::Message(ParsedMessage { queue_mode, text }))
    }
}

/// The first place behind the first character, from `from` on, at which a known
/// element can start.
pub open spec fn next_root_start(buffer: Seq<char>, from: int) -> Option<int>
    decreases buffer.len() - from,
{
    if from < 0 || from >= buffer.len() {
        None
    } else if supported_root_prefix(buffer.skip(from)) {
        Some(from)
    } else {
        next_root_start(buffer, from + 1)
    }
}

/// Tells whether the text from a place on agrees with a pattern as far as both
/// go.
fn agrees_from(chars: &Vec<char>, at: usize, pattern: &Vec<char>) -> (agrees: bool)
    requires
        at <= chars@.len(),
    ensures
        agrees == (pattern@.is_prefix_of(chars@.skip(at as int)) || chars@.skip(
            at as int,
        ).is_prefix_of(pattern@)),
{
    let ghost rest = chars@.skip(at as int);
    let left: usize = chars.len() - at;
    let count: usize = if left < pattern.len() {
        left
    } else {
        pattern.len()
    };
    let mut i: usize = 0;
    while i < count
        invariant
            rest == chars@.skip(at as int),
            left == chars.len() - at,
            at <= chars.len(),
            count == if left < pattern@.len() {
                left as int
            } else {
                pattern@.len() as int
            },
            i <= count,
            forall|j: int| 0 <= j < i ==> rest[j] == pattern@[j],
        decreases count - i,
    {
        if chars[at + i] != pattern[i] {
            assert(rest[i as int] != pattern@[i as int]);
            assert(pattern@.len() <= rest.len() ==> rest.subrange(
                0,
                pattern@.len() as int,
            )[i as int] == rest[i as int]);
            assert(rest.len() <= pattern@.len() ==> pattern@.subrange(
                0,
                rest.len() as int,
            )[i as int] == pattern@[i as int]);
            return false;
        }
        i += 1;
    }
    assert(pattern@.len() <= rest.len() ==> pattern@ =~= rest.subrange(0, pattern@.len() as int));
    assert(rest.len() <= pattern@.len() ==> rest =~= pattern@.subrange(0, rest.len() as int));
    true
}

/// Finds the first place behind the first character at which a known element
/// can start.
fn find_next_root_start(buffer: &str) -> (found: Option<usize>)
    ensures
        match found {
            Some(at) => next_root_start(buffer@, 1) == Some(at as int) && 0 < at < buffer@.len(),
            None => next_root_start(buffer@, 1) is None,
        },
{
    let chars = text::chars_of(buffer);
    let prompt = text::chars_of("<system_prompt");
    let message = text::chars_of("<message");
    let mut at: usize = 1;
    while at < chars.len()
        invariant
            chars@ == buffer@,
            prompt@ == "<system_prompt"@,
            message@ == "<message"@,
            1 <= at,
            at <= chars@.len() || at == 1,
            next_root_start(buffer@, 1) == next_root_start(buffer@, at as int),
        decreases chars@.len() - at,
    {
        if agrees_from(&chars, at, &prompt) || agrees_from(&chars, at, &message) {
            return Some(at);
        }
        at += 1;
    }
    None
}

impl ParserView {
    /// The parser without the malformed start of its buffer: it goes on at the
    /// next place at which a known element can start, or with nothing.
    pub open spec fn resynchronized(self) -> (Self, bool) {
        match next_root_start(self.buffer, 1) {
            Some(at) => (ParserView { buffer: self.buffer.skip(at), ..self }, true),
            None => (ParserView { buffer: Seq::empty(), ..self }, false),
        }
    }
}

impl XmlInputParser {
    /// Drops the malformed start of the buffer, and tells whether something is
    /// left with which a known element can start.
    pub fn discard_malformed_prefix(&mut self) -> (kept: bool)
        ensures
            (final(self)@, kept) == old(self)@.resynchronized(),
    {
        match find_next_root_start(self.buffer.as_str()) {
            Some(at) => {
                let count: usize = self.buffer.as_str().unicode_len();
                self.buffer = self.buffer.as_str().substring_char(at, count).to_owned();
                assert(self@.buffer =~= old(self)@.buffer.skip(at as int));
                true
            },
            None => {
                self.buffer = String::new();
                false
            },
        }
    }
}

/// The message in a line that may start with the queue mode it wants. A mode
/// that is unknown counts as the default one.
pub open spec fn prefixed_message(input: Seq<char>) -> MessageView {
    let prefix = "CODEX_QUEUE_MODE="@;
    if !prefix.is_prefix_of(input) {
        MessageView { queue_mode: QueueMode::Default, text: input }
    } else {
        let rest = input.skip(prefix.len() as int);
        let word = text::leading_word(rest) as int;
        MessageView {
            queue_mode: match queue_mode::queue_mode_named(rest.take(word)) {
                Some(queue_mode) => queue_mode,
                None => QueueMode::Default,
            },
            text: if word < rest.len() {
                text::trimmed_start(rest.skip(word + 1))
            } else {
                Seq::empty()
            },
        }
    }
}

/// Reads a line that may start with the queue mode it wants.
pub fn parse_prefixed_message(input: &str) -> (message: ParsedMessage)
    ensures
        message@ == prefixed_message(input@),
{
    if !text::starts_with(input, "CODEX_QUEUE_MODE=") {
        return ParsedMessage { queue_mode: QueueMode::Default, text: input.to_owned() };
    }
    let chars = text::chars_of(input);
    let from: usize = "CODEX_QUEUE_MODE=".unicode_len();
    let word: usize = text::count_leading_word(&chars, from);
    assert(from + word <= chars.len());
    let mode = input.substring_char(from, from + word);
    let ghost rest = input@.skip(from as int);
    assert(mode@ =~= rest.take(word as int));
    let queue_mode = match QueueMode::parse(mode) {
        Ok(queue_mode) => queue_mode,
        Err(_) => QueueMode::Default,
    };
    if from + word == chars.len() {
        return ParsedMessage { queue_mode, text: String::new() };
    }
    let behind: usize = from + word + 1;
    let white: usize = text::count_leading_white(&chars, behind);
    assert(rest.skip(word + 1) =~= input@.skip(behind as int));
    let text = input.substring_char(behind + white, chars.len());
    assert(text@ =~= text::trimmed_start(rest.skip(word + 1)));
    ParsedMessage { queue_mode, text: text.to_owned() }
}

/// Once a message has been seen, a parser has seen one for good.
pub proof fn a_seen_message_stays_seen(state: ParserView)
    requires
        state.seen_message,
    ensures
        state.drained().0.seen_message,
    decreases state.buffer.len(),
{
    text::lemma_trimmed_longer(state.buffer, Seq::empty());
    if let (after, NextInputView::Parsed(_)) = state.next() {
        a_seen_message_stays_seen(after);
    }
}

/// Once a message has been seen, no system prompt comes out.
pub proof fn no_system_prompt_behind_a_message(state: ParserView)
    requires
        state.seen_message,
    ensures
        match state.drained().1 {
            Ok(items) => forall|i: int| 0 <= i < items.len() ==> (#[trigger] items[i]) is Message,
            Err(_) => true,
        },
    decreases state.buffer.len(),
{
    text::lemma_trimmed_longer(state.buffer, Seq::empty());
    if let (after, NextInputView::Parsed(_)) = state.next() {
        no_system_prompt_behind_a_message(after);
    }
}

/// A system prompt behind a message is refused with its own error.
pub proof fn a_late_system_prompt_is_refused(fragment: Seq<char>)
    requires
        "<system_prompt>"@.is_prefix_of(fragment),
    ensures
        parse_fragment(true, fragment) == (
            true,
            Err::<ParsedView, Seq<char>>("system_prompt must appear before the first message"@),
        ),
{
}

/// A message that comes out has the mode of its queue attribute, and a parser
/// that has handed out a message has seen one.
pub proof fn a_parsed_message_is_seen(seen_message: bool, fragment: Seq<char>)
    ensures
        parse_fragment(seen_message, fragment).1 matches Ok(ParsedView::Message(message)) ==> {
            &&& parse_fragment(seen_message, fragment).0
            &&& message_metadata(fragment) matches Ok(metadata)
            &&& metadata.message_type == "user"@
            &&& requested_mode(metadata.queue) == Ok::<QueueMode, Seq<char>>(message.queue_mode)
        },
{
}

/// Markup inside a message is handed on as it stands: where the content holds a
/// tag, the text of the message is what stands between its start tag and its
/// closing tag.
pub proof fn inner_markup_is_kept(seen_message: bool, fragment: Seq<char>)
    requires
        parse_fragment(seen_message, fragment).1 matches Ok(ParsedView::Message(_)),
        tag_from(message_metadata(fragment)->Ok_0.raw_inner_xml, 0),
    ensures
        ({
            let text = parse_fragment(seen_message, fragment).1->Ok_0->Message_0.text;
            let start_tag_end = text::first_at(fragment, 0, ">"@)->Some_0;
            let close_tag_start = text::last_at(
                fragment,
                fragment.len() as int,
                "</message>"@,
            )->Some_0;
            text == fragment.subrange(start_tag_end + 1, close_tag_start)
        }),
{
}

/// White space alone parses to nothing, leaves an empty buffer and finishes.
pub proof fn white_space_is_no_input(state: ParserView)
    requires
        forall|i: int|
            0 <= i < state.buffer.len() ==> text::white_space(#[trigger] state.buffer[i]),
    ensures
        text::trimmed_start(state.buffer).len() == 0,
        state.drained() == (
            ParserView { buffer: Seq::empty(), ..state },
            Ok::<Seq<ParsedView>, Seq<char>>(Seq::empty()),
        ),
{
    text::lemma_leading_white(state.buffer);
    assert(text::trimmed_start(state.buffer) =~= Seq::empty());
}

/// Dropping a malformed start leaves nothing, or a shorter end of the buffer
/// with which a known element can start; what has been seen stays seen.
pub proof fn resynchronizing_makes_progress(state: ParserView)
    ensures
        ({
            let (after, kept) = state.resynchronized();
            &&& after.seen_message == state.seen_message
            &&& kept ==> after.buffer.len() < state.buffer.len() && after.buffer.len() > 0
                && supported_root_prefix(after.buffer) && after.buffer == state.buffer.skip(
                state.buffer.len() - after.buffer.len(),
            )
            &&& !kept ==> after.buffer.len() == 0
        }),
{
    lemma_next_root_start(state.buffer, 1);
}

/// No place before the one found is one at which a known element can start.
pub proof fn nothing_valid_is_dropped(state: ParserView, at: int)
    requires
        0 < at < state.buffer.len(),
        supported_root_prefix(state.buffer.skip(at)),
    ensures
        state.resynchronized().1,
        state.buffer.len() - at <= state.resynchronized().0.buffer.len(),
{
    lemma_next_root_start_is_first(state.buffer, 1, at);
    lemma_next_root_start(state.buffer, 1);
}

proof fn lemma_next_root_start(buffer: Seq<char>, from: int)
    requires
        0 <= from,
    ensures
        next_root_start(buffer, from) matches Some(at) ==> from <= at < buffer.len()
            && supported_root_prefix(buffer.skip(at)),
    decreases buffer.len() - from,
{
    if from < buffer.len() && !supported_root_prefix(buffer.skip(from)) {
        lemma_next_root_start(buffer, from + 1);
    }
}

proof fn lemma_next_root_start_is_first(buffer: Seq<char>, from: int, at: int)
    requires
        0 <= from <= at < buffer.len(),
        supported_root_prefix(buffer.skip(at)),
    ensures
        next_root_start(buffer, from) matches Some(first) && first <= at,
    decreases at - from,
{
    if !supported_root_prefix(buffer.skip(from)) {
        lemma_next_root_start_is_first(buffer, from + 1, at);
    }
}

} // verus!
