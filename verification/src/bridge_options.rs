//! The options of the bridge program and the rules that they must meet.

use vstd::prelude::*;

use crate::protocol::{ApprovalsReviewer, AskForApproval};
use crate::sideband;
use crate::sideband::{NamedFd, ThreadResolvedPayload};
use crate::text;
use crate::turn_client::ThreadSessionRequest;

verus! {

/// How the standard input is read.
#[derive(Clone, Copy, Debug, PartialEq, Eq, Structural)]
pub enum StdinFormat {
    Raw,
    Xml,
}

impl Default for StdinFormat {
    fn default() -> (format: Self)
        ensures
            format == StdinFormat::Raw,
    {
        StdinFormat::Raw
    }
}

/// The options of the bridge program. Paths are kept as they are shown.
#[derive(Clone, Debug, PartialEq, Eq)]
pub struct BridgeOptions {
    pub config_overrides: Vec<String>,
    pub codex_bin: String,
    pub thread_id: Option<String>,
    pub approval_policy: String,
    pub model: Option<String>,
    pub cwd: Option<String>,
    pub approvals_reviewer: Option<String>,
    pub system_prompt: Option<String>,
    pub thread_id_fd: Option<i32>,
    pub xml_input_fd: Option<i32>,
    pub server_request_events_fd: Option<i32>,
    pub server_request_responses_fd: Option<i32>,
    pub control_events_fd: Option<i32>,
    pub control_responses_fd: Option<i32>,
    pub stdin_format: StdinFormat,
    pub chunk_quiescence_ms: u64,
}

/// The approval policy of a name.
pub open spec fn policy_named(value: Seq<char>) -> Option<AskForApproval> {
    if value == "untrusted"@ || value == "unless-trusted"@ || value == "unlessTrusted"@ {
        Some(AskForApproval::UnlessTrusted)
    } else if value == "on-failure"@ || value == "onFailure"@ {
        Some(AskForApproval::OnFailure)
    } else if value == "on-request"@ || value == "onRequest"@ {
        Some(AskForApproval::OnRequest)
    } else if value == "never"@ {
        Some(AskForApproval::Never)
    } else {
        None
    }
}

/// Reads the name of an approval policy.
pub fn parse_approval_policy(value: &str) -> (policy: Result<AskForApproval, String>)
    ensures
        match policy {
            Ok(policy) => policy_named(value@) == Some(policy),
            Err(message) => policy_named(value@) is None && message@
                == "unknown approval policy: "@ + value@
                + ". Expected one of: untrusted, on-failure, on-request, never"@,
        },
{
    if text::text_eq(value, "untrusted") || text::text_eq(value, "unless-trusted") || text::text_eq(
        value,
        "unlessTrusted",
    ) {
        Ok(AskForApproval::UnlessTrusted)
    } else if text::text_eq(value, "on-failure") || text::text_eq(value, "onFailure") {
        Ok(AskForApproval::OnFailure)
    } else if text::text_eq(value, "on-request") || text::text_eq(value, "onRequest") {
        Ok(AskForApproval::OnRequest)
    } else if text::text_eq(value, "never") {
        Ok(AskForApproval::Never)
    } else {
        Err(
            text::concat3(
                "unknown approval policy: ",
                value,
                ". Expected one of: untrusted, on-failure, on-request, never",
            ),
        )
    }
}

/// Who decides on approvals, by name. The guardian is another name for the
/// automatic decision.
pub open spec fn reviewer_named(value: Seq<char>) -> Option<ApprovalsReviewer> {
    if value == "user"@ {
        Some(ApprovalsReviewer::User)
    } else if value == "auto_review"@ || value == "auto-review"@ || value == "guardian_subagent"@
        || value == "guardian-subagent"@ {
        Some(ApprovalsReviewer::AutoReview)
    } else {
        None
    }
}

/// Reads the name of who decides on approvals.
pub fn parse_approvals_reviewer(value: &str) -> (reviewer: Result<ApprovalsReviewer, String>)
    ensures
        match reviewer {
            Ok(reviewer) => reviewer_named(value@) == Some(reviewer),
            Err(message) => reviewer_named(value@) is None && message@
                == "unknown approvals_reviewer: "@ + value@
                + ". Expected one of: user, auto_review, guardian_subagent"@,
        },
{
    if text::text_eq(value, "user") {
        Ok(ApprovalsReviewer::User)
    } else if text::text_eq(value, "auto_review") || text::text_eq(value, "auto-review")
        || text::text_eq(value, "guardian_subagent") || text::text_eq(value, "guardian-subagent") {
        Ok(ApprovalsReviewer::AutoReview)
    } else {
        Err(
            text::concat3(
                "unknown approvals_reviewer: ",
                value,
                ". Expected one of: user, auto_review, guardian_subagent",
            ),
        )
    }
}

/// Checks that a descriptor for XML input comes with XML input.
pub fn validate_xml_input_mode(options: &BridgeOptions) -> (checked: Result<(), String>)
    ensures
        match checked {
            Ok(_) => options.xml_input_fd is None || options.stdin_format == StdinFormat::Xml,
            Err(message) => options.xml_input_fd is Some && options.stdin_format
                != StdinFormat::Xml && message@ == "--xml-input-fd requires --stdin-format xml"@,
        },
{
    if options.xml_input_fd.is_some() && options.stdin_format != StdinFormat::Xml {
        return Err("--xml-input-fd requires --stdin-format xml".to_owned());
    }
    Ok(())
}

/// Whether any descriptor besides the standard ones is used.
pub open spec fn uses_descriptors(options: BridgeOptions) -> bool {
    options.xml_input_fd is Some || options.thread_id_fd is Some
        || options.server_request_events_fd is Some || options.server_request_responses_fd is Some
        || options.control_events_fd is Some || options.control_responses_fd is Some
}

/// Checks that the platform has the descriptors that are used; `unix` tells
/// whether it does.
pub fn validate_sideband_platform_support(options: &BridgeOptions, unix: bool) -> (checked: Result<
    (),
    String,
>)
    ensures
        match checked {
            Ok(_) => unix || !uses_descriptors(*options),
            Err(message) => !unix && uses_descriptors(*options) && message@
                == "bridge sideband FDs are only supported on Unix targets"@,
        },
{
    if !unix && (options.xml_input_fd.is_some() || options.thread_id_fd.is_some()
        || options.server_request_events_fd.is_some()
        || options.server_request_responses_fd.is_some() || options.control_events_fd.is_some()
        || options.control_responses_fd.is_some()) {
        return Err("bridge sideband FDs are only supported on Unix targets".to_owned());
    }
    Ok(())
}

/// The descriptors of the options, each under its name.
pub open spec fn sideband_fds(options: BridgeOptions) -> Seq<NamedFd<'static>> {
    seq![
        NamedFd { name: "xml-input-fd", fd: options.xml_input_fd },
        NamedFd { name: "thread-id-fd", fd: options.thread_id_fd },
        NamedFd { name: "server-request-events-fd", fd: options.server_request_events_fd },
        NamedFd { name: "server-request-responses-fd", fd: options.server_request_responses_fd },
        NamedFd { name: "control-events-fd", fd: options.control_events_fd },
        NamedFd { name: "control-responses-fd", fd: options.control_responses_fd },
    ]
}

/// Checks that no descriptor serves two options.
pub fn validate_unique_sideband_fds(options: &BridgeOptions) -> (checked: Result<(), String>)
    ensures
        match (checked, sideband::shared_fd(sideband_fds(*options))) {
            (Ok(_), None) => true,
            (Err(message), Some(places)) => message@ == sideband::shared_fd_message(
                sideband_fds(*options),
                places,
                "use distinct sideband file descriptors"@,
            ),
            _ => false,
        },
{
    let mut entries: Vec<NamedFd<'static>> = Vec::new();
    entries.push(NamedFd { name: "xml-input-fd", fd: options.xml_input_fd });
    entries.push(NamedFd { name: "thread-id-fd", fd: options.thread_id_fd });
    entries.push(
        NamedFd { name: "server-request-events-fd", fd: options.server_request_events_fd },
    );
    entries.push(
        NamedFd { name: "server-request-responses-fd", fd: options.server_request_responses_fd },
    );
    entries.push(NamedFd { name: "control-events-fd", fd: options.control_events_fd });
    entries.push(NamedFd { name: "control-responses-fd", fd: options.control_responses_fd });
    assert(entries@ =~= sideband_fds(*options));
    sideband::check_unique_fds(&entries, "use distinct sideband file descriptors")
}

/// The descriptor from which responses to requests of the server are read, as
/// far as the options allow one.
pub open spec fn response_lane(options: BridgeOptions, has_request_event_sink: bool) -> Result<
    Option<i32>,
    Seq<char>,
> {
    match (options.server_request_responses_fd, options.control_responses_fd) {
        (Some(_), Some(_)) => Err(
            "--server-request-responses-fd and --control-responses-fd are mutually exclusive"@,
        ),
        (None, None) => Ok(None),
        (Some(fd), None) | (None, Some(fd)) => if has_request_event_sink {
            Ok(Some(fd))
        } else {
            Err(
                "a sideband response fd requires either --server-request-events-fd or --control-events-fd"@,
            )
        },
    }
}

/// Picks the descriptor from which responses to requests of the server are
/// read. Only one may be given, and only where the requests are told.
pub fn choose_response_fd(options: &BridgeOptions, has_request_event_sink: bool) -> (lane: Result<
    Option<i32>,
    String,
>)
    ensures
        match lane {
            Ok(fd) => response_lane(*options, has_request_event_sink) == Ok::<
                Option<i32>,
                Seq<char>,
            >(fd),
            Err(message) => response_lane(*options, has_request_event_sink) == Err::<
                Option<i32>,
                Seq<char>,
            >(message@),
        },
{
    match (options.server_request_responses_fd, options.control_responses_fd) {
        (Some(_), Some(_)) => Err(
            "--server-request-responses-fd and --control-responses-fd are mutually exclusive".to_owned(),
        ),
        (None, None) => Ok(None),
        (Some(fd), None) | (None, Some(fd)) => {
            if has_request_event_sink {
                Ok(Some(fd))
            } else {
                Err(
                    "a sideband response fd requires either --server-request-events-fd or --control-events-fd".to_owned(),
                )
            }
        },
    }
}

/// What is asked of the thread: the options, and the system prompt from the
/// option or from the XML input, but not from both.
pub fn thread_session_request_from_cli(
    options: &BridgeOptions,
    approval_policy: AskForApproval,
    approvals_reviewer: Option<ApprovalsReviewer>,
    xml_system_prompt: Option<String>,
) -> (request: Result<ThreadSessionRequest, String>)
    ensures
        match request {
            Ok(request) => {
                &&& options.system_prompt is None || xml_system_prompt is None
                &&& text::opt_text(request.thread_id) == text::opt_text(options.thread_id)
                &&& text::opt_text(request.model) == text::opt_text(options.model)
                &&& text::opt_text(request.cwd) == text::opt_text(options.cwd)
                &&& request.approval_policy == Some(approval_policy)
                &&& request.approvals_reviewer == approvals_reviewer
                &&& text::opt_text(request.base_instructions) == if options.system_prompt is Some {
                    text::opt_text(options.system_prompt)
                } else {
                    text::opt_text(xml_system_prompt)
                }
            },
            Err(message) => options.system_prompt is Some && xml_system_prompt is Some && message@
                == "system prompt provided by both --system-prompt and XML stdin"@,
        },
{
    if options.system_prompt.is_some() && xml_system_prompt.is_some() {
        return Err("system prompt provided by both --system-prompt and XML stdin".to_owned());
    }
    let base_instructions = if options.system_prompt.is_some() {
        text::opt_clone(&options.system_prompt)
    } else {
        xml_system_prompt
    };
    Ok(
        ThreadSessionRequest {
            thread_id: text::opt_clone(&options.thread_id),
            model: text::opt_clone(&options.model),
            cwd: text::opt_clone(&options.cwd),
            approval_policy: Some(approval_policy),
            approvals_reviewer,
            base_instructions,
        },
    )
}

/// The identifier of the request for the thread.
pub fn thread_request_id(options: &BridgeOptions) -> (id: &'static str)
    ensures
        id@ == if options.thread_id is Some {
            "thread-resume"@
        } else {
            "thread-start"@
        },
{
    if options.thread_id.is_some() {
        "thread-resume"
    } else {
        "thread-start"
    }
}

/// What is told of the thread once it is known: a thread that was named was
/// resumed, any other was started.
pub fn thread_resolved(options: &BridgeOptions, thread_id: &str) -> (payload: ThreadResolvedPayload)
    ensures
        payload.thread_id@ == thread_id@,
        payload.source@ == if options.thread_id is Some {
            "resumed"@
        } else {
            "started"@
        },
{
    if options.thread_id.is_some() {
        ThreadResolvedPayload::resumed(thread_id)
    } else {
        ThreadResolvedPayload::started(thread_id)
    }
}

} // verus!
