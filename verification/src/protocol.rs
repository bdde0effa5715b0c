//! The app server's protocol, as far as the bridge reads or writes it. JSON
//! payloads that are only handed on are kept as JSON text.

use vstd::prelude::*;

use crate::text;

verus! {

/// Identifies a request in both directions.
#[derive(Debug, PartialEq, Eq)]
pub enum RequestId {
    String(String),
    Integer(i64),
}

/// Identifies a request, as mathematical text.
#[verifier::ext_equal]
pub enum RequestIdView {
    String(Seq<char>),
    Integer(i64),
}

impl View for RequestId {
    type V = RequestIdView;

    open spec fn view(&self) -> RequestIdView {
        match *self {
            RequestId::String(text) => RequestIdView::String(text@),
            RequestId::Integer(number) => RequestIdView::Integer(number),
        }
    }
}

impl Clone for RequestId {
    fn clone(&self) -> (copy: Self)
        ensures
            copy == *self,
    {
        match self {
            RequestId::String(text) => RequestId::String(text.clone()),
            RequestId::Integer(number) => RequestId::Integer(*number),
        }
    }
}

impl RequestId {
    /// Tells whether two identifiers are the same.
    pub fn same(&self, other: &RequestId) -> (same: bool)
        ensures
            same == (self@ == other@),
    {
        match (self, other) {
            (RequestId::String(left), RequestId::String(right)) => text::text_eq(
                left.as_str(),
                right.as_str(),
            ),
            (RequestId::Integer(left), RequestId::Integer(right)) => *left == *right,
            _ => false,
        }
    }

    /// The identifier as text: a string as it stands, an integer in decimal.
    pub fn to_string(&self) -> (shown: String)
        ensures
            shown@ == self@.shown(),
    {
        match self {
            RequestId::String(text) => text.clone(),
            RequestId::Integer(number) => text::decimal_i64(*number),
        }
    }

    /// The identifier as a diagnostic shows it, with its variant.
    pub fn to_debug_string(&self) -> (shown: String)
        ensures
            shown@ == self@.debug_shown(),
    {
        match self {
            RequestId::String(text) => {
                text::concat3("String(", text::debug_text(text.as_str()).as_str(), ")")
            },
            RequestId::Integer(number) => {
                text::concat3("Integer(", text::decimal_i64(*number).as_str(), ")")
            },
        }
    }
}

impl RequestIdView {
    /// The identifier as text.
    pub open spec fn shown(self) -> Seq<char> {
        match self {
            RequestIdView::String(text) => text,
            RequestIdView::Integer(number) => text::decimal_int(number as int),
        }
    }

    /// The identifier as a diagnostic shows it.
    pub open spec fn debug_shown(self) -> Seq<char> {
        match self {
            RequestIdView::String(text) => "String("@ + text::debug_form(text) + ")"@,
            RequestIdView::Integer(number) => "Integer("@ + text::decimal_int(number as int) + ")"@,
        }
    }
}

/// The error part of a JSON-RPC error message.
#[derive(Debug, PartialEq, Eq)]
pub struct JSONRPCErrorError {
    pub code: i64,
    pub message: String,
    /// Further details, as JSON text.
    pub data: Option<String>,
}

/// The error part of a JSON-RPC error message, as mathematical text.
#[verifier::ext_equal]
pub struct ErrorView {
    pub code: int,
    pub message: Seq<char>,
    pub data: Option<Seq<char>>,
}

impl View for JSONRPCErrorError {
    type V = ErrorView;

    open spec fn view(&self) -> ErrorView {
        ErrorView { code: self.code as int, message: self.message@, data: text::opt_text(self.data) }
    }
}

impl Clone for JSONRPCErrorError {
    fn clone(&self) -> (copy: Self)
        ensures
            copy == *self,
    {
        JSONRPCErrorError {
            code: self.code,
            message: self.message.clone(),
            data: text::opt_clone(&self.data),
        }
    }
}

impl ErrorView {
    /// An error without further details.
    pub open spec fn plain(code: int, message: Seq<char>) -> Self {
        ErrorView { code, message, data: None }
    }
}

/// Who reviews what the agent asks for.
#[derive(Clone, Copy, Debug, PartialEq, Eq, Structural)]
pub enum ApprovalsReviewer {
    User,
    AutoReview,
    GuardianSubagent,
}

/// When the agent asks for approval.
#[derive(Clone, Copy, Debug, PartialEq, Eq, Structural)]
pub enum AskForApproval {
    UnlessTrusted,
    OnFailure,
    OnRequest,
    Never,
}

/// Whether a thread has a turn under way.
#[derive(Clone, Copy, Debug, PartialEq, Eq, Structural)]
pub enum ThreadStatus {
    NotLoaded,
    Idle,
    SystemError,
    Active,
}

/// How far a turn has come.
#[derive(Clone, Copy, Debug, PartialEq, Eq, Structural)]
pub enum TurnStatus {
    Completed,
    Interrupted,
    Failed,
    InProgress,
}

/// One turn of a thread.
#[derive(Clone, Debug, PartialEq, Eq)]
pub struct Turn {
    pub id: String,
    pub status: TurnStatus,
}

/// A thread with its turns, oldest first.
#[derive(Clone, Debug, PartialEq, Eq)]
pub struct Thread {
    pub id: String,
    pub status: ThreadStatus,
    pub turns: Vec<Turn>,
}

/// The last turn of a sequence that is in progress.
pub open spec fn last_in_progress(turns: Seq<Turn>) -> Option<Seq<char>>
    decreases turns.len(),
{
    if turns.len() == 0 {
        None
    } else if turns.last().status == TurnStatus::InProgress {
        Some(turns.last().id@)
    } else {
        last_in_progress(turns.drop_last())
    }
}

impl Thread {
    /// The turn that a thread is working on, where one is known.
    pub open spec fn turn_in_progress(&self) -> Option<Seq<char>> {
        if self.status == ThreadStatus::Active {
            last_in_progress(self.turns@)
        } else {
            None
        }
    }

    /// The turn that the thread is working on, where one is known.
    pub fn active_turn(&self) -> (turn_id: Option<String>)
        ensures
            text::opt_text(turn_id) == self.turn_in_progress(),
    {
        if self.status != ThreadStatus::Active {
            return None;
        }
        let mut left: usize = self.turns.len();
        assert(self.turns@.take(left as int) =~= self.turns@);
        while left > 0
            invariant
                self.status == ThreadStatus::Active,
                left <= self.turns@.len(),
                last_in_progress(self.turns@) == last_in_progress(self.turns@.take(left as int)),
            decreases left,
        {
            let turn = &self.turns[left - 1];
            assert(self.turns@.take(left as int).last() == turn);
            assert(self.turns@.take(left as int).drop_last() =~= self.turns@.take(left - 1));
            if turn.status == TurnStatus::InProgress {
                return Some(turn.id.clone());
            }
            left -= 1;
        }
        None
    }
}

} // verus!
