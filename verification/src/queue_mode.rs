//! When a message may be released to the model.

use vstd::prelude::*;

use crate::text::text_eq;

verus! {

/// The point of a turn at which a message wants to be released.
#[derive(Clone, Copy, Debug, PartialEq, Eq, Structural)]
pub enum QueueMode {
    Default,
    Immediate,
    AfterToolCall,
    AfterAnyItem,
    NextTurn,
}

/// What `QueueMode::Default` stands for.
#[derive(Clone, Copy, Debug, PartialEq, Eq, Structural)]
pub enum DefaultQueueMode {
    AfterToolCall,
    AfterAnyItem,
    NextTurn,
}

/// A spelling that names no queue mode.
#[derive(Clone, Debug, PartialEq, Eq)]
pub struct ParseQueueModeError {
    pub value: String,
}

/// The queue mode that a spelling names: each mode has a kebab-case and a
/// camel-case spelling.
pub open spec fn queue_mode_named(value: Seq<char>) -> Option<QueueMode> {
    if value == "default"@ || value == "Default"@ {
        Some(QueueMode::Default)
    } else if value == "immediate"@ || value == "Immediate"@ {
        Some(QueueMode::Immediate)
    } else if value == "after-tool-call"@ || value == "AfterToolCall"@ {
        Some(QueueMode::AfterToolCall)
    } else if value == "after-any-item"@ || value == "AfterAnyItem"@ {
        Some(QueueMode::AfterAnyItem)
    } else if value == "next-turn"@ || value == "NextTurn"@ {
        Some(QueueMode::NextTurn)
    } else {
        None
    }
}

impl QueueMode {
    /// Reads a queue mode from its spelling; any other text is an error that
    /// carries the text.
    pub fn parse(value: &str) -> (mode: Result<Self, ParseQueueModeError>)
        ensures
            match mode {
                Ok(mode) => queue_mode_named(value@) == Some(mode),
                Err(error) => queue_mode_named(value@) is None && error.value@ == value@,
            },
    {
        if text_eq(value, "default") || text_eq(value, "Default") {
            Ok(Self::Default)
        } else if text_eq(value, "immediate") || text_eq(value, "Immediate") {
            Ok(Self::Immediate)
        } else if text_eq(value, "after-tool-call") || text_eq(value, "AfterToolCall") {
            Ok(Self::AfterToolCall)
        } else if text_eq(value, "after-any-item") || text_eq(value, "AfterAnyItem") {
            Ok(Self::AfterAnyItem)
        } else if text_eq(value, "next-turn") || text_eq(value, "NextTurn") {
            Ok(Self::NextTurn)
        } else {
            Err(ParseQueueModeError { value: value.to_owned() })
        }
    }

    /// The mode in force once a default mode has been chosen.
    pub open spec fn resolved(self, default_mode: DefaultQueueMode) -> QueueMode {
        if self == QueueMode::Default {
            match default_mode {
                DefaultQueueMode::AfterToolCall => QueueMode::AfterToolCall,
                DefaultQueueMode::AfterAnyItem => QueueMode::AfterAnyItem,
                DefaultQueueMode::NextTurn => QueueMode::NextTurn,
            }
        } else {
            self
        }
    }

    /// Replaces `Default` by the chosen default mode and keeps every other mode.
    pub fn resolve_default(self, default_mode: DefaultQueueMode) -> (mode: Self)
        ensures
            mode == self.resolved(default_mode),
    {
        match self {
            Self::Default => match default_mode {
                DefaultQueueMode::AfterToolCall => Self::AfterToolCall,
                DefaultQueueMode::AfterAnyItem => Self::AfterAnyItem,
                DefaultQueueMode::NextTurn => Self::NextTurn,
            },
            mode => mode,
        }
    }
}

/// Resolving leaves no `Default`, and resolving again, whatever the second
/// default, changes nothing.
pub proof fn resolving_a_default_is_final(
    mode: QueueMode,
    first: DefaultQueueMode,
    second: DefaultQueueMode,
)
    ensures
        mode.resolved(first) != QueueMode::Default,
        mode.resolved(first).resolved(second) == mode.resolved(first),
{
}

} // verus!
