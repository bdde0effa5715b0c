//! What texts, patterns and written numbers are to each other, and what the
//! spellings of the queue modes and the kinds of items mean.

use vstd::prelude::*;

use crate::controller::CompletionSignal;
use crate::items;
use crate::items::{ReasoningItemContent, ResponseItem, ThreadItem};
use crate::protocol;
use crate::protocol::{RequestIdView, Turn, TurnStatus};
use crate::queue_mode;
use crate::queue_mode::{DefaultQueueMode, QueueMode};
use crate::text;

verus! {

/// The number that a row of decimal digits stands for.
pub open spec fn read_digits(digits: Seq<char>) -> int
    decreases digits.len(),
{
    if digits.len() == 0 {
        0
    } else {
        read_digits(digits.drop_last()) * 10 + (digits.last() as int - '0' as int)
    }
}

/// A number that is written in decimal is read back as it was. It is written in
/// digits alone, and without leading zeros.
pub proof fn a_written_number_is_read_back(number: nat)
    ensures
        read_digits(text::decimal(number)) == number,
        text::decimal(number).len() > 0,
        forall|i: int|
            0 <= i < text::decimal(number).len() ==> '0' <= #[trigger] text::decimal(number)[i]
                <= '9',
        number > 0 ==> text::decimal(number)[0] != '0',
    decreases number,
{
    if number < 10 {
        let digits = text::decimal(number);
        assert(digits.drop_last() =~= Seq::<char>::empty());
        assert(read_digits(digits.drop_last()) == 0);
    } else {
        let before = text::decimal(number / 10);
        a_written_number_is_read_back(number / 10);
        assert(text::decimal(number).drop_last() =~= before);
        assert(number == (number / 10) * 10 + number % 10);
    }
}

/// A negative number is written with a minus sign before its amount, and any
/// other number as it is. Two numbers are written alike only where they are
/// equal.
pub proof fn written_numbers_differ(left: int, right: int)
    ensures
        left >= 0 ==> text::decimal_int(left) == text::decimal(left as nat),
        left < 0 ==> text::decimal_int(left) == "-"@ + text::decimal((-left) as nat),
        text::decimal_int(left) == text::decimal_int(right) ==> left == right,
{
    reveal_strlit("-");
    assert("-"@ =~= seq!['-']);
    let one = if left < 0 {
        (-left) as nat
    } else {
        left as nat
    };
    let two = if right < 0 {
        (-right) as nat
    } else {
        right as nat
    };
    a_written_number_is_read_back(one);
    a_written_number_is_read_back(two);
    if text::decimal_int(left) == text::decimal_int(right) {
        if left < 0 && right < 0 {
            assert(text::decimal_int(left).skip(1) =~= text::decimal(one));
            assert(text::decimal_int(right).skip(1) =~= text::decimal(two));
        } else if left < 0 {
            assert(text::decimal_int(left)[0] == '-');
            assert(text::decimal_int(right)[0] == text::decimal(two)[0]);
        } else if right < 0 {
            assert(text::decimal_int(right)[0] == '-');
            assert(text::decimal_int(left)[0] == text::decimal(one)[0]);
        }
    }
}

/// A text holds every piece that it is made of.
pub proof fn a_text_holds_its_pieces(before: Seq<char>, pattern: Seq<char>, behind: Seq<char>)
    ensures
        text::holds(before + pattern + behind, pattern),
{
    let whole = before + pattern + behind;
    let at = before.len() as int;
    assert(whole.subrange(at, at + pattern.len()) =~= pattern);
    assert(text::occurs_at(whole, at, pattern));
}

/// What a text holds, it is made of.
pub proof fn what_a_text_holds_is_a_piece_of_it(whole: Seq<char>, pattern: Seq<char>) -> (pieces: (
    Seq<char>,
    Seq<char>,
))
    requires
        text::holds(whole, pattern),
    ensures
        whole == pieces.0 + pattern + pieces.1,
{
    let at = choose|at: int| text::occurs_at(whole, at, pattern);
    let before = whole.take(at);
    let behind = whole.skip(at + pattern.len());
    assert(whole =~= before + whole.subrange(at, at + pattern.len()) + behind);
    (before, behind)
}

/// The first place of a pattern is a place of it, not before the one from which
/// it was looked for, and no other place lies between; where there is none, the
/// pattern does not occur.
pub proof fn the_first_place_is_first(whole: Seq<char>, from: int, pattern: Seq<char>, other: int)
    requires
        0 <= from <= other,
    ensures
        match text::first_at(whole, from, pattern) {
            Some(at) => {
                &&& from <= at
                &&& at + pattern.len() <= whole.len()
                &&& whole.subrange(at, at + pattern.len()) == pattern
                &&& other < at ==> !(other + pattern.len() <= whole.len() && whole.subrange(
                    other,
                    other + pattern.len(),
                ) == pattern)
            },
            None => !(other + pattern.len() <= whole.len() && whole.subrange(
                other,
                other + pattern.len(),
            ) == pattern),
        },
    decreases whole.len() - from + 1,
{
    if from <= whole.len() && !text::occurs_at(whole, from, pattern) {
        if from < other {
            the_first_place_is_first(whole, from + 1, pattern, other);
        } else {
            the_first_place_is_first(whole, from + 1, pattern, other + 1);
        }
    }
}

/// The last place of a pattern is a place of it, and no other place up to the
/// one from which it was looked for lies behind it; where there is none, the
/// pattern does not occur up to there.
pub proof fn the_last_place_is_last(whole: Seq<char>, from: int, pattern: Seq<char>, other: int)
    requires
        0 <= other <= from,
    ensures
        match text::last_at(whole, from, pattern) {
            Some(at) => {
                &&& 0 <= at <= from
                &&& at + pattern.len() <= whole.len()
                &&& whole.subrange(at, at + pattern.len()) == pattern
                &&& at < other ==> !(other + pattern.len() <= whole.len() && whole.subrange(
                    other,
                    other + pattern.len(),
                ) == pattern)
            },
            None => !(other + pattern.len() <= whole.len() && whole.subrange(
                other,
                other + pattern.len(),
            ) == pattern),
        },
    decreases from,
{
    if !text::occurs_at(whole, from, pattern) {
        if from > 0 {
            if other < from {
                the_last_place_is_last(whole, from - 1, pattern, other);
            } else {
                the_last_place_is_last(whole, from - 1, pattern, from - 1);
            }
        } else {
            assert(text::last_at(whole, -1, pattern) is None);
        }
    }
}

/// Trimming takes away white space, as much as there is at the start, and
/// nothing else.
pub proof fn trimming_takes_only_white_space(whole: Seq<char>)
    ensures
        ({
            let rest = text::trimmed_start(whole);
            let white = whole.len() - rest.len();
            &&& white >= 0
            &&& whole == whole.take(white) + rest
            &&& forall|i: int| 0 <= i < white ==> text::white_space(#[trigger] whole[i])
            &&& rest.len() > 0 ==> !text::white_space(rest[0])
        }),
{
    text::lemma_leading_white(whole);
    let white = text::leading_white(whole) as int;
    assert(whole =~= whole.take(white) + whole.skip(white));
}

/// The leading word of a text ends where its first white space is.
pub proof fn a_word_ends_at_white_space(whole: Seq<char>)
    ensures
        text::leading_word(whole) <= whole.len(),
        forall|i: int|
            0 <= i < text::leading_word(whole) ==> !text::white_space(#[trigger] whole[i]),
        text::leading_word(whole) < whole.len() ==> text::white_space(
            whole[text::leading_word(whole) as int],
        ),
    decreases whole.len(),
{
    if whole.len() > 0 && !text::white_space(whole[0]) {
        let rest = whole.drop_first();
        a_word_ends_at_white_space(rest);
        assert forall|i: int| 0 <= i < text::leading_word(whole) implies !text::white_space(
            #[trigger] whole[i],
        ) by {
            if i > 0 {
                assert(rest[i - 1] == whole[i]);
            }
        }
    }
}

/// Every queue mode has two spellings, which name it and no other mode, and no
/// other spelling names any.
pub proof fn each_mode_has_two_spellings(value: Seq<char>)
    ensures
        queue_mode::queue_mode_named(value) == Some(QueueMode::Default) <==> value == "default"@
            || value == "Default"@,
        queue_mode::queue_mode_named(value) == Some(QueueMode::Immediate) <==> value
            == "immediate"@ || value == "Immediate"@,
        queue_mode::queue_mode_named(value) == Some(QueueMode::AfterToolCall) <==> value
            == "after-tool-call"@ || value == "AfterToolCall"@,
        queue_mode::queue_mode_named(value) == Some(QueueMode::AfterAnyItem) <==> value
            == "after-any-item"@ || value == "AfterAnyItem"@,
        queue_mode::queue_mode_named(value) == Some(QueueMode::NextTurn) <==> value
            == "next-turn"@ || value == "NextTurn"@,
{
    reveal_strlit("default");
    reveal_strlit("Default");
    reveal_strlit("immediate");
    reveal_strlit("Immediate");
    reveal_strlit("after-tool-call");
    reveal_strlit("AfterToolCall");
    reveal_strlit("after-any-item");
    reveal_strlit("AfterAnyItem");
    reveal_strlit("next-turn");
    reveal_strlit("NextTurn");
    assert("default"@[0] == 'd');
    assert("Default"@[0] == 'D');
    assert("immediate"@[0] == 'i');
    assert("Immediate"@[0] == 'I');
    assert("after-tool-call"@[6] == 't');
    assert("AfterToolCall"@[5] == 'T');
    assert("after-tool-call"@[0] == 'a');
    assert("AfterToolCall"@[0] == 'A');
    assert("after-any-item"@[6] == 'a');
    assert("AfterAnyItem"@[5] == 'A');
    assert("after-any-item"@[0] == 'a');
    assert("AfterAnyItem"@[0] == 'A');
    assert("next-turn"@[0] == 'n');
    assert("NextTurn"@[0] == 'N');
}

/// The default stands for the mode that was chosen for it, and a mode that a
/// message asks for itself is never changed.
pub proof fn a_default_stands_for_its_choice(mode: QueueMode, chosen: DefaultQueueMode)
    ensures
        mode != QueueMode::Default ==> mode.resolved(chosen) == mode,
        QueueMode::Default.resolved(DefaultQueueMode::AfterToolCall) == QueueMode::AfterToolCall,
        QueueMode::Default.resolved(DefaultQueueMode::AfterAnyItem) == QueueMode::AfterAnyItem,
        QueueMode::Default.resolved(DefaultQueueMode::NextTurn) == QueueMode::NextTurn,
{
}

/// What the user or a hook said releases nothing; every other completed item is
/// work of the agent and releases what waits for any item.
pub proof fn only_the_agents_items_release(item: ThreadItem)
    ensures
        item is UserMessage || item is HookPrompt ==> items::item_signal(item)
            == CompletionSignal::Ignore,
        !(item is UserMessage) && !(item is HookPrompt) ==> items::item_signal(item)
            == CompletionSignal::ReleasesAfterAnyItem,
{
}

/// A raw message releases only as one of the assistant with a non-empty text of
/// the model; what was put in never counts. Reasoning releases only where its
/// summary or its content says something.
pub proof fn only_said_words_release(item: ResponseItem)
    ensures
        items::raw_item_releases(item) ==> match item {
            ResponseItem::Message { role, content, .. } => role@ == "assistant"@ && exists|i: int|
                0 <= i < content@.len() && (#[trigger] content@[i]) is OutputText
                    && content@[i]->OutputText_text@.len() > 0,
            ResponseItem::Reasoning { summary, content, .. } => summary@.len() > 0 || (content
                is Some && content->Some_0@.len() > 0),
            _ => true,
        },
{
    if items::raw_item_releases(item) {
        if let ResponseItem::Message { role, content, .. } = item {
            let i = choose|i: int|
                0 <= i < content@.len() && items::content_has_text(#[trigger] content@[i]);
            assert(content@[i] is OutputText);
        }
    }
}

/// A raw message of the assistant with a text of the model at some place
/// releases, and so does reasoning with a summary or content that says something
/// there.
pub proof fn said_words_release(item: ResponseItem, i: int)
    ensures
        match item {
            ResponseItem::Message { role, content, .. } => role@ == "assistant"@ && 0 <= i
                < content@.len() && content@[i] is OutputText
                && content@[i]->OutputText_text@.len() > 0 ==> items::raw_item_releases(item),
            ResponseItem::Reasoning { summary, content, .. } => {
                &&& 0 <= i < summary@.len() && summary@[i]->SummaryText_text@.len() > 0
                    ==> items::raw_item_releases(item)
                &&& content is Some && 0 <= i < content->Some_0@.len() && (match content->Some_0@[i] {
                    ReasoningItemContent::ReasoningText { text } => text@.len() > 0,
                    ReasoningItemContent::Text { text } => text@.len() > 0,
                }) ==> items::raw_item_releases(item)
            },
            _ => true,
        },
{
    match item {
        ResponseItem::Message { content, .. } => {
            if 0 <= i < content@.len() && content@[i] is OutputText
                && content@[i]->OutputText_text@.len() > 0 {
                assert(items::content_has_text(content@[i]));
            }
        },
        ResponseItem::Reasoning { summary, content, .. } => {
            if 0 <= i < summary@.len() && summary@[i]->SummaryText_text@.len() > 0 {
                assert(items::summary_has_text(summary@[i]));
            }
            if content is Some && 0 <= i < content->Some_0@.len() {
                assert(items::reasoning_has_text(content->Some_0@[i]) == (match content->Some_0@[i] {
                    ReasoningItemContent::ReasoningText { text } => text@.len() > 0,
                    ReasoningItemContent::Text { text } => text@.len() > 0,
                }));
            }
        },
        _ => {},
    }
}

/// Calls of the agent release, and the outputs of calls do not.
pub proof fn calls_release_and_outputs_do_not(item: ResponseItem)
    ensures
        item is LocalShellCall || item is FunctionCall || item is ToolSearchCall || item
            is CustomToolCall || item is WebSearchCall || item is ImageGenerationCall || item
            is GhostSnapshot || item is Compaction ==> items::raw_item_releases(item),
        item is FunctionCallOutput || item is CustomToolCallOutput || item is ToolSearchOutput
            || item is Other ==> !items::raw_item_releases(item),
{
}

/// A call and its output go by the same identifier, which is the one that the
/// call was given; an item without an identifier goes by none.
pub proof fn a_call_and_its_output_share_their_key(
    call_id: String,
    id: Option<String>,
)
    ensures
        items::raw_item_key(ResponseItem::FunctionCall { call_id }) == Some(call_id@),
        items::raw_item_key(ResponseItem::FunctionCallOutput { call_id }) == Some(call_id@),
        items::raw_item_key(ResponseItem::CustomToolCall { call_id }) == Some(call_id@),
        items::raw_item_key(ResponseItem::CustomToolCallOutput { call_id }) == Some(call_id@),
        items::raw_item_key(ResponseItem::ImageGenerationCall { id: call_id }) == Some(call_id@),
        items::raw_item_key(ResponseItem::ToolSearchCall { call_id: Some(call_id) }) == Some(
            call_id@,
        ),
        items::raw_item_key(ResponseItem::ToolSearchOutput { call_id: Some(call_id) }) == Some(
            call_id@,
        ),
        items::raw_item_key(ResponseItem::ToolSearchCall { call_id: None }) is None,
        items::raw_item_key(ResponseItem::ToolSearchOutput { call_id: None }) is None,
        items::raw_item_key(ResponseItem::WebSearchCall { id: Some(call_id) }) == Some(call_id@),
        items::raw_item_key(ResponseItem::WebSearchCall { id: None }) is None,
        items::raw_item_key(ResponseItem::LocalShellCall { id, call_id: Some(call_id) }) == Some(
            call_id@,
        ),
        items::raw_item_key(ResponseItem::LocalShellCall { id: Some(call_id), call_id: None })
            == Some(call_id@),
        items::raw_item_key(ResponseItem::LocalShellCall { id: None, call_id: None }) is None,
        items::raw_item_key(ResponseItem::GhostSnapshot) is None,
        items::raw_item_key(ResponseItem::Compaction) is None,
        items::raw_item_key(ResponseItem::Other) is None,
{
}

/// A raw message goes by its identifier, and reasoning by its own unless that is
/// empty.
pub proof fn raw_messages_go_by_their_identifier(item: ResponseItem)
    ensures
        match item {
            ResponseItem::Message { id: Some(id), .. } => items::raw_item_key(item) == Some(id@),
            ResponseItem::Message { id: None, .. } => items::raw_item_key(item) is None,
            ResponseItem::Reasoning { id, .. } => {
                &&& id@.len() > 0 ==> items::raw_item_key(item) == Some(id@)
                &&& id@.len() == 0 ==> items::raw_item_key(item) is None
            },
            _ => true,
        },
{
}

/// The turn in progress is the last one of that status: none behind it is in
/// progress, and where none at all is, there is no such turn.
pub proof fn the_last_turn_in_progress_counts(turns: Seq<Turn>, at: int)
    requires
        0 <= at < turns.len(),
    ensures
        turns[at].status == TurnStatus::InProgress && (forall|later: int|
            at < later < turns.len() ==> (#[trigger] turns[later]).status != TurnStatus::InProgress)
            ==> protocol::last_in_progress(turns) == Some(turns[at].id@),
        protocol::last_in_progress(turns) is None ==> turns[at].status != TurnStatus::InProgress,
        protocol::last_in_progress(turns) is Some ==> exists|some: int|
            0 <= some < turns.len() && (#[trigger] turns[some]).status == TurnStatus::InProgress,
    decreases turns.len(),
{
    let before = turns.drop_last();
    if turns.last().status == TurnStatus::InProgress {
        assert(turns[turns.len() - 1].status == TurnStatus::InProgress);
    } else if at < turns.len() - 1 {
        the_last_turn_in_progress_counts(before, at);
        assert forall|i: int| 0 <= i < before.len() implies before[i] == turns[i] by {}
        if forall|later: int|
            at < later < turns.len() ==> (#[trigger] turns[later]).status
                != TurnStatus::InProgress {
            assert(forall|later: int|
                at < later < before.len() ==> (#[trigger] before[later]).status
                    != TurnStatus::InProgress);
        }
        if protocol::last_in_progress(turns) is Some {
            let some = choose|some: int|
                0 <= some < before.len() && (#[trigger] before[some]).status
                    == TurnStatus::InProgress;
            assert(turns[some].status == TurnStatus::InProgress);
        }
    } else if before.len() > 0 {
        the_last_turn_in_progress_counts(before, 0);
        if protocol::last_in_progress(turns) is Some {
            let some = choose|some: int|
                0 <= some < before.len() && (#[trigger] before[some]).status
                    == TurnStatus::InProgress;
            assert(turns[some].status == TurnStatus::InProgress);
        }
    }
}

/// An identifier is shown as its text or as its number.
pub proof fn identifiers_are_shown_plainly(name: Seq<char>, number: i64)
    ensures
        RequestIdView::String(name).shown() == name,
        number >= 0 ==> RequestIdView::Integer(number).shown() == text::decimal(number as nat),
        number < 0 ==> RequestIdView::Integer(number).shown() == "-"@ + text::decimal(
            (-number) as nat,
        ),
{
    written_numbers_differ(number as int, number as int);
}
/// Where it matters which of the two it is, an identifier is shown with its
/// kind.
pub proof fn identifiers_are_shown_with_their_kind(name: Seq<char>, number: i64)
    ensures
        RequestIdView::String(name).debug_shown() == "String("@ + text::debug_form(name) + ")"@,
        RequestIdView::Integer(number).debug_shown() == "Integer("@ + text::decimal_int(
            number as int,
        ) + ")"@,
{
}


} // verus!
