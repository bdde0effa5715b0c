use turn_start_bridge::queue_mode::{DefaultQueueMode, QueueMode};

#[test]
fn parse_accepts_canonical_design_spellings() {
    assert_eq!(QueueMode::parse("Default"), Ok(QueueMode::Default));
    assert_eq!(QueueMode::parse("Immediate"), Ok(QueueMode::Immediate));
    assert_eq!(
        QueueMode::parse("AfterToolCall"),
        Ok(QueueMode::AfterToolCall)
    );
    assert_eq!(
        QueueMode::parse("AfterAnyItem"),
        Ok(QueueMode::AfterAnyItem)
    );
    assert_eq!(QueueMode::parse("NextTurn"), Ok(QueueMode::NextTurn));
}

#[test]
fn default_mode_resolves_to_after_tool_call() {
    assert_eq!(
        QueueMode::Default.resolve_default(DefaultQueueMode::AfterToolCall),
        QueueMode::AfterToolCall
    );
}
