use turn_start_bridge::chunking::{ChunkAccumulator, QuiescencePolicy, ReadSignal};

#[test]
fn quiescent_signal_closes_the_current_chunk() {
    let mut accumulator = ChunkAccumulator::new(QuiescencePolicy {
        chunk_quiescence_ms: 25,
    });

    assert_eq!(accumulator.push(ReadSignal::Data(b"hello")), None);
    assert_eq!(accumulator.push(ReadSignal::Data(b" world")), None);
    assert_eq!(
        accumulator.push(ReadSignal::Quiescent),
        Some(b"hello world".to_vec())
    );
}

#[test]
fn eof_flushes_a_non_empty_chunk() {
    let mut accumulator = ChunkAccumulator::new(QuiescencePolicy {
        chunk_quiescence_ms: 25,
    });

    assert_eq!(accumulator.push(ReadSignal::Data("🙂".as_bytes())), None);
    assert_eq!(
        accumulator.push(ReadSignal::Eof),
        Some("🙂".as_bytes().to_vec())
    );
    assert_eq!(accumulator.push(ReadSignal::Eof), None);
}
