use bucket_usage::compression::{
    decoded_compression_total, init_compression_total_memory_at, init_compression_total_memory_from_backend,
    load_compression_total_from_memory, record_compression_at, record_compression_total_memory,
    store_compression_total_at, store_compression_total_in_backend, CompressionTotalInfo, CompressionTotalState,
    COMPRESSION_PERSIST_BATCH_SIZE,
};
use std::time::Duration;

fn totals(original: u64, compressed: u64, operations: u64) -> CompressionTotalInfo {
    CompressionTotalInfo {
        original_bytes_total: original,
        compressed_bytes_total: compressed,
        compression_operations_total: operations,
    }
}

fn loaded(info: CompressionTotalInfo, ops_since_persist: u64) -> CompressionTotalState {
    CompressionTotalState {
        info,
        ops_since_persist,
        last_persist: tokio::time::Instant::now(),
        inited: true,
    }
}

#[test]
fn compression_state_default_values() {
    let state = CompressionTotalState::default();
    assert!(!state.inited, "default state should not be inited");
    assert_eq!(state.ops_since_persist, 0);
    assert_eq!(state.info.original_bytes_total, 0);
    assert_eq!(state.info.compressed_bytes_total, 0);
    assert_eq!(state.info.compression_operations_total, 0);
}

#[test]
fn record_compression_skips_when_not_inited() {
    let mut pre_state = CompressionTotalState::default();
    pre_state.info.original_bytes_total = 42;
    pre_state.info.compressed_bytes_total = 21;
    pre_state.info.compression_operations_total = 7;
    pre_state.ops_since_persist = 5;
    let mut memory = Some(pre_state);

    assert_eq!(record_compression_total_memory(&mut memory, 100, 50), None);

    let state = memory.expect("cache should contain a state");
    assert!(!state.inited);
    assert_eq!(state.info.original_bytes_total, 42, "original should be unchanged");
    assert_eq!(state.info.compressed_bytes_total, 21, "compressed should be unchanged");
    assert_eq!(state.info.compression_operations_total, 7, "operations should be unchanged");
    assert_eq!(state.ops_since_persist, 5, "ops_since_persist should be unchanged");
}

#[test]
fn record_compression_accumulates_totals() {
    let mut memory = Some(loaded(CompressionTotalInfo::default(), 0));

    for _ in 0..3 {
        record_compression_total_memory(&mut memory, 100, 50);
    }

    let state = memory.expect("cache should contain a state");
    assert!(state.inited);
    assert_eq!(state.info.original_bytes_total, 300);
    assert_eq!(state.info.compressed_bytes_total, 150);
    assert_eq!(state.info.compression_operations_total, 3);
    assert_eq!(state.ops_since_persist, 3);
}

#[test]
fn record_compression_triggers_persist_on_batch_full() {
    let mut memory = Some(loaded(totals(9900, 4950, 99), 99));

    let persisted = record_compression_total_memory(&mut memory, 100, 50);
    assert_eq!(persisted, Some(totals(10_000, 5_000, 100)));

    let state = memory.expect("cache should contain a state");
    // Totals are correctly accumulated (not reset by the flush).
    assert_eq!(state.info.original_bytes_total, 10_000); // 9900 + 100
    assert_eq!(state.info.compressed_bytes_total, 5_000); // 4950 + 50
    assert_eq!(state.info.compression_operations_total, 100); // 99 + 1

    // Debounce counter is reset after the persist trigger.
    assert_eq!(state.ops_since_persist, 0);

    // last_persist was refreshed; it should be very recent.
    assert!(
        state.last_persist.elapsed() < Duration::from_secs(3),
        "last_persist should have been refreshed to now"
    );
}

#[test]
fn totals_are_persisted_with_each_full_batch() {
    assert_eq!(COMPRESSION_PERSIST_BATCH_SIZE, 100);
    let mut state = loaded(CompressionTotalInfo::default(), 0);
    let before = state.last_persist;
    let later = before + Duration::from_secs(3600);
    for operation in 1..100 {
        assert_eq!(record_compression_at(&mut state, 10, 5, later), None);
        assert_eq!(state.ops_since_persist, operation);
        assert_eq!(state.last_persist, before);
    }
    assert_eq!(record_compression_at(&mut state, 10, 5, later), Some(totals(1000, 500, 100)));
    assert_eq!(state.ops_since_persist, 0);
    assert_eq!(state.last_persist, later);
}

#[test]
fn time_alone_persists_nothing() {
    let Some(long_ago) = tokio::time::Instant::now().checked_sub(Duration::from_secs(31)) else {
        return;
    };
    let mut memory = Some(CompressionTotalState { last_persist: long_ago, ..loaded(CompressionTotalInfo::default(), 0) });
    assert_eq!(record_compression_total_memory(&mut memory, 3, 2), None);
    let state = memory.expect("totals are in memory");
    assert_eq!(state.info, totals(3, 2, 1));
    assert_eq!(state.ops_since_persist, 1);
    assert_eq!(state.last_persist, long_ago);
}

#[test]
fn totals_stop_at_their_limit() {
    let mut state = loaded(totals(u64::MAX - 1, u64::MAX, u64::MAX), 0);
    let now = tokio::time::Instant::now();
    assert_eq!(record_compression_at(&mut state, 5, 5, now), None);
    assert_eq!(state.info, totals(u64::MAX, u64::MAX, u64::MAX));
}

#[test]
fn operations_without_totals_in_memory_are_lost() {
    let mut memory = None;
    assert_eq!(record_compression_total_memory(&mut memory, 1, 1), None);
    assert!(memory.is_none());
    assert_eq!(store_compression_total_in_backend(&mut memory), None);
    assert_eq!(load_compression_total_from_memory(&memory), None);
}

#[test]
fn flush_hands_out_the_totals_and_starts_a_new_batch() {
    let mut memory = Some(loaded(totals(9, 3, 2), 2));
    assert_eq!(store_compression_total_in_backend(&mut memory), Some(totals(9, 3, 2)));
    assert_eq!(memory.as_ref().map(|s| s.ops_since_persist), Some(0));
    assert_eq!(load_compression_total_from_memory(&memory), Some(totals(9, 3, 2)));

    let mut not_loaded = Some(CompressionTotalState { ops_since_persist: 4, ..CompressionTotalState::default() });
    assert_eq!(store_compression_total_in_backend(&mut not_loaded), None);
    assert_eq!(not_loaded.map(|s| s.ops_since_persist), Some(4));
}

#[test]
fn flush_notes_when_it_was() {
    let mut memory = Some(loaded(totals(9, 3, 2), 2));
    let now = tokio::time::Instant::now() + Duration::from_secs(7);
    assert_eq!(store_compression_total_at(&mut memory, now), Some(totals(9, 3, 2)));
    let state = memory.expect("totals are in memory");
    assert_eq!((state.last_persist, state.ops_since_persist, state.inited), (now, 0, true));
    assert_eq!(state.info, totals(9, 3, 2));

    let before = CompressionTotalState::default();
    let mut not_loaded = Some(before);
    assert_eq!(store_compression_total_at(&mut not_loaded, now), None);
    assert_eq!(not_loaded.map(|s| s.last_persist), Some(before.last_persist));
}

#[test]
fn flush_reads_the_clock() {
    let Some(long_ago) = tokio::time::Instant::now().checked_sub(Duration::from_secs(31)) else {
        return;
    };
    let mut memory = Some(CompressionTotalState { last_persist: long_ago, ..loaded(totals(9, 3, 2), 2) });
    store_compression_total_in_backend(&mut memory);
    assert!(memory.map(|s| s.last_persist.elapsed() < Duration::from_secs(3)).unwrap());
    memory = Some(CompressionTotalState { last_persist: long_ago, ..loaded(totals(9, 3, 2), 2) });
    init_compression_total_memory_from_backend(&mut memory, None);
    assert!(memory.map(|s| s.last_persist.elapsed() < Duration::from_secs(3)).unwrap());
}

#[test]
fn loading_notes_when_it_was() {
    let mut memory = None;
    let now = tokio::time::Instant::now() + Duration::from_secs(7);
    init_compression_total_memory_at(&mut memory, Some(totals(9, 3, 2)), now);
    let state = memory.expect("totals are in memory");
    assert_eq!((state.last_persist, state.ops_since_persist, state.inited), (now, 0, true));
    assert_eq!(state.info, totals(9, 3, 2));
    init_compression_total_memory_at(&mut memory, None, now);
    assert_eq!(memory.map(|s| s.info), Some(totals(0, 0, 0)));
}

#[test]
fn totals_that_cannot_be_decoded_fail_to_load() {
    assert_eq!(decoded_compression_total(Ok(totals(1, 2, 3))), Ok(totals(1, 2, 3)));
    assert_eq!(
        decoded_compression_total(Err("bad json".to_string())),
        Err("Failed to deserialize compression total info: bad json".to_string())
    );
}

#[test]
fn loaded_totals_are_counted_on() {
    let mut memory = Some(CompressionTotalState::default());
    init_compression_total_memory_from_backend(&mut memory, Some(totals(100, 50, 1)));
    record_compression_total_memory(&mut memory, 10, 5);
    assert_eq!(load_compression_total_from_memory(&memory), Some(totals(110, 55, 2)));
    init_compression_total_memory_from_backend(&mut memory, None);
    assert_eq!(load_compression_total_from_memory(&memory), Some(totals(0, 0, 0)));
    assert_eq!(memory.map(|s| (s.inited, s.ops_since_persist)), Some((true, 0)));
}
