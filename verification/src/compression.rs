//! Totals of what compression has saved, kept in memory and persisted now and then.

use crate::usage;
use crate::usage_laws;
use tokio::time::Instant;
use vstd::prelude::*;
use vstd::string::*;

verus! {

/// `tokio::time::Instant`, a reading of a clock that does not go back. Its value is not looked into.
#[verifier::external_type_specification]
#[verifier::external_body]
pub struct ExInstant(tokio::time::Instant);

/// Totals are persisted each time so many operations have been recorded.
pub const COMPRESSION_PERSIST_BATCH_SIZE: u64 = 100;

/// The reading of the clock.
///
/// Calls `tokio::time::Instant::now`. Nothing is claimed of the reading, which depends on when it
/// is taken.
#[verifier::external_body]
fn clock_reading() -> (r: Instant) {
    Instant::now()
}

/// What compression has made of how much data.
#[derive(Clone, Copy, Debug, PartialEq, Eq, Structural)]
pub struct CompressionTotalInfo {
    pub original_bytes_total: u64,
    pub compressed_bytes_total: u64,
    pub compression_operations_total: u64,
}

impl View for CompressionTotalInfo {
    type V = CompressionTotalInfo;

    open spec fn view(&self) -> CompressionTotalInfo {
        *self
    }
}

/// Totals of nothing.
pub open spec fn no_compression() -> CompressionTotalInfo {
    CompressionTotalInfo {
        original_bytes_total: 0,
        compressed_bytes_total: 0,
        compression_operations_total: 0,
    }
}

impl Default for CompressionTotalInfo {
    fn default() -> (r: Self)
        ensures
            r == no_compression(),
    {
        CompressionTotalInfo {
            original_bytes_total: 0,
            compressed_bytes_total: 0,
            compression_operations_total: 0,
        }
    }
}

/// The totals in memory.
#[derive(Clone, Copy, Debug)]
pub struct CompressionTotalState {
    pub info: CompressionTotalInfo,
    /// Operations since the totals were last persisted.
    pub ops_since_persist: u64,
    /// When the totals were last persisted.
    pub last_persist: Instant,
    /// Operations are recorded only once the totals have been loaded.
    pub inited: bool,
}

impl Default for CompressionTotalState {
    fn default() -> (r: Self)
        ensures
            r.info == no_compression(),
            r.ops_since_persist == 0,
            !r.inited,
    {
        CompressionTotalState {
            info: CompressionTotalInfo::default(),
            ops_since_persist: 0,
            last_persist: clock_reading(),
            inited: false,
        }
    }
}

/// Totals with one more operation.
pub open spec fn with_operation(
    info: CompressionTotalInfo,
    original_size: u64,
    compressed_size: u64,
) -> CompressionTotalInfo {
    CompressionTotalInfo {
        original_bytes_total: usage::saturate((info.original_bytes_total + original_size) as nat),
        compressed_bytes_total: usage::saturate(
            (info.compressed_bytes_total + compressed_size) as nat,
        ),
        compression_operations_total: usage::saturate(
            (info.compression_operations_total + 1) as nat,
        ),
    }
}

/// Whether totals are persisted with an operation, given how many there were since the last time:
/// exactly when the operation fills a batch. However much time has passed, totals are not persisted
/// before that.
pub open spec fn persists(ops_before: u64) -> bool {
    ops_before + 1 >= COMPRESSION_PERSIST_BATCH_SIZE
}

/// The totals in memory with one more operation, and what is to be persisted, if anything. `now` is
/// the reading of the clock.
pub open spec fn operation_recorded(
    state: CompressionTotalState,
    original_size: u64,
    compressed_size: u64,
    now: Instant,
) -> (CompressionTotalState, Option<CompressionTotalInfo>) {
    let info = with_operation(state.info, original_size, compressed_size);
    if !state.inited {
        (state, None)
    } else if persists(state.ops_since_persist) {
        (CompressionTotalState { info, ops_since_persist: 0, last_persist: now, ..state }, Some(info))
    } else {
        (
            CompressionTotalState {
                info,
                ops_since_persist: (state.ops_since_persist + 1) as u64,
                ..state
            },
            None,
        )
    }
}

/// Records an operation at a reading of the clock. The result is what is to be persisted, if the
/// operation fills a batch.
pub fn record_compression_at(
    state: &mut CompressionTotalState,
    original_size: u64,
    compressed_size: u64,
    now: Instant,
) -> (r: Option<CompressionTotalInfo>)
    ensures
        (*final(state), r) == operation_recorded(
            *old(state),
            original_size,
            compressed_size,
            now,
        ),
{
    if !state.inited {
        return None;
    }
    state.info = CompressionTotalInfo {
        original_bytes_total: state.info.original_bytes_total.saturating_add(original_size),
        compressed_bytes_total: state.info.compressed_bytes_total.saturating_add(compressed_size),
        compression_operations_total: state.info.compression_operations_total.saturating_add(1),
    };
    state.ops_since_persist = state.ops_since_persist.saturating_add(1);
    if state.ops_since_persist >= COMPRESSION_PERSIST_BATCH_SIZE {
        state.ops_since_persist = 0;
        state.last_persist = now;
        return Some(state.info);
    }
    None
}

/// Records an operation. The result is what is to be persisted, if the operation fills a batch.
/// Without totals in memory the operation is lost.
pub fn record_compression_total_memory(
    memory: &mut Option<CompressionTotalState>,
    original_size: u64,
    compressed_size: u64,
) -> (r: Option<CompressionTotalInfo>)
    ensures
        match *old(memory) {
            Some(state) => exists|now: Instant|
                (*final(memory), r) == ({
                    let (after, out) = #[trigger] operation_recorded(
                        state,
                        original_size,
                        compressed_size,
                        now,
                    );
                    (Some(after), out)
                }),
            None => *final(memory) is None && r is None,
        },
{
    match *memory {
        Some(state) => {
            let mut state = state;
            let now = clock_reading();
            let ghost before = state;
            let out = record_compression_at(&mut state, original_size, compressed_size, now);
            *memory = Some(state);
            assert((state, out) == operation_recorded(
                before,
                original_size,
                compressed_size,
                now,
            ));
            out
        },
        None => None,
    }
}

/// The totals in memory when they are persisted at a reading of the clock, and what is to be
/// persisted: nothing before the totals have been loaded.
pub open spec fn flushed(memory: Option<CompressionTotalState>, now: Instant) -> (
    Option<CompressionTotalState>,
    Option<CompressionTotalInfo>,
) {
    match memory {
        Some(state) if state.inited => (
            Some(CompressionTotalState { ops_since_persist: 0, last_persist: now, ..state }),
            Some(state.info),
        ),
        _ => (memory, None),
    }
}

/// Prepares to persist the totals at a reading of the clock, and gives what is to be persisted.
pub fn store_compression_total_at(memory: &mut Option<CompressionTotalState>, now: Instant) -> (r:
    Option<CompressionTotalInfo>)
    ensures
        (*final(memory), r) == flushed(*old(memory), now),
{
    match *memory {
        Some(state) => {
            if !state.inited {
                return None;
            }
            let mut state = state;
            state.ops_since_persist = 0;
            state.last_persist = now;
            *memory = Some(state);
            Some(state.info)
        },
        None => None,
    }
}

/// Prepares to persist the totals now, and gives what is to be persisted. There is nothing to be
/// persisted before the totals have been loaded.
pub fn store_compression_total_in_backend(memory: &mut Option<CompressionTotalState>) -> (r: Option<
    CompressionTotalInfo,
>)
    ensures
        exists|now: Instant| (*final(memory), r) == #[trigger] flushed(*old(memory), now),
{
    let now = clock_reading();
    store_compression_total_at(memory, now)
}

/// The totals in memory.
pub fn load_compression_total_from_memory(memory: &Option<CompressionTotalState>) -> (r: Option<
    CompressionTotalInfo,
>)
    ensures
        r == match *memory {
            Some(state) => Some(state.info),
            None => None,
        },
{
    match memory {
        Some(state) => Some(state.info),
        None => None,
    }
}

/// The totals that were decoded from what is persisted. If they could not be decoded the load fails.
pub fn decoded_compression_total(decoded: Result<CompressionTotalInfo, String>) -> (r: Result<
    CompressionTotalInfo,
    String,
>)
    ensures
        match decoded {
            Ok(info) => r == Ok::<CompressionTotalInfo, String>(info),
            Err(text) => r is Err && r->Err_0@ == "Failed to deserialize compression total info: "@
                + text@,
        },
{
    match decoded {
        Ok(info) => Ok(info),
        Err(text) => {
            let mut message = "Failed to deserialize compression total info: ".to_owned();
            message.append(text.as_str());
            Err(message)
        },
    }
}

/// The totals in memory when they are loaded at a reading of the clock. If they could not be loaded,
/// the count starts at zero.
pub open spec fn initialised(
    loaded: Option<CompressionTotalInfo>,
    now: Instant,
) -> CompressionTotalState {
    CompressionTotalState {
        info: match loaded {
            Some(info) => info,
            None => no_compression(),
        },
        ops_since_persist: 0,
        last_persist: now,
        inited: true,
    }
}

/// Puts the totals that were loaded into memory at a reading of the clock.
pub fn init_compression_total_memory_at(
    memory: &mut Option<CompressionTotalState>,
    loaded: Option<CompressionTotalInfo>,
    now: Instant,
)
    ensures
        *final(memory) == Some(initialised(loaded, now)),
{
    let info = match loaded {
        Some(info) => info,
        None => CompressionTotalInfo::default(),
    };
    *memory = Some(
        CompressionTotalState { info, ops_since_persist: 0, last_persist: now, inited: true },
    );
}

/// Puts the totals that were loaded into memory, from when on operations are recorded. If they
/// could not be loaded, the count starts at zero.
pub fn init_compression_total_memory_from_backend(
    memory: &mut Option<CompressionTotalState>,
    loaded: Option<CompressionTotalInfo>,
)
    ensures
        exists|now: Instant| *final(memory) == Some(#[trigger] initialised(loaded, now)),
{
    let now = clock_reading();
    init_compression_total_memory_at(memory, loaded, now);
}

/// Totals with several operations, one after the other.
pub open spec fn with_operations(
    info: CompressionTotalInfo,
    operations: Seq<(u64, u64)>,
) -> CompressionTotalInfo
    decreases operations.len(),
{
    if operations.len() == 0 {
        info
    } else {
        with_operation(
            with_operations(info, operations.drop_last()),
            operations.last().0,
            operations.last().1,
        )
    }
}

/// The data that went into several operations.
pub open spec fn original_bytes(operations: Seq<(u64, u64)>) -> nat
    decreases operations.len(),
{
    if operations.len() == 0 {
        0
    } else {
        original_bytes(operations.drop_last()) + operations.last().0 as nat
    }
}

/// The data that came out of several operations.
pub open spec fn compressed_bytes(operations: Seq<(u64, u64)>) -> nat
    decreases operations.len(),
{
    if operations.len() == 0 {
        0
    } else {
        compressed_bytes(operations.drop_last()) + operations.last().1 as nat
    }
}

/// The totals are the sums over all operations, whatever was persisted in between.
pub proof fn law_operations_add_up(info: CompressionTotalInfo, operations: Seq<(u64, u64)>)
    ensures
        ({
            let after = with_operations(info, operations);
            &&& after.original_bytes_total == usage::saturate(
                info.original_bytes_total as nat + original_bytes(operations),
            )
            &&& after.compressed_bytes_total == usage::saturate(
                info.compressed_bytes_total as nat + compressed_bytes(operations),
            )
            &&& after.compression_operations_total == usage::saturate(
                info.compression_operations_total as nat + operations.len(),
            )
        }),
    decreases operations.len(),
{
    if operations.len() > 0 {
        law_operations_add_up(info, operations.drop_last());
    }
}

/// What is persisted holds all totals, and is persisted with every full batch and not before: the
/// operations that are not yet persisted are fewer than a batch, and only an operation that fills
/// the batch persists them and is noted as the last time.
pub proof fn law_totals_are_persisted_by_the_batch(
    state: CompressionTotalState,
    original_size: u64,
    compressed_size: u64,
    now: Instant,
)
    requires
        state.inited,
    ensures
        ({
            let (after, out) = operation_recorded(state, original_size, compressed_size, now);
            &&& after.info == with_operation(state.info, original_size, compressed_size)
            &&& after.ops_since_persist < COMPRESSION_PERSIST_BATCH_SIZE
            &&& out is Some <==> state.ops_since_persist + 1 >= COMPRESSION_PERSIST_BATCH_SIZE
            &&& out is Some ==> out->0 == after.info && after.ops_since_persist == 0
                && after.last_persist == now
            &&& out is None ==> after.ops_since_persist == state.ops_since_persist + 1
                && after.last_persist == state.last_persist
        }),
{
}

/// An operation adds the data that went in, the data that came out, and one operation, each to its
/// own total.
pub proof fn law_operation_adds_its_sizes(
    info: CompressionTotalInfo,
    original_size: u64,
    compressed_size: u64,
)
    ensures
        ({
            let after = with_operation(info, original_size, compressed_size);
            &&& usage_laws::adds_up(
                info.original_bytes_total,
                original_size,
                after.original_bytes_total,
            )
            &&& usage_laws::adds_up(
                info.compressed_bytes_total,
                compressed_size,
                after.compressed_bytes_total,
            )
            &&& usage_laws::adds_up(
                info.compression_operations_total,
                1,
                after.compression_operations_total,
            )
        }),
{
}

/// The hundredth operation since the totals were last persisted is the one that persists them. Before
/// the totals have been loaded no operation is recorded, and none persists anything.
pub proof fn law_hundredth_operation_persists(
    state: CompressionTotalState,
    original_size: u64,
    compressed_size: u64,
    now: Instant,
)
    ensures
        ({
            let (after, out) = operation_recorded(state, original_size, compressed_size, now);
            &&& out is Some <==> state.inited && state.ops_since_persist >= 99
            &&& out is Some ==> out->0 == after.info && after.ops_since_persist == 0
                && after.last_persist == now
            &&& state.inited && out is None ==> after.ops_since_persist == state.ops_since_persist
                + 1 && after.last_persist == state.last_persist
            &&& state.inited ==> after.inited && usage_laws::adds_up(
                state.info.original_bytes_total,
                original_size,
                after.info.original_bytes_total,
            ) && usage_laws::adds_up(
                state.info.compressed_bytes_total,
                compressed_size,
                after.info.compressed_bytes_total,
            ) && usage_laws::adds_up(
                state.info.compression_operations_total,
                1,
                after.info.compression_operations_total,
            )
            &&& !state.inited ==> after == state
        }),
{
}

/// Persisting the totals at once gives them as they are and starts a new batch; the totals themselves
/// stay. Before they have been loaded there is nothing to persist, and nothing changes.
pub proof fn law_flush_keeps_totals(memory: Option<CompressionTotalState>, now: Instant)
    ensures
        ({
            let (after, out) = flushed(memory, now);
            &&& out is Some <==> memory is Some && memory->0.inited
            &&& out is None ==> after == memory
            &&& out is Some ==> {
                &&& after is Some
                &&& out->0 == memory->0.info
                &&& after->0.info == memory->0.info
                &&& after->0.ops_since_persist == 0
                &&& after->0.last_persist == now
                &&& after->0.inited
            }
        }),
{
}

/// Totals that were loaded are counted on from, and without them the count starts at zero. Either way
/// operations are recorded from then on, and a new batch begins.
pub proof fn law_loaded_totals_are_counted_on_from(
    loaded: Option<CompressionTotalInfo>,
    now: Instant,
)
    ensures
        ({
            let state = initialised(loaded, now);
            &&& loaded is Some ==> state.info == loaded->0
            &&& loaded is None ==> state.info.original_bytes_total == 0
                && state.info.compressed_bytes_total == 0
                && state.info.compression_operations_total == 0
            &&& state.ops_since_persist == 0
            &&& state.last_persist == now
            &&& state.inited
        }),
{
}

} // verus!
