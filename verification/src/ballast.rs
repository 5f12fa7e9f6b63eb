//! The memory ballast that a recommendation call grows: how the requested
//! amount is split into chunks, how long to pause between chunks, and what
//! each chunk holds.

use vstd::prelude::*;

verus! {

/// The number of chunks a ballast request is split into.
pub const CHUNK_COUNT: usize = 20;

/// The page size by which every chunk is touched.
pub const PAGE_SIZE: usize = 4096;

/// Bytes in a megabyte (MiB).
pub const BYTES_PER_MB: usize = 1048576;

/// The byte every chunk is filled with.
pub const FILL_BYTE: u8 = 0xAA;

/// The byte written at the start of each page of a chunk.
pub const PAGE_MARK: u8 = 0xBB;

/// Nanoseconds in a second.
pub const NANOS_PER_SEC: u32 = 1000000000;

/// The size in bytes of each chunk of a ballast of `total_mb` megabytes.
pub fn chunk_size(total_mb: usize) -> (size: usize)
    requires
        total_mb * BYTES_PER_MB <= usize::MAX,
    ensures
        size == total_mb * BYTES_PER_MB / CHUNK_COUNT as int,
{
    (total_mb * BYTES_PER_MB) / CHUNK_COUNT
}

/// The pause after each chunk of a ballast grown over `duration_secs`
/// seconds, in milliseconds, as the single agent counts it.
pub fn pause_millis(duration_secs: u64) -> (ms: u64)
    requires
        duration_secs * 1000 <= u64::MAX,
    ensures
        ms == duration_secs * 1000 / CHUNK_COUNT as int,
{
    (duration_secs * 1000) / (CHUNK_COUNT as u64)
}

/// The pause after each chunk of a ballast grown over `duration_secs`
/// seconds, as whole seconds and the nanoseconds beyond them, as a
/// `Duration` divided by the chunk count gives it.
pub fn pause(duration_secs: u64) -> (p: (u64, u32))
    ensures
        p.1 < NANOS_PER_SEC,
        p.0 * NANOS_PER_SEC + p.1 == duration_secs * NANOS_PER_SEC / CHUNK_COUNT as int,
{
    let secs: u64 = duration_secs / 20;
    let rest: u64 = duration_secs % 20;
    let nanos: u32 = (rest as u32) * 50000000;
    assert(duration_secs * 1000000000 / 20 == secs * 1000000000 + rest * 50000000) by (nonlinear_arith)
        requires
            secs == duration_secs / 20,
            rest == duration_secs % 20,
    ;
    (secs, nanos)
}

/// A chunk of `size` bytes: filled with `FILL_BYTE`, with `PAGE_MARK` at the
/// start of each page so that every page is written.
pub fn filled_chunk(size: usize) -> (chunk: Vec<u8>)
    ensures
        chunk@.len() == size,
        forall|i: int|
            0 <= i < size ==> #[trigger] chunk@[i] == if i % PAGE_SIZE as int == 0 {
                PAGE_MARK
            } else {
                FILL_BYTE
            },
{
    let mut chunk = vec![FILL_BYTE; size];
    let mut i: usize = 0;
    while i < size
        invariant
            chunk@.len() == size,
            i % 4096 == 0,
            forall|k: int|
                0 <= k < size ==> #[trigger] chunk@[k] == if k % 4096 == 0 && k < i {
                    PAGE_MARK
                } else {
                    FILL_BYTE
                },
        decreases size - i,
    {
        chunk.set(i, PAGE_MARK);
        assert forall|k: int| 0 <= k < size implies #[trigger] chunk@[k] == if k % 4096 == 0 && k
            < i + 4096 {
            PAGE_MARK
        } else {
            FILL_BYTE
        } by {
            if k % 4096 == 0 && i <= k < i + 4096 {
                assert(k == i) by (nonlinear_arith)
                    requires
                        k % 4096 == 0,
                        i % 4096 == 0,
                        i <= k < i + 4096,
                ;
            }
        }
        if size - i <= 4096 {
            assert forall|k: int| 0 <= k < size implies #[trigger] chunk@[k] == if k % 4096 == 0 {
                PAGE_MARK
            } else {
                FILL_BYTE
            } by {}
            return chunk;
        }
        i = i + 4096;
    }
    chunk
}

/// The chunks of a ballast together hold what was asked for, short of less
/// than one byte per chunk.
pub proof fn law_chunks_cover_request(total_mb: nat)
    ensures
        ({
            let total = total_mb * BYTES_PER_MB;
            let size = total / CHUNK_COUNT as int;
            &&& CHUNK_COUNT * size <= total
            &&& total < CHUNK_COUNT * size + CHUNK_COUNT
        }),
{
    let total = total_mb * BYTES_PER_MB;
    assert(20 * (total / 20) <= total < 20 * (total / 20) + 20) by (nonlinear_arith);
}

/// The pauses after all chunks add up to exactly the requested duration,
/// counted either way.
pub proof fn law_pauses_fill_duration(duration_secs: u64)
    ensures
        CHUNK_COUNT * (duration_secs * NANOS_PER_SEC / CHUNK_COUNT as int) == duration_secs
            * NANOS_PER_SEC,
        CHUNK_COUNT * (duration_secs * 1000 / CHUNK_COUNT as int) == duration_secs * 1000,
{
    assert(20 * (duration_secs * 1000000000 / 20) == duration_secs * 1000000000) by (nonlinear_arith);
    assert(20 * (duration_secs * 1000 / 20) == duration_secs * 1000) by (nonlinear_arith);
}

} // verus!
