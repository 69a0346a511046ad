//! Retry policy of sector reads.

use vstd::prelude::*;

verus! {

/// How often, how fast and with which chunk sizes a failed read is repeated.
#[derive(Debug, Clone, Copy, PartialEq, Eq, Structural)]
pub struct RetryConfig {
    /// Attempts for each chunk, counting the first one. Zero counts as one.
    pub max_attempts: u8,
    /// Delay before the first repeated attempt, in milliseconds.
    pub initial_backoff_ms: u64,
    /// Upper bound of the doubled delays, in milliseconds. With zero the delay
    /// stays at `initial_backoff_ms`.
    pub max_backoff_ms: u64,
    /// Whether a failed attempt is repeated with fewer sectors.
    pub reduce_chunk_on_retry: bool,
    /// Chunks are not reduced below this many sectors. Zero counts as one.
    pub min_sectors_per_read: u32,
}

impl RetryConfig {
    /// Attempts that a chunk gets before the read fails.
    pub open spec fn attempts(self) -> int {
        if self.max_attempts == 0 { 1 } else { self.max_attempts as int }
    }

    /// Smallest chunk that a reduction leads to.
    pub open spec fn min_chunk(self) -> int {
        if self.min_sectors_per_read == 0 { 1 } else { self.min_sectors_per_read as int }
    }

    /// Delay that follows a delay of `backoff_ms`.
    pub open spec fn backoff_after(self, backoff_ms: int) -> int {
        if self.max_backoff_ms == 0 {
            backoff_ms
        } else if 2 * backoff_ms <= self.max_backoff_ms {
            2 * backoff_ms
        } else {
            self.max_backoff_ms as int
        }
    }

    /// Chunk size of the attempt that follows a failed one of `sectors` sectors.
    pub open spec fn chunk_after_failure(self, sectors: int) -> int {
        if self.reduce_chunk_on_retry && sectors > self.min_chunk() {
            reduced_chunk(sectors, self.min_chunk())
        } else {
            sectors
        }
    }

    /// See [`RetryConfig::attempts`].
    pub fn attempts_total(&self) -> (n: u8)
        ensures
            n == self.attempts(),
    {
        if self.max_attempts == 0 { 1 } else { self.max_attempts }
    }

    /// The delay to use after one of `backoff_ms` milliseconds: twice as long,
    /// up to the configured bound, or the same if there is no bound.
    pub fn next_backoff(&self, backoff_ms: u64) -> (next: u64)
        ensures
            next == self.backoff_after(backoff_ms as int),
    {
        if self.max_backoff_ms == 0 {
            backoff_ms
        } else if backoff_ms <= self.max_backoff_ms / 2 {
            backoff_ms * 2
        } else {
            self.max_backoff_ms
        }
    }

    /// The number of sectors to ask for after a failed attempt at `sectors`.
    pub fn next_sectors(&self, sectors: u32) -> (next: u32)
        ensures
            next == self.chunk_after_failure(sectors as int),
    {
        let min_chunk: u32 = if self.min_sectors_per_read == 0 {
            1
        } else {
            self.min_sectors_per_read
        };
        if self.reduce_chunk_on_retry && sectors > min_chunk {
            next_chunk_size(sectors, min_chunk)
        } else {
            sectors
        }
    }
}

impl Default for RetryConfig {
    /// Five attempts, 30 ms to 500 ms apart, shrinking to single sectors.
    fn default() -> (cfg: Self)
        ensures
            cfg == default_retry(),
    {
        RetryConfig {
            max_attempts: 5,
            initial_backoff_ms: 30,
            max_backoff_ms: 500,
            reduce_chunk_on_retry: true,
            min_sectors_per_read: 1,
        }
    }
}

/// The policy of [`RetryConfig::default`].
pub open spec fn default_retry() -> RetryConfig {
    RetryConfig {
        max_attempts: 5,
        initial_backoff_ms: 30,
        max_backoff_ms: 500,
        reduce_chunk_on_retry: true,
        min_sectors_per_read: 1,
    }
}

/// Chunk size one reduction step below `current`: first down to eight sectors,
/// from there down to `min_chunk`, and never below `min_chunk`.
pub open spec fn reduced_chunk(current: int, min_chunk: int) -> int {
    if current > 8 && min_chunk < 8 { 8 } else { min_chunk }
}

/// Picks the next smaller chunk size. See [`reduced_chunk`].
pub fn next_chunk_size(current: u32, min_chunk: u32) -> (next: u32)
    ensures
        next == reduced_chunk(current as int, min_chunk as int),
{
    if current > 8 {
        if min_chunk < 8 { 8 } else { min_chunk }
    } else {
        min_chunk
    }
}

/// A reduction leads to a smaller chunk, but not below the minimum.
pub proof fn law_reduction_shrinks_the_chunk(current: int, min_chunk: int)
    requires
        1 <= min_chunk < current,
    ensures
        min_chunk <= reduced_chunk(current, min_chunk) < current,
{
}

} // verus!
