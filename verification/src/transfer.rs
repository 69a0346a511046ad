//! Reading a range of sectors, chunk by chunk and with retries.
//!
//! [`SectorRead`] decides which sectors to ask the drive for, what to do with
//! each answer and how long to wait before asking again. It performs no I/O: the
//! caller carries out the [`ChunkRequest`] it is handed and reports the outcome
//! to [`SectorRead::step`].

use vstd::prelude::*;

use crate::data_reader::SectorReadMode;
use crate::errors::CdReaderError;
use crate::retry::RetryConfig;

verus! {

/// Sectors to ask the drive for with one command.
#[derive(Debug, Clone, Copy, PartialEq, Eq, Structural)]
pub struct ChunkRequest {
    /// First sector.
    pub lba: u32,
    /// Number of sectors.
    pub sectors: u32,
    /// Format to read the sectors in.
    pub mode: SectorReadMode,
}

/// Model of a read that waits for the answer to a chunk request.
pub struct ReadState {
    pub mode: SectorReadMode,
    pub cfg: RetryConfig,
    /// First sector that is still missing.
    pub lba: int,
    /// Number of sectors that are still missing.
    pub remaining: int,
    /// Number of sectors in the current request.
    pub sectors: int,
    /// Number of the current attempt at this chunk, from one.
    pub attempt: int,
    /// Delay to use if the current attempt fails.
    pub backoff_ms: int,
    /// Bytes received so far.
    pub data: Seq<u8>,
}

/// Model of [`ReadProgress`].
pub enum ReadPhase {
    /// Waits for the answer to a request that is due after a delay.
    Pending(ReadState, int),
    /// All chunks have been answered; the bytes received.
    Done(Seq<u8>),
    /// The last attempt at a chunk failed.
    Failed(CdReaderError),
}

/// Turns to the first chunk of `remaining` sectors at `lba`, if there is one.
pub open spec fn next_chunk_phase(
    mode: SectorReadMode,
    cfg: RetryConfig,
    lba: int,
    remaining: int,
    data: Seq<u8>,
) -> ReadPhase {
    if remaining <= 0 {
        ReadPhase::Done(data)
    } else {
        let most = mode.max_sectors_per_transfer();
        ReadPhase::Pending(
            ReadState {
                mode,
                cfg,
                lba,
                remaining,
                sectors: if remaining < most { remaining } else { most },
                attempt: 1,
                backoff_ms: cfg.initial_backoff_ms as int,
                data,
            },
            0,
        )
    }
}

/// A read of `sectors` sectors at `lba` before any request was made.
pub open spec fn initial_phase(
    mode: SectorReadMode,
    cfg: RetryConfig,
    lba: int,
    sectors: int,
) -> ReadPhase {
    next_chunk_phase(mode, cfg, lba, sectors, Seq::empty())
}

impl ReadState {
    /// What the answer `outcome` to the current request leads to.
    pub open spec fn after(self, outcome: Result<Seq<u8>, CdReaderError>) -> ReadPhase {
        match outcome {
            Ok(chunk) => next_chunk_phase(
                self.mode,
                self.cfg,
                self.lba + self.sectors,
                self.remaining - self.sectors,
                self.data + chunk,
            ),
            Err(err) => if self.attempt == self.cfg.attempts() {
                ReadPhase::Failed(err)
            } else {
                ReadPhase::Pending(
                    ReadState {
                        sectors: self.cfg.chunk_after_failure(self.sectors),
                        attempt: self.attempt + 1,
                        backoff_ms: self.cfg.backoff_after(self.backoff_ms),
                        ..self
                    },
                    self.backoff_ms,
                )
            },
        }
    }

    /// What holds of every state that a read can be in: the request is not
    /// empty, asks for missing sectors only and fits into one transfer, and
    /// the attempts are not used up.
    pub open spec fn valid(self) -> bool {
        &&& 0 <= self.lba
        &&& 1 <= self.sectors <= self.remaining
        &&& self.sectors <= self.mode.max_sectors_per_transfer()
        &&& 1 <= self.attempt <= self.cfg.attempts()
        &&& 0 <= self.backoff_ms <= u64::MAX
    }
}

/// Result of a chunk request, with the bytes as a sequence.
pub open spec fn outcome_view(outcome: Result<Vec<u8>, CdReaderError>) -> Result<
    Seq<u8>,
    CdReaderError,
> {
    match outcome {
        Ok(chunk) => Ok(chunk@),
        Err(err) => Err(err),
    }
}

/// A read of a range of sectors that waits for the answer to a chunk request.
#[derive(Debug)]
pub struct SectorRead {
    mode: SectorReadMode,
    cfg: RetryConfig,
    lba: u32,
    remaining: u32,
    sectors: u32,
    attempt: u8,
    backoff_ms: u64,
    data: Vec<u8>,
}

/// Where a read of a range of sectors stands.
#[derive(Debug)]
pub enum ReadProgress {
    /// Wait `sleep_ms` milliseconds, carry out the request of `read` and report
    /// the outcome to its `step`.
    Pending { read: SectorRead, sleep_ms: u64 },
    /// The read is complete.
    Done(Vec<u8>),
    /// The read failed.
    Failed(CdReaderError),
}

impl View for SectorRead {
    type V = ReadState;

    closed spec fn view(&self) -> ReadState {
        ReadState {
            mode: self.mode,
            cfg: self.cfg,
            lba: self.lba as int,
            remaining: self.remaining as int,
            sectors: self.sectors as int,
            attempt: self.attempt as int,
            backoff_ms: self.backoff_ms as int,
            data: self.data@,
        }
    }
}

impl View for ReadProgress {
    type V = ReadPhase;

    open spec fn view(&self) -> ReadPhase {
        match *self {
            ReadProgress::Pending { read, sleep_ms } => ReadPhase::Pending(read@, sleep_ms as int),
            ReadProgress::Done(data) => ReadPhase::Done(data@),
            ReadProgress::Failed(err) => ReadPhase::Failed(err),
        }
    }
}

impl SectorRead {
    #[verifier::type_invariant]
    spec fn inv(self) -> bool {
        self@.valid()
    }

    /// Starts to read `sectors` sectors from `lba` on.
    pub fn begin(mode: SectorReadMode, lba: u32, sectors: u32, cfg: &RetryConfig) -> (progress:
        ReadProgress)
        ensures
            progress@ == initial_phase(mode, *cfg, lba as int, sectors as int),
    {
        Self::turn_to_chunk(mode, *cfg, lba, sectors, Vec::new())
    }

    fn turn_to_chunk(
        mode: SectorReadMode,
        cfg: RetryConfig,
        lba: u32,
        remaining: u32,
        data: Vec<u8>,
    ) -> (progress: ReadProgress)
        ensures
            progress@ == next_chunk_phase(mode, cfg, lba as int, remaining as int, data@),
    {
        if remaining == 0 {
            return ReadProgress::Done(data);
        }
        let most: u32 = mode.max_transfer_sectors();
        let sectors: u32 = if remaining < most { remaining } else { most };
        ReadProgress::Pending {
            read: SectorRead {
                mode,
                cfg,
                lba,
                remaining,
                sectors,
                attempt: 1,
                backoff_ms: cfg.initial_backoff_ms,
                data,
            },
            sleep_ms: 0,
        }
    }

    /// The request to carry out next.
    pub fn request(&self) -> (request: ChunkRequest)
        ensures
            request.lba == self@.lba,
            request.sectors == self@.sectors,
            request.mode == self@.mode,
            self@.valid(),
    {
        proof {
            use_type_invariant(self);
        }
        ChunkRequest { lba: self.lba, sectors: self.sectors, mode: self.mode }
    }

    /// Takes in the outcome of the current request.
    ///
    /// The bytes of a successful request are kept as they are, and the read goes
    /// on behind the sectors that were asked for. A failed request is repeated,
    /// with fewer sectors if the policy says so, until the attempts at the chunk
    /// are used up.
    ///
    /// Addresses end at `u32::MAX`: a request that goes on beyond it has to fail.
    pub fn step(self, outcome: Result<Vec<u8>, CdReaderError>) -> (progress: ReadProgress)
        requires
            outcome is Ok ==> self@.lba + self@.sectors <= u32::MAX,
        ensures
            progress@ == self@.after(outcome_view(outcome)),
    {
        proof {
            use_type_invariant(&self);
        }
        match outcome {
            Ok(chunk) => {
                let mut data = self.data;
                let mut chunk = chunk;
                data.append(&mut chunk);
                Self::turn_to_chunk(
                    self.mode,
                    self.cfg,
                    self.lba + self.sectors,
                    self.remaining - self.sectors,
                    data,
                )
            },
            Err(err) => {
                if self.attempt == self.cfg.attempts_total() {
                    return ReadProgress::Failed(err);
                }
                ReadProgress::Pending {
                    read: SectorRead {
                        mode: self.mode,
                        cfg: self.cfg,
                        lba: self.lba,
                        remaining: self.remaining,
                        sectors: self.cfg.next_sectors(self.sectors),
                        attempt: self.attempt + 1,
                        backoff_ms: self.cfg.next_backoff(self.backoff_ms),
                        data: self.data,
                    },
                    sleep_ms: self.backoff_ms,
                }
            },
        }
    }
}

} // verus!
