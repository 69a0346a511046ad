//! Reading a track piece by piece.

use vstd::prelude::*;

use crate::data_reader::SectorReadMode;
use crate::errors::{CdReaderError, IoError};
use crate::reader;
use crate::reader::Platform;
use crate::retry;
use crate::retry::RetryConfig;
use crate::toc;
use crate::toc::Toc;
use crate::transfer;
use crate::transfer::{ReadPhase, ReadProgress};
use crate::transfer_laws;

verus! {

/// How a track is streamed.
#[derive(Debug, Clone, Copy, PartialEq, Eq, Structural)]
pub struct TrackStreamConfig {
    /// Sectors per chunk. Zero counts as one.
    pub sectors_per_chunk: u32,
    /// Retry policy of the sector reads.
    pub retry: RetryConfig,
}

impl Default for TrackStreamConfig {
    /// Chunks of about 64 KB with the default retry policy.
    fn default() -> (cfg: Self)
        ensures
            cfg == (TrackStreamConfig { sectors_per_chunk: 27, retry: retry::default_retry() }),
    {
        TrackStreamConfig { sectors_per_chunk: 27, retry: RetryConfig::default() }
    }
}

/// Model of a [`TrackStream`]: the sectors that are still to come.
pub struct StreamState {
    pub cfg: TrackStreamConfig,
    pub lba: int,
    pub remaining: int,
}

impl StreamState {
    /// Number of sectors in the next chunk.
    pub open spec fn chunk_sectors(self) -> int {
        let most = if self.cfg.sectors_per_chunk == 0 {
            1
        } else {
            self.cfg.sectors_per_chunk as int
        };
        if self.remaining < most { self.remaining } else { most }
    }

    /// The read of the next chunk before any request was made.
    pub open spec fn chunk_read(self) -> ReadPhase {
        transfer::initial_phase(
            SectorReadMode::Audio,
            self.cfg.retry,
            self.lba,
            self.chunk_sectors(),
        )
    }

    /// The stream behind the next chunk.
    pub open spec fn advanced(self) -> StreamState {
        StreamState {
            lba: self.lba + self.chunk_sectors(),
            remaining: self.remaining - self.chunk_sectors(),
            ..self
        }
    }
}

/// Position in a track that is read piece by piece.
#[derive(Debug)]
pub struct TrackStream {
    cfg: TrackStreamConfig,
    next_lba: u32,
    remaining: u32,
}

impl View for TrackStream {
    type V = StreamState;

    closed spec fn view(&self) -> StreamState {
        StreamState { cfg: self.cfg, lba: self.next_lba as int, remaining: self.remaining as int }
    }
}

impl TrackStream {
    #[verifier::type_invariant]
    spec fn inv(self) -> bool {
        self.next_lba + self.remaining <= u32::MAX
    }

    /// Starts at the beginning of a track.
    pub fn open(toc: &Toc, track_no: u8, cfg: TrackStreamConfig) -> (result: Result<
        TrackStream,
        CdReaderError,
    >)
        ensures
            match toc.bounds(track_no) {
                Err(err) => result matches Err(e) && e == CdReaderError::Io(err),
                Ok((start, sectors)) => result matches Ok(stream) && stream@ == (StreamState {
                    cfg,
                    lba: start as int,
                    remaining: sectors as int,
                }),
            },
    {
        match toc::get_track_bounds(toc, track_no) {
            Ok((start_lba, sectors)) => {
                proof {
                    toc::law_bounds_are_addressable(*toc, track_no);
                }
                Ok(TrackStream { cfg, next_lba: start_lba, remaining: sectors })
            },
            Err(err) => Err(CdReaderError::Io(err)),
        }
    }

    fn next_sectors(&self) -> (sectors: u32)
        ensures
            sectors == self@.chunk_sectors(),
    {
        let most: u32 = if self.cfg.sectors_per_chunk == 0 {
            1
        } else {
            self.cfg.sectors_per_chunk
        };
        if self.remaining < most { self.remaining } else { most }
    }

    /// Starts to read the next chunk, or gives `None` at the end of the track.
    ///
    /// The position stays where it is, so that a chunk that could not be read can
    /// be asked for again.
    pub fn next_chunk<H>(&self, platform: Platform<'_, H>) -> (result: Result<
        Option<ReadProgress>,
        CdReaderError,
    >)
        ensures
            if self@.remaining == 0 {
                result == Ok::<Option<ReadProgress>, CdReaderError>(None)
            } else if platform.lacks_drive() {
                result matches Err(e) && e == CdReaderError::Io(IoError::DriveNotOpened)
            } else {
                result matches Ok(Some(progress)) && progress@ == self@.chunk_read()
            },
    {
        proof {
            use_type_invariant(self);
        }
        if self.remaining == 0 {
            return Ok(None);
        }
        let sectors: u32 = self.next_sectors();
        match reader::read_sectors_with_retry(self.next_lba, sectors, &self.cfg.retry, platform) {
            Ok(progress) => Ok(Some(progress)),
            Err(err) => Err(err),
        }
    }

    /// The stream behind the chunk that was read.
    pub fn advance(self) -> (next: TrackStream)
        ensures
            next@ == self@.advanced(),
    {
        proof {
            use_type_invariant(&self);
        }
        let sectors: u32 = self.next_sectors();
        TrackStream {
            cfg: self.cfg,
            next_lba: self.next_lba + sectors,
            remaining: self.remaining - sectors,
        }
    }
}

/// All chunks of a stream one behind the other, read from `disc`.
pub open spec fn streamed(disc: Seq<u8>, state: StreamState) -> Seq<u8>
    decreases state.remaining,
{
    if state.remaining <= 0 {
        Seq::empty()
    } else {
        transfer_laws::sector_range(
            disc,
            SectorReadMode::Audio.bytes_per_sector(),
            state.lba,
            state.chunk_sectors(),
        ) + streamed(disc, state.advanced())
    }
}

/// The sector ranges of the chunks of a stream make up exactly the rest of the track,
/// in order and whatever the chunk size.
pub proof fn law_stream_gives_the_whole_track(disc: Seq<u8>, state: StreamState)
    requires
        0 <= state.lba,
        0 <= state.remaining,
        (state.lba + state.remaining) * SectorReadMode::Audio.bytes_per_sector() <= disc.len(),
    ensures
        streamed(disc, state) == transfer_laws::sector_range(
            disc,
            SectorReadMode::Audio.bytes_per_sector(),
            state.lba,
            state.remaining,
        ),
    decreases state.remaining,
{
    let size = SectorReadMode::Audio.bytes_per_sector();
    if state.remaining == 0 {
        assert(streamed(disc, state) =~= transfer_laws::sector_range(disc, size, state.lba, 0));
    } else {
        law_stream_gives_the_whole_track(disc, state.advanced());
        transfer_laws::law_adjacent_ranges_join(
            disc,
            size,
            state.lba,
            state.chunk_sectors(),
            state.remaining - state.chunk_sectors(),
        );
    }
}

/// A chunk that was read completely is the next sectors of the stream, byte for byte,
/// if the drive returns the sectors of its disc.
pub proof fn law_chunk_read_returns_its_sectors(
    disc: Seq<u8>,
    state: StreamState,
    outcomes: Seq<Result<Seq<u8>, CdReaderError>>,
)
    requires
        0 <= state.lba,
        0 <= state.remaining,
        (state.lba + state.remaining) * SectorReadMode::Audio.bytes_per_sector() <= disc.len(),
        transfer_laws::answers_from(disc, state.chunk_read(), outcomes),
    ensures
        transfer_laws::run(state.chunk_read(), outcomes) matches ReadPhase::Done(data) ==> data
            == transfer_laws::sector_range(
            disc,
            SectorReadMode::Audio.bytes_per_sector(),
            state.lba,
            state.chunk_sectors(),
        ),
{
    transfer_laws::law_completed_read_returns_the_range(
        disc,
        SectorReadMode::Audio,
        state.cfg.retry,
        state.lba,
        state.chunk_sectors(),
        outcomes,
    );
}

/// Whether `chunks` are what the reads of a stream complete with, from `state` up to
/// the end of the track, where the drive gives the answers `outcomes[k]`, all from
/// `disc`, to the read of chunk number `k`.
pub open spec fn read_to_the_end(
    disc: Seq<u8>,
    state: StreamState,
    outcomes: Seq<Seq<Result<Seq<u8>, CdReaderError>>>,
    chunks: Seq<Seq<u8>>,
) -> bool
    decreases chunks.len(),
{
    if chunks.len() == 0 {
        state.remaining == 0
    } else {
        &&& state.remaining > 0
        &&& outcomes.len() > 0
        &&& transfer_laws::answers_from(disc, state.chunk_read(), outcomes[0])
        &&& transfer_laws::run(state.chunk_read(), outcomes[0]) == ReadPhase::Done(chunks[0])
        &&& read_to_the_end(disc, state.advanced(), outcomes.drop_first(), chunks.drop_first())
    }
}

/// Streaming a track to its end gives the same bytes as reading it as a whole: the
/// chunks that the reads complete with, one behind the other, are the sectors of the
/// track, whatever the chunk size and whichever attempts failed on the way.
pub proof fn law_chunks_read_make_up_the_track(
    disc: Seq<u8>,
    state: StreamState,
    outcomes: Seq<Seq<Result<Seq<u8>, CdReaderError>>>,
    chunks: Seq<Seq<u8>>,
)
    requires
        0 <= state.lba,
        0 <= state.remaining,
        (state.lba + state.remaining) * SectorReadMode::Audio.bytes_per_sector() <= disc.len(),
        read_to_the_end(disc, state, outcomes, chunks),
    ensures
        chunks.flatten() == transfer_laws::sector_range(
            disc,
            SectorReadMode::Audio.bytes_per_sector(),
            state.lba,
            state.remaining,
        ),
    decreases chunks.len(),
{
    law_stream_gives_the_whole_track(disc, state);
    if chunks.len() > 0 {
        law_chunk_read_returns_its_sectors(disc, state, outcomes[0]);
        law_chunks_read_make_up_the_track(
            disc,
            state.advanced(),
            outcomes.drop_first(),
            chunks.drop_first(),
        );
        law_stream_gives_the_whole_track(disc, state.advanced());
    }
}

} // verus!
