//! The drive operations.
//!
//! Each operation on a drive comes in two halves around the command that the
//! operating system carries out: the half before it decides what to ask for, and
//! the half behind it makes sense of the reply.

use vstd::prelude::*;

use crate::backend;
use crate::backend::{AudioSectorReader, AUDIO_SECTOR_BYTES};
use crate::data_reader;
use crate::data_reader::SectorReadMode;
use crate::drive::DriveSlot;
use crate::errors::{CdReaderError, IoError};
use crate::linux;
use crate::linux::SgReply;
use crate::macos;
use crate::macos::MacScsiError;
use crate::retry;
use crate::retry::RetryConfig;
use crate::stream::{StreamState, TrackStream, TrackStreamConfig};
use crate::toc;
use crate::toc::Toc;
use crate::transfer;
use crate::transfer::{ChunkRequest, ReadPhase, ReadProgress};
use crate::transfer_laws;
use crate::wav;
use crate::windows;
use crate::windows::SptdReply;

verus! {

/// Outcome of a command, in the form that the platform gives it.
#[derive(Debug)]
pub enum DriveReply {
    /// From SG_IO on Linux.
    Linux(Result<SgReply, IoError>),
    /// From the shim on macOS.
    MacOs(Result<Vec<u8>, MacScsiError>),
    /// From SCSI pass-through on Windows.
    Windows(Result<SptdReply, IoError>),
}

/// The platform of a drive, with what it looks at before an audio read.
#[derive(Debug)]
pub enum Platform<'a, H> {
    /// Linux, where each command looks for the open drive.
    Linux,
    /// macOS, where each command looks for the open drive.
    MacOs,
    /// Windows, where an audio read looks for the open drive before its first command.
    Windows(&'a DriveSlot<H>),
}

impl<'a, H> Platform<'a, H> {
    /// Whether an audio read is refused because no drive is open, without any command.
    pub open spec fn lacks_drive(self) -> bool {
        match self {
            Platform::Windows(slot) => slot.handle is None,
            _ => false,
        }
    }
}

/// Whether `progress` is the start of reading `sectors` audio sectors from `start` on
/// with the policy `cfg`, or the refusal without an open drive.
pub open spec fn starts_audio_read<H>(
    platform: Platform<'_, H>,
    cfg: RetryConfig,
    start: int,
    sectors: int,
    progress: Result<ReadProgress, CdReaderError>,
) -> bool {
    if platform.lacks_drive() {
        progress matches Err(e) && e == CdReaderError::Io(IoError::DriveNotOpened)
    } else {
        progress matches Ok(read) && read@ == transfer::initial_phase(
            SectorReadMode::Audio,
            cfg,
            start,
            sectors,
        )
    }
}

/// Whether `progress` is the start of reading `track_no` with the policy `cfg`,
/// or the error that the table of contents gives instead.
pub open spec fn starts_track_read<H>(
    platform: Platform<'_, H>,
    toc: Toc,
    track_no: u8,
    cfg: RetryConfig,
    progress: Result<ReadProgress, CdReaderError>,
) -> bool {
    match toc.bounds(track_no) {
        Err(err) => progress matches Err(e) && e == CdReaderError::Io(err),
        Ok((start, sectors)) => starts_audio_read(
            platform,
            cfg,
            start as int,
            sectors as int,
            progress,
        ),
    }
}

/// Starts to read the audio sectors of a track.
pub fn read_track_with_retry<H>(
    toc: &Toc,
    track_no: u8,
    cfg: &RetryConfig,
    platform: Platform<'_, H>,
) -> (progress: Result<ReadProgress, CdReaderError>)
    ensures
        starts_track_read(platform, *toc, track_no, *cfg, progress),
{
    match toc::get_track_bounds(toc, track_no) {
        Ok((start_lba, sectors)) => read_sectors_with_retry(start_lba, sectors, cfg, platform),
        Err(err) => Err(CdReaderError::Io(err)),
    }
}

/// Starts to read a range of audio sectors.
pub fn read_sectors_with_retry<H>(
    start_lba: u32,
    sectors: u32,
    cfg: &RetryConfig,
    platform: Platform<'_, H>,
) -> (progress: Result<ReadProgress, CdReaderError>)
    ensures
        starts_audio_read(platform, *cfg, start_lba as int, sectors as int, progress),
{
    match platform {
        Platform::Linux | Platform::MacOs => Ok(
            data_reader::read_data_sectors(start_lba, sectors, SectorReadMode::Audio, cfg),
        ),
        Platform::Windows(slot) => windows::read_sectors_with_retry(slot, start_lba, sectors, cfg),
    }
}

/// What [`CdReader::complete_sectors`] gives for the outcome of a read of `count`
/// audio sectors.
pub open spec fn is_completed(
    count: u32,
    read: Result<Vec<u8>, CdReaderError>,
    result: Result<Vec<u8>, CdReaderError>,
) -> bool {
    match read {
        Ok(data) => if data@.len() == count * AUDIO_SECTOR_BYTES {
            result == Ok::<Vec<u8>, CdReaderError>(data)
        } else {
            result matches Err(e) && e == CdReaderError::Io(IoError::IncompleteRead)
        },
        Err(err) => result matches Err(e) && e == err,
    }
}

/// An open drive.
#[derive(Debug)]
pub struct CdReader {}

impl CdReader {
    /// A reader of the drive that was opened, given what the platform's `open_drive`
    /// returned.
    pub fn open(opened: Result<(), IoError>) -> (result: Result<CdReader, IoError>)
        ensures
            match opened {
                Ok(_) => result is Ok,
                Err(err) => result matches Err(e) && e == err,
            },
    {
        match opened {
            Ok(_) => Ok(CdReader {  }),
            Err(err) => Err(err),
        }
    }

    /// Makes a playable WAV file of raw PCM by putting a RIFF header in front of it.
    pub fn create_wav(data: Vec<u8>) -> (wav: Vec<u8>)
        ensures
            wav@ == wav::wav_header(data@.len() as int) + data@,
    {
        wav::create_wav(data)
    }

    /// Reads the table of contents from the reply to a READ TOC command.
    pub fn read_toc(&self, reply: DriveReply) -> (result: Result<Toc, CdReaderError>)
        ensures
            match reply {
                DriveReply::Linux(outcome) => linux::is_toc_result(outcome, result),
                DriveReply::MacOs(outcome) => macos::is_toc_result(outcome, result),
                DriveReply::Windows(outcome) => windows::is_toc_result(outcome, result),
            },
    {
        match reply {
            DriveReply::Linux(outcome) => linux::read_toc(outcome),
            DriveReply::MacOs(outcome) => macos::read_toc(outcome),
            DriveReply::Windows(outcome) => windows::read_toc(outcome),
        }
    }

    /// Takes the sectors from the reply to the READ CD command for `request`.
    pub fn read_data_chunk(&self, request: &ChunkRequest, reply: DriveReply) -> (result: Result<
        Vec<u8>,
        CdReaderError,
    >)
        ensures
            match reply {
                DriveReply::Linux(outcome) => linux::is_chunk_result(*request, outcome, result),
                DriveReply::MacOs(outcome) => macos::is_chunk_result(*request, outcome, result),
                DriveReply::Windows(outcome) => windows::is_chunk_result(*request, outcome, result),
            },
    {
        match reply {
            DriveReply::Linux(outcome) => linux::read_data_chunk(request, outcome),
            DriveReply::MacOs(outcome) => macos::read_data_chunk(request, outcome),
            DriveReply::Windows(outcome) => windows::read_data_chunk(request, outcome),
        }
    }

    /// Starts to read the raw PCM of a track with the default retry policy.
    ///
    /// What a transfer that the drive cut short returned is passed on as it is. A
    /// drive that is read through [`AudioSectorReader`] differs there: such a read
    /// counts as failed (see [`CdReader::complete_sectors`]).
    pub fn read_track<H>(&self, toc: &Toc, track_no: u8, platform: Platform<'_, H>) -> (progress:
        Result<ReadProgress, CdReaderError>)
        ensures
            starts_track_read(platform, *toc, track_no, retry::default_retry(), progress),
    {
        self.read_track_with_retry(toc, track_no, &RetryConfig::default(), platform)
    }

    /// Starts to read the raw PCM of a track with an explicit retry policy. Transfers
    /// that the drive cut short are treated as in [`CdReader::read_track`].
    pub fn read_track_with_retry<H>(
        &self,
        toc: &Toc,
        track_no: u8,
        cfg: &RetryConfig,
        platform: Platform<'_, H>,
    ) -> (progress: Result<ReadProgress, CdReaderError>)
        ensures
            starts_track_read(platform, *toc, track_no, *cfg, progress),
    {
        read_track_with_retry(toc, track_no, cfg, platform)
    }

    /// Starts to read sectors in a specific mode.
    pub fn read_data_sectors(
        &self,
        lba: u32,
        count: u32,
        mode: SectorReadMode,
        cfg: &RetryConfig,
    ) -> (read: ReadProgress)
        ensures
            read@ == transfer::initial_phase(mode, *cfg, lba as int, count as int),
    {
        data_reader::read_data_sectors(lba, count, mode, cfg)
    }

    /// Starts to read a range of audio sectors.
    pub fn read_sectors_with_retry<H>(
        &self,
        start_lba: u32,
        sectors: u32,
        cfg: &RetryConfig,
        platform: Platform<'_, H>,
    ) -> (progress: Result<ReadProgress, CdReaderError>)
        ensures
            starts_audio_read(platform, *cfg, start_lba as int, sectors as int, progress),
    {
        read_sectors_with_retry(start_lba, sectors, cfg, platform)
    }

    /// Starts to read audio sectors for a caller to whom the drive is a backing like
    /// any other, with the default retry policy. The outcome goes through
    /// [`CdReader::complete_sectors`].
    pub fn read_audio_sectors<H>(
        &self,
        start_lba: u32,
        count: u32,
        platform: Platform<'_, H>,
    ) -> (progress: Result<ReadProgress, CdReaderError>)
        ensures
            starts_audio_read(
                platform,
                retry::default_retry(),
                start_lba as int,
                count as int,
                progress,
            ),
    {
        self.read_sectors_with_retry(start_lba, count, &RetryConfig::default(), platform)
    }

    /// Starts to stream a track.
    pub fn open_track_stream(&self, toc: &Toc, track_no: u8, cfg: TrackStreamConfig) -> (result:
        Result<TrackStream, CdReaderError>)
        ensures
            match toc.bounds(track_no) {
                Err(err) => result matches Err(e) && e == CdReaderError::Io(err),
                Ok((start, sectors)) => result matches Ok(stream) && stream@ == (StreamState {
                    cfg,
                    lba: start as int,
                    remaining: sectors as int,
                }),
            },
    {
        TrackStream::open(toc, track_no, cfg)
    }

    /// Passes on what a read of `count` audio sectors returned, unless a drive cut
    /// a transfer short: then the read counts as failed.
    ///
    /// This is for a drive that is read through [`AudioSectorReader`], which promises
    /// the full length. [`CdReader::read_track`] differs there: it passes on what it
    /// received.
    pub fn complete_sectors(
        &self,
        count: u32,
        read: Result<Vec<u8>, CdReaderError>,
    ) -> (result: Result<Vec<u8>, CdReaderError>)
        ensures
            is_completed(count, read, result),
    {
        let data = match read {
            Ok(data) => data,
            Err(err) => {
                return Err(err);
            },
        };
        if data.len() as u64 != count as u64 * AUDIO_SECTOR_BYTES as u64 {
            return Err(CdReaderError::Io(IoError::IncompleteRead));
        }
        Ok(data)
    }
}

/// A track that was read completely is the range of sectors that the table of
/// contents gives it, byte for byte, if the drive returns the sectors of its disc.
pub proof fn law_track_read_returns_its_sectors(
    disc: Seq<u8>,
    toc: Toc,
    track_no: u8,
    cfg: RetryConfig,
    outcomes: Seq<Result<Seq<u8>, CdReaderError>>,
)
    requires
        toc.bounds(track_no) matches Ok((start, sectors)) && {
            &&& (start + sectors) * AUDIO_SECTOR_BYTES <= disc.len()
            &&& transfer_laws::answers_from(
                disc,
                transfer::initial_phase(SectorReadMode::Audio, cfg, start as int, sectors as int),
                outcomes,
            )
        },
    ensures
        ({
            let (start, sectors) = toc.bounds(track_no)->Ok_0;
            let end = transfer_laws::run(
                transfer::initial_phase(SectorReadMode::Audio, cfg, start as int, sectors as int),
                outcomes,
            );
            end matches ReadPhase::Done(data) ==> data == transfer_laws::sector_range(
                disc,
                AUDIO_SECTOR_BYTES as int,
                start as int,
                sectors as int,
            )
        }),
{
    let (start, sectors) = toc.bounds(track_no)->Ok_0;
    transfer_laws::law_completed_read_returns_the_range(
        disc,
        SectorReadMode::Audio,
        cfg,
        start as int,
        sectors as int,
        outcomes,
    );
}

/// A backing and a drive with the same disc give the same bytes for a track: what
/// [`read_track`](crate::backend::read_track) returns from the one equals what a
/// read of the other completes with.
pub proof fn law_backing_and_drive_agree<R: AudioSectorReader>(
    src: &R,
    disc: Seq<u8>,
    toc: Toc,
    track_no: u8,
    cfg: RetryConfig,
    outcomes: Seq<Result<Seq<u8>, CdReaderError>>,
    from_backing: Vec<u8>,
    from_drive: Seq<u8>,
)
    requires
        toc.bounds(track_no) matches Ok((start, sectors)) && {
            let first = transfer::initial_phase(
                SectorReadMode::Audio,
                cfg,
                start as int,
                sectors as int,
            );
            &&& (start + sectors) * AUDIO_SECTOR_BYTES <= disc.len()
            &&& backend::passes_on_read(src, start, sectors, Ok(from_backing))
            &&& transfer_laws::answers_from(disc, first, outcomes)
            &&& transfer_laws::run(first, outcomes) == ReadPhase::Done(from_drive)
        },
        forall|lba: u32, count: u32, data: Vec<u8>| #[trigger]
            call_ensures(R::read_audio_sectors, (src, lba, count), Ok(data)) ==> data@
                == transfer_laws::sector_range(
                disc,
                AUDIO_SECTOR_BYTES as int,
                lba as int,
                count as int,
            ),
    ensures
        from_backing@ == from_drive,
{
    law_track_read_returns_its_sectors(disc, toc, track_no, cfg, outcomes);
}

/// A track that is read straight from a drive and one that is read from the drive as
/// a backing are the same read: they start alike, and what the one completes with the
/// other passes on, unless the drive cut a transfer short.
pub proof fn law_drive_as_backing_reads_the_track<H>(
    platform: Platform<'_, H>,
    toc: Toc,
    track_no: u8,
    straight: Result<ReadProgress, CdReaderError>,
    as_backing: Result<ReadProgress, CdReaderError>,
    outcomes: Seq<Result<Seq<u8>, CdReaderError>>,
    data: Vec<u8>,
    passed_on: Result<Vec<u8>, CdReaderError>,
)
    requires
        toc.bounds(track_no) matches Ok((start, sectors)) && {
            &&& starts_track_read(platform, toc, track_no, retry::default_retry(), straight)
            &&& starts_audio_read(
                platform,
                retry::default_retry(),
                start as int,
                sectors as int,
                as_backing,
            )
            &&& is_completed(sectors, Ok(data), passed_on)
        },
    ensures
        match (straight, as_backing) {
            (Ok(read), Ok(other)) => read@ == other@,
            (Err(err), Err(other)) => err == other,
            _ => false,
        },
        straight matches Ok(read) ==> transfer_laws::answers_complete(read@, outcomes)
            && transfer_laws::run(read@, outcomes) == ReadPhase::Done(data@) ==> passed_on == Ok::<
            Vec<u8>,
            CdReaderError,
        >(data),
{
    let (start, sectors) = toc.bounds(track_no)->Ok_0;
    if let Ok(read) = straight {
        if transfer_laws::answers_complete(read@, outcomes) {
            transfer_laws::law_completed_read_has_full_length(
                SectorReadMode::Audio,
                retry::default_retry(),
                start as int,
                sectors as int,
                outcomes,
            );
        }
    }
}

/// Consecutive tracks of an audio disc whose table is in order join without a gap:
/// their bytes one behind the other are those of the sectors from the start of the
/// first to the end of the second.
pub proof fn law_neighbouring_tracks_join(disc: Seq<u8>, toc: Toc, i: int)
    requires
        toc::in_order(toc),
        0 <= i < toc.tracks@.len() - 1,
        !toc::ends_audio_session(toc.tracks@, i),
        toc.leadout_lba * AUDIO_SECTOR_BYTES <= disc.len(),
        toc.bounds(toc.tracks@[i + 1].number) is Ok,
    ensures
        toc.bounds(toc.tracks@[i].number) is Ok,
        ({
            let size = AUDIO_SECTOR_BYTES as int;
            let (first, m) = toc.bounds(toc.tracks@[i].number)->Ok_0;
            let (second, n) = toc.bounds(toc.tracks@[i + 1].number)->Ok_0;
            transfer_laws::sector_range(disc, size, first as int, m as int)
                + transfer_laws::sector_range(disc, size, second as int, n as int)
                == transfer_laws::sector_range(disc, size, first as int, m + n)
        }),
{
    let size = AUDIO_SECTOR_BYTES as int;
    toc::law_tracks_reach_the_next(toc, i);
    toc::law_tracks_reach_the_next(toc, i + 1);
    let (first, m) = toc.bounds(toc.tracks@[i].number)->Ok_0;
    let (second, n) = toc.bounds(toc.tracks@[i + 1].number)->Ok_0;
    toc::law_tracks_do_not_overlap(toc, i, i + 1);
    transfer_laws::law_adjacent_ranges_join(disc, size, first as int, m as int, n as int);
}

} // verus!
