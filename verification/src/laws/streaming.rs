//! Reading a track piece by piece.

use vstd::prelude::*;

use crate::data_reader::SectorReadMode;
use crate::errors::{CdReaderError, IoError};
use crate::laws::reading;
use crate::reader::{CdReader, Platform};
use crate::retry::RetryConfig;
use crate::stream::{TrackStream, TrackStreamConfig};
use crate::toc;
use crate::toc::Toc;
use crate::transfer::{ChunkRequest, ReadProgress};

verus! {

/// Whether these are the positions of a stream from its start on, one chunk apart.
pub open spec fn are_positions(positions: Seq<TrackStream>) -> bool {
    &&& positions.len() > 0
    &&& forall|k: int|
        0 <= k < positions.len() - 1 ==> call_ensures(
            TrackStream::advance,
            (#[trigger] positions[k],),
            positions[k + 1],
        )
}

/// Sectors in front of chunk number `k` of a track of `sectors` sectors. Zero sectors
/// per chunk count as one.
pub open spec fn sectors_before(cfg: TrackStreamConfig, sectors: int, k: int) -> int {
    let chunk: int = if cfg.sectors_per_chunk == 0 { 1 } else { cfg.sectors_per_chunk as int };
    if k * chunk < sectors { k * chunk } else { sectors }
}

proof fn lemma_position(
    positions: Seq<TrackStream>,
    cfg: TrackStreamConfig,
    start: int,
    sectors: int,
    k: int,
)
    requires
        are_positions(positions),
        0 <= k < positions.len(),
        0 <= sectors,
        positions[0]@.cfg == cfg,
        positions[0]@.lba == start,
        positions[0]@.remaining == sectors,
    ensures
        positions[k]@.cfg == cfg,
        positions[k]@.lba == start + sectors_before(cfg, sectors, k),
        positions[k]@.remaining == sectors - sectors_before(cfg, sectors, k),
        sectors_before(cfg, sectors, k + 1) - sectors_before(cfg, sectors, k)
            == positions[k]@.chunk_sectors(),
        0 <= sectors_before(cfg, sectors, k) <= sectors,
    decreases k,
{
    let chunk: int = if cfg.sectors_per_chunk == 0 { 1 } else { cfg.sectors_per_chunk as int };
    assert((k + 1) * chunk == k * chunk + chunk) by (nonlinear_arith);
    assert(0 <= k * chunk) by (nonlinear_arith)
        requires
            0 <= k,
            0 <= chunk,
    ;
    if k > 0 {
        lemma_position(positions, cfg, start, sectors, k - 1);
        assert((k - 1) * chunk + chunk == k * chunk) by (nonlinear_arith);
        assert(call_ensures(TrackStream::advance, (positions[k - 1],), positions[k]));
    } else {
        assert(0 * chunk == 0);
    }
}

/// Streaming a track goes through its sectors from the first to the last, chunk by
/// chunk: chunk number `k` starts behind `k` chunks, has the configured number of
/// sectors or what is left of the track, and is read as audio with the configured
/// policy. Behind the last chunk there is none. A track number that cannot be resolved
/// is refused with the reason.
pub proof fn law_stream_goes_through_the_track<H>(
    reader: CdReader,
    toc: Toc,
    track_no: u8,
    cfg: TrackStreamConfig,
    bounds: Result<(u32, u32), IoError>,
    opened: Result<TrackStream, CdReaderError>,
    positions: Seq<TrackStream>,
    k: int,
    platform: Platform<'_, H>,
    chunk: Result<Option<ReadProgress>, CdReaderError>,
    points: Seq<ReadProgress>,
    requests: Seq<ChunkRequest>,
    answers: Seq<Result<Vec<u8>, CdReaderError>>,
)
    requires
        call_ensures(toc::get_track_bounds, (&toc, track_no), bounds),
        call_ensures(CdReader::open_track_stream, (&reader, &toc, track_no, cfg), opened)
            || call_ensures(TrackStream::open, (&toc, track_no, cfg), opened),
        opened is Ok ==> {
            &&& are_positions(positions)
            &&& positions[0] == opened->Ok_0
            &&& 0 <= k < positions.len()
            &&& call_ensures(TrackStream::next_chunk::<H>, (&positions[k], platform), chunk)
        },
    ensures
        match (bounds, opened) {
            (Err(why), Err(err)) => err == CdReaderError::Io(why),
            (Ok((start, sectors)), Ok(_)) => {
                let from = sectors_before(cfg, sectors as int, k);
                let to = sectors_before(cfg, sectors as int, k + 1);
                match chunk {
                    Ok(None) => from == sectors,
                    Err(err) => from < sectors && reading::is_refused(platform) && err
                        == CdReaderError::Io(IoError::DriveNotOpened),
                    Ok(Some(first)) => {
                        &&& from < sectors
                        &&& !reading::is_refused(platform)
                        &&& reading::is_course(points, requests, answers) && points[0] == first
                            ==> reading::is_read_of(
                            points,
                            requests,
                            answers,
                            SectorReadMode::Audio,
                            cfg.retry,
                            start + from,
                            to - from,
                        )
                    },
                }
            },
            _ => false,
        },
{
    if bounds is Ok && opened is Ok {
        let (start, sectors) = bounds->Ok_0;
        lemma_position(positions, cfg, start as int, sectors as int, k);
        let from = sectors_before(cfg, sectors as int, k);
        let to = sectors_before(cfg, sectors as int, k + 1);
        if let Ok(Some(first)) = chunk {
            if reading::is_course(points, requests, answers) && points[0] == first {
                reading::lemma_is_read(
                    points,
                    requests,
                    answers,
                    SectorReadMode::Audio,
                    cfg.retry,
                    start + from,
                    to - from,
                );
            }
        }
    }
}

/// A chunk of a stream is the bytes of its sectors, so the chunks one behind the other
/// are the track: if the drive answers with the audio sectors it is asked for, a read of
/// chunk number `k` that is done gives those from where the chunk starts to where the
/// next one does.
pub proof fn law_chunk_is_its_part_of_the_track<H>(
    disc: Seq<u8>,
    reader: CdReader,
    toc: Toc,
    track_no: u8,
    cfg: TrackStreamConfig,
    bounds: (u32, u32),
    positions: Seq<TrackStream>,
    k: int,
    platform: Platform<'_, H>,
    points: Seq<ReadProgress>,
    requests: Seq<ChunkRequest>,
    answers: Seq<Result<Vec<u8>, CdReaderError>>,
)
    requires
        call_ensures(toc::get_track_bounds, (&toc, track_no), Ok(bounds)),
        are_positions(positions),
        call_ensures(CdReader::open_track_stream, (&reader, &toc, track_no, cfg), Ok(positions[0])),
        0 <= k < positions.len(),
        call_ensures(
            TrackStream::next_chunk::<H>,
            (&positions[k], platform),
            Ok(Some(points[0])),
        ),
        reading::is_course(points, requests, answers),
        reading::answers_hold(disc, 2352, requests, answers),
        (bounds.0 + bounds.1) * 2352 <= disc.len(),
    ensures
        ({
            let from = bounds.0 + sectors_before(cfg, bounds.1 as int, k);
            let to = bounds.0 + sectors_before(cfg, bounds.1 as int, k + 1);
            points.last() matches ReadProgress::Done(data) ==> data@ == disc.subrange(
                from * 2352,
                to * 2352,
            )
        }),
{
    law_stream_goes_through_the_track(
        reader,
        toc,
        track_no,
        cfg,
        Ok(bounds),
        Ok(positions[0]),
        positions,
        k,
        platform,
        Ok(Some(points[0])),
        points,
        requests,
        answers,
    );
    lemma_position(positions, cfg, bounds.0 as int, bounds.1 as int, k);
    let from = sectors_before(cfg, bounds.1 as int, k);
    let to = sectors_before(cfg, bounds.1 as int, k + 1);
    reading::lemma_read_gives_its_sectors(
        disc,
        2352,
        points,
        requests,
        answers,
        SectorReadMode::Audio,
        cfg.retry,
        bounds.0 + from,
        to - from,
    );
}

/// By default a chunk is as many sectors as fit into 64 KB, read with the default
/// policy.
pub proof fn law_default_stream_uses_whole_transfers(cfg: TrackStreamConfig, retry: RetryConfig)
    requires
        call_ensures(<TrackStreamConfig as Default>::default, (), cfg),
        call_ensures(<RetryConfig as Default>::default, (), retry),
    ensures
        cfg.retry == retry,
        cfg.sectors_per_chunk * 2352 <= 0x1_0000 < (cfg.sectors_per_chunk + 1) * 2352,
{
}

} // verus!
