//! Reading sectors chunk by chunk, whatever the drive answers.

use vstd::prelude::*;

use crate::backend;
use crate::backend::{AudioSectorReader, TrackReadError};
use crate::data_reader;
use crate::data_reader::SectorReadMode;
use crate::errors::{CdReaderError, IoError};
use crate::laws::commands;
use crate::reader;
use crate::reader::{CdReader, Platform};
use crate::retry;
use crate::retry::RetryConfig;
use crate::scsi;
use crate::toc;
use crate::toc::Toc;
use crate::transfer;
use crate::transfer::{ChunkRequest, ReadPhase, ReadProgress, SectorRead};
use crate::transfer_laws;
use crate::windows;

verus! {

/// Whether a read went this way: at each point but the last it asked for `requests[i]`
/// and was told the outcome `answers[i]`, which led to the next point.
pub open spec fn is_course(
    points: Seq<ReadProgress>,
    requests: Seq<ChunkRequest>,
    answers: Seq<Result<Vec<u8>, CdReaderError>>,
) -> bool {
    &&& points.len() == answers.len() + 1
    &&& requests.len() == answers.len()
    &&& forall|i: int|
        0 <= i < answers.len() ==> leads_on(
            points[i],
            requests[i],
            #[trigger] answers[i],
            points[i + 1],
        )
}

/// Whether a pending read asked for `request` and went on to `next` with `answer`.
pub open spec fn leads_on(
    point: ReadProgress,
    request: ChunkRequest,
    answer: Result<Vec<u8>, CdReaderError>,
    next: ReadProgress,
) -> bool {
    point matches ReadProgress::Pending { read, sleep_ms } && {
        &&& call_ensures(SectorRead::request, (&read,), request)
        &&& call_ensures(SectorRead::step, (read, answer), next)
    }
}

/// Whether a read waits to ask, after a delay, for these sectors in this format.
pub open spec fn waits_for(
    point: ReadProgress,
    delay: int,
    lba: int,
    sectors: int,
    mode: SectorReadMode,
) -> bool {
    point matches ReadProgress::Pending { read, sleep_ms } && {
        &&& sleep_ms == delay
        &&& forall|request: ChunkRequest| #[trigger]
            call_ensures(SectorRead::request, (&read,), request) ==> request.lba == lba
                && request.sectors == sectors && request.mode == mode
    }
}

/// Whether a read turns without a delay to the next of `remaining` sectors from `lba`
/// on, and to as many of them as fit into 64 KB, or is done if none remain.
pub open spec fn turns_to(
    point: ReadProgress,
    lba: int,
    remaining: int,
    mode: SectorReadMode,
) -> bool {
    let most: int = if mode == SectorReadMode::DataCooked { 32 } else { 27 };
    if remaining == 0 {
        point is Done
    } else {
        waits_for(point, 0, lba, if remaining < most { remaining } else { most }, mode)
    }
}

/// Number of answers in a row, up to answer number `i`, that are failures.
pub open spec fn failures_before(answers: Seq<Result<Vec<u8>, CdReaderError>>, i: int) -> int
    decreases i,
{
    if i <= 0 || answers[i - 1] is Ok {
        0
    } else {
        1 + failures_before(answers, i - 1)
    }
}

/// All bytes that the first `n` answers brought, in order.
pub open spec fn received(answers: Seq<Result<Vec<u8>, CdReaderError>>, n: int) -> Seq<u8>
    decreases n,
{
    if n <= 0 {
        Seq::empty()
    } else {
        match answers[n - 1] {
            Ok(chunk) => received(answers, n - 1) + chunk@,
            Err(_) => received(answers, n - 1),
        }
    }
}

/// Delay in front of repetition number `n` of an attempt, from zero: the initial delay,
/// doubled each time up to the bound. Without a bound it stays what it is.
pub open spec fn delay_of(cfg: RetryConfig, n: int) -> int
    decreases n,
{
    if n <= 0 {
        cfg.initial_backoff_ms as int
    } else if cfg.max_backoff_ms == 0 {
        delay_of(cfg, n - 1)
    } else if 2 * delay_of(cfg, n - 1) < cfg.max_backoff_ms {
        2 * delay_of(cfg, n - 1)
    } else {
        cfg.max_backoff_ms as int
    }
}

/// Whether `next` sectors are asked for after a failed attempt at `sectors`: the same
/// number, or if chunks are to be reduced, eight if that is fewer and not below the
/// minimum, and otherwise the minimum.
pub open spec fn is_next_size(cfg: RetryConfig, sectors: int, next: int) -> bool {
    let least: int = if cfg.min_sectors_per_read == 0 {
        1
    } else {
        cfg.min_sectors_per_read as int
    };
    if !cfg.reduce_chunk_on_retry || sectors <= least {
        next == sectors
    } else if sectors > 8 && least < 8 {
        next == 8
    } else {
        next == least
    }
}

/// Whether a read of the sectors up to `end` goes on from point `i` as it should.
///
/// It asked for sectors in the right format, at least one and none behind the end. If it
/// received them it turns to those behind them. If it did not, and this was the last
/// attempt at this chunk, it fails with the error that it was told. Otherwise it asks
/// again from the same sector on, after a delay and for no more sectors than before.
pub open spec fn goes_on(
    points: Seq<ReadProgress>,
    requests: Seq<ChunkRequest>,
    answers: Seq<Result<Vec<u8>, CdReaderError>>,
    mode: SectorReadMode,
    cfg: RetryConfig,
    start: int,
    end: int,
    i: int,
) -> bool {
    let request = requests[i];
    let attempts: int = if cfg.max_attempts == 0 { 1 } else { cfg.max_attempts as int };
    let failed = failures_before(answers, i + 1);
    let size: int = if mode == SectorReadMode::DataCooked { 2048 } else { 2352 };
    &&& request.mode == mode
    &&& start <= request.lba
    &&& 1 <= request.sectors
    &&& request.lba + request.sectors <= end
    &&& request.sectors * size <= 0x1_0000
    &&& match answers[i] {
        Ok(_) => turns_to(
            points[i + 1],
            request.lba + request.sectors,
            end - (request.lba + request.sectors),
            mode,
        ),
        Err(err) => if failed == attempts {
            points[i + 1] matches ReadProgress::Failed(e) && e == err
        } else {
            &&& failed < attempts
            &&& exists|sectors: int| #[trigger]
                is_next_size(cfg, request.sectors as int, sectors) && waits_for(
                    points[i + 1],
                    delay_of(cfg, failed - 1),
                    request.lba as int,
                    sectors,
                    mode,
                )
        },
    }
}

/// Whether a read of `count` sectors from `start` on goes as it should from its start to
/// its end: it begins at the first sector, goes on from each point to the next, and if
/// it is done it gives all bytes that it received, in order.
pub open spec fn is_read_of(
    points: Seq<ReadProgress>,
    requests: Seq<ChunkRequest>,
    answers: Seq<Result<Vec<u8>, CdReaderError>>,
    mode: SectorReadMode,
    cfg: RetryConfig,
    start: int,
    count: int,
) -> bool {
    &&& turns_to(points[0], start, count, mode)
    &&& forall|i: int|
        0 <= i < answers.len() ==> #[trigger] goes_on(
            points,
            requests,
            answers,
            mode,
            cfg,
            start,
            start + count,
            i,
        )
    &&& points.last() matches ReadProgress::Done(data) ==> data@ == received(
        answers,
        answers.len() as int,
    )
}

proof fn lemma_delay(cfg: RetryConfig, n: int)
    requires
        0 <= n,
    ensures
        delay_of(cfg, n) == transfer_laws::nth_backoff(cfg, n),
    decreases n,
{
    if n > 0 {
        lemma_delay(cfg, n - 1);
        transfer_laws::lemma_backoff_doubles(cfg, n - 1);
    } else {
        transfer_laws::lemma_backoff_doubles(cfg, 0);
    }
}

/// What is known of point `i` of a read.
spec fn stands_at(
    points: Seq<ReadProgress>,
    answers: Seq<Result<Vec<u8>, CdReaderError>>,
    mode: SectorReadMode,
    cfg: RetryConfig,
    start: int,
    count: int,
    i: int,
) -> bool {
    match points[i] {
        ReadProgress::Pending { read, sleep_ms } => {
            &&& transfer_laws::on_course(mode, cfg, start, count, read@, sleep_ms as int)
            &&& read@.attempt - 1 == failures_before(answers, i)
            &&& read@.data == received(answers, i)
        },
        ReadProgress::Done(data) => data@ == received(answers, i),
        ReadProgress::Failed(_) => true,
    }
}

proof fn lemma_stands(
    points: Seq<ReadProgress>,
    requests: Seq<ChunkRequest>,
    answers: Seq<Result<Vec<u8>, CdReaderError>>,
    mode: SectorReadMode,
    cfg: RetryConfig,
    start: int,
    count: int,
    i: int,
)
    requires
        0 <= start,
        0 <= count,
        points[0]@ == transfer::initial_phase(mode, cfg, start, count),
        is_course(points, requests, answers),
        0 <= i <= answers.len(),
    ensures
        stands_at(points, answers, mode, cfg, start, count, i),
    decreases i,
{
    if i == 0 {
        transfer_laws::lemma_initial_on_course(mode, cfg, start, count);
    } else {
        lemma_stands(points, requests, answers, mode, cfg, start, count, i - 1);
        assert(leads_on(points[i - 1], requests[i - 1], answers[i - 1], points[i]));
        if let ReadProgress::Pending { read, sleep_ms } = points[i - 1] {
            transfer_laws::lemma_step_on_course(
                mode,
                cfg,
                start,
                count,
                read@,
                sleep_ms as int,
                transfer::outcome_view(answers[i - 1]),
            );
        }
    }
}

proof fn lemma_goes_on(
    points: Seq<ReadProgress>,
    requests: Seq<ChunkRequest>,
    answers: Seq<Result<Vec<u8>, CdReaderError>>,
    mode: SectorReadMode,
    cfg: RetryConfig,
    start: int,
    count: int,
    i: int,
)
    requires
        0 <= start,
        0 <= count,
        points[0]@ == transfer::initial_phase(mode, cfg, start, count),
        is_course(points, requests, answers),
        0 <= i < answers.len(),
    ensures
        goes_on(points, requests, answers, mode, cfg, start, start + count, i),
{
    lemma_stands(points, requests, answers, mode, cfg, start, count, i);
    lemma_stands(points, requests, answers, mode, cfg, start, count, i + 1);
    assert(leads_on(points[i], requests[i], answers[i], points[i + 1]));
    if let ReadProgress::Pending { read, sleep_ms } = points[i] {
        let request = requests[i];
        assert(request.lba == read@.lba && request.sectors == read@.sectors && request.mode
            == read@.mode);
        if answers[i] is Err {
            let failed = failures_before(answers, i + 1);
            assert(failed == read@.attempt);
            lemma_delay(cfg, failed - 1);
            let next = cfg.chunk_after_failure(read@.sectors);
            assert(is_next_size(cfg, request.sectors as int, next));
        }
    }
}

pub(crate) proof fn lemma_is_read(
    points: Seq<ReadProgress>,
    requests: Seq<ChunkRequest>,
    answers: Seq<Result<Vec<u8>, CdReaderError>>,
    mode: SectorReadMode,
    cfg: RetryConfig,
    start: int,
    count: int,
)
    requires
        0 <= start,
        0 <= count,
        points[0]@ == transfer::initial_phase(mode, cfg, start, count),
        is_course(points, requests, answers),
    ensures
        is_read_of(points, requests, answers, mode, cfg, start, count),
{
    assert forall|i: int| 0 <= i < answers.len() implies #[trigger] goes_on(
        points,
        requests,
        answers,
        mode,
        cfg,
        start,
        start + count,
        i,
    ) by {
        lemma_goes_on(points, requests, answers, mode, cfg, start, count, i);
    }
    lemma_stands(points, requests, answers, mode, cfg, start, count, answers.len() as int);
}

/// Reading sectors in a format reads those sectors in that format.
pub proof fn law_data_read_is_a_read_of_its_sectors(
    reader: CdReader,
    lba: u32,
    count: u32,
    mode: SectorReadMode,
    cfg: RetryConfig,
    points: Seq<ReadProgress>,
    requests: Seq<ChunkRequest>,
    answers: Seq<Result<Vec<u8>, CdReaderError>>,
)
    requires
        is_course(points, requests, answers),
        call_ensures(CdReader::read_data_sectors, (&reader, lba, count, mode, &cfg), points[0])
            || call_ensures(data_reader::read_data_sectors, (lba, count, mode, &cfg), points[0])
            || call_ensures(SectorRead::begin, (mode, lba, count, &cfg), points[0]),
    ensures
        is_read_of(points, requests, answers, mode, cfg, lba as int, count as int),
{
    lemma_is_read(points, requests, answers, mode, cfg, lba as int, count as int);
}

/// Whether an audio read is refused at once: on Windows, if no drive is open.
pub open spec fn is_refused<H>(platform: Platform<'_, H>) -> bool {
    platform matches Platform::Windows(slot) && slot.handle is None
}

/// Reading audio sectors reads those sectors as audio, unless it is refused.
pub proof fn law_audio_read_is_a_read_of_its_sectors<H>(
    reader: CdReader,
    start: u32,
    count: u32,
    cfg: RetryConfig,
    platform: Platform<'_, H>,
    started: Result<ReadProgress, CdReaderError>,
    points: Seq<ReadProgress>,
    requests: Seq<ChunkRequest>,
    answers: Seq<Result<Vec<u8>, CdReaderError>>,
)
    requires
        call_ensures(
            CdReader::read_sectors_with_retry::<H>,
            (&reader, start, count, &cfg, platform),
            started,
        ) || call_ensures(
            reader::read_sectors_with_retry::<H>,
            (start, count, &cfg, platform),
            started,
        ) || (call_ensures(
            CdReader::read_audio_sectors::<H>,
            (&reader, start, count, platform),
            started,
        ) && call_ensures(<RetryConfig as Default>::default, (), cfg)),
    ensures
        match started {
            Err(err) => is_refused(platform) && err == CdReaderError::Io(IoError::DriveNotOpened),
            Ok(first) => !is_refused(platform) && (is_course(points, requests, answers) && points[0]
                == first ==> is_read_of(
                points,
                requests,
                answers,
                SectorReadMode::Audio,
                cfg,
                start as int,
                count as int,
            )),
        },
{
    if started is Ok && is_course(points, requests, answers) && points[0] == started->Ok_0 {
        lemma_is_read(
            points,
            requests,
            answers,
            SectorReadMode::Audio,
            cfg,
            start as int,
            count as int,
        );
    }
}

/// The Windows part of it.
pub proof fn law_windows_reads_from_the_open_drive<H>(
    slot: crate::drive::DriveSlot<H>,
    start: u32,
    count: u32,
    cfg: RetryConfig,
    started: Result<ReadProgress, CdReaderError>,
    points: Seq<ReadProgress>,
    requests: Seq<ChunkRequest>,
    answers: Seq<Result<Vec<u8>, CdReaderError>>,
)
    requires
        call_ensures(windows::read_sectors_with_retry::<H>, (&slot, start, count, &cfg), started),
    ensures
        match started {
            Err(err) => slot.handle is None && err == CdReaderError::Io(IoError::DriveNotOpened),
            Ok(first) => slot.handle is Some && (is_course(points, requests, answers) && points[0]
                == first ==> is_read_of(
                points,
                requests,
                answers,
                SectorReadMode::Audio,
                cfg,
                start as int,
                count as int,
            )),
        },
{
    if started is Ok && is_course(points, requests, answers) && points[0] == started->Ok_0 {
        lemma_is_read(
            points,
            requests,
            answers,
            SectorReadMode::Audio,
            cfg,
            start as int,
            count as int,
        );
    }
}

/// Reading a track reads the sectors that its number is resolved to, as audio. If the
/// number cannot be resolved the reason is passed on, and only then is it looked
/// whether a drive is open.
pub proof fn law_track_read_is_a_read_of_its_sectors<H>(
    reader: CdReader,
    toc: Toc,
    track_no: u8,
    cfg: RetryConfig,
    platform: Platform<'_, H>,
    bounds: Result<(u32, u32), IoError>,
    started: Result<ReadProgress, CdReaderError>,
    points: Seq<ReadProgress>,
    requests: Seq<ChunkRequest>,
    answers: Seq<Result<Vec<u8>, CdReaderError>>,
)
    requires
        call_ensures(toc::get_track_bounds, (&toc, track_no), bounds),
        call_ensures(
            CdReader::read_track_with_retry::<H>,
            (&reader, &toc, track_no, &cfg, platform),
            started,
        ) || call_ensures(
            reader::read_track_with_retry::<H>,
            (&toc, track_no, &cfg, platform),
            started,
        ) || (call_ensures(CdReader::read_track::<H>, (&reader, &toc, track_no, platform), started)
            && call_ensures(<RetryConfig as Default>::default, (), cfg)),
    ensures
        match (bounds, started) {
            (Err(why), Err(err)) => err == CdReaderError::Io(why),
            (Err(_), Ok(_)) => false,
            (Ok(_), Err(err)) => is_refused(platform) && err == CdReaderError::Io(
                IoError::DriveNotOpened,
            ),
            (Ok((start, sectors)), Ok(first)) => !is_refused(platform) && (is_course(
                points,
                requests,
                answers,
            ) && points[0] == first ==> is_read_of(
                points,
                requests,
                answers,
                SectorReadMode::Audio,
                cfg,
                start as int,
                sectors as int,
            )),
        },
{
    if bounds is Ok && started is Ok && is_course(points, requests, answers) && points[0]
        == started->Ok_0 {
        let (start, sectors) = bounds->Ok_0;
        lemma_is_read(
            points,
            requests,
            answers,
            SectorReadMode::Audio,
            cfg,
            start as int,
            sectors as int,
        );
    }
}

/// Whether each answer that is no failure brought the sectors that were asked for, of a
/// disc with `size` bytes per sector.
pub open spec fn answers_hold(
    disc: Seq<u8>,
    size: int,
    requests: Seq<ChunkRequest>,
    answers: Seq<Result<Vec<u8>, CdReaderError>>,
) -> bool {
    forall|i: int|
        0 <= i < answers.len() ==> ((#[trigger] answers[i]) matches Ok(chunk) ==> chunk@
            == disc.subrange(
            requests[i].lba * size,
            (requests[i].lba + requests[i].sectors) * size,
        ))
}

/// Up to point `i` a read has received the sectors in front of the ones it asks for.
proof fn lemma_received(
    disc: Seq<u8>,
    size: int,
    points: Seq<ReadProgress>,
    requests: Seq<ChunkRequest>,
    answers: Seq<Result<Vec<u8>, CdReaderError>>,
    mode: SectorReadMode,
    cfg: RetryConfig,
    start: int,
    count: int,
    i: int,
)
    requires
        is_course(points, requests, answers),
        is_read_of(points, requests, answers, mode, cfg, start, count),
        answers_hold(disc, size, requests, answers),
        0 <= start,
        0 <= count,
        0 < size,
        (start + count) * size <= disc.len(),
        0 <= i <= answers.len(),
    ensures
        i < answers.len() ==> start <= requests[i].lba <= start + count && received(answers, i)
            == disc.subrange(start * size, requests[i].lba * size),
        points[i] is Done ==> received(answers, i) == disc.subrange(
            start * size,
            (start + count) * size,
        ),
    decreases i,
{
    assert(start * size <= (start + count) * size) by (nonlinear_arith)
        requires
            0 <= count,
            0 < size,
    ;
    assert(0 <= start * size) by (nonlinear_arith)
        requires
            0 <= start,
            0 < size,
    ;
    if i < answers.len() {
        assert(leads_on(points[i], requests[i], answers[i], points[i + 1]));
        assert(goes_on(points, requests, answers, mode, cfg, start, start + count, i));
    }
    if i == 0 {
        assert(disc.subrange(start * size, start * size) =~= Seq::<u8>::empty());
        assert(received(answers, 0) =~= Seq::<u8>::empty());
    } else {
        lemma_received(
            disc,
            size,
            points,
            requests,
            answers,
            mode,
            cfg,
            start,
            count,
            i - 1,
        );
        assert(leads_on(points[i - 1], requests[i - 1], answers[i - 1], points[i]));
        assert(goes_on(points, requests, answers, mode, cfg, start, start + count, i - 1));
        let request = requests[i - 1];
        if answers[i - 1] is Ok {
            let from = request.lba * size;
            let to = (request.lba + request.sectors) * size;
            assert(start * size <= from <= to <= (start + count) * size) by (nonlinear_arith)
                requires
                    0 < size,
                    start <= request.lba,
                    0 <= request.sectors,
                    request.lba + request.sectors <= start + count,
                    from == request.lba * size,
                    to == (request.lba + request.sectors) * size,
            ;
            assert(disc.subrange(start * size, from) + disc.subrange(from, to) =~= disc.subrange(
                start * size,
                to,
            ));
        }
    }
}

pub(crate) proof fn lemma_read_gives_its_sectors(
    disc: Seq<u8>,
    size: int,
    points: Seq<ReadProgress>,
    requests: Seq<ChunkRequest>,
    answers: Seq<Result<Vec<u8>, CdReaderError>>,
    mode: SectorReadMode,
    cfg: RetryConfig,
    start: int,
    count: int,
)
    requires
        is_course(points, requests, answers),
        is_read_of(points, requests, answers, mode, cfg, start, count),
        answers_hold(disc, size, requests, answers),
        0 <= start,
        0 <= count,
        0 < size,
        (start + count) * size <= disc.len(),
    ensures
        points.last() matches ReadProgress::Done(data) ==> data@ == disc.subrange(
            start * size,
            (start + count) * size,
        ),
{
    lemma_received(
        disc,
        size,
        points,
        requests,
        answers,
        mode,
        cfg,
        start,
        count,
        answers.len() as int,
    );
}

/// Reading a track of a disc gives the bytes of the track, exactly and in order,
/// whichever attempts failed on the way: if the drive answers with the audio sectors it
/// is asked for, a read that is done gives those from the first sector of the track to
/// the last, 2352 bytes each.
pub proof fn law_track_read_gives_the_track<H>(
    disc: Seq<u8>,
    reader: CdReader,
    toc: Toc,
    track_no: u8,
    cfg: RetryConfig,
    platform: Platform<'_, H>,
    bounds: (u32, u32),
    points: Seq<ReadProgress>,
    requests: Seq<ChunkRequest>,
    answers: Seq<Result<Vec<u8>, CdReaderError>>,
)
    requires
        call_ensures(toc::get_track_bounds, (&toc, track_no), Ok(bounds)),
        call_ensures(
            CdReader::read_track_with_retry::<H>,
            (&reader, &toc, track_no, &cfg, platform),
            Ok(points[0]),
        ) || (call_ensures(
            CdReader::read_track::<H>,
            (&reader, &toc, track_no, platform),
            Ok(points[0]),
        ) && call_ensures(<RetryConfig as Default>::default, (), cfg)),
        is_course(points, requests, answers),
        answers_hold(disc, 2352, requests, answers),
        (bounds.0 + bounds.1) * 2352 <= disc.len(),
    ensures
        forall|i: int| 0 <= i < requests.len() ==> (#[trigger] requests[i]).mode
            == SectorReadMode::Audio,
        points.last() matches ReadProgress::Done(data) ==> data@ == disc.subrange(
            bounds.0 * 2352,
            (bounds.0 + bounds.1) * 2352,
        ),
{
    law_track_read_is_a_read_of_its_sectors(
        reader,
        toc,
        track_no,
        cfg,
        platform,
        Ok(bounds),
        Ok(points[0]),
        points,
        requests,
        answers,
    );
    assert forall|i: int| 0 <= i < requests.len() implies (#[trigger] requests[i]).mode
        == SectorReadMode::Audio by {
        assert(goes_on(
            points,
            requests,
            answers,
            SectorReadMode::Audio,
            cfg,
            bounds.0 as int,
            bounds.0 + bounds.1,
            i,
        ));
    }
    lemma_read_gives_its_sectors(
        disc,
        2352,
        points,
        requests,
        answers,
        SectorReadMode::Audio,
        cfg,
        bounds.0 as int,
        bounds.1 as int,
    );
}

/// Each command of a track read asks the drive for sectors of the track, as audio (any
/// sector type, user data), and the first one starts at the first sector of the track.
pub proof fn law_track_read_asks_for_audio<H>(
    reader: CdReader,
    toc: Toc,
    track_no: u8,
    platform: Platform<'_, H>,
    bounds: (u32, u32),
    points: Seq<ReadProgress>,
    requests: Seq<ChunkRequest>,
    answers: Seq<Result<Vec<u8>, CdReaderError>>,
    i: int,
    cdb: [u8; 12],
)
    requires
        call_ensures(toc::get_track_bounds, (&toc, track_no), Ok(bounds)),
        call_ensures(CdReader::read_track::<H>, (&reader, &toc, track_no, platform), Ok(points[0])),
        is_course(points, requests, answers),
        0 <= i < requests.len(),
        call_ensures(scsi::read_cd_cdb, (&requests[i],), cdb),
    ensures
        cdb@[0] == 0xBE && cdb@[1] == 0x00 && cdb@[9] == 0x10,
        ({
            let lba = cdb@[2] * 0x100_0000 + cdb@[3] * 0x1_0000 + cdb@[4] * 0x100 + cdb@[5];
            let sectors = cdb@[6] * 0x1_0000 + cdb@[7] * 0x100 + cdb@[8];
            &&& bounds.0 <= lba
            &&& 1 <= sectors <= 27
            &&& lba + sectors <= bounds.0 + bounds.1
            &&& i == 0 ==> lba == bounds.0
        }),
{
    let cfg = retry::default_retry();
    lemma_is_read(
        points,
        requests,
        answers,
        SectorReadMode::Audio,
        cfg,
        bounds.0 as int,
        bounds.1 as int,
    );
    commands::law_read_cd_asks_for_the_request(requests[i], cdb);
    assert(goes_on(
        points,
        requests,
        answers,
        SectorReadMode::Audio,
        cfg,
        bounds.0 as int,
        bounds.0 + bounds.1,
        i,
    ));
    assert(leads_on(points[i], requests[i], answers[i], points[i + 1]));
}

/// Reading sectors of a disc in a format gives the bytes of these sectors in that
/// format: 2048 each for cooked data, 2352 for audio and raw data.
pub proof fn law_data_read_gives_the_sectors(
    disc: Seq<u8>,
    reader: CdReader,
    lba: u32,
    count: u32,
    mode: SectorReadMode,
    cfg: RetryConfig,
    points: Seq<ReadProgress>,
    requests: Seq<ChunkRequest>,
    answers: Seq<Result<Vec<u8>, CdReaderError>>,
    size: int,
)
    requires
        call_ensures(CdReader::read_data_sectors, (&reader, lba, count, mode, &cfg), points[0]),
        is_course(points, requests, answers),
        size == (if mode == SectorReadMode::DataCooked { 2048int } else { 2352 }),
        answers_hold(disc, size, requests, answers),
        (lba + count) * size <= disc.len(),
    ensures
        points.last() matches ReadProgress::Done(data) ==> data@ == disc.subrange(
            lba * size,
            (lba + count) * size,
        ),
{
    law_data_read_is_a_read_of_its_sectors(
        reader,
        lba,
        count,
        mode,
        cfg,
        points,
        requests,
        answers,
    );
    lemma_read_gives_its_sectors(
        disc,
        size,
        points,
        requests,
        answers,
        mode,
        cfg,
        lba as int,
        count as int,
    );
}

proof fn lemma_points_run(
    points: Seq<ReadProgress>,
    requests: Seq<ChunkRequest>,
    answers: Seq<Result<Vec<u8>, CdReaderError>>,
    left: int,
    i: int,
)
    requires
        is_course(points, requests, answers),
        points[0]@ matches ReadPhase::Pending(state, _) ==> state.valid() && state.remaining
            * state.cfg.attempts() - (state.attempt - 1) <= left,
        0 <= i <= answers.len(),
    ensures
        points[i]@ matches ReadPhase::Pending(state, _) ==> state.valid() && state.remaining
            * state.cfg.attempts() - (state.attempt - 1) <= left - i,
    decreases i,
{
    if i > 0 {
        lemma_points_run(points, requests, answers, left, i - 1);
        assert(leads_on(points[i - 1], requests[i - 1], answers[i - 1], points[i]));
        if let ReadProgress::Pending { read, sleep_ms } = points[i - 1] {
            let a = read@.cfg.attempts();
            let remaining = read@.remaining;
            let sectors = read@.sectors;
            assert((remaining - sectors) * a <= remaining * a - a) by (nonlinear_arith)
                requires
                    sectors >= 1,
                    a >= 1,
            ;
        }
    }
}

/// A read ends: with each of its sectors asked for as often as there are attempts it is
/// done or has failed.
pub proof fn law_read_does_not_go_on_forever(
    reader: CdReader,
    lba: u32,
    count: u32,
    mode: SectorReadMode,
    cfg: RetryConfig,
    points: Seq<ReadProgress>,
    requests: Seq<ChunkRequest>,
    answers: Seq<Result<Vec<u8>, CdReaderError>>,
)
    requires
        call_ensures(CdReader::read_data_sectors, (&reader, lba, count, mode, &cfg), points[0]),
        is_course(points, requests, answers),
    ensures
        points.last() is Pending ==> answers.len() < count * (if cfg.max_attempts == 0 {
            1int
        } else {
            cfg.max_attempts as int
        }),
{
    let left = count * cfg.attempts();
    lemma_points_run(points, requests, answers, left, answers.len() as int);
    if let ReadPhase::Pending(state, _) = points.last()@ {
        let a = state.cfg.attempts();
        let remaining = state.remaining;
        assert(remaining * a >= a) by (nonlinear_arith)
            requires
                remaining >= 1,
                a >= 1,
        ;
    }
}

/// What the drive returned for a backing is passed on if it is as long as the sectors
/// that were asked for, and counts as failed if it is not. A failure is passed on.
pub proof fn law_backing_gets_whole_sectors(
    reader: CdReader,
    count: u32,
    read: Result<Vec<u8>, CdReaderError>,
    result: Result<Vec<u8>, CdReaderError>,
)
    requires
        call_ensures(CdReader::complete_sectors, (&reader, count, read), result),
    ensures
        match (read, result) {
            (Ok(data), Ok(passed_on)) => passed_on == data && data@.len() == count * 2352,
            (Ok(data), Err(err)) => err == CdReaderError::Io(IoError::IncompleteRead)
                && data@.len() != count * 2352,
            (Err(err), Err(passed_on)) => passed_on == err,
            (Err(_), Ok(_)) => false,
        },
{
}

/// Reading a track from a backing asks it once for the sectors that the track number is
/// resolved to and passes on what it returns. If the number cannot be resolved the
/// reason is passed on.
pub proof fn law_track_comes_from_the_backing<R: AudioSectorReader>(
    src: R,
    toc: Toc,
    track_no: u8,
    bounds: Result<(u32, u32), IoError>,
    result: Result<Vec<u8>, TrackReadError<R::Error>>,
)
    requires
        call_ensures(toc::get_track_bounds, (&toc, track_no), bounds),
        call_ensures(backend::read_track::<R>, (&src, &toc, track_no), result),
    ensures
        match (bounds, result) {
            (Err(why), Err(TrackReadError::Toc(err))) => err == why,
            (Ok((start, sectors)), Ok(data)) => data@.len() == sectors * 2352 && call_ensures(
                R::read_audio_sectors,
                (&src, start, sectors),
                Ok(data),
            ),
            (Ok((start, sectors)), Err(TrackReadError::Backend(err))) => call_ensures(
                R::read_audio_sectors,
                (&src, start, sectors),
                Err(err),
            ),
            _ => false,
        },
{
}

/// The policy decides how often a chunk is asked for, how long is waited in between and
/// with how many sectors it is asked for again.
pub proof fn law_policy_is_kept(
    cfg: RetryConfig,
    delay: u64,
    sectors: u32,
    attempts: u8,
    next_delay: u64,
    next_sectors: u32,
)
    requires
        call_ensures(RetryConfig::attempts_total, (&cfg,), attempts),
        call_ensures(RetryConfig::next_backoff, (&cfg, delay), next_delay),
        call_ensures(RetryConfig::next_sectors, (&cfg, sectors), next_sectors),
    ensures
        attempts == (if cfg.max_attempts == 0 { 1 } else { cfg.max_attempts }),
        cfg.max_backoff_ms == 0 ==> next_delay == delay,
        cfg.max_backoff_ms > 0 ==> next_delay <= cfg.max_backoff_ms && (next_delay == 2 * delay || (
        next_delay == cfg.max_backoff_ms && next_delay < 2 * delay)),
        is_next_size(cfg, sectors as int, next_sectors as int),
{
}

/// A smaller chunk has eight sectors if the current one has more and the minimum is
/// less, and the minimum otherwise.
pub proof fn law_chunks_step_down(current: u32, least: u32, next: u32)
    requires
        call_ensures(retry::next_chunk_size, (current, least), next),
    ensures
        next >= least,
        current > 8 ==> next >= 8,
        next == 8 || next == least,
        current <= 8 ==> next == least,
{
}

} // verus!
