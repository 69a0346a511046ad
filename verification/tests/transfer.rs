use cd_da_reader::drive::DriveSlot;
use cd_da_reader::reader::{self, Platform};
use cd_da_reader::retry::next_chunk_size;
use cd_da_reader::transfer::{ChunkRequest, ReadProgress, SectorRead};
use cd_da_reader::windows;
use cd_da_reader::{
    CdReader, CdReaderError, IoError, RetryConfig, SectorReadMode, Toc, Track, TrackStreamConfig,
};

const LINUX: Platform<'static, ()> = Platform::Linux;
const MACOS: Platform<'static, ()> = Platform::MacOs;

fn failure(code: i32) -> CdReaderError {
    CdReaderError::Io(IoError::Os(code))
}

fn sector_bytes(request: &ChunkRequest) -> Vec<u8> {
    let mut out = Vec::new();
    for lba in request.lba..request.lba + request.sectors {
        out.extend(vec![lba as u8; request.mode.sector_size()]);
    }
    out
}

/// Drives a read to its end. `fails` tells which requests, by number, fail.
fn drive(
    mut progress: ReadProgress,
    fails: &dyn Fn(usize) -> bool,
) -> (Result<Vec<u8>, CdReaderError>, Vec<(u32, u32)>, Vec<u64>) {
    let mut requests = Vec::new();
    let mut sleeps = Vec::new();
    loop {
        match progress {
            ReadProgress::Done(data) => return (Ok(data), requests, sleeps),
            ReadProgress::Failed(err) => return (Err(err), requests, sleeps),
            ReadProgress::Pending { read, sleep_ms } => {
                sleeps.push(sleep_ms);
                let request = read.request();
                let n = requests.len();
                requests.push((request.lba, request.sectors));
                progress = if fails(n) {
                    read.step(Err(failure(n as i32)))
                } else {
                    read.step(Ok(sector_bytes(&request)))
                };
            }
        }
    }
}

fn cfg() -> RetryConfig {
    RetryConfig {
        max_attempts: 4,
        initial_backoff_ms: 10,
        max_backoff_ms: 35,
        reduce_chunk_on_retry: true,
        min_sectors_per_read: 2,
    }
}

#[test]
fn empty_read_is_done_at_once() {
    match SectorRead::begin(SectorReadMode::Audio, 7, 0, &cfg()) {
        ReadProgress::Done(data) => assert!(data.is_empty()),
        other => panic!("unexpected {other:?}"),
    }
}

#[test]
fn reads_in_chunks_of_one_transfer() {
    let read = SectorRead::begin(SectorReadMode::Audio, 5, 60, &cfg());
    let (data, requests, sleeps) = drive(read, &|_| false);
    assert_eq!(requests, vec![(5, 27), (32, 27), (59, 6)]);
    assert_eq!(sleeps, vec![0, 0, 0]);
    let data = data.unwrap();
    assert_eq!(data.len(), 60 * 2352);
    for i in 0..60usize {
        assert_eq!(data[i * 2352], 5 + i as u8);
        assert_eq!(data[i * 2352 + 2351], 5 + i as u8);
    }
}

#[test]
fn cooked_data_takes_32_sectors_per_transfer() {
    let read = CdReader {}.read_data_sectors(0, 33, SectorReadMode::DataCooked, &cfg());
    let (data, requests, _) = drive(read, &|_| false);
    assert_eq!(requests, vec![(0, 32), (32, 1)]);
    assert_eq!(data.unwrap().len(), 33 * 2048);
    let read = CdReader {}.read_data_sectors(0, 33, SectorReadMode::DataRaw, &cfg());
    assert_eq!(drive(read, &|_| false).1, vec![(0, 27), (27, 6)]);
}

#[test]
fn retries_shrink_and_back_off() {
    let read = SectorRead::begin(SectorReadMode::Audio, 0, 30, &cfg());
    let (data, requests, sleeps) = drive(read, &|n| n < 3);
    assert_eq!(requests, vec![(0, 27), (0, 8), (0, 2), (0, 2), (2, 27), (29, 1)]);
    assert_eq!(sleeps, vec![0, 10, 20, 35, 0, 0]);
    let data = data.unwrap();
    assert_eq!(data.len(), 30 * 2352);
    for i in 0..30usize {
        assert_eq!(data[i * 2352], i as u8);
    }
}

#[test]
fn fails_with_the_last_error() {
    let read = SectorRead::begin(SectorReadMode::Audio, 0, 30, &cfg());
    let (result, requests, _) = drive(read, &|n| n > 0);
    assert_eq!(requests.len(), 5);
    match result {
        Err(CdReaderError::Io(IoError::Os(code))) => assert_eq!(code, 4),
        other => panic!("unexpected {other:?}"),
    }
}

#[test]
fn zero_attempts_count_as_one() {
    let mut once = cfg();
    once.max_attempts = 0;
    let read = SectorRead::begin(SectorReadMode::Audio, 0, 1, &once);
    let (result, requests, _) = drive(read, &|_| true);
    assert!(result.is_err());
    assert_eq!(requests, vec![(0, 1)]);
}

#[test]
fn fixed_chunks_and_fixed_delay() {
    let mut fixed = cfg();
    fixed.reduce_chunk_on_retry = false;
    fixed.max_backoff_ms = 0;
    let read = SectorRead::begin(SectorReadMode::Audio, 0, 9, &fixed);
    let (result, requests, sleeps) = drive(read, &|n| n < 3);
    assert!(result.is_ok());
    assert_eq!(requests, vec![(0, 9); 4]);
    assert_eq!(sleeps, vec![0, 10, 10, 10]);
}

#[test]
fn first_delay_is_not_capped() {
    let mut slow = cfg();
    slow.initial_backoff_ms = 100;
    let read = SectorRead::begin(SectorReadMode::Audio, 0, 1, &slow);
    assert_eq!(drive(read, &|n| n < 3).2, vec![0, 100, 35, 35]);
    slow.initial_backoff_ms = u64::MAX;
    slow.max_backoff_ms = u64::MAX;
    assert_eq!(slow.next_backoff(u64::MAX), u64::MAX);
    assert_eq!(slow.next_backoff(u64::MAX / 2), u64::MAX - 1);
}

#[test]
fn short_transfers_are_kept_as_they_are() {
    let read = SectorRead::begin(SectorReadMode::Audio, 0, 28, &cfg());
    let progress = match read {
        ReadProgress::Pending { read, .. } => read.step(Ok(vec![9, 9])),
        other => panic!("unexpected {other:?}"),
    };
    let progress = match progress {
        ReadProgress::Pending { read, .. } => {
            assert_eq!(
                read.request(),
                ChunkRequest { lba: 27, sectors: 1, mode: SectorReadMode::Audio }
            );
            read.step(Ok(vec![8]))
        }
        other => panic!("unexpected {other:?}"),
    };
    match progress {
        ReadProgress::Done(data) => {
            assert_eq!(data, vec![9, 9, 8]);
            match (CdReader {}).complete_sectors(28, Ok(data)) {
                Err(CdReaderError::Io(err)) => assert_eq!(err, IoError::IncompleteRead),
                other => panic!("unexpected {other:?}"),
            }
        }
        other => panic!("unexpected {other:?}"),
    }
}

#[test]
fn complete_sectors_passes_full_reads_on() {
    let reader = CdReader {};
    assert_eq!(reader.complete_sectors(2, Ok(vec![1; 4704])).unwrap(), vec![1; 4704]);
    assert!(matches!(
        reader.complete_sectors(2, Err(failure(3))),
        Err(CdReaderError::Io(IoError::Os(3)))
    ));
}

#[test]
fn chunk_sizes_step_down() {
    assert_eq!(next_chunk_size(27, 1), 8);
    assert_eq!(next_chunk_size(9, 8), 8);
    assert_eq!(next_chunk_size(27, 20), 20);
    assert_eq!(next_chunk_size(8, 1), 1);
    assert_eq!(next_chunk_size(5, 3), 3);
}

#[test]
fn default_retry_policy() {
    let cfg = RetryConfig::default();
    assert_eq!(cfg.attempts_total(), 5);
    assert_eq!(cfg.initial_backoff_ms, 30);
    assert_eq!(cfg.max_backoff_ms, 500);
    assert!(cfg.reduce_chunk_on_retry);
    assert_eq!(cfg.min_sectors_per_read, 1);
}

fn one_track(sectors: u32) -> Toc {
    Toc {
        first_track: 1,
        last_track: 1,
        tracks: vec![Track { number: 1, start_lba: 10, start_msf: (0, 2, 10), is_audio: true }],
        leadout_lba: 10 + sectors,
    }
}

#[test]
fn reads_a_track_by_number() {
    let toc = one_track(30);
    let read = CdReader {}.read_track(&toc, 1, LINUX).unwrap();
    let (data, requests, _) = drive(read, &|_| false);
    assert_eq!(requests, vec![(10, 27), (37, 3)]);
    assert_eq!(data.unwrap().len(), 30 * 2352);
    let read = reader::read_track_with_retry(&toc, 1, &cfg(), MACOS).unwrap();
    assert_eq!(drive(read, &|n| n == 0).1[..2], [(10, 27), (10, 8)]);
    match (CdReader {}).read_track_with_retry(&toc, 2, &cfg(), LINUX) {
        Err(CdReaderError::Io(err)) => assert_eq!(err, IoError::TrackNotFound),
        other => panic!("unexpected {other:?}"),
    }
}

#[test]
fn audio_sectors_are_data_sectors_in_audio_mode() {
    let a = CdReader {}.read_sectors_with_retry(3, 50, &cfg(), LINUX).unwrap();
    let a = drive(a, &|n| n == 1);
    let b = drive(
        CdReader {}.read_data_sectors(3, 50, SectorReadMode::Audio, &cfg()),
        &|n| n == 1,
    );
    assert_eq!(a.0.unwrap(), b.0.unwrap());
    assert_eq!(a.1, b.1);
    assert_eq!(a.2, b.2);
}

#[test]
fn stream_gives_the_track_in_chunks() {
    let toc = one_track(30);
    let whole = drive(CdReader {}.read_track(&toc, 1, LINUX).unwrap(), &|_| false).0.unwrap();
    let cfg = TrackStreamConfig { sectors_per_chunk: 12, retry: cfg() };
    let mut stream = CdReader {}.open_track_stream(&toc, 1, cfg).unwrap();
    let mut joined = Vec::new();
    let mut lengths = Vec::new();
    while let Some(read) = stream.next_chunk(LINUX).unwrap() {
        let chunk = drive(read, &|_| false).0.unwrap();
        lengths.push(chunk.len());
        joined.extend(chunk);
        stream = stream.advance();
    }
    assert_eq!(lengths, vec![12 * 2352, 12 * 2352, 6 * 2352]);
    assert_eq!(joined, whole);
    assert!(stream.advance().next_chunk(LINUX).unwrap().is_none());
}

#[test]
fn failed_stream_chunk_can_be_read_again() {
    let toc = one_track(5);
    let cfg = TrackStreamConfig { sectors_per_chunk: 0, retry: cfg() };
    let stream = CdReader {}.open_track_stream(&toc, 1, cfg).unwrap();
    assert!(drive(stream.next_chunk(LINUX).unwrap().unwrap(), &|_| true).0.is_err());
    let read = stream.next_chunk(LINUX).unwrap().unwrap();
    assert_eq!(drive(read, &|_| false).1, vec![(10, 1)]);
    assert!(matches!(
        CdReader {}.open_track_stream(&toc, 9, cfg),
        Err(CdReaderError::Io(IoError::TrackNotFound))
    ));
    assert_eq!(TrackStreamConfig::default().sectors_per_chunk, 27);
}

fn not_opened<T>(result: Result<T, CdReaderError>) -> bool {
    matches!(result, Err(CdReaderError::Io(IoError::DriveNotOpened)))
}

#[test]
fn windows_refuses_audio_reads_without_a_drive() {
    let reader = CdReader {};
    let toc = one_track(30);
    let none: DriveSlot<u32> = DriveSlot::new();
    assert!(not_opened(windows::read_sectors_with_retry(&none, 0, 0, &cfg())));
    assert!(not_opened(windows::read_sectors_with_retry(&none, u32::MAX, 9, &cfg())));
    assert!(not_opened(reader.read_sectors_with_retry(3, 50, &cfg(), Platform::Windows(&none))));
    assert!(not_opened(reader.read_audio_sectors(3, 0, Platform::Windows(&none))));
    assert!(not_opened(reader.read_track(&toc, 1, Platform::Windows(&none))));
    // the table of contents comes first
    assert!(matches!(
        reader.read_track(&toc, 2, Platform::Windows(&none)),
        Err(CdReaderError::Io(IoError::TrackNotFound))
    ));
    let stream = reader.open_track_stream(&toc, 1, TrackStreamConfig::default()).unwrap();
    assert!(not_opened(stream.next_chunk(Platform::Windows(&none))));
    let end = stream.advance().advance();
    assert!(end.next_chunk(Platform::Windows(&none)).unwrap().is_none());
    // data reads look for the drive with each command
    let read = reader.read_data_sectors(0, 0, SectorReadMode::Audio, &cfg());
    assert!(drive(read, &|_| false).0.unwrap().is_empty());
}

#[test]
fn windows_reads_audio_from_the_open_drive() {
    let reader = CdReader {};
    let slot = DriveSlot { handle: Some(7u32) };
    let read = reader.read_track(&one_track(30), 1, Platform::Windows(&slot)).unwrap();
    let (data, requests, sleeps) = drive(read, &|n| n == 0);
    assert_eq!(requests, vec![(10, 27), (10, 8), (18, 22)]);
    assert_eq!(sleeps, vec![0, 30, 0]);
    assert_eq!(data.unwrap().len(), 30 * 2352);
    let read = windows::read_sectors_with_retry(&slot, 5, 0, &cfg()).unwrap();
    assert!(drive(read, &|_| false).0.unwrap().is_empty());
}

#[test]
fn drive_as_backing_reads_the_track() {
    let reader = CdReader {};
    let straight = reader.read_track(&one_track(30), 1, LINUX).unwrap();
    let as_backing = reader.read_audio_sectors(10, 30, LINUX).unwrap();
    let straight = drive(straight, &|n| n == 1);
    let as_backing = drive(as_backing, &|n| n == 1);
    assert_eq!(straight.1, as_backing.1);
    assert_eq!(straight.2, as_backing.2);
    let passed_on = reader.complete_sectors(30, as_backing.0).unwrap();
    assert_eq!(straight.0.unwrap(), passed_on);
}

#[test]
fn failures_of_different_chunks_do_not_add_up() {
    let mut twice = cfg();
    twice.max_attempts = 2;
    let read = SectorRead::begin(SectorReadMode::Audio, 0, 16, &twice);
    let (result, requests, _) = drive(read, &|n| n % 2 == 0);
    assert_eq!(requests[..4], [(0, 16), (0, 8), (8, 8), (8, 2)]);
    assert_eq!(requests.len(), 10);
    assert_eq!(result.unwrap().len(), 16 * 2352);
    let read = SectorRead::begin(SectorReadMode::Audio, 0, 16, &twice);
    let (result, requests, _) = drive(read, &|n| n != 1);
    assert_eq!(requests, vec![(0, 16), (0, 8), (8, 8), (8, 2)]);
    assert!(matches!(result, Err(CdReaderError::Io(IoError::Os(3)))));
}

#[test]
fn zero_counts_as_one() {
    let mut zero = cfg();
    zero.max_attempts = 0;
    zero.min_sectors_per_read = 0;
    let mut one = zero;
    one.max_attempts = 1;
    one.min_sectors_per_read = 1;
    let begin = |cfg: &RetryConfig| SectorRead::begin(SectorReadMode::Audio, 0, 60, cfg);
    let a = drive(begin(&zero), &|_| false);
    let b = drive(begin(&one), &|_| false);
    assert_eq!(a.0.unwrap(), b.0.unwrap());
    assert_eq!((a.1, a.2), (b.1, b.2));
    let a = drive(begin(&zero), &|n| n == 1);
    let b = drive(begin(&one), &|n| n == 1);
    assert!(matches!(a.0, Err(CdReaderError::Io(IoError::Os(1)))));
    assert!(matches!(b.0, Err(CdReaderError::Io(IoError::Os(1)))));
    assert_eq!(a.1, vec![(0, 27), (27, 27)]);
    assert_eq!((a.1, a.2), (b.1, b.2));
    zero.max_attempts = 4;
    one.max_attempts = 4;
    let a = drive(begin(&zero), &|n| n < 3);
    let b = drive(begin(&one), &|n| n < 3);
    assert_eq!(a.1[..4], [(0, 27), (0, 8), (0, 1), (0, 1)]);
    assert_eq!((a.1, a.2), (b.1, b.2));
}

#[test]
fn reads_beyond_the_last_address_fail_with_the_drive() {
    let read = CdReader {}.read_data_sectors(u32::MAX - 1, 9, SectorReadMode::Audio, &cfg());
    let (result, requests, _) = drive(read, &|_| true);
    assert_eq!(
        requests,
        vec![(u32::MAX - 1, 9), (u32::MAX - 1, 8), (u32::MAX - 1, 2), (u32::MAX - 1, 2)]
    );
    assert!(matches!(result, Err(CdReaderError::Io(IoError::Os(3)))));
}
