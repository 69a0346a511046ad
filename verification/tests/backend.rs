use cd_da_reader::backend::AUDIO_SECTOR_BYTES;
use cd_da_reader::reader::Platform;
use cd_da_reader::transfer::ReadProgress;
use cd_da_reader::{
    create_wav, lba_to_msf, read_track, AudioSectorReader, CdReader, CdReaderError, IoError, Toc,
    Track, TrackReadError,
};

/// Minimal in-memory backing: whole-disc PCM sliced by sector.
struct MemDisc {
    pcm: Vec<u8>,
}

impl AudioSectorReader for MemDisc {
    type Error = std::io::Error;

    fn read_audio_sectors(&self, start_lba: u32, count: u32) -> Result<Vec<u8>, Self::Error> {
        let start = start_lba as usize * 2352;
        let end = start + count as usize * 2352;
        self.pcm.get(start..end).map(<[u8]>::to_vec).ok_or_else(|| {
            std::io::Error::new(std::io::ErrorKind::UnexpectedEof, "read past end of disc")
        })
    }
}

fn toc_two_tracks(t1_sectors: u32, t2_sectors: u32) -> Toc {
    Toc {
        first_track: 1,
        last_track: 2,
        tracks: vec![
            Track {
                number: 1,
                start_lba: 0,
                start_msf: lba_to_msf(0),
                is_audio: true,
            },
            Track {
                number: 2,
                start_lba: t1_sectors,
                start_msf: lba_to_msf(t1_sectors),
                is_audio: true,
            },
        ],
        leadout_lba: t1_sectors + t2_sectors,
    }
}

#[test]
fn reads_track_bytes_for_the_right_range() {
    let (t1, t2) = (100u32, 50u32);
    let disc = MemDisc {
        pcm: vec![0u8; (t1 + t2) as usize * 2352],
    };
    let toc = toc_two_tracks(t1, t2);

    let track1 = read_track(&disc, &toc, 1).unwrap();
    let track2 = read_track(&disc, &toc, 2).unwrap();

    assert_eq!(track1.len(), t1 as usize * 2352);
    assert_eq!(track2.len(), t2 as usize * 2352);
}

#[test]
fn create_wav_wraps_backend_pcm() {
    let disc = MemDisc {
        pcm: vec![0u8; 10 * 2352],
    };
    // Single-track disc: no next track, so the leadout bounds the read.
    let toc = Toc {
        first_track: 1,
        last_track: 1,
        tracks: vec![Track {
            number: 1,
            start_lba: 0,
            start_msf: lba_to_msf(0),
            is_audio: true,
        }],
        leadout_lba: 10,
    };

    let pcm = read_track(&disc, &toc, 1).unwrap();
    let wav = create_wav(pcm);
    assert_eq!(&wav[0..4], b"RIFF");
    assert_eq!(&wav[8..12], b"WAVE");
    assert_eq!(wav.len(), 44 + 10 * 2352);
}

#[test]
fn missing_track_is_a_toc_error() {
    let disc = MemDisc {
        pcm: vec![0u8; 2352],
    };
    let toc = toc_two_tracks(1, 0);
    match read_track(&disc, &toc, 99) {
        Err(TrackReadError::Toc(_)) => {}
        other => panic!("expected TOC error, got {other:?}"),
    }
}

#[test]
fn track_bytes_come_from_its_sectors() {
    let mut pcm = vec![1u8; 3 * AUDIO_SECTOR_BYTES];
    pcm.extend(vec![2u8; 2 * AUDIO_SECTOR_BYTES]);
    let disc = MemDisc { pcm: pcm.clone() };
    let toc = toc_two_tracks(3, 2);
    let mut joined = read_track(&disc, &toc, 1).unwrap();
    assert_eq!(joined, vec![1u8; 3 * 2352]);
    joined.extend(read_track(&disc, &toc, 2).unwrap());
    assert_eq!(joined, pcm);
}

#[test]
fn toc_errors_name_the_reason() {
    let disc = MemDisc { pcm: vec![] };
    let toc = toc_two_tracks(1, 0);
    match read_track(&disc, &toc, 99) {
        Err(TrackReadError::Toc(err)) => assert_eq!(err, IoError::TrackNotFound),
        other => panic!("unexpected {other:?}"),
    }
    match read_track(&disc, &toc, 2) {
        Err(TrackReadError::Toc(err)) => assert_eq!(err, IoError::InvalidTrackBounds),
        other => panic!("unexpected {other:?}"),
    }
}

#[test]
fn backend_failure_is_passed_on() {
    let disc = MemDisc { pcm: vec![0u8; 2352] };
    let toc = toc_two_tracks(1, 1);
    assert!(read_track(&disc, &toc, 1).is_ok());
    match read_track(&disc, &toc, 2) {
        Err(TrackReadError::Backend(err)) => {
            assert_eq!(err.kind(), std::io::ErrorKind::UnexpectedEof)
        }
        other => panic!("unexpected {other:?}"),
    }
}

#[test]
fn track_read_errors_in_words() {
    let toc: TrackReadError<u8> = TrackReadError::Toc(IoError::TrackNotFound);
    assert_eq!(toc.message(&IoError::TrackNotFound.message()), "TOC error: track not in TOC");
    let backend: TrackReadError<u8> = TrackReadError::Backend(3);
    assert_eq!(backend.message("disc gone"), "backend error: disc gone");
}

#[test]
fn backing_and_drive_give_the_same_bytes() {
    let disc = MemDisc {
        pcm: (0..60 * 2352).map(|i| (i % 251) as u8).collect(),
    };
    let toc = toc_two_tracks(40, 20);
    let mut progress = CdReader {}.read_track(&toc, 1, Platform::<()>::Linux).unwrap();
    let mut answers = 0;
    let from_drive = loop {
        match progress {
            ReadProgress::Done(data) => break data,
            ReadProgress::Failed(err) => panic!("unexpected {err:?}"),
            ReadProgress::Pending { read, .. } => {
                let request = read.request();
                let outcome = if answers % 3 == 0 {
                    Err(CdReaderError::Io(IoError::Os(5)))
                } else {
                    Ok(disc.read_audio_sectors(request.lba, request.sectors).unwrap())
                };
                answers += 1;
                progress = read.step(outcome);
            }
        }
    };
    assert_eq!(from_drive, read_track(&disc, &toc, 1).unwrap());
    assert_eq!(from_drive, disc.pcm[..40 * 2352]);
}
