use cd_da_reader::parse_toc::{parse_toc, TocParseError};
use cd_da_reader::{get_track_bounds, lba_to_msf, IoError, Toc, Track};

fn track(number: u8, start_lba: u32, is_audio: bool) -> Track {
    Track { number, start_lba, start_msf: lba_to_msf(start_lba), is_audio }
}

fn toc(tracks: Vec<Track>, leadout_lba: u32) -> Toc {
    Toc { first_track: 1, last_track: tracks.len() as u8, tracks, leadout_lba }
}

#[test]
fn msf_counts_from_the_lead_in() {
    assert_eq!(lba_to_msf(0), (0, 2, 0));
    assert_eq!(lba_to_msf(74), (0, 2, 74));
    assert_eq!(lba_to_msf(75), (0, 3, 0));
    assert_eq!(lba_to_msf(4350), (1, 0, 0));
    assert_eq!(lba_to_msf(14675), (3, 17, 50));
    assert_eq!(lba_to_msf(333_000 - 150), (74, 0, 0));
}

#[test]
fn msf_and_lba_are_interchangeable() {
    for lba in [0u32, 1, 149, 150, 221_786, 1_151_849] {
        let (m, s, f) = lba_to_msf(lba);
        assert_eq!((m as u32 * 60 + s as u32) * 75 + f as u32, lba + 150);
    }
}

#[test]
fn msf_minutes_wrap() {
    assert_eq!(lba_to_msf(1_152_000 - 150), (0, 0, 0));
    assert_eq!(lba_to_msf(u32::MAX), (69, 12, 45));
}

#[test]
fn tracks_reach_the_next_one() {
    let toc = toc(vec![track(1, 0, true), track(2, 1000, true), track(3, 1500, true)], 4000);
    assert_eq!(get_track_bounds(&toc, 1), Ok((0, 1000)));
    assert_eq!(get_track_bounds(&toc, 2), Ok((1000, 500)));
    assert_eq!(get_track_bounds(&toc, 3), Ok((1500, 2500)));
}

#[test]
fn session_gap_is_cut_off_in_front_of_data() {
    let toc = toc(
        vec![
            track(1, 0, true),
            track(2, 1000, true),
            track(3, 20_000, false),
            track(4, 30_000, false),
        ],
        50_000,
    );
    assert_eq!(get_track_bounds(&toc, 1), Ok((0, 1000)));
    assert_eq!(get_track_bounds(&toc, 2), Ok((1000, 20_000 - 11_400 - 1000)));
    assert_eq!(get_track_bounds(&toc, 3), Ok((20_000, 10_000)));
    assert_eq!(get_track_bounds(&toc, 4), Ok((30_000, 20_000)));
}

#[test]
fn no_session_gap_on_mixed_discs() {
    let toc = toc(vec![track(1, 0, false), track(2, 9000, true), track(3, 9500, true)], 10_000);
    assert_eq!(get_track_bounds(&toc, 1), Ok((0, 9000)));
    assert_eq!(get_track_bounds(&toc, 2), Ok((9000, 500)));
    let toc = self::toc(
        vec![track(1, 0, true), track(2, 9000, false), track(3, 20_000, true)],
        30_000,
    );
    assert_eq!(get_track_bounds(&toc, 1), Ok((0, 9000)));
}

#[test]
fn bad_bounds_are_refused() {
    let toc = toc(
        vec![track(1, 500, true), track(2, 400, true), track(3, 11_800, false)],
        11_800,
    );
    assert_eq!(get_track_bounds(&toc, 1), Err(IoError::InvalidTrackBounds));
    assert_eq!(get_track_bounds(&toc, 2), Err(IoError::InvalidTrackBounds));
    assert_eq!(get_track_bounds(&toc, 3), Err(IoError::InvalidTrackBounds));
    assert_eq!(get_track_bounds(&toc, 4), Err(IoError::TrackNotFound));
    let early = self::toc(vec![track(1, 0, true), track(2, 11_399, false)], 12_000);
    assert_eq!(get_track_bounds(&early, 1), Err(IoError::InvalidTrackBounds));
}

#[test]
fn track_numbers_may_have_gaps() {
    let toc = toc(vec![track(3, 0, true), track(7, 100, true)], 200);
    assert_eq!(get_track_bounds(&toc, 7), Ok((100, 100)));
    assert_eq!(get_track_bounds(&toc, 4), Err(IoError::TrackNotFound));
    assert!(toc.has_audio());
    assert!(!self::toc(vec![track(1, 0, false)], 10).has_audio());
}

#[test]
fn a_number_stands_for_its_first_track() {
    let tracks = vec![track(3, 10, true), track(3, 40, true), track(4, 90, true)];
    assert_eq!(get_track_bounds(&toc(tracks, 100), 3), Ok((10, 30)));
}

fn answer() -> Vec<u8> {
    vec![
        0, 26, 1, 2, // length, first and last track
        0, 0x10, 1, 0, 0, 0, 0, 0, // track 1, audio
        0, 0x14, 2, 0, 0, 0, 0x39, 0x53, // track 2, data
        0, 0x10, 0xAA, 0, 0, 3, 0x62, 0x5A, // lead-out
    ]
}

#[test]
fn reads_the_table_of_contents() {
    let mut data = answer();
    data.extend(vec![0xFF; 100]);
    let toc = parse_toc(&data).unwrap();
    assert_eq!((toc.first_track, toc.last_track), (1, 2));
    assert_eq!(toc.leadout_lba, 221_786);
    assert_eq!(toc.tracks.len(), 2);
    assert_eq!(toc.tracks[0].number, 1);
    assert_eq!(toc.tracks[0].start_lba, 0);
    assert_eq!(toc.tracks[0].start_msf, (0, 2, 0));
    assert!(toc.tracks[0].is_audio);
    assert_eq!(toc.tracks[1].number, 2);
    assert_eq!(toc.tracks[1].start_lba, 14675);
    assert_eq!(toc.tracks[1].start_msf, (3, 17, 50));
    assert!(!toc.tracks[1].is_audio);
}

#[test]
fn refuses_what_is_no_table() {
    assert_eq!(parse_toc(&vec![0, 2, 1]).unwrap_err(), TocParseError::TooShort);
    assert_eq!(parse_toc(&vec![0, 2, 1, 1]).unwrap_err(), TocParseError::NoLeadout);
    assert_eq!(parse_toc(&vec![0, 0, 0, 0]).unwrap_err(), TocParseError::NoLeadout);
    let mut cut = answer();
    cut.truncate(27);
    assert_eq!(parse_toc(&cut).unwrap_err(), TocParseError::NoLeadout);
    let mut short_length = answer();
    short_length[1] = 18;
    assert_eq!(parse_toc(&short_length).unwrap_err(), TocParseError::NoLeadout);
    assert_eq!(TocParseError::TooShort.message(), "TOC data too short");
    assert_eq!(TocParseError::NoLeadout.message(), "TOC has no lead-out");
}
