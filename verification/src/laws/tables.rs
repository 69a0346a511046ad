//! Tables of contents and the sectors of their tracks.

use vstd::prelude::*;

use crate::errors::{CdReaderError, IoError};
use crate::msf;
use crate::parse_toc;
use crate::parse_toc::TocParseError;
use crate::toc;
use crate::toc::{Toc, Track};

verus! {

/// Whether `msf` is the time address of sector `lba`: 75 frames per second, 60 seconds
/// per minute, two seconds (150 frames) in front of LBA 0. Minutes count modulo 256,
/// which is every 1,152,000 frames.
pub open spec fn is_time_of(msf: (u8, u8, u8), lba: u32) -> bool {
    &&& msf.1 < 60
    &&& msf.2 < 75
    &&& (msf.0 * 60 + msf.1) * 75 + msf.2 == (lba + 150) % 1_152_000
}

proof fn lemma_time(lba: u32)
    ensures
        is_time_of(msf::msf_of(lba), lba),
{
    let frames = lba + 150;
    let rest = frames % 1_152_000;
    assert(frames / 4500 == 256 * (frames / 1_152_000) + rest / 4500);
    assert((frames / 4500) % 256 == rest / 4500);
    assert(frames / 75 == 15360 * (frames / 1_152_000) + rest / 75);
    assert((frames / 75) % 60 == (rest / 75) % 60);
    assert(frames % 75 == rest % 75);
    assert(rest / 75 == (rest / 4500) * 60 + (rest / 75) % 60);
}

/// The time address of a sector counts its frames from the start of the disc.
pub proof fn law_time_address_counts_frames(lba: u32, msf: (u8, u8, u8))
    requires
        call_ensures(msf::lba_to_msf, (lba,), msf),
    ensures
        is_time_of(msf, lba),
{
    lemma_time(lba);
}

/// What a track number is resolved to.
///
/// The first track of that number counts. It ends where the next track in the table
/// starts, or at the lead-out if it is the last. If it is audio and not the last, and
/// every track behind it is data, it ends 11,400 sectors earlier. A track that would not
/// end behind its start is refused, and so is a number that no track has.
pub proof fn law_track_ends_where_the_next_starts(
    toc: Toc,
    track_no: u8,
    bounds: Result<(u32, u32), IoError>,
    i: int,
)
    requires
        call_ensures(toc::get_track_bounds, (&toc, track_no), bounds),
        0 <= i < toc.tracks@.len(),
        toc.tracks@[i].number == track_no,
        forall|j: int| 0 <= j < i ==> (#[trigger] toc.tracks@[j]).number != track_no,
    ensures
        ({
            let last = i + 1 == toc.tracks@.len();
            let start = toc.tracks@[i].start_lba as int;
            let next = if last { toc.leadout_lba as int } else { toc.tracks@[i + 1].start_lba as int };
            let only_data_behind = forall|j: int|
                i < j < toc.tracks@.len() ==> !(#[trigger] toc.tracks@[j]).is_audio;
            let end = if toc.tracks@[i].is_audio && !last && only_data_behind {
                next - 11_400
            } else {
                next
            };
            match bounds {
                Ok((first, sectors)) => first == start && sectors > 0 && first + sectors == end,
                Err(err) => err == IoError::InvalidTrackBounds && end <= start,
            }
        }),
{
    assert(toc::is_first_with_number(toc.tracks@, track_no, i));
    toc::law_bounds_are_those_of_the_first(toc, track_no, i);
}

/// A number that no track has is answered with an error that says so, and no other
/// number is.
pub proof fn law_only_missing_numbers_are_not_found(
    toc: Toc,
    track_no: u8,
    bounds: Result<(u32, u32), IoError>,
)
    requires
        call_ensures(toc::get_track_bounds, (&toc, track_no), bounds),
    ensures
        bounds == Err::<(u32, u32), IoError>(IoError::TrackNotFound) <==> forall|j: int|
            0 <= j < toc.tracks@.len() ==> (#[trigger] toc.tracks@[j]).number != track_no,
{
    toc::law_unknown_track_is_not_found(toc, track_no);
    assert(toc::has_track(toc.tracks@, track_no) <==> exists|j: int|
        0 <= j < toc.tracks@.len() && (#[trigger] toc.tracks@[j]).number == track_no);
}

/// A disc is an audio CD if any of its tracks is audio.
pub proof fn law_audio_disc_has_an_audio_track(toc: Toc, found: bool)
    requires
        call_ensures(Toc::has_audio, (&toc,), found),
    ensures
        !found <==> forall|j: int|
            0 <= j < toc.tracks@.len() ==> !(#[trigger] toc.tracks@[j]).is_audio,
{
    assert(toc.has_audio_track() <==> exists|j: int|
        0 <= j < toc.tracks@.len() && (#[trigger] toc.tracks@[j]).is_audio);
}

/// Whether `data` holds `n` complete descriptors of eight bytes behind its four header
/// bytes, the header announces that many, and not both hold of more.
pub open spec fn has_descriptors(data: Seq<u8>, n: int) -> bool {
    let announced = data[0] * 0x100 + data[1];
    &&& 0 <= n
    &&& n > 0 ==> 2 + 8 * n <= announced && 4 + 8 * n <= data.len()
    &&& announced < 2 + 8 * (n + 1) || data.len() < 4 + 8 * (n + 1)
}

/// Track number in descriptor `k`; the lead-out has 0xAA.
pub open spec fn number_in(data: Seq<u8>, k: int) -> u8 {
    data[8 * k + 6]
}

/// Address in descriptor `k`, most significant byte first.
pub open spec fn address_in(data: Seq<u8>, k: int) -> int {
    data[8 * k + 8] * 0x100_0000 + data[8 * k + 9] * 0x1_0000 + data[8 * k + 10] * 0x100 + data[8
        * k + 11]
}

/// Whether `track` is what descriptor `k` describes: bit 2 of the control field marks
/// data, and the two addresses of the track are equivalent.
pub open spec fn is_described(track: Track, data: Seq<u8>, k: int) -> bool {
    &&& track.number == number_in(data, k)
    &&& track.is_audio <==> (data[8 * k + 5] / 4) % 2 == 0
    &&& track.start_lba == address_in(data, k)
    &&& is_time_of(track.start_msf, track.start_lba)
}

/// Which of the first `n` descriptors describe tracks: all but those of a lead-out, in
/// order.
pub open spec fn track_descriptors(data: Seq<u8>, n: int) -> Seq<int> {
    Seq::new(n as nat, |k: int| k).filter(|k: int| number_in(data, k) != 0xAA)
}

/// Whether `result` is what the answer `data` to READ TOC tells: the table with all its
/// tracks in order, or in words why there is none.
pub open spec fn is_table_in(data: Seq<u8>, result: Result<Toc, CdReaderError>) -> bool {
    if data.len() < 4 {
        result matches Err(CdReaderError::Parse(message)) && message@ == "TOC data too short"@
    } else {
        forall|n: int| #[trigger] has_descriptors(data, n) ==> is_table_of(data, n, result)
    }
}

/// See [`is_table_in`], for an answer with `n` descriptors.
pub open spec fn is_table_of(data: Seq<u8>, n: int, result: Result<Toc, CdReaderError>) -> bool {
    match result {
        Ok(toc) => {
            &&& toc.first_track == data[2]
            &&& toc.last_track == data[3]
            &&& toc.tracks@.len() == track_descriptors(data, n).len()
            &&& forall|i: int|
                0 <= i < toc.tracks@.len() ==> is_described(
                    #[trigger] toc.tracks@[i],
                    data,
                    track_descriptors(data, n)[i],
                )
            // the lead-out is the last one that is described
            &&& exists|k: int|
                0 <= k < n && #[trigger] number_in(data, k) == 0xAA && address_in(data, k)
                    == toc.leadout_lba && forall|j: int|
                    k < j < n ==> #[trigger] number_in(data, j) != 0xAA
        },
        Err(CdReaderError::Parse(message)) => {
            &&& message@ == "TOC has no lead-out"@
            &&& forall|k: int| 0 <= k < n ==> #[trigger] number_in(data, k) != 0xAA
        },
        Err(_) => false,
    }
}

proof fn lemma_descriptor_described(data: Seq<u8>, k: int)
    ensures
        is_described(parse_toc::descriptor_track(data, k), data, k),
        parse_toc::descriptor_lba(data, k) == address_in(data, k),
        parse_toc::descriptor_number(data, k) == number_in(data, k),
{
    let control = data[8 * k + 5];
    assert(control & 0x04 == 0 <==> (control / 4) % 2 == 0) by (bit_vector);
    assert(4 + 8 * k + 1 == 8 * k + 5);
    lemma_time(parse_toc::descriptor_lba(data, k));
}

proof fn lemma_tracks_described(data: Seq<u8>, n: int)
    requires
        0 <= n,
    ensures
        parse_toc::tracks_among(data, n).len() == track_descriptors(data, n).len(),
        forall|i: int|
            0 <= i < track_descriptors(data, n).len() ==> is_described(
                #[trigger] parse_toc::tracks_among(data, n)[i],
                data,
                track_descriptors(data, n)[i],
            ),
    decreases n,
{
    reveal(Seq::filter);
    let all = Seq::new(n as nat, |k: int| k);
    if n > 0 {
        lemma_tracks_described(data, n - 1);
        lemma_descriptor_described(data, n - 1);
        assert(all.drop_last() =~= Seq::new((n - 1) as nat, |k: int| k));
        assert(all.last() == n - 1);
        let kept = track_descriptors(data, n);
        let before = track_descriptors(data, n - 1);
        let tracks = parse_toc::tracks_among(data, n);
        let tracks_before = parse_toc::tracks_among(data, n - 1);
        if number_in(data, n - 1) != 0xAA {
            assert(kept =~= before.push(n - 1));
        } else {
            assert(kept =~= before);
        }
        assert forall|i: int| 0 <= i < kept.len() implies is_described(
            #[trigger] tracks[i],
            data,
            kept[i],
        ) by {
            if i < before.len() {
                assert(is_described(tracks_before[i], data, before[i]));
            }
        }
    }
}

/// Whether descriptor `k` is the last lead-out among the first `n`.
spec fn is_last_leadout(data: Seq<u8>, n: int, k: int) -> bool {
    &&& 0 <= k < n
    &&& number_in(data, k) == 0xAA
    &&& forall|j: int| k < j < n ==> #[trigger] number_in(data, j) != 0xAA
}

proof fn lemma_leadout_is_the_last(data: Seq<u8>, n: int)
    requires
        0 <= n,
    ensures
        match parse_toc::leadout_among(data, n) {
            Some(lba) => exists|k: int| #[trigger]
                is_last_leadout(data, n, k) && address_in(data, k) == lba,
            None => forall|k: int| 0 <= k < n ==> #[trigger] number_in(data, k) != 0xAA,
        },
    decreases n,
{
    if n > 0 {
        lemma_leadout_is_the_last(data, n - 1);
        lemma_descriptor_described(data, n - 1);
        if number_in(data, n - 1) == 0xAA {
            assert(is_last_leadout(data, n, n - 1));
        } else if parse_toc::leadout_among(data, n) is Some {
            let lba = parse_toc::leadout_among(data, n)->0;
            let k = choose|k: int| #[trigger]
                is_last_leadout(data, n - 1, k) && address_in(data, k) == lba;
            assert(is_last_leadout(data, n, k));
        }
    }
}

pub(crate) proof fn lemma_answer_is_table(data: Seq<u8>, result: Result<Toc, CdReaderError>)
    requires
        parse_toc::is_answer_of(data, result),
    ensures
        is_table_in(data, result),
{
    if data.len() >= 4 {
        assert forall|n: int| #[trigger] has_descriptors(data, n) implies is_table_of(
            data,
            n,
            result,
        ) by {
            assert(n == parse_toc::descriptor_count(data));
            lemma_tracks_described(data, n);
            lemma_leadout_is_the_last(data, n);
            if let Ok(toc) = result {
                let k = choose|k: int| #[trigger]
                    is_last_leadout(data, n, k) && address_in(data, k) == toc.leadout_lba;
                assert(number_in(data, k) == 0xAA);
            }
        }
    }
}

/// The data that a drive returned for READ TOC are read as the table they hold.
pub proof fn law_answer_is_read_as_its_table(data: Vec<u8>, result: Result<Toc, CdReaderError>)
    requires
        call_ensures(parse_toc::parse_toc_answer, (&data,), result),
    ensures
        is_table_in(data@, result),
{
    lemma_answer_is_table(data@, result);
}

/// An answer that ends within its header is too short, one that describes no lead-out
/// has none, and any other one is a table.
pub proof fn law_answer_is_a_table_or_lacks_something(
    data: Vec<u8>,
    result: Result<Toc, TocParseError>,
    n: int,
)
    requires
        call_ensures(parse_toc::parse_toc, (&data,), result),
        data@.len() >= 4 ==> has_descriptors(data@, n),
    ensures
        match result {
            Ok(toc) => data@.len() >= 4 && is_table_of(data@, n, Ok(toc)),
            Err(TocParseError::TooShort) => data@.len() < 4,
            Err(TocParseError::NoLeadout) => data@.len() >= 4 && forall|k: int|
                0 <= k < n ==> #[trigger] number_in(data@, k) != 0xAA,
        },
{
    if data@.len() >= 4 {
        assert(n == parse_toc::descriptor_count(data@));
        lemma_leadout_is_the_last(data@, n);
        if let Ok(toc) = result {
            lemma_answer_is_table(data@, Ok(toc));
        }
    }
}

/// Whether `data` is the answer of a drive that holds a disc with the table `toc`: the
/// header, a descriptor for each track in order and one for the lead-out, and whatever
/// else the buffer holds.
pub open spec fn describes(data: Seq<u8>, toc: Toc) -> bool {
    let n = toc.tracks@.len() as int;
    &&& data.len() >= 4 + 8 * (n + 1)
    &&& data[0] * 0x100 + data[1] == 2 + 8 * (n + 1)
    &&& data[2] == toc.first_track
    &&& data[3] == toc.last_track
    &&& forall|k: int|
        0 <= k < n ==> is_described(#[trigger] toc.tracks@[k], data, k) && toc.tracks@[k].number
            != 0xAA
    &&& number_in(data, n) == 0xAA
    &&& address_in(data, n) == toc.leadout_lba
}

/// Whether `result` is the table `toc`: the same first and last track number, the same
/// tracks, all of them and in order, and the same lead-out.
pub open spec fn is_that_table(result: Result<Toc, CdReaderError>, toc: Toc) -> bool {
    result matches Ok(read) && {
        &&& read.first_track == toc.first_track
        &&& read.last_track == toc.last_track
        &&& read.tracks@ == toc.tracks@
        &&& read.leadout_lba == toc.leadout_lba
    }
}

proof fn lemma_time_is_unique(a: (u8, u8, u8), b: (u8, u8, u8), lba: u32)
    requires
        is_time_of(a, lba),
        is_time_of(b, lba),
    ensures
        a == b,
{
}

proof fn lemma_all_tracks_kept(data: Seq<u8>, n: int)
    requires
        0 <= n,
        forall|k: int| 0 <= k < n ==> #[trigger] number_in(data, k) != 0xAA,
    ensures
        track_descriptors(data, n) == Seq::new(n as nat, |k: int| k),
    decreases n,
{
    reveal(Seq::filter);
    let all = Seq::new(n as nat, |k: int| k);
    if n > 0 {
        lemma_all_tracks_kept(data, n - 1);
        assert(all.drop_last() =~= Seq::new((n - 1) as nat, |k: int| k));
        assert(number_in(data, n - 1) != 0xAA);
        assert(track_descriptors(data, n) =~= all);
    } else {
        assert(track_descriptors(data, n) =~= all);
    }
}

pub(crate) proof fn lemma_described_table_is_read(
    data: Seq<u8>,
    toc: Toc,
    result: Result<Toc, CdReaderError>,
)
    requires
        describes(data, toc),
        is_table_in(data, result),
    ensures
        is_that_table(result, toc),
{
    let n = toc.tracks@.len() as int;
    assert(has_descriptors(data, n + 1));
    assert(is_table_of(data, n + 1, result));
    assert forall|k: int| 0 <= k < n implies #[trigger] number_in(data, k) != 0xAA by {
        assert(is_described(toc.tracks@[k], data, k));
    }
    assert(number_in(data, n) == 0xAA);
    lemma_all_tracks_kept(data, n);
    let all = Seq::new((n + 1) as nat, |k: int| k);
    reveal(Seq::filter);
    assert(all.drop_last() =~= Seq::new(n as nat, |k: int| k));
    assert(all.last() == n);
    assert(track_descriptors(data, n + 1) == track_descriptors(data, n));
    let read = result->Ok_0;
    assert forall|k: int| 0 <= k < n implies #[trigger] read.tracks@[k] == toc.tracks@[k] by {
        assert(is_described(read.tracks@[k], data, track_descriptors(data, n + 1)[k]));
        assert(is_described(toc.tracks@[k], data, k));
        lemma_time_is_unique(
            read.tracks@[k].start_msf,
            toc.tracks@[k].start_msf,
            toc.tracks@[k].start_lba,
        );
    }
    assert(read.tracks@ =~= toc.tracks@);
}

} // verus!
