//! The answer to a READ TOC command.
//!
//! It starts with four bytes: the length of what follows the length field (two
//! bytes, most significant first), the first and the last track number. Behind
//! them comes a descriptor of eight bytes for each track and for the lead-out:
//! reserved, ADR and control, track number, reserved, LBA (four bytes, most
//! significant first). The lead-out has the track number 0xAA.

use vstd::prelude::*;

use crate::bytes;
use crate::errors::CdReaderError;
use crate::msf;
use crate::toc::{Toc, Track};

verus! {

/// Track number of the lead-out descriptor.
pub const LEADOUT_TRACK: u8 = 0xAA;

/// Control bit of a data track.
pub const CONTROL_DATA: u8 = 0x04;

/// Why an answer to READ TOC is no table of contents.
#[derive(Debug, Clone, Copy, PartialEq, Eq, Structural)]
pub enum TocParseError {
    /// The answer ends within its header.
    TooShort,
    /// There is no lead-out descriptor.
    NoLeadout,
}

impl TocParseError {
    /// The error in words.
    pub open spec fn text(self) -> Seq<char> {
        match self {
            TocParseError::TooShort => "TOC data too short"@,
            TocParseError::NoLeadout => "TOC has no lead-out"@,
        }
    }

    /// The error in words.
    pub fn message(&self) -> (message: String)
        ensures
            message@ == self.text(),
    {
        match self {
            TocParseError::TooShort => "TOC data too short".to_owned(),
            TocParseError::NoLeadout => "TOC has no lead-out".to_owned(),
        }
    }
}

/// Number of complete descriptors that the header announces and the answer holds.
pub open spec fn descriptor_count(data: Seq<u8>) -> int {
    let announced = (data[0] * 0x100 + data[1] - 2) / 8;
    let held = (data.len() - 4) / 8;
    if announced < 0 {
        0
    } else if announced < held {
        announced
    } else {
        held
    }
}

/// Track number in descriptor `k`.
pub open spec fn descriptor_number(data: Seq<u8>, k: int) -> u8 {
    data[4 + 8 * k + 2]
}

/// Start address in descriptor `k`.
pub open spec fn descriptor_lba(data: Seq<u8>, k: int) -> u32 {
    let at = 4 + 8 * k;
    bytes::be_u32(data[at + 4], data[at + 5], data[at + 6], data[at + 7]) as u32
}

/// The track that descriptor `k` describes.
pub open spec fn descriptor_track(data: Seq<u8>, k: int) -> Track {
    Track {
        number: descriptor_number(data, k),
        start_lba: descriptor_lba(data, k),
        start_msf: msf::msf_of(descriptor_lba(data, k)),
        is_audio: data[4 + 8 * k + 1] & CONTROL_DATA == 0,
    }
}

/// The tracks among the first `n` descriptors.
pub open spec fn tracks_among(data: Seq<u8>, n: int) -> Seq<Track>
    decreases n,
{
    if n <= 0 {
        Seq::empty()
    } else if descriptor_number(data, n - 1) == LEADOUT_TRACK {
        tracks_among(data, n - 1)
    } else {
        tracks_among(data, n - 1).push(descriptor_track(data, n - 1))
    }
}

/// The lead-out address among the first `n` descriptors; if there are several,
/// the last one.
pub open spec fn leadout_among(data: Seq<u8>, n: int) -> Option<u32>
    decreases n,
{
    if n <= 0 {
        None
    } else if descriptor_number(data, n - 1) == LEADOUT_TRACK {
        Some(descriptor_lba(data, n - 1))
    } else {
        leadout_among(data, n - 1)
    }
}

/// Whether `result` is the table of contents in `data`, or the reason why there
/// is none.
pub open spec fn is_toc_of(data: Seq<u8>, result: Result<Toc, TocParseError>) -> bool {
    let n = descriptor_count(data);
    if data.len() < 4 {
        result == Err::<Toc, TocParseError>(TocParseError::TooShort)
    } else {
        match leadout_among(data, n) {
            None => result == Err::<Toc, TocParseError>(TocParseError::NoLeadout),
            Some(leadout) => result matches Ok(toc) && {
                &&& toc.first_track == data[2]
                &&& toc.last_track == data[3]
                &&& toc.tracks@ == tracks_among(data, n)
                &&& toc.leadout_lba == leadout
            },
        }
    }
}

/// Reads the table of contents from the answer to a READ TOC command in LBA form.
pub fn parse_toc(data: &Vec<u8>) -> (result: Result<Toc, TocParseError>)
    ensures
        is_toc_of(data@, result),
{
    let len: usize = data.len();
    if len < 4 {
        return Err(TocParseError::TooShort);
    }
    let toc_len: usize = data[0] as usize * 0x100 + data[1] as usize;
    let announced: usize = if toc_len < 2 { 0 } else { (toc_len - 2) / 8 };
    let held: usize = (len - 4) / 8;
    let count: usize = if announced < held { announced } else { held };
    assert(count == descriptor_count(data@));

    let mut tracks: Vec<Track> = Vec::new();
    let mut leadout: Option<u32> = None;
    let mut k: usize = 0;
    while k < count
        invariant
            k <= count,
            4 + 8 * count <= len,
            len == data@.len(),
            tracks@ == tracks_among(data@, k as int),
            leadout == leadout_among(data@, k as int),
        decreases count - k,
    {
        let at: usize = 4 + 8 * k;
        let number: u8 = data[at + 2];
        let lba: u32 = bytes::u32_from_be(data[at + 4], data[at + 5], data[at + 6], data[at + 7]);
        if number == LEADOUT_TRACK {
            leadout = Some(lba);
        } else {
            tracks.push(
                Track {
                    number,
                    start_lba: lba,
                    start_msf: msf::lba_to_msf(lba),
                    is_audio: data[at + 1] & CONTROL_DATA == 0,
                },
            );
        }
        k += 1;
    }
    match leadout {
        None => Err(TocParseError::NoLeadout),
        Some(leadout_lba) => Ok(
            Toc { first_track: data[2], last_track: data[3], tracks, leadout_lba },
        ),
    }
}

/// Whether `result` is the table of contents in `data`, or an error that says why
/// there is none.
pub open spec fn is_answer_of(data: Seq<u8>, result: Result<Toc, CdReaderError>) -> bool {
    match result {
        Ok(toc) => is_toc_of(data, Ok(toc)),
        Err(CdReaderError::Parse(message)) => exists|err: TocParseError| #[trigger]
            is_toc_of(data, Err(err)) && message@ == err.text(),
        Err(_) => false,
    }
}

/// Reads the table of contents from the data that a drive returned.
pub fn parse_toc_answer(data: &Vec<u8>) -> (result: Result<Toc, CdReaderError>)
    ensures
        is_answer_of(data@, result),
{
    match parse_toc(data) {
        Ok(toc) => Ok(toc),
        Err(err) => {
            assert(is_toc_of(data@, Err(err)));
            Err(CdReaderError::Parse(err.message()))
        },
    }
}

/// Descriptor of a track, or of the lead-out, that starts at `lba`.
pub open spec fn descriptor(number: u8, lba: u32, is_audio: bool) -> Seq<u8> {
    seq![
        0u8,
        if is_audio { 0x10u8 } else { 0x14u8 },
        number,
        0u8,
        bytes::byte_at(lba as int, 3),
        bytes::byte_at(lba as int, 2),
        bytes::byte_at(lba as int, 1),
        bytes::byte_at(lba as int, 0),
    ]
}

/// The answer of a drive that holds a disc with the table of contents `toc`.
pub open spec fn toc_answer(toc: Toc) -> Seq<u8> {
    let n = toc.tracks@.len() as int;
    let length = 2 + 8 * (n + 1);
    Seq::new(
        (4 + 8 * (n + 1)) as nat,
        |i: int|
            if i == 0 {
                bytes::byte_at(length, 1)
            } else if i == 1 {
                bytes::byte_at(length, 0)
            } else if i == 2 {
                toc.first_track
            } else if i == 3 {
                toc.last_track
            } else if (i - 4) / 8 < n {
                let track = toc.tracks@[(i - 4) / 8];
                descriptor(track.number, track.start_lba, track.is_audio)[(i - 4) % 8]
            } else {
                descriptor(LEADOUT_TRACK, toc.leadout_lba, true)[(i - 4) % 8]
            },
    )
}

proof fn lemma_descriptor_in_answer(toc: Toc, k: int)
    requires
        0 <= k <= toc.tracks@.len(),
    ensures
        k < toc.tracks@.len() ==> {
            let track = toc.tracks@[k];
            let read = descriptor_track(toc_answer(toc), k);
            &&& read.number == track.number
            &&& read.start_lba == track.start_lba
            &&& read.start_msf == msf::msf_of(track.start_lba)
            &&& read.is_audio == track.is_audio
        },
        k == toc.tracks@.len() ==> descriptor_number(toc_answer(toc), k) == LEADOUT_TRACK
            && descriptor_lba(toc_answer(toc), k) == toc.leadout_lba,
{
    let data = toc_answer(toc);
    let at = 4 + 8 * k;
    assert(0x10u8 & 0x04u8 == 0) by (bit_vector);
    assert(0x14u8 & 0x04u8 != 0) by (bit_vector);
    assert forall|j: int| 0 <= j < 8 implies (#[trigger] data[at + j]) == (if k < toc.tracks@.len() {
        let track = toc.tracks@[k];
        descriptor(track.number, track.start_lba, track.is_audio)[j]
    } else {
        descriptor(LEADOUT_TRACK, toc.leadout_lba, true)[j]
    }) by {
        assert((at + j - 4) / 8 == k);
        assert((at + j - 4) % 8 == j);
    }
    assert(data[at + 1] == data[at + 1]);
    assert(data[at + 2] == data[at + 2]);
    assert(data[at + 4] == data[at + 4]);
    assert(data[at + 5] == data[at + 5]);
    assert(data[at + 6] == data[at + 6]);
    assert(data[at + 7] == data[at + 7]);
    if k < toc.tracks@.len() {
        bytes::law_bytes_give_the_number_back(toc.tracks@[k].start_lba);
    } else {
        bytes::law_bytes_give_the_number_back(toc.leadout_lba);
    }
}

proof fn lemma_tracks_in_answer(toc: Toc, n: int)
    requires
        0 <= n <= toc.tracks@.len(),
        forall|i: int|
            0 <= i < toc.tracks@.len() ==> (#[trigger] toc.tracks@[i]).number != LEADOUT_TRACK
                && toc.tracks@[i].start_msf == msf::msf_of(toc.tracks@[i].start_lba),
    ensures
        tracks_among(toc_answer(toc), n) == toc.tracks@.take(n),
    decreases n,
{
    if n == 0 {
        assert(toc.tracks@.take(0) =~= Seq::<Track>::empty());
    } else {
        lemma_tracks_in_answer(toc, n - 1);
        lemma_descriptor_in_answer(toc, n - 1);
        assert(toc.tracks@[n - 1].number != LEADOUT_TRACK);
        assert(toc.tracks@.take(n - 1).push(toc.tracks@[n - 1]) =~= toc.tracks@.take(n));
    }
}

/// Reading the answer of a drive gives the table of contents of its disc: all
/// tracks in order, with number, both addresses and kind, and the lead-out.
pub proof fn law_toc_is_read_back(toc: Toc, result: Result<Toc, TocParseError>)
    requires
        toc.tracks@.len() <= 255,
        forall|i: int|
            0 <= i < toc.tracks@.len() ==> (#[trigger] toc.tracks@[i]).number != LEADOUT_TRACK
                && toc.tracks@[i].start_msf == msf::msf_of(toc.tracks@[i].start_lba),
        is_toc_of(toc_answer(toc), result),
    ensures
        result matches Ok(read) && {
            &&& read.first_track == toc.first_track
            &&& read.last_track == toc.last_track
            &&& read.tracks@ == toc.tracks@
            &&& read.leadout_lba == toc.leadout_lba
        },
{
    let data = toc_answer(toc);
    let n = toc.tracks@.len() as int;
    let length = 2 + 8 * (n + 1);
    assert(bytes::byte_at(length, 1) * 0x100 + bytes::byte_at(length, 0) == length);
    assert(descriptor_count(data) == n + 1);
    lemma_tracks_in_answer(toc, n);
    lemma_descriptor_in_answer(toc, n);
    assert(toc.tracks@.take(n) =~= toc.tracks@);
}

proof fn lemma_msf_matches_lba(data: Seq<u8>, n: int, i: int)
    requires
        0 <= i < tracks_among(data, n).len(),
    ensures
        tracks_among(data, n)[i].start_msf == msf::msf_of(tracks_among(data, n)[i].start_lba),
        tracks_among(data, n)[i].number != LEADOUT_TRACK,
    decreases n,
{
    if n > 0 {
        if i < tracks_among(data, n - 1).len() {
            lemma_msf_matches_lba(data, n - 1, i);
        }
    }
}

/// The two addresses of each track that was read are equivalent, and the lead-out
/// is not listed as a track.
pub proof fn law_track_addresses_agree(data: Seq<u8>, toc: Toc, i: int)
    requires
        is_toc_of(data, Ok(toc)),
        0 <= i < toc.tracks@.len(),
    ensures
        toc.tracks@[i].start_msf == msf::msf_of(toc.tracks@[i].start_lba),
        toc.tracks@[i].number != LEADOUT_TRACK,
{
    lemma_msf_matches_lba(data, descriptor_count(data), i);
}

} // verus!
