//! Table of contents and the sector ranges of its tracks.

use vstd::prelude::*;

use crate::errors::IoError;

verus! {

/// Sectors between the last audio track and the first data track of a CD-Extra
/// disc: the lead-out of the audio session and the lead-in of the data session.
pub const SESSION_GAP_SECTORS: u32 = 11_400;

/// A track of the table of contents, purely in terms of data location on the CD.
#[derive(Debug)]
pub struct Track {
    /// Track number, as the disc gives it. It usually starts with 1, and there
    /// might be gaps.
    pub number: u8,
    /// Address of the first sector.
    pub start_lba: u32,
    /// Address of the first sector as (minute, second, frame).
    pub start_msf: (u8, u8, u8),
    /// Whether the track holds audio, as opposed to data.
    pub is_audio: bool,
}

/// Table of contents of a disc.
#[derive(Debug)]
pub struct Toc {
    /// Number of the first track.
    pub first_track: u8,
    /// Number of the last track. Not every number up to it has to be in use.
    pub last_track: u8,
    /// Tracks in the order of the table.
    pub tracks: Vec<Track>,
    /// Address of the lead-out, behind the last sector of the last track.
    pub leadout_lba: u32,
}

/// Whether the first track numbered `track_no` is `tracks[i]`.
pub open spec fn is_first_with_number(tracks: Seq<Track>, track_no: u8, i: int) -> bool {
    &&& 0 <= i < tracks.len()
    &&& tracks[i].number == track_no
    &&& forall|j: int| 0 <= j < i ==> (#[trigger] tracks[j]).number != track_no
}

/// Whether `tracks` has a track numbered `track_no`.
pub open spec fn has_track(tracks: Seq<Track>, track_no: u8) -> bool {
    exists|i: int| 0 <= i < tracks.len() && (#[trigger] tracks[i]).number == track_no
}

/// Whether `tracks[i]` is an audio track that only data tracks follow, and at
/// least one.
pub open spec fn ends_audio_session(tracks: Seq<Track>, i: int) -> bool {
    &&& i + 1 < tracks.len()
    &&& tracks[i].is_audio
    &&& forall|j: int| i < j < tracks.len() ==> !(#[trigger] tracks[j]).is_audio
}

impl Toc {
    /// Address behind the last sector of `tracks[i]`: where the next track starts
    /// (with the session gap taken off behind the last audio track of a CD-Extra
    /// disc), or the lead-out behind the last track.
    pub open spec fn track_end(self, i: int) -> int {
        if i + 1 >= self.tracks@.len() {
            self.leadout_lba as int
        } else if ends_audio_session(self.tracks@, i) {
            self.tracks@[i + 1].start_lba - SESSION_GAP_SECTORS
        } else {
            self.tracks@[i + 1].start_lba as int
        }
    }

    /// First sector and number of sectors of `tracks[i]`.
    pub open spec fn sectors_of(self, i: int) -> Result<(u32, u32), IoError> {
        let start = self.tracks@[i].start_lba;
        if self.track_end(i) <= start {
            Err(IoError::InvalidTrackBounds)
        } else {
            Ok((start, (self.track_end(i) - start) as u32))
        }
    }

    /// What [`get_track_bounds`] gives for the track numbered `track_no`.
    pub open spec fn bounds(self, track_no: u8) -> Result<(u32, u32), IoError> {
        if has_track(self.tracks@, track_no) {
            self.sectors_of(choose|i: int| is_first_with_number(self.tracks@, track_no, i))
        } else {
            Err(IoError::TrackNotFound)
        }
    }

    /// Whether any track holds audio.
    pub open spec fn has_audio_track(self) -> bool {
        exists|i: int| 0 <= i < self.tracks@.len() && (#[trigger] self.tracks@[i]).is_audio
    }

    /// Whether any track holds audio, which makes the disc an audio CD.
    pub fn has_audio(&self) -> (found: bool)
        ensures
            found == self.has_audio_track(),
    {
        let mut i: usize = 0;
        while i < self.tracks.len()
            invariant
                i <= self.tracks@.len(),
                forall|j: int| 0 <= j < i ==> !(#[trigger] self.tracks@[j]).is_audio,
            decreases self.tracks@.len() - i,
        {
            if self.tracks[i].is_audio {
                return true;
            }
            i += 1;
        }
        false
    }
}

/// Position of the first track numbered `track_no`.
fn find_track(tracks: &Vec<Track>, track_no: u8) -> (found: Option<usize>)
    ensures
        match found {
            Some(i) => is_first_with_number(tracks@, track_no, i as int),
            None => !has_track(tracks@, track_no),
        },
{
    let mut i: usize = 0;
    while i < tracks.len()
        invariant
            i <= tracks@.len(),
            forall|j: int| 0 <= j < i ==> (#[trigger] tracks@[j]).number != track_no,
        decreases tracks@.len() - i,
    {
        if tracks[i].number == track_no {
            return Some(i);
        }
        i += 1;
    }
    None
}

/// Whether `tracks[i]` is an audio track that only data tracks follow.
fn is_last_before_data(tracks: &Vec<Track>, i: usize) -> (yes: bool)
    requires
        i + 1 < tracks@.len(),
    ensures
        yes == ends_audio_session(tracks@, i as int),
{
    let count: usize = tracks.len();
    if !tracks[i].is_audio {
        return false;
    }
    let mut j: usize = i + 1;
    while j < count
        invariant
            count == tracks@.len(),
            i < j <= count,
            forall|k: int| i < k < j ==> !(#[trigger] tracks@[k]).is_audio,
        decreases count - j,
    {
        if tracks[j].is_audio {
            return false;
        }
        j += 1;
    }
    true
}

/// Resolves a track number to its first sector and number of sectors.
///
/// A track reaches up to the start of the next one in the table, the last track
/// up to the lead-out. If only data tracks follow an audio track (CD-Extra), the
/// session gap in front of the first of them is not part of the audio.
pub fn get_track_bounds(toc: &Toc, track_no: u8) -> (bounds: Result<(u32, u32), IoError>)
    ensures
        bounds == toc.bounds(track_no),
{
    let i: usize = match find_track(&toc.tracks, track_no) {
        Some(i) => i,
        None => {
            return Err(IoError::TrackNotFound);
        },
    };
    proof {
        lemma_first_is_unique(toc.tracks@, track_no, i as int);
    }
    let count: usize = toc.tracks.len();
    let start_lba: u32 = toc.tracks[i].start_lba;
    let end_lba: u32 = if i + 1 >= count {
        toc.leadout_lba
    } else if is_last_before_data(&toc.tracks, i) {
        toc.tracks[i + 1].start_lba.saturating_sub(SESSION_GAP_SECTORS)
    } else {
        toc.tracks[i + 1].start_lba
    };
    if end_lba <= start_lba {
        return Err(IoError::InvalidTrackBounds);
    }
    Ok((start_lba, end_lba - start_lba))
}

proof fn lemma_first_is_unique(tracks: Seq<Track>, track_no: u8, i: int)
    requires
        is_first_with_number(tracks, track_no, i),
    ensures
        has_track(tracks, track_no),
        i == (choose|k: int| is_first_with_number(tracks, track_no, k)),
{
    let k = choose|k: int| is_first_with_number(tracks, track_no, k);
    assert(is_first_with_number(tracks, track_no, k));
    assert(tracks[i].number == track_no);
    assert(tracks[k].number == track_no);
}

/// A track number stands for the first track of that number in the table.
pub proof fn law_bounds_are_those_of_the_first(toc: Toc, track_no: u8, i: int)
    requires
        is_first_with_number(toc.tracks@, track_no, i),
    ensures
        toc.bounds(track_no) == toc.sectors_of(i),
{
    lemma_first_is_unique(toc.tracks@, track_no, i);
}

/// Whether no two tracks have the same number and each starts behind the one
/// before it, the last one in front of the lead-out.
pub open spec fn in_order(toc: Toc) -> bool {
    let tracks = toc.tracks@;
    &&& forall|i: int, j: int|
        0 <= i < j < tracks.len() ==> (#[trigger] tracks[i]).number != (#[trigger] tracks[j]).number
            && tracks[i].start_lba < tracks[j].start_lba
    &&& forall|i: int| 0 <= i < tracks.len() ==> (#[trigger] tracks[i]).start_lba < toc.leadout_lba
}

/// The sectors of a track, if it has any, are addressable to the last one.
pub proof fn law_bounds_are_addressable(toc: Toc, track_no: u8)
    ensures
        toc.bounds(track_no) matches Ok((start, sectors)) ==> sectors > 0 && start + sectors
            <= u32::MAX,
{
}

/// On a disc whose table is in order every track can be read, up to the start of
/// the next track, or up to the lead-out if it is the last. The one exception is
/// the last audio track of a CD-Extra disc: it ends the session gap earlier, and
/// can be read if the gap leaves anything of it.
pub proof fn law_tracks_reach_the_next(toc: Toc, i: int)
    requires
        in_order(toc),
        0 <= i < toc.tracks@.len(),
    ensures
        ({
            let tracks = toc.tracks@;
            let next = if i + 1 < tracks.len() { tracks[i + 1].start_lba } else { toc.leadout_lba };
            match toc.bounds(tracks[i].number) {
                Ok((start, sectors)) => start == tracks[i].start_lba && start + sectors + (
                if ends_audio_session(tracks, i) {
                    SESSION_GAP_SECTORS as int
                } else {
                    0
                }) == next,
                Err(err) => err == IoError::InvalidTrackBounds && ends_audio_session(tracks, i)
                    && tracks[i].start_lba + SESSION_GAP_SECTORS >= next,
            }
        }),
{
    let tracks = toc.tracks@;
    assert(is_first_with_number(tracks, tracks[i].number, i));
    lemma_first_is_unique(tracks, tracks[i].number, i);
    if i + 1 < tracks.len() {
        assert(tracks[i].start_lba < tracks[i + 1].start_lba);
    }
}

/// On a disc whose table is in order the sectors of different tracks do not
/// overlap, come in the order of the tracks and end in front of the lead-out.
pub proof fn law_tracks_do_not_overlap(toc: Toc, i: int, j: int)
    requires
        in_order(toc),
        0 <= i < j < toc.tracks@.len(),
    ensures
        toc.bounds(toc.tracks@[i].number) matches Ok((first, first_sectors)) ==> (toc.bounds(
            toc.tracks@[j].number,
        ) matches Ok((second, second_sectors)) ==> first + first_sectors <= second && second
            + second_sectors <= toc.leadout_lba),
{
    law_tracks_reach_the_next(toc, i);
    law_tracks_reach_the_next(toc, j);
    let tracks = toc.tracks@;
    if i + 1 < j {
        assert(tracks[i + 1].start_lba < tracks[j].start_lba);
    }
}

/// A track number that the table does not have is answered with an error that
/// says so, and with nothing else.
pub proof fn law_unknown_track_is_not_found(toc: Toc, track_no: u8)
    ensures
        toc.bounds(track_no) == Err::<(u32, u32), IoError>(IoError::TrackNotFound) <==> !has_track(
            toc.tracks@,
            track_no,
        ),
{
}

} // verus!
