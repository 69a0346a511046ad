//! Pluggable audio sector backings.
//!
//! Everything above the raw sector read is independent of the hardware: the table
//! of contents, the sector ranges of its tracks and the WAV wrapping. Any backing
//! that can produce raw CD-DA sectors (a disc image, an in-memory buffer, a
//! network stream) implements [`AudioSectorReader`] and shares all of it.

use vstd::prelude::*;
use vstd::string::*;

use crate::errors::IoError;
use crate::toc;
use crate::toc::Toc;

verus! {

/// Bytes per audio sector.
pub const AUDIO_SECTOR_BYTES: usize = 2352;

/// A source of raw CD-DA audio sectors: 2352 bytes per sector, 16-bit signed
/// little-endian, stereo, 44100 Hz.
///
/// `start_lba` is an absolute address, as in
/// [`Track::start_lba`](crate::toc::Track::start_lba).
pub trait AudioSectorReader {
    /// Error type of this backing.
    type Error;

    /// Reads `count` sectors from `start_lba` on. A successful read returns
    /// exactly `count * 2352` bytes.
    fn read_audio_sectors(&self, start_lba: u32, count: u32) -> (result: Result<
        Vec<u8>,
        Self::Error,
    >)
        ensures
            result matches Ok(data) ==> data@.len() == count * AUDIO_SECTOR_BYTES,
    ;
}

/// Error of [`read_track`].
#[derive(Debug)]
pub enum TrackReadError<E> {
    /// The track number is not in the table of contents, or its sector bounds
    /// are invalid.
    Toc(IoError),
    /// The backing failed while reading sectors.
    Backend(E),
}

impl<E> TrackReadError<E> {
    /// The error in words, where the error inside it reads `detail`.
    pub open spec fn text(self, detail: Seq<char>) -> Seq<char> {
        match self {
            TrackReadError::Toc(_) => "TOC error: "@ + detail,
            TrackReadError::Backend(_) => "backend error: "@ + detail,
        }
    }

    /// Puts the error into words, given those for the error inside it.
    pub fn message(&self, detail: &str) -> (message: String)
        ensures
            message@ == self.text(detail@),
    {
        let mut message = match self {
            TrackReadError::Toc(_) => "TOC error: ".to_owned(),
            TrackReadError::Backend(_) => "backend error: ".to_owned(),
        };
        message.append(detail);
        message
    }
}

/// Whether `result` passes on what `src` returned when it was asked for `sectors`
/// sectors from `start` on.
pub open spec fn passes_on_read<R: AudioSectorReader>(
    src: &R,
    start: u32,
    sectors: u32,
    result: Result<Vec<u8>, TrackReadError<R::Error>>,
) -> bool {
    match result {
        Ok(data) => call_ensures(R::read_audio_sectors, (src, start, sectors), Ok(data)),
        Err(TrackReadError::Backend(err)) => call_ensures(
            R::read_audio_sectors,
            (src, start, sectors),
            Err(err),
        ),
        Err(TrackReadError::Toc(_)) => false,
    }
}

/// Reads the raw PCM of one track from any backing.
///
/// The sector range comes from the table of contents, by the rules of
/// [`get_track_bounds`](crate::toc::get_track_bounds), and is read as a whole.
pub fn read_track<R: AudioSectorReader>(src: &R, toc: &Toc, track_no: u8) -> (result: Result<
    Vec<u8>,
    TrackReadError<R::Error>,
>)
    ensures
        match toc.bounds(track_no) {
            Err(err) => result matches Err(TrackReadError::Toc(e)) && e == err,
            Ok((start, sectors)) => {
                &&& passes_on_read(src, start, sectors, result)
                &&& result matches Ok(data) ==> data@.len() == sectors * AUDIO_SECTOR_BYTES
            },
        },
{
    let (start_lba, sectors) = match toc::get_track_bounds(toc, track_no) {
        Ok(bounds) => bounds,
        Err(err) => {
            return Err(TrackReadError::Toc(err));
        },
    };
    match src.read_audio_sectors(start_lba, sectors) {
        Ok(data) => Ok(data),
        Err(err) => Err(TrackReadError::Backend(err)),
    }
}

} // verus!
