//! Minute, second, frame addresses.
//!
//! A frame is one sector and a second has 75 of them. The address counts from the
//! start of the disc, two seconds (150 frames) before LBA 0.

use vstd::prelude::*;

verus! {

/// Sectors per second of audio.
pub const FRAMES_PER_SECOND: u64 = 75;

/// Frames of the lead-in area in front of LBA 0.
pub const LEAD_IN_FRAMES: u64 = 150;

/// Frames from the start of the disc to the address `msf`.
pub open spec fn msf_frames(msf: (u8, u8, u8)) -> int {
    (msf.0 * 60 + msf.1) * 75 + msf.2
}

/// Minutes, seconds and frames from the start of the disc to sector `lba`. The
/// minutes count modulo 256.
pub open spec fn msf_of(lba: u32) -> (u8, u8, u8) {
    let frames = lba + LEAD_IN_FRAMES;
    (
        ((frames / 4500) % 256) as u8,
        ((frames / 75) % 60) as u8,
        (frames % 75) as u8,
    )
}

/// Converts a sector address to minutes, seconds and frames. See [`msf_of`].
pub fn lba_to_msf(lba: u32) -> (msf: (u8, u8, u8))
    ensures
        msf == msf_of(lba),
{
    let frames: u64 = lba as u64 + LEAD_IN_FRAMES;
    let seconds: u64 = frames / FRAMES_PER_SECOND;
    let minutes: u64 = seconds / 60;
    ((minutes % 256) as u8, (seconds % 60) as u8, (frames % FRAMES_PER_SECOND) as u8)
}

/// The two kinds of address are interchangeable: on any disc of less than 256
/// minutes the frames that `msf_of` gives are the LBA plus 150, with the seconds
/// below 60 and the frames below 75, so each address determines the other.
pub proof fn law_lba_and_msf_are_interchangeable(lba: u32)
    requires
        lba + LEAD_IN_FRAMES < 256 * 60 * 75,
    ensures
        msf_frames(msf_of(lba)) == lba + LEAD_IN_FRAMES,
        msf_of(lba).1 < 60,
        msf_of(lba).2 < 75,
        forall|msf: (u8, u8, u8)|
            msf.1 < 60 && msf.2 < 75 && #[trigger] msf_frames(msf) == lba + LEAD_IN_FRAMES ==> msf
                == msf_of(lba),
{
    assert forall|msf: (u8, u8, u8)|
        msf.1 < 60 && msf.2 < 75 && #[trigger] msf_frames(msf) == lba
            + LEAD_IN_FRAMES implies msf == msf_of(lba) by {
        let frames = lba + LEAD_IN_FRAMES;
        assert(frames % 75 == msf.2);
        assert(frames / 75 == msf.0 * 60 + msf.1);
        assert((frames / 75) % 60 == msf.1);
        assert(frames / 4500 == msf.0);
    }
}

} // verus!
