//! Drives and the discs in them.

use vstd::prelude::*;

use crate::errors::{CdReaderError, IoError};
use crate::paths::HasPath;
use crate::toc::Toc;

verus! {

/// A CD drive that was found.
#[derive(Debug)]
pub struct DriveInfo {
    /// Path to open the drive with.
    pub path: String,
    /// Name to show to the user.
    pub display_name: Option<String>,
    /// Whether the drive holds a disc with at least one audio track.
    pub has_audio_cd: bool,
}

impl HasPath for DriveInfo {
    open spec fn path_text(&self) -> Seq<char> {
        self.path@
    }

    fn path_str(&self) -> (path: &str) {
        self.path.as_str()
    }
}

impl DriveInfo {
    /// Whether this entry shows the drive at `path` under its path.
    pub open spec fn shows(self, path: Seq<char>, has_audio_cd: bool) -> bool {
        &&& self.path@ == path
        &&& self.display_name is Some
        &&& self.display_name->0@ == path
        &&& self.has_audio_cd == has_audio_cd
    }

    /// Entry for the drive at `path`, shown under that path.
    pub fn at_path(path: String, has_audio_cd: bool) -> (drive: DriveInfo)
        ensures
            drive.shows(path@, has_audio_cd),
    {
        DriveInfo { display_name: Some(path.clone()), path, has_audio_cd }
    }

    /// Entry for the drive at `path` that answered a READ TOC command with `toc`.
    /// It holds an audio CD if its table of contents could be read and lists an
    /// audio track.
    pub fn probed(path: String, toc: &Result<Toc, CdReaderError>) -> (drive: DriveInfo)
        ensures
            drive.shows(path@, toc matches Ok(toc) && toc.has_audio_track()),
    {
        let has_audio_cd = match toc {
            Ok(toc) => toc.has_audio(),
            Err(_) => false,
        };
        DriveInfo::at_path(path, has_audio_cd)
    }
}

/// Whether `drives[i]` is the first drive with an audio CD.
pub open spec fn is_first_with_audio(drives: Seq<DriveInfo>, i: int) -> bool {
    &&& 0 <= i < drives.len()
    &&& drives[i].has_audio_cd
    &&& forall|j: int| 0 <= j < i ==> !(#[trigger] drives[j]).has_audio_cd
}

/// Whether no drive has an audio CD.
pub open spec fn none_with_audio(drives: Seq<DriveInfo>) -> bool {
    forall|j: int| 0 <= j < drives.len() ==> !(#[trigger] drives[j]).has_audio_cd
}

/// Picks the drive to open by default: the first one that holds an audio CD.
pub fn default_drive(drives: &Vec<DriveInfo>) -> (picked: Result<usize, IoError>)
    ensures
        match picked {
            Ok(i) => is_first_with_audio(drives@, i as int),
            Err(err) => err == IoError::NoAudioDrive && none_with_audio(drives@),
        },
{
    let mut i: usize = 0;
    while i < drives.len()
        invariant
            i <= drives@.len(),
            forall|j: int| 0 <= j < i ==> !(#[trigger] drives@[j]).has_audio_cd,
        decreases drives@.len() - i,
    {
        if drives[i].has_audio_cd {
            return Ok(i);
        }
        i += 1;
    }
    Err(IoError::NoAudioDrive)
}

} // verus!
