//! Errors reported while talking to a drive or resolving a track.

use vstd::prelude::*;

verus! {

/// SCSI command that a [`ScsiError`] belongs to.
#[derive(Debug, Clone, Copy, PartialEq, Eq, Structural)]
pub enum ScsiOp {
    /// READ TOC/PMA/ATIP (0x43).
    ReadToc,
    /// READ CD (0xBE).
    ReadCd,
}

/// A command that the drive answered with an error status.
#[derive(Debug, Clone, Copy, PartialEq, Eq, Structural)]
pub struct ScsiError {
    /// The command that failed.
    pub op: ScsiOp,
    /// First sector of the request, if the command addresses sectors.
    pub lba: Option<u32>,
    /// Number of sectors requested, if the command addresses sectors.
    pub sectors: Option<u32>,
    /// SCSI status byte.
    pub scsi_status: u8,
    /// Sense key, if the drive sent sense data.
    pub sense_key: Option<u8>,
    /// Additional sense code, if the drive sent sense data.
    pub asc: Option<u8>,
    /// Additional sense code qualifier, if the drive sent sense data.
    pub ascq: Option<u8>,
}

/// Failures outside the SCSI protocol: the operating system, the drive handle,
/// or a track request that the table of contents cannot answer.
#[derive(Debug, Clone, Copy, PartialEq, Eq, Structural)]
pub enum IoError {
    /// The operating system refused a call, with its error number.
    Os(i32),
    /// A command was issued while no drive is open.
    DriveNotOpened,
    /// A drive was opened while another one is still open.
    DriveAlreadyOpen,
    /// The device could not be opened.
    DeviceUnavailable,
    /// The list of drives could not be obtained.
    EnumerationFailed,
    /// The platform reported a failed command without any SCSI details.
    CommandFailed,
    /// No drive holds an audio CD.
    NoAudioDrive,
    /// The requested track number is not in the table of contents.
    TrackNotFound,
    /// The table of contents gives the track no sectors to read.
    InvalidTrackBounds,
    /// A read ended with fewer (or more) bytes than the sectors asked for hold.
    IncompleteRead,
}

impl IoError {
    /// The error in words.
    pub open spec fn text(self) -> Seq<char> {
        match self {
            IoError::Os(_) => "operating system error"@,
            IoError::DriveNotOpened => "Drive not opened"@,
            IoError::DriveAlreadyOpen => "Drive is already open"@,
            IoError::DeviceUnavailable => "could not get device"@,
            IoError::EnumerationFailed => "could not enumerate CD drives"@,
            IoError::CommandFailed => "macOS CD command failed"@,
            IoError::NoAudioDrive => "no drive with an audio CD"@,
            IoError::TrackNotFound => "track not in TOC"@,
            IoError::InvalidTrackBounds => "invalid TOC bounds"@,
            IoError::IncompleteRead => "incomplete sector read"@,
        }
    }

    /// The error in words. The system knows more about an error number.
    pub fn message(&self) -> (message: String)
        ensures
            message@ == self.text(),
    {
        match self {
            IoError::Os(_) => "operating system error".to_owned(),
            IoError::DriveNotOpened => "Drive not opened".to_owned(),
            IoError::DriveAlreadyOpen => "Drive is already open".to_owned(),
            IoError::DeviceUnavailable => "could not get device".to_owned(),
            IoError::EnumerationFailed => "could not enumerate CD drives".to_owned(),
            IoError::CommandFailed => "macOS CD command failed".to_owned(),
            IoError::NoAudioDrive => "no drive with an audio CD".to_owned(),
            IoError::TrackNotFound => "track not in TOC".to_owned(),
            IoError::InvalidTrackBounds => "invalid TOC bounds".to_owned(),
            IoError::IncompleteRead => "incomplete sector read".to_owned(),
        }
    }
}

/// Error of a drive operation.
#[derive(Debug)]
pub enum CdReaderError {
    /// Failure outside the SCSI protocol.
    Io(IoError),
    /// The drive answered with an error status.
    Scsi(ScsiError),
    /// The drive's answer could not be understood.
    Parse(String),
}

} // verus!
