//! SCSI pass-through (`IOCTL_SCSI_PASS_THROUGH_DIRECT`) on Windows.

use vstd::prelude::*;
use vstd::string::*;

use crate::data_reader;
use crate::data_reader::SectorReadMode;
use crate::drive::DriveSlot;
use crate::errors::{CdReaderError, IoError, ScsiError, ScsiOp};
use crate::parse_toc;
use crate::retry::RetryConfig;
use crate::toc::Toc;
use crate::transfer;
use crate::transfer::{ChunkRequest, ReadProgress};

verus! {

/// What `GetDriveTypeW` returns for an optical drive.
pub const DRIVE_CDROM: u32 = 5;

/// Length of the sense buffer.
pub const SENSE_BYTES: usize = 32;

/// Number of drive letters.
pub const DRIVE_LETTERS: usize = 26;

/// What a pass-through command leaves behind: the two buffers and the result
/// fields of its header.
#[derive(Debug)]
pub struct SptdReply {
    /// Data buffer, at the length that was asked for.
    pub data: Vec<u8>,
    /// Sense buffer.
    pub sense: Vec<u8>,
    /// SCSI status.
    pub scsi_status: u8,
    /// Length of the sense data.
    pub sense_info_length: u8,
}

/// Takes in the outcome of opening a drive. While a drive is open, no other one is
/// let in.
pub fn open_drive<H>(slot: &mut DriveSlot<H>, opened: Result<H, IoError>) -> (result: Result<
    (),
    IoError,
>)
    ensures
        match old(slot).handle {
            Some(_) => *final(slot) == *old(slot) && result == Err::<(), IoError>(
                IoError::DriveAlreadyOpen,
            ),
            None => *final(slot) == old(slot).after_open(opened) && match opened {
                Ok(_) => result is Ok,
                Err(err) => result == Err::<(), IoError>(err),
            },
        },
{
    match slot.ensure_closed() {
        Ok(_) => slot.open(opened),
        Err(err) => Err(err),
    }
}

/// Starts to read a range of audio sectors from the drive in `slot`. Without an open
/// drive there is nothing to read from, whatever the range.
pub fn read_sectors_with_retry<H>(
    slot: &DriveSlot<H>,
    start_lba: u32,
    sectors: u32,
    cfg: &RetryConfig,
) -> (progress: Result<ReadProgress, CdReaderError>)
    ensures
        match slot.target() {
            Err(err) => progress matches Err(e) && e == err,
            Ok(_) => progress matches Ok(read) && read@ == transfer::initial_phase(
                SectorReadMode::Audio,
                *cfg,
                start_lba as int,
                sectors as int,
            ),
        },
{
    match slot.get() {
        Ok(_) => Ok(data_reader::read_data_sectors(start_lba, sectors, SectorReadMode::Audio, cfg)),
        Err(err) => Err(err),
    }
}

/// Sense key, additional sense code and qualifier in sense data of `sense_len`
/// bytes. Sense data that ends before them gives no sense.
pub open spec fn complete_sense_fields(sense: Seq<u8>, sense_len: u8) -> (
    Option<u8>,
    Option<u8>,
    Option<u8>,
) {
    if sense_len < 14 || sense.len() < 14 {
        (None, None, None)
    } else {
        (Some(sense[2] & 0x0F), Some(sense[12]), Some(sense[13]))
    }
}

/// Picks the sense key, the additional sense code and its qualifier out of sense
/// data. See [`complete_sense_fields`].
pub fn parse_sense(sense: &[u8], sense_len: u8) -> (fields: (Option<u8>, Option<u8>, Option<u8>))
    ensures
        fields == complete_sense_fields(sense@, sense_len),
{
    if sense_len < 14 || sense.len() < 14 {
        return (None, None, None);
    }
    (Some(sense[2] & 0x0F), Some(sense[12]), Some(sense[13]))
}

/// What [`read_toc`] gives for the outcome of a READ TOC command.
pub open spec fn is_toc_result(
    outcome: Result<SptdReply, IoError>,
    result: Result<Toc, CdReaderError>,
) -> bool {
    match outcome {
        Err(err) => result matches Err(e) && e == CdReaderError::Io(err),
        Ok(reply) => if reply.scsi_status != 0 {
            let (sense_key, asc, ascq) = complete_sense_fields(
                reply.sense@,
                reply.sense_info_length,
            );
            result matches Err(e) && e == CdReaderError::Scsi(
                (ScsiError {
                    op: ScsiOp::ReadToc,
                    lba: None,
                    sectors: None,
                    scsi_status: reply.scsi_status,
                    sense_key,
                    asc,
                    ascq,
                }),
            )
        } else {
            parse_toc::is_answer_of(reply.data@, result)
        },
    }
}

/// Reads the table of contents from the outcome of a READ TOC command.
pub fn read_toc(outcome: Result<SptdReply, IoError>) -> (result: Result<Toc, CdReaderError>)
    ensures
        is_toc_result(outcome, result),
{
    let reply = match outcome {
        Ok(reply) => reply,
        Err(err) => {
            return Err(CdReaderError::Io(err));
        },
    };
    if reply.scsi_status != 0 {
        let (sense_key, asc, ascq) = parse_sense(&reply.sense, reply.sense_info_length);
        return Err(
            CdReaderError::Scsi(
                ScsiError {
                    op: ScsiOp::ReadToc,
                    lba: None,
                    sectors: None,
                    scsi_status: reply.scsi_status,
                    sense_key,
                    asc,
                    ascq,
                },
            ),
        );
    }
    parse_toc::parse_toc_answer(&reply.data)
}

/// What [`read_data_chunk`] gives for the outcome of a READ CD command.
pub open spec fn is_chunk_result(
    request: ChunkRequest,
    outcome: Result<SptdReply, IoError>,
    result: Result<Vec<u8>, CdReaderError>,
) -> bool {
    match outcome {
        Err(err) => result matches Err(e) && e == CdReaderError::Io(err),
        Ok(reply) => if reply.scsi_status != 0 {
            let (sense_key, asc, ascq) = data_reader::sense_fields(
                reply.sense@,
                reply.sense_info_length,
            );
            result matches Err(e) && e == CdReaderError::Scsi(
                (ScsiError {
                    op: ScsiOp::ReadCd,
                    lba: Some(request.lba),
                    sectors: Some(request.sectors),
                    scsi_status: reply.scsi_status,
                    sense_key,
                    asc,
                    ascq,
                }),
            )
        } else {
            result == Ok::<Vec<u8>, CdReaderError>(reply.data)
        },
    }
}

/// Takes the sectors from the outcome of the READ CD command for `request`.
pub fn read_data_chunk(request: &ChunkRequest, outcome: Result<SptdReply, IoError>) -> (result:
    Result<Vec<u8>, CdReaderError>)
    ensures
        is_chunk_result(*request, outcome, result),
{
    let reply = match outcome {
        Ok(reply) => reply,
        Err(err) => {
            return Err(CdReaderError::Io(err));
        },
    };
    if reply.scsi_status != 0 {
        let (sense_key, asc, ascq) = data_reader::parse_sense(
            &reply.sense,
            reply.sense_info_length,
        );
        return Err(
            CdReaderError::Scsi(
                ScsiError {
                    op: ScsiOp::ReadCd,
                    lba: Some(request.lba),
                    sectors: Some(request.sectors),
                    scsi_status: reply.scsi_status,
                    sense_key,
                    asc,
                    ascq,
                },
            ),
        );
    }
    Ok(reply.data)
}

/// Drive letter number `i`.
pub open spec fn letter(i: int) -> Seq<char> {
    "ABCDEFGHIJKLMNOPQRSTUVWXYZ"@.subrange(i, i + 1)
}

/// Path of the root directory of drive number `i`, such as `C:\`.
pub open spec fn root_path(i: int) -> Seq<char> {
    letter(i) + ":\\"@
}

/// Path to open drive number `i` with, such as `\\.\C:`.
pub open spec fn device_path(i: int) -> Seq<char> {
    "\\\\.\\"@ + letter(i) + ":"@
}

/// Paths of the optical drives among the first `n` letters, in the order of the
/// letters. `drive_types` holds what `GetDriveTypeW` returned for each letter.
pub open spec fn optical_paths(drive_types: Seq<u32>, n: int) -> Seq<Seq<char>>
    decreases n,
{
    if n <= 0 {
        Seq::empty()
    } else if drive_types[n - 1] == DRIVE_CDROM {
        optical_paths(drive_types, n - 1).push(device_path(n - 1))
    } else {
        optical_paths(drive_types, n - 1)
    }
}

fn letter_str(i: usize) -> (text: &'static str)
    requires
        i < DRIVE_LETTERS,
    ensures
        text@ == letter(i as int),
{
    let letters = "ABCDEFGHIJKLMNOPQRSTUVWXYZ";
    proof {
        reveal_strlit("ABCDEFGHIJKLMNOPQRSTUVWXYZ");
    }
    letters.substring_char(i, i + 1)
}

/// The path to ask for the type of drive number `i` with. See [`root_path`].
pub fn drive_root(i: usize) -> (root: String)
    requires
        i < DRIVE_LETTERS,
    ensures
        root@ == root_path(i as int),
{
    let mut root = letter_str(i).to_owned();
    root.append(":\\");
    root
}

/// Lists the paths of the optical drives, given the types of all 26 drives. See
/// [`optical_paths`].
pub fn list_drive_paths(drive_types: &[u32; 26]) -> (paths: Vec<String>)
    ensures
        paths@.len() == optical_paths(drive_types@, 26).len(),
        forall|k: int|
            0 <= k < paths@.len() ==> (#[trigger] paths@[k])@ == optical_paths(drive_types@, 26)[k],
{
    let mut paths: Vec<String> = Vec::new();
    let mut i: usize = 0;
    while i < 26
        invariant
            i <= 26,
            paths@.len() == optical_paths(drive_types@, i as int).len(),
            forall|k: int|
                0 <= k < paths@.len() ==> (#[trigger] paths@[k])@ == optical_paths(
                    drive_types@,
                    i as int,
                )[k],
        decreases 26 - i,
    {
        if drive_types[i] == DRIVE_CDROM {
            let mut path = "\\\\.\\".to_owned();
            path.append(letter_str(i));
            path.append(":");
            paths.push(path);
        }
        i += 1;
    }
    paths
}

} // verus!
