//! IOKit, behind a shim that carries out whole commands, on macOS.

use vstd::prelude::*;

use crate::discovery::DriveInfo;
use crate::errors::{CdReaderError, IoError, ScsiError, ScsiOp};
use crate::parse_toc;
use crate::paths;
use crate::toc::Toc;
use crate::transfer::ChunkRequest;

verus! {

/// Error details that the shim reports for a failed command.
#[derive(Debug, Clone, Copy, PartialEq, Eq, Structural)]
pub struct MacScsiError {
    /// Not zero if the drive answered with an error status.
    pub has_scsi_error: u8,
    /// SCSI status.
    pub scsi_status: u8,
    /// Not zero if there is sense data.
    pub has_sense: u8,
    /// Sense key.
    pub sense_key: u8,
    /// Additional sense code.
    pub asc: u8,
    /// Additional sense code qualifier.
    pub ascq: u8,
    /// Error of the shim's call into the system.
    pub exec_error: u32,
    /// Status of the SCSI task.
    pub task_status: u32,
}

/// A drive as the shim lists it.
#[derive(Debug)]
pub struct MacDriveEntry {
    /// BSD name of the device.
    pub bsd_name: String,
    /// Not zero if its disc has an audio track.
    pub has_audio: u8,
}

impl MacScsiError {
    /// A sense field, if there is sense data.
    pub open spec fn sense_field(self, value: u8) -> Option<u8> {
        if self.has_sense != 0 { Some(value) } else { None }
    }

    /// The error that a failed command is reported with.
    pub open spec fn reported(
        self,
        op: ScsiOp,
        lba: Option<u32>,
        sectors: Option<u32>,
    ) -> CdReaderError {
        if self.has_scsi_error != 0 {
            CdReaderError::Scsi(
                ScsiError {
                    op,
                    lba,
                    sectors,
                    scsi_status: self.scsi_status,
                    sense_key: self.sense_field(self.sense_key),
                    asc: self.sense_field(self.asc),
                    ascq: self.sense_field(self.ascq),
                },
            )
        } else {
            CdReaderError::Io(IoError::CommandFailed)
        }
    }
}

/// Turns the details of a failed command into the error to report.
pub fn map_mac_error(
    err: MacScsiError,
    op: ScsiOp,
    lba: Option<u32>,
    sectors: Option<u32>,
) -> (reported: CdReaderError)
    ensures
        reported == err.reported(op, lba, sectors),
{
    if err.has_scsi_error != 0 {
        let has_sense = err.has_sense != 0;
        return CdReaderError::Scsi(
            ScsiError {
                op,
                lba,
                sectors,
                scsi_status: err.scsi_status,
                sense_key: if has_sense { Some(err.sense_key) } else { None },
                asc: if has_sense { Some(err.asc) } else { None },
                ascq: if has_sense { Some(err.ascq) } else { None },
            },
        );
    }
    CdReaderError::Io(IoError::CommandFailed)
}

/// Takes in whether the shim opened a device.
pub fn open_drive(opened: bool) -> (result: Result<(), IoError>)
    ensures
        result == (if opened { Ok::<(), IoError>(()) } else { Err(IoError::DeviceUnavailable) }),
{
    if !opened {
        return Err(IoError::DeviceUnavailable);
    }
    Ok(())
}

/// What [`read_toc`] gives for the outcome of a READ TOC command.
pub open spec fn is_toc_result(
    outcome: Result<Vec<u8>, MacScsiError>,
    result: Result<Toc, CdReaderError>,
) -> bool {
    match outcome {
        Err(err) => result matches Err(e) && e == err.reported(ScsiOp::ReadToc, None, None),
        Ok(data) => parse_toc::is_answer_of(data@, result),
    }
}

/// Reads the table of contents from the outcome of a READ TOC command.
pub fn read_toc(outcome: Result<Vec<u8>, MacScsiError>) -> (result: Result<Toc, CdReaderError>)
    ensures
        is_toc_result(outcome, result),
{
    match outcome {
        Ok(data) => parse_toc::parse_toc_answer(&data),
        Err(err) => Err(map_mac_error(err, ScsiOp::ReadToc, None, None)),
    }
}

/// What [`read_data_chunk`] gives for the outcome of a READ CD command.
pub open spec fn is_chunk_result(
    request: ChunkRequest,
    outcome: Result<Vec<u8>, MacScsiError>,
    result: Result<Vec<u8>, CdReaderError>,
) -> bool {
    match outcome {
        Err(err) => result matches Err(e) && e == err.reported(
            ScsiOp::ReadCd,
            Some(request.lba),
            Some(request.sectors),
        ),
        Ok(data) => result == Ok::<Vec<u8>, CdReaderError>(data),
    }
}

/// Takes the sectors from the outcome of the READ CD command for `request`.
pub fn read_data_chunk(request: &ChunkRequest, outcome: Result<Vec<u8>, MacScsiError>) -> (result:
    Result<Vec<u8>, CdReaderError>)
    ensures
        is_chunk_result(*request, outcome, result),
{
    match outcome {
        Ok(data) => Ok(data),
        Err(err) => Err(
            map_mac_error(err, ScsiOp::ReadCd, Some(request.lba), Some(request.sectors)),
        ),
    }
}

/// Whether one of the first `n` entries is named `name`.
pub open spec fn is_named(entries: Seq<MacDriveEntry>, n: int, name: Seq<char>) -> bool {
    exists|i: int| 0 <= i < n && (#[trigger] entries[i]).bsd_name@ == name
}

/// Whether `drive` shows entry `i`, the first one of its name.
pub open spec fn shows_entry(drive: DriveInfo, entries: Seq<MacDriveEntry>, i: int) -> bool {
    &&& drive.shows(entries[i].bsd_name@, entries[i].has_audio != 0)
    &&& !is_named(entries, i, entries[i].bsd_name@)
}

/// Whether `drive` shows one of the first `n` entries.
pub open spec fn shows_one(drive: DriveInfo, entries: Seq<MacDriveEntry>, n: int) -> bool {
    exists|i: int| 0 <= i < n && #[trigger] shows_entry(drive, entries, i)
}

/// Whether `drives` lists the first `n` entries: sorted by path, each name that
/// is not empty once, with what the first entry of that name says.
pub open spec fn lists_entries(
    drives: Seq<DriveInfo>,
    entries: Seq<MacDriveEntry>,
    n: int,
) -> bool {
    &&& paths::strictly_sorted(paths::paths_of(drives))
    &&& forall|path: Seq<char>| #[trigger]
        paths::paths_of(drives).contains(path) <==> path.len() > 0 && is_named(entries, n, path)
    &&& forall|k: int|
        0 <= k < drives.len() ==> shows_one(#[trigger] drives[k], entries, n)
}

/// Lists the drives that the shim enumerated, or `None` if it could not: sorted
/// by path, without empty paths and without duplicates.
pub fn list_drives(entries: Option<Vec<MacDriveEntry>>) -> (result: Result<Vec<DriveInfo>, IoError>)
    ensures
        match entries {
            None => result matches Err(err) && err == IoError::EnumerationFailed,
            Some(entries) => result matches Ok(drives) && lists_entries(
                drives@,
                entries@,
                entries@.len() as int,
            ),
        },
{
    let entries = match entries {
        Some(entries) => entries,
        None => {
            return Err(IoError::EnumerationFailed);
        },
    };
    let mut drives: Vec<DriveInfo> = Vec::new();
    let mut i: usize = 0;
    while i < entries.len()
        invariant
            i <= entries@.len(),
            lists_entries(drives@, entries@, i as int),
        decreases entries@.len() - i,
    {
        let ghost before = drives@;
        let entry = &entries[i];
        if !entry.bsd_name.as_str().is_empty() {
            let drive = DriveInfo::at_path(entry.bsd_name.clone(), entry.has_audio != 0);
            let ghost new_drive = drive;
            paths::insert_by_path(&mut drives, drive);
            proof {
                lemma_entry_listed(before, drives@, new_drive, entries@, i as int);
            }
        } else {
            proof {
                lemma_entry_skipped(drives@, entries@, i as int);
            }
        }
        i += 1;
    }
    Ok(drives)
}

proof fn lemma_one_more_name(entries: Seq<MacDriveEntry>, n: int, name: Seq<char>)
    requires
        0 <= n < entries.len(),
    ensures
        is_named(entries, n + 1, name) <==> is_named(entries, n, name) || entries[n].bsd_name@
            == name,
{
    if is_named(entries, n, name) {
        let i = choose|i: int| 0 <= i < n && (#[trigger] entries[i]).bsd_name@ == name;
        assert(entries[i].bsd_name@ == name);
    }
}

proof fn lemma_entry_skipped(drives: Seq<DriveInfo>, entries: Seq<MacDriveEntry>, n: int)
    requires
        0 <= n < entries.len(),
        entries[n].bsd_name@.len() == 0,
        lists_entries(drives, entries, n),
    ensures
        lists_entries(drives, entries, n + 1),
{
    assert forall|path: Seq<char>| #[trigger]
        paths::paths_of(drives).contains(path) <==> path.len() > 0 && is_named(
        entries,
        n + 1,
        path,
    ) by {
        lemma_one_more_name(entries, n, path);
    }
    assert forall|k: int| 0 <= k < drives.len() implies shows_one(
        #[trigger] drives[k],
        entries,
        n + 1,
    ) by {
        let i = choose|i: int| 0 <= i < n && shows_entry(drives[k], entries, i);
        assert(shows_entry(drives[k], entries, i));
    }
}

proof fn lemma_entry_listed(
    before: Seq<DriveInfo>,
    after: Seq<DriveInfo>,
    drive: DriveInfo,
    entries: Seq<MacDriveEntry>,
    n: int,
)
    requires
        0 <= n < entries.len(),
        entries[n].bsd_name@.len() > 0,
        drive.shows(entries[n].bsd_name@, entries[n].has_audio != 0),
        lists_entries(before, entries, n),
        paths::strictly_sorted(paths::paths_of(after)),
        paths::paths_of(before).contains(drive.path@) ==> after == before,
        !paths::paths_of(before).contains(drive.path@) ==> exists|at: int|
            0 <= at <= before.len() && after == #[trigger] before.insert(at, drive),
        forall|path: Seq<char>| #[trigger]
            paths::paths_of(after).contains(path) <==> paths::paths_of(before).contains(path)
                || path == drive.path@,
    ensures
        lists_entries(after, entries, n + 1),
{
    assert forall|path: Seq<char>| #[trigger]
        paths::paths_of(after).contains(path) <==> path.len() > 0 && is_named(
        entries,
        n + 1,
        path,
    ) by {
        lemma_one_more_name(entries, n, path);
        assert(paths::paths_of(before).contains(path) <==> path.len() > 0 && is_named(
            entries,
            n,
            path,
        ));
    }
    assert forall|k: int| 0 <= k < after.len() implies shows_one(
        #[trigger] after[k],
        entries,
        n + 1,
    ) by {
        if paths::paths_of(before).contains(drive.path@) {
            let i = choose|i: int| 0 <= i < n && shows_entry(before[k], entries, i);
            assert(shows_entry(after[k], entries, i));
        } else {
            let at = choose|at: int|
                0 <= at <= before.len() && after == #[trigger] before.insert(at, drive);
            if k == at {
                assert(shows_entry(after[k], entries, n));
            } else {
                let j = if k < at { k } else { k - 1 };
                assert(after[k] == before[j]);
                let i = choose|i: int| 0 <= i < n && shows_entry(before[j], entries, i);
                assert(shows_entry(after[k], entries, i));
            }
        }
    }
}

} // verus!
