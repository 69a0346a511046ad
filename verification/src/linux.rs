//! SCSI generic (SG_IO) on Linux.

use vstd::prelude::*;
use vstd::string::*;

use crate::data_reader;
use crate::errors::{CdReaderError, IoError, ScsiError, ScsiOp};
use crate::parse_toc;
use crate::paths;
use crate::toc::Toc;
use crate::transfer::ChunkRequest;

verus! {

/// Bit of `info` that tells to look at the status fields.
pub const SG_INFO_CHECK: u32 = 0x1;

/// Length of the sense buffer of a READ TOC command.
pub const TOC_SENSE_BYTES: usize = 32;

/// Length of the sense buffer of a READ CD command.
pub const READ_CD_SENSE_BYTES: usize = 64;

/// What SG_IO leaves behind after a command: the two buffers and the result
/// fields of its header.
#[derive(Debug)]
pub struct SgReply {
    /// Data buffer, at the length that was asked for.
    pub data: Vec<u8>,
    /// Sense buffer.
    pub sense: Vec<u8>,
    /// SCSI status.
    pub status: u8,
    /// Number of sense bytes written.
    pub sb_len_wr: u8,
    /// Number of data bytes not transferred.
    pub resid: i32,
    /// Auxiliary information.
    pub info: u32,
}

impl SgReply {
    /// Whether the reply reports an error.
    pub open spec fn reports_error(self) -> bool {
        self.info & SG_INFO_CHECK != 0 || self.status != 0
    }

    /// The error that the reply reports for a command.
    pub open spec fn scsi_error(
        self,
        op: ScsiOp,
        lba: Option<u32>,
        sectors: Option<u32>,
    ) -> ScsiError {
        let (sense_key, asc, ascq) = data_reader::sense_fields(self.sense@, self.sb_len_wr);
        ScsiError { op, lba, sectors, scsi_status: self.status, sense_key, asc, ascq }
    }

    /// Number of bytes that were transferred.
    pub open spec fn received(self) -> int {
        if self.resid <= 0 {
            self.data@.len() as int
        } else if self.resid >= self.data@.len() {
            0
        } else {
            self.data@.len() - self.resid
        }
    }

    fn has_error(&self) -> (yes: bool)
        ensures
            yes == self.reports_error(),
    {
        self.info & SG_INFO_CHECK != 0 || self.status != 0
    }

    fn error(&self, op: ScsiOp, lba: Option<u32>, sectors: Option<u32>) -> (err: CdReaderError)
        ensures
            err == CdReaderError::Scsi(self.scsi_error(op, lba, sectors)),
    {
        let (sense_key, asc, ascq) = data_reader::parse_sense(&self.sense, self.sb_len_wr);
        CdReaderError::Scsi(
            ScsiError { op, lba, sectors, scsi_status: self.status, sense_key, asc, ascq },
        )
    }
}

/// The part of `reply` that counts as an answer to READ TOC: the bytes that were
/// transferred, or the whole buffer if the reply claims that there were none.
pub open spec fn toc_bytes(reply: SgReply) -> Seq<u8> {
    if reply.received() > 0 {
        reply.data@.take(reply.received())
    } else {
        reply.data@
    }
}

/// What [`read_toc`] gives for the outcome of a READ TOC command.
pub open spec fn is_toc_result(
    outcome: Result<SgReply, IoError>,
    result: Result<Toc, CdReaderError>,
) -> bool {
    match outcome {
        Err(err) => result matches Err(e) && e == CdReaderError::Io(err),
        Ok(reply) => if reply.reports_error() {
            result matches Err(e) && e == CdReaderError::Scsi(
                reply.scsi_error(ScsiOp::ReadToc, None, None),
            )
        } else {
            parse_toc::is_answer_of(toc_bytes(reply), result)
        },
    }
}

/// Reads the table of contents from the outcome of a READ TOC command.
pub fn read_toc(outcome: Result<SgReply, IoError>) -> (result: Result<Toc, CdReaderError>)
    ensures
        is_toc_result(outcome, result),
{
    let reply = match outcome {
        Ok(reply) => reply,
        Err(err) => {
            return Err(CdReaderError::Io(err));
        },
    };
    if reply.has_error() {
        return Err(reply.error(ScsiOp::ReadToc, None, None));
    }
    let len: usize = reply.data.len();
    let mut data = reply.data;
    if reply.resid > 0 && (reply.resid as usize) < len {
        data.truncate(len - reply.resid as usize);
    }
    assert(data@ =~= toc_bytes(reply));
    parse_toc::parse_toc_answer(&data)
}

/// What [`read_data_chunk`] gives for the outcome of a READ CD command.
pub open spec fn is_chunk_result(
    request: ChunkRequest,
    outcome: Result<SgReply, IoError>,
    result: Result<Vec<u8>, CdReaderError>,
) -> bool {
    match outcome {
        Err(err) => result matches Err(e) && e == CdReaderError::Io(err),
        Ok(reply) => if reply.reports_error() {
            result matches Err(e) && e == CdReaderError::Scsi(
                reply.scsi_error(ScsiOp::ReadCd, Some(request.lba), Some(request.sectors)),
            )
        } else {
            result matches Ok(data) && data@ == reply.data@.take(reply.received())
        },
    }
}

/// Takes the sectors from the outcome of the READ CD command for `request`.
///
/// The result is as long as the transfer was, which may be shorter than the
/// sectors that were asked for.
pub fn read_data_chunk(request: &ChunkRequest, outcome: Result<SgReply, IoError>) -> (result:
    Result<Vec<u8>, CdReaderError>)
    ensures
        is_chunk_result(*request, outcome, result),
{
    let reply = match outcome {
        Ok(reply) => reply,
        Err(err) => {
            return Err(CdReaderError::Io(err));
        },
    };
    if reply.has_error() {
        return Err(reply.error(ScsiOp::ReadCd, Some(request.lba), Some(request.sectors)));
    }
    let len: usize = reply.data.len();
    let mut data = reply.data;
    if reply.resid > 0 {
        let missing: usize = reply.resid as usize;
        let got: usize = if missing < len { len - missing } else { 0 };
        data.truncate(got);
    }
    assert(data@ =~= reply.data@.take(reply.received()));
    Ok(data)
}

/// Whether a block device of this name is an optical drive.
pub open spec fn is_optical_name(name: Seq<char>) -> bool {
    name.len() >= 2 && name[0] == 's' && name[1] == 'r'
}

/// Whether any of `names` is the name of an optical drive.
pub open spec fn any_optical(names: Seq<String>) -> bool {
    exists|i: int| 0 <= i < names.len() && is_optical_name(#[trigger] names[i]@)
}

/// Whether `path` is to be listed, if the block devices are called `names`: the
/// device of each optical drive, or, if there is none, `/dev/cdrom` if it exists.
pub open spec fn is_drive_path(names: Seq<String>, cdrom_exists: bool, path: Seq<char>) -> bool {
    if any_optical(names) {
        exists|i: int|
            0 <= i < names.len() && is_optical_name(#[trigger] names[i]@) && path == "/dev/"@
                + names[i]@
    } else {
        cdrom_exists && path == "/dev/cdrom"@
    }
}

fn has_optical_name(name: &String) -> (yes: bool)
    ensures
        yes == is_optical_name(name@),
{
    let name = name.as_str();
    name.unicode_len() >= 2 && name.get_char(0) == 's' && name.get_char(1) == 'r'
}

/// Lists the paths of the optical drives, sorted and without duplicates, given
/// the names of all block devices and whether `/dev/cdrom` exists.
pub fn list_drive_paths(names: &Vec<String>, cdrom_exists: bool) -> (drives: Vec<String>)
    ensures
        paths::strictly_sorted(paths::paths_of(drives@)),
        forall|path: Seq<char>| #[trigger]
            paths::paths_of(drives@).contains(path) <==> is_drive_path(names@, cdrom_exists, path),
{
    let mut drives: Vec<String> = Vec::new();
    let mut i: usize = 0;
    while i < names.len()
        invariant
            i <= names@.len(),
            paths::strictly_sorted(paths::paths_of(drives@)),
            forall|path: Seq<char>| #[trigger]
                paths::paths_of(drives@).contains(path) <==> is_among_first(
                    names@,
                    i as int,
                    path,
                ),
        decreases names@.len() - i,
    {
        proof {
            assert forall|path: Seq<char>| #[trigger]
                is_among_first(names@, i + 1, path) <==> is_among_first(names@, i as int, path) || (
            is_optical_name(names@[i as int]@) && path == "/dev/"@ + names@[i as int]@) by {
                if is_among_first(names@, i as int, path) {
                    let k = choose|k: int|
                        0 <= k < i && is_optical_name(#[trigger] names@[k]@) && path == "/dev/"@
                            + names@[k]@;
                    assert(is_optical_name(names@[k]@));
                }
            }
        }
        if has_optical_name(&names[i]) {
            let mut path = "/dev/".to_owned();
            path.append(names[i].as_str());
            paths::insert_by_path(&mut drives, path);
        }
        i += 1;
    }
    proof {
        if drives@.len() > 0 {
            let first = paths::paths_of(drives@)[0];
            assert(paths::paths_of(drives@).contains(first));
            assert(any_optical(names@));
            assert forall|path: Seq<char>| #[trigger]
                paths::paths_of(drives@).contains(path) <==> is_drive_path(
                names@,
                cdrom_exists,
                path,
            ) by {
                assert(is_among_first(names@, names@.len() as int, path) <==> is_drive_path(
                    names@,
                    cdrom_exists,
                    path,
                ));
            }
        } else if any_optical(names@) {
            let k = choose|k: int| 0 <= k < names@.len() && is_optical_name(#[trigger] names@[k]@);
            let path = "/dev/"@ + names@[k]@;
            assert(is_among_first(names@, names@.len() as int, path));
            assert(paths::paths_of(drives@).contains(path));
        }
    }
    if drives.is_empty() && cdrom_exists {
        drives.push("/dev/cdrom".to_owned());
        assert(paths::paths_of(drives@) =~= seq!["/dev/cdrom"@]);
        assert(paths::paths_of(drives@)[0] == "/dev/cdrom"@);
    }
    drives
}

/// Whether `path` is the device of an optical drive among the first `n` names.
spec fn is_among_first(names: Seq<String>, n: int, path: Seq<char>) -> bool {
    exists|i: int|
        0 <= i < n && is_optical_name(#[trigger] names[i]@) && path == "/dev/"@ + names[i]@
}

} // verus!
