//! What the replies of drives mean on each platform.

use vstd::prelude::*;

use crate::errors::{CdReaderError, IoError, ScsiError, ScsiOp};
use crate::laws::commands;
use crate::laws::tables;
use crate::linux;
use crate::linux::SgReply;
use crate::macos;
use crate::macos::MacScsiError;
use crate::reader::{CdReader, DriveReply};
use crate::toc::Toc;
use crate::transfer::ChunkRequest;
use crate::windows;
use crate::windows::SptdReply;

verus! {

/// Whether `err` names the command that failed with its status and the sense of it.
pub open spec fn is_scsi_error(
    err: CdReaderError,
    op: ScsiOp,
    lba: Option<u32>,
    sectors: Option<u32>,
    status: u8,
    sense: Seq<u8>,
    there: bool,
) -> bool {
    err matches CdReaderError::Scsi(ScsiError {
        op: o,
        lba: l,
        sectors: s,
        scsi_status,
        sense_key,
        asc,
        ascq,
    }) && {
        &&& o == op
        &&& l == lba
        &&& s == sectors
        &&& scsi_status == status
        &&& commands::are_sense_fields((sense_key, asc, ascq), sense, there)
    }
}

/// Whether `reply` tells of an error: by the check bit of its info or by its status.
pub open spec fn linux_failed(reply: SgReply) -> bool {
    reply.info % 2 == 1 || reply.status != 0
}

/// Whether sense data give sense.
pub open spec fn linux_has_sense(reply: SgReply) -> bool {
    reply.sb_len_wr > 0 && reply.sense@.len() >= 14
}

/// Whether `result` are the sectors that `outcome` brought for `request`, or the error.
/// On Linux the bytes that were not transferred are cut off.
pub open spec fn is_linux_chunk(
    request: ChunkRequest,
    outcome: Result<SgReply, IoError>,
    result: Result<Vec<u8>, CdReaderError>,
) -> bool {
    match outcome {
        Err(err) => result matches Err(CdReaderError::Io(e)) && e == err,
        Ok(reply) => if linux_failed(reply) {
            result matches Err(e) && is_scsi_error(
                e,
                ScsiOp::ReadCd,
                Some(request.lba),
                Some(request.sectors),
                reply.status,
                reply.sense@,
                linux_has_sense(reply),
            )
        } else {
            result matches Ok(data) && {
                &&& data@ == reply.data@.take(data@.len() as int)
                &&& data@.len() <= reply.data@.len()
                &&& reply.resid <= 0 ==> data@.len() == reply.data@.len()
                &&& 0 < reply.resid <= reply.data@.len() ==> data@.len() + reply.resid
                    == reply.data@.len()
                &&& reply.resid > reply.data@.len() ==> data@.len() == 0
            }
        },
    }
}

/// Whether `result` is the table that `outcome` brought, or the error. Bytes that were
/// not transferred are cut off, unless that leaves nothing.
pub open spec fn is_linux_table(
    outcome: Result<SgReply, IoError>,
    result: Result<Toc, CdReaderError>,
) -> bool {
    match outcome {
        Err(err) => result matches Err(CdReaderError::Io(e)) && e == err,
        Ok(reply) => if linux_failed(reply) {
            result matches Err(e) && is_scsi_error(
                e,
                ScsiOp::ReadToc,
                None,
                None,
                reply.status,
                reply.sense@,
                linux_has_sense(reply),
            )
        } else if 0 < reply.resid < reply.data@.len() {
            tables::is_table_in(reply.data@.take(reply.data@.len() - reply.resid), result)
        } else {
            tables::is_table_in(reply.data@, result)
        },
    }
}

/// See [`is_linux_chunk`]. On Windows the whole buffer counts.
pub open spec fn is_windows_chunk(
    request: ChunkRequest,
    outcome: Result<SptdReply, IoError>,
    result: Result<Vec<u8>, CdReaderError>,
) -> bool {
    match outcome {
        Err(err) => result matches Err(CdReaderError::Io(e)) && e == err,
        Ok(reply) => if reply.scsi_status != 0 {
            result matches Err(e) && is_scsi_error(
                e,
                ScsiOp::ReadCd,
                Some(request.lba),
                Some(request.sectors),
                reply.scsi_status,
                reply.sense@,
                reply.sense_info_length > 0 && reply.sense@.len() >= 14,
            )
        } else {
            result matches Ok(data) && data@ == reply.data@
        },
    }
}

/// See [`is_linux_table`]. On Windows the whole buffer counts.
pub open spec fn is_windows_table(
    outcome: Result<SptdReply, IoError>,
    result: Result<Toc, CdReaderError>,
) -> bool {
    match outcome {
        Err(err) => result matches Err(CdReaderError::Io(e)) && e == err,
        Ok(reply) => if reply.scsi_status != 0 {
            result matches Err(e) && is_scsi_error(
                e,
                ScsiOp::ReadToc,
                None,
                None,
                reply.scsi_status,
                reply.sense@,
                reply.sense_info_length >= 14 && reply.sense@.len() >= 14,
            )
        } else {
            tables::is_table_in(reply.data@, result)
        },
    }
}

/// Whether `err` is what a failed command on macOS is reported with: its SCSI status
/// and its sense, as far as the shim has them.
pub open spec fn is_macos_error(
    err: CdReaderError,
    details: MacScsiError,
    op: ScsiOp,
    lba: Option<u32>,
    sectors: Option<u32>,
) -> bool {
    if details.has_scsi_error == 0 {
        err == CdReaderError::Io(IoError::CommandFailed)
    } else {
        err matches CdReaderError::Scsi(scsi) && {
            &&& scsi.op == op
            &&& scsi.lba == lba
            &&& scsi.sectors == sectors
            &&& scsi.scsi_status == details.scsi_status
            &&& details.has_sense == 0 ==> scsi.sense_key is None && scsi.asc is None
                && scsi.ascq is None
            &&& details.has_sense != 0 ==> scsi.sense_key == Some(details.sense_key) && scsi.asc
                == Some(details.asc) && scsi.ascq == Some(details.ascq)
        }
    }
}

/// See [`is_linux_chunk`].
pub open spec fn is_macos_chunk(
    request: ChunkRequest,
    outcome: Result<Vec<u8>, MacScsiError>,
    result: Result<Vec<u8>, CdReaderError>,
) -> bool {
    match outcome {
        Err(details) => result matches Err(e) && is_macos_error(
            e,
            details,
            ScsiOp::ReadCd,
            Some(request.lba),
            Some(request.sectors),
        ),
        Ok(bytes) => result matches Ok(data) && data@ == bytes@,
    }
}

/// See [`is_linux_table`].
pub open spec fn is_macos_table(
    outcome: Result<Vec<u8>, MacScsiError>,
    result: Result<Toc, CdReaderError>,
) -> bool {
    match outcome {
        Err(details) => result matches Err(e) && is_macos_error(
            e,
            details,
            ScsiOp::ReadToc,
            None,
            None,
        ),
        Ok(bytes) => tables::is_table_in(bytes@, result),
    }
}

proof fn lemma_bits(info: u32, byte: u8)
    ensures
        info & 0x1 != 0 <==> info % 2 == 1,
        byte & 0x0F == byte % 16,
{
    assert(info & 0x1 != 0 <==> info % 2 == 1) by (bit_vector);
    assert(byte & 0x0F == byte % 16) by (bit_vector);
}

proof fn lemma_linux(
    request: ChunkRequest,
    outcome: Result<SgReply, IoError>,
    sectors: Result<Vec<u8>, CdReaderError>,
    table: Result<Toc, CdReaderError>,
)
    ensures
        linux::is_chunk_result(request, outcome, sectors) ==> is_linux_chunk(
            request,
            outcome,
            sectors,
        ),
        linux::is_toc_result(outcome, table) ==> is_linux_table(outcome, table),
{
    if let Ok(reply) = outcome {
        lemma_bits(reply.info, reply.sense@[2]);
        if linux::is_toc_result(outcome, table) && !linux_failed(reply) {
            let data = linux::toc_bytes(reply);
            assert(reply.data@.take(reply.data@.len() as int) =~= reply.data@);
            tables::lemma_answer_is_table(data, table);
        }
        if linux::is_chunk_result(request, outcome, sectors) && !linux_failed(reply) {
            assert(sectors is Ok);
            let data = sectors->Ok_0;
            assert(data@.len() == reply.received());
        }
    }
}

proof fn lemma_windows(
    request: ChunkRequest,
    outcome: Result<SptdReply, IoError>,
    sectors: Result<Vec<u8>, CdReaderError>,
    table: Result<Toc, CdReaderError>,
)
    ensures
        windows::is_chunk_result(request, outcome, sectors) ==> is_windows_chunk(
            request,
            outcome,
            sectors,
        ),
        windows::is_toc_result(outcome, table) ==> is_windows_table(outcome, table),
{
    if let Ok(reply) = outcome {
        lemma_bits(0, reply.sense@[2]);
        if windows::is_toc_result(outcome, table) && reply.scsi_status == 0 {
            tables::lemma_answer_is_table(reply.data@, table);
        }
    }
}

proof fn lemma_macos(outcome: Result<Vec<u8>, MacScsiError>, table: Result<Toc, CdReaderError>)
    ensures
        macos::is_toc_result(outcome, table) ==> is_macos_table(outcome, table),
{
    if let Ok(data) = outcome {
        if macos::is_toc_result(outcome, table) {
            tables::lemma_answer_is_table(data@, table);
        }
    }
}

/// What the reply to a READ CD command is taken for, on each platform.
pub proof fn law_sectors_are_what_the_drive_sent(
    reader: CdReader,
    request: ChunkRequest,
    reply: DriveReply,
    result: Result<Vec<u8>, CdReaderError>,
)
    requires
        call_ensures(CdReader::read_data_chunk, (&reader, &request, reply), result),
    ensures
        match reply {
            DriveReply::Linux(outcome) => is_linux_chunk(request, outcome, result),
            DriveReply::MacOs(outcome) => is_macos_chunk(request, outcome, result),
            DriveReply::Windows(outcome) => is_windows_chunk(request, outcome, result),
        },
{
    match reply {
        DriveReply::Linux(outcome) => {
            lemma_linux(request, outcome, result, Err(CdReaderError::Io(IoError::CommandFailed)));
        },
        DriveReply::MacOs(_) => {},
        DriveReply::Windows(outcome) => {
            lemma_windows(request, outcome, result, Err(CdReaderError::Io(IoError::CommandFailed)));
        },
    }
}

/// What the reply to a READ TOC command is taken for, on each platform.
pub proof fn law_table_is_what_the_drive_sent(
    reader: CdReader,
    reply: DriveReply,
    result: Result<Toc, CdReaderError>,
)
    requires
        call_ensures(CdReader::read_toc, (&reader, reply), result),
    ensures
        match reply {
            DriveReply::Linux(outcome) => is_linux_table(outcome, result),
            DriveReply::MacOs(outcome) => is_macos_table(outcome, result),
            DriveReply::Windows(outcome) => is_windows_table(outcome, result),
        },
{
    let request = ChunkRequest {
        lba: 0,
        sectors: 0,
        mode: crate::data_reader::SectorReadMode::Audio,
    };
    let other = Err::<Vec<u8>, CdReaderError>(CdReaderError::Io(IoError::CommandFailed));
    match reply {
        DriveReply::Linux(outcome) => {
            lemma_linux(request, outcome, other, result);
        },
        DriveReply::MacOs(outcome) => {
            lemma_macos(outcome, result);
        },
        DriveReply::Windows(outcome) => {
            lemma_windows(request, outcome, other, result);
        },
    }
}

/// The functions of the platforms give what the reader gives for their replies.
pub proof fn law_platforms_understand_their_replies(
    request: ChunkRequest,
    linux_reply: Result<SgReply, IoError>,
    macos_reply: Result<Vec<u8>, MacScsiError>,
    windows_reply: Result<SptdReply, IoError>,
    sectors: Result<Vec<u8>, CdReaderError>,
    table: Result<Toc, CdReaderError>,
)
    ensures
        call_ensures(linux::read_data_chunk, (&request, linux_reply), sectors) ==> is_linux_chunk(
            request,
            linux_reply,
            sectors,
        ),
        call_ensures(macos::read_data_chunk, (&request, macos_reply), sectors) ==> is_macos_chunk(
            request,
            macos_reply,
            sectors,
        ),
        call_ensures(windows::read_data_chunk, (&request, windows_reply), sectors)
            ==> is_windows_chunk(request, windows_reply, sectors),
        call_ensures(linux::read_toc, (linux_reply,), table) ==> is_linux_table(linux_reply, table),
        call_ensures(macos::read_toc, (macos_reply,), table) ==> is_macos_table(macos_reply, table),
        call_ensures(windows::read_toc, (windows_reply,), table) ==> is_windows_table(
            windows_reply,
            table,
        ),
{
    lemma_linux(request, linux_reply, sectors, table);
    lemma_windows(request, windows_reply, sectors, table);
    lemma_macos(macos_reply, table);
}

/// How a failed command on macOS is reported.
pub proof fn law_macos_errors_are_reported(
    details: MacScsiError,
    op: ScsiOp,
    lba: Option<u32>,
    sectors: Option<u32>,
    err: CdReaderError,
)
    requires
        call_ensures(macos::map_mac_error, (details, op, lba, sectors), err),
    ensures
        is_macos_error(err, details, op, lba, sectors),
{
}

/// Whether `reply` reports no error and brings `data`. On Linux that is what was
/// transferred, if anything.
pub open spec fn brings(reply: DriveReply, data: Seq<u8>) -> bool {
    match reply {
        DriveReply::Linux(Ok(sg)) => {
            &&& !linux_failed(sg)
            &&& data == (if 0 < sg.resid < sg.data@.len() {
                sg.data@.take(sg.data@.len() - sg.resid)
            } else {
                sg.data@
            })
        },
        DriveReply::MacOs(Ok(bytes)) => bytes@ == data,
        DriveReply::Windows(Ok(sptd)) => sptd.scsi_status == 0 && sptd.data@ == data,
        _ => false,
    }
}

/// Reading the table of contents of a disc gives the table of the disc, on each
/// platform: if the reply reports no error and its data describe the disc, the result
/// has all tracks in order, with their numbers, addresses and kinds, and the lead-out.
pub proof fn law_table_of_the_disc_is_read(
    reader: CdReader,
    reply: DriveReply,
    data: Seq<u8>,
    toc: Toc,
    result: Result<Toc, CdReaderError>,
)
    requires
        call_ensures(CdReader::read_toc, (&reader, reply), result),
        brings(reply, data),
        tables::describes(data, toc),
    ensures
        tables::is_that_table(result, toc),
{
    law_table_is_what_the_drive_sent(reader, reply, result);
    tables::lemma_described_table_is_read(data, toc, result);
}

} // verus!
