//! The commands that drives are sent, and the sense data they answer errors with.

use vstd::prelude::*;

use crate::bytes;
use crate::data_reader;
use crate::data_reader::SectorReadMode;
use crate::linux;
use crate::scsi;
use crate::transfer::ChunkRequest;
use crate::windows;

verus! {

/// The READ CD command for a request names the sectors of the request, most
/// significant byte first, and selects their format: audio is read as any sector
/// type (0x00), data as Mode 1 (0x04), raw data with everything around it (0xF8) and
/// all else as user data alone (0x10).
pub proof fn law_read_cd_asks_for_the_request(request: ChunkRequest, cdb: [u8; 12])
    requires
        call_ensures(scsi::read_cd_cdb, (&request,), cdb),
    ensures
        cdb@[0] == 0xBE,
        cdb@[1] == (if request.mode == SectorReadMode::Audio { 0x00 } else { 0x04u8 }),
        cdb@[2] * 0x100_0000 + cdb@[3] * 0x1_0000 + cdb@[4] * 0x100 + cdb@[5] == request.lba,
        cdb@[6] * 0x1_0000 + cdb@[7] * 0x100 + cdb@[8] == request.sectors % 0x100_0000,
        cdb@[9] == (if request.mode == SectorReadMode::DataRaw { 0xF8 } else { 0x10u8 }),
        cdb@[10] == 0 && cdb@[11] == 0,
{
    bytes::law_bytes_give_the_number_back(request.lba);
    bytes::law_bytes_give_the_number_back(request.sectors);
}

/// A request is given as many bytes as the command makes the drive return: 2048 for
/// each sector of which the command selects the user data of Mode 1 alone, 2352 for
/// each other one.
pub proof fn law_buffer_fits_the_command(request: ChunkRequest, cdb: [u8; 12], len: usize)
    requires
        call_ensures(scsi::read_cd_cdb, (&request,), cdb),
        call_ensures(scsi::transfer_len, (&request,), len),
    ensures
        len == request.sectors * (if cdb@[1] == 0x04 && cdb@[9] == 0x10 { 2048int } else { 2352 }),
{
}

/// The READ TOC command asks for the table (format 0) in LBA form from the first track
/// on and for at most the given number of bytes.
pub proof fn law_read_toc_asks_for_the_table(allocation: u16, cdb: [u8; 10])
    requires
        call_ensures(scsi::read_toc_cdb, (allocation,), cdb),
    ensures
        cdb@[0] == 0x43,
        forall|i: int| 1 <= i < 7 ==> #[trigger] cdb@[i] == 0,
        cdb@[7] * 0x100 + cdb@[8] == allocation,
        cdb@[9] == 0,
{
    assert forall|i: int| 1 <= i < 7 implies #[trigger] cdb@[i] == 0 by {
        assert(i == 1 || i == 2 || i == 3 || i == 4 || i == 5 || i == 6);
    }
}

/// The longest table, of 99 tracks and the lead-out, fits into what is asked for, all
/// sense fields fit into the sense buffers, and a drive has ten seconds for its table
/// and thirty for sectors.
pub proof fn law_answers_fit_and_have_time()
    ensures
        4 + 8 * (99 + 1) <= scsi::TOC_ALLOCATION_BYTES == 2048,
        14 <= linux::TOC_SENSE_BYTES == 32,
        14 <= linux::READ_CD_SENSE_BYTES == 64,
        14 <= windows::SENSE_BYTES == 32,
        scsi::TOC_TIMEOUT_SECS == 10,
        scsi::READ_CD_TIMEOUT_SECS == 30,
{
}

/// Sectors of audio and raw data have 2352 bytes and those of cooked data 2048. One
/// command asks for as many of them as fit into 64 KB and for no more.
pub proof fn law_formats_have_their_sizes(
    mode: SectorReadMode,
    size: usize,
    byte1: u8,
    byte9: u8,
    most: u32,
)
    requires
        call_ensures(SectorReadMode::sector_size, (&mode,), size),
        call_ensures(SectorReadMode::cdb_byte1, (&mode,), byte1),
        call_ensures(SectorReadMode::cdb_byte9, (&mode,), byte9),
        call_ensures(SectorReadMode::max_transfer_sectors, (&mode,), most),
    ensures
        size == 2048 <==> mode == SectorReadMode::DataCooked,
        size == 2352 <==> mode != SectorReadMode::DataCooked,
        byte1 == (if mode == SectorReadMode::Audio { 0x00 } else { 0x04u8 }),
        byte9 == (if mode == SectorReadMode::DataRaw { 0xF8 } else { 0x10u8 }),
        most * size <= 0x1_0000 < (most + 1) * size,
{
}

/// The four bytes of a number, most significant first, make up the number.
pub proof fn law_bytes_make_up_the_number(value: u32, bytes: [u8; 4])
    requires
        call_ensures(bytes::be_bytes, (value,), bytes),
    ensures
        value == bytes@[0] * 0x100_0000 + bytes@[1] * 0x1_0000 + bytes@[2] * 0x100 + bytes@[3],
{
    bytes::law_bytes_give_the_number_back(value);
}

/// A number is read from four bytes, most significant first.
pub proof fn law_number_is_made_up_of_bytes(b3: u8, b2: u8, b1: u8, b0: u8, value: u32)
    requires
        call_ensures(bytes::u32_from_be, (b3, b2, b1, b0), value),
    ensures
        value == b3 * 0x100_0000 + b2 * 0x1_0000 + b1 * 0x100 + b0,
{
}

/// Whether `fields` are the sense key (the low four bits of byte 2), the additional
/// sense code (byte 12) and its qualifier (byte 13) of `sense`, or none of them if
/// there is no sense.
pub open spec fn are_sense_fields(
    fields: (Option<u8>, Option<u8>, Option<u8>),
    sense: Seq<u8>,
    there: bool,
) -> bool {
    if there {
        &&& fields.0 == Some((sense[2] % 16) as u8)
        &&& fields.1 == Some(sense[12])
        &&& fields.2 == Some(sense[13])
    } else {
        fields.0 is None && fields.1 is None && fields.2 is None
    }
}

proof fn lemma_low_bits(byte: u8)
    ensures
        byte & 0x0F == byte % 16,
{
    assert(byte & 0x0F == byte % 16) by (bit_vector);
}

/// Fixed format sense data give the three fields if the drive wrote any and the buffer
/// holds them.
pub proof fn law_sense_gives_three_fields(
    sense: &[u8],
    written: u8,
    fields: (Option<u8>, Option<u8>, Option<u8>),
)
    requires
        call_ensures(data_reader::parse_sense, (sense, written), fields),
    ensures
        are_sense_fields(fields, sense@, written > 0 && sense@.len() >= 14),
{
    lemma_low_bits(sense@[2]);
}

/// For a READ TOC command on Windows all 14 bytes have to have been written.
pub proof fn law_windows_sense_is_complete(
    sense: &[u8],
    written: u8,
    fields: (Option<u8>, Option<u8>, Option<u8>),
)
    requires
        call_ensures(windows::parse_sense, (sense, written), fields),
    ensures
        are_sense_fields(fields, sense@, written >= 14 && sense@.len() >= 14),
{
    lemma_low_bits(sense@[2]);
}

} // verus!
