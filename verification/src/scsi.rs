//! Command descriptor blocks.

use vstd::prelude::*;

use crate::bytes;
use crate::data_reader::SectorReadMode;
use crate::transfer::ChunkRequest;

verus! {

/// Bytes that a READ TOC command asks for. The longest answer, for 99 tracks and
/// the lead-out, takes 804.
pub const TOC_ALLOCATION_BYTES: u16 = 2048;

/// Seconds that the drive has to answer a READ TOC command.
pub const TOC_TIMEOUT_SECS: u32 = 10;

/// Seconds that the drive has to answer a READ CD command.
pub const READ_CD_TIMEOUT_SECS: u32 = 30;

/// READ CD (0xBE) for `sectors` sectors from `lba` on: the address takes four
/// bytes and the length the low three of its bytes, most significant first.
pub open spec fn read_cd_block(lba: u32, sectors: u32, mode: SectorReadMode) -> Seq<u8> {
    seq![
        0xBEu8,
        mode.sector_type_byte(),
        bytes::byte_at(lba as int, 3),
        bytes::byte_at(lba as int, 2),
        bytes::byte_at(lba as int, 1),
        bytes::byte_at(lba as int, 0),
        bytes::byte_at(sectors as int, 2),
        bytes::byte_at(sectors as int, 1),
        bytes::byte_at(sectors as int, 0),
        mode.main_channel_byte(),
        0u8,
        0u8,
    ]
}

/// READ TOC/PMA/ATIP (0x43) in LBA form, format 0 (TOC), from the first track on,
/// for an answer of at most `allocation` bytes.
pub open spec fn read_toc_block(allocation: u16) -> Seq<u8> {
    seq![
        0x43u8,
        0u8,
        0u8,
        0u8,
        0u8,
        0u8,
        0u8,
        bytes::byte_at(allocation as int, 1),
        bytes::byte_at(allocation as int, 0),
        0u8,
    ]
}

/// Builds the READ CD command for a request. See [`read_cd_block`].
pub fn read_cd_cdb(request: &ChunkRequest) -> (cdb: [u8; 12])
    ensures
        cdb@ == read_cd_block(request.lba, request.sectors, request.mode),
{
    let lba = bytes::be_bytes(request.lba);
    let sectors = bytes::be_bytes(request.sectors);
    let cdb = [
        0xBE,
        request.mode.cdb_byte1(),
        lba[0],
        lba[1],
        lba[2],
        lba[3],
        sectors[1],
        sectors[2],
        sectors[3],
        request.mode.cdb_byte9(),
        0,
        0,
    ];
    assert(cdb@ =~= read_cd_block(request.lba, request.sectors, request.mode));
    cdb
}

/// Builds the READ TOC command. See [`read_toc_block`].
pub fn read_toc_cdb(allocation: u16) -> (cdb: [u8; 10])
    ensures
        cdb@ == read_toc_block(allocation),
{
    let length = bytes::be_bytes(allocation as u32);
    let cdb = [0x43, 0, 0, 0, 0, 0, 0, length[2], length[3], 0];
    assert(cdb@ =~= read_toc_block(allocation));
    cdb
}

/// Number of bytes that the drive is to return for a request.
pub fn transfer_len(request: &ChunkRequest) -> (len: usize)
    requires
        request.sectors * request.mode.bytes_per_sector() <= usize::MAX,
    ensures
        len == request.sectors * request.mode.bytes_per_sector(),
{
    assert(request.sectors <= usize::MAX);
    request.sectors as usize * request.mode.sector_size()
}

/// A READ CD command names the sectors it was built for: the address and, as long
/// as it fits into its three bytes, the length can be read back from it.
pub proof fn law_read_cd_names_its_sectors(lba: u32, sectors: u32, mode: SectorReadMode)
    ensures
        ({
            let cdb = read_cd_block(lba, sectors, mode);
            &&& cdb.len() == 12
            &&& bytes::be_u32(cdb[2], cdb[3], cdb[4], cdb[5]) == lba
            &&& sectors < 0x100_0000 ==> bytes::be_u32(0, cdb[6], cdb[7], cdb[8]) == sectors
        }),
{
    bytes::law_bytes_give_the_number_back(lba);
    bytes::law_bytes_give_the_number_back(sectors);
}

} // verus!
