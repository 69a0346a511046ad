//! Sector formats of the READ CD command and reads in each of them.

use vstd::prelude::*;

use crate::retry::RetryConfig;
use crate::transfer;
use crate::transfer::{ReadProgress, SectorRead};

verus! {

/// Sector read mode for the READ CD (0xBE) command.
///
/// Controls CDB byte 1 (Expected Sector Type) and byte 9 (Main Channel
/// Selection), which together pick the sector format the drive returns.
#[derive(Debug, Clone, Copy, PartialEq, Eq, Structural)]
pub enum SectorReadMode {
    /// Audio: 2352 bytes per sector, raw PCM.
    /// CDB byte 1 is 0x00 (any type), byte 9 is 0x10 (user data).
    Audio,
    /// Data cooked: 2048 bytes per sector, user data only (no sync, header, EDC or ECC).
    /// CDB byte 1 is 0x04 (Mode 1), byte 9 is 0x10 (user data).
    DataCooked,
    /// Data raw: 2352 bytes per sector with sync, header, user data, EDC and ECC.
    /// CDB byte 1 is 0x04 (Mode 1), byte 9 is 0xF8 (everything).
    DataRaw,
}

impl SectorReadMode {
    /// Bytes per sector for this read mode.
    pub open spec fn bytes_per_sector(self) -> int {
        match self {
            SectorReadMode::Audio => 2352,
            SectorReadMode::DataCooked => 2048,
            SectorReadMode::DataRaw => 2352,
        }
    }

    /// Expected Sector Type field of a READ CD command in this mode.
    pub open spec fn sector_type_byte(self) -> u8 {
        match self {
            SectorReadMode::Audio => 0x00,
            SectorReadMode::DataCooked => 0x04,
            SectorReadMode::DataRaw => 0x04,
        }
    }

    /// Main Channel Selection bits of a READ CD command in this mode.
    pub open spec fn main_channel_byte(self) -> u8 {
        match self {
            SectorReadMode::Audio => 0x10,
            SectorReadMode::DataCooked => 0x10,
            SectorReadMode::DataRaw => 0xF8,
        }
    }

    /// Most sectors that one command asks for, about 64 KB.
    pub open spec fn max_sectors_per_transfer(self) -> int {
        match self {
            SectorReadMode::Audio => 27,
            SectorReadMode::DataCooked => 32,
            SectorReadMode::DataRaw => 27,
        }
    }

    /// Bytes per sector for this read mode.
    pub fn sector_size(&self) -> (size: usize)
        ensures
            size == self.bytes_per_sector(),
    {
        match self {
            SectorReadMode::Audio => 2352,
            SectorReadMode::DataCooked => 2048,
            SectorReadMode::DataRaw => 2352,
        }
    }

    /// CDB byte 1: Expected Sector Type field (bits 5-2).
    pub fn cdb_byte1(&self) -> (byte: u8)
        ensures
            byte == self.sector_type_byte(),
    {
        match self {
            SectorReadMode::Audio => 0x00,
            SectorReadMode::DataCooked => 0x04,
            SectorReadMode::DataRaw => 0x04,
        }
    }

    /// CDB byte 9: Main Channel Selection bits.
    pub fn cdb_byte9(&self) -> (byte: u8)
        ensures
            byte == self.main_channel_byte(),
    {
        match self {
            SectorReadMode::Audio => 0x10,
            SectorReadMode::DataCooked => 0x10,
            SectorReadMode::DataRaw => 0xF8,
        }
    }

    /// Most sectors to ask for with one command.
    pub fn max_transfer_sectors(&self) -> (sectors: u32)
        ensures
            sectors == self.max_sectors_per_transfer(),
    {
        if self.sector_size() == 2048 {
            32  // 32 * 2048 = 65536 bytes
        } else {
            27  // 27 * 2352 = 63504 bytes
        }
    }
}

/// Starts to read sectors from the disc in the given mode.
///
/// The sectors are asked for in chunks of about 64 KB, each of which is retried
/// by the policy `cfg`. See [`SectorRead`].
pub fn read_data_sectors(lba: u32, sectors: u32, mode: SectorReadMode, cfg: &RetryConfig) -> (read:
    ReadProgress)
    ensures
        read@ == transfer::initial_phase(mode, *cfg, lba as int, sectors as int),
{
    SectorRead::begin(mode, lba, sectors, cfg)
}

/// Sense key, additional sense code and qualifier in fixed format sense data of
/// which the drive wrote `written` bytes. A drive that wrote none, or a buffer
/// that cannot hold the three fields, gives no sense.
pub open spec fn sense_fields(sense: Seq<u8>, written: u8) -> (
    Option<u8>,
    Option<u8>,
    Option<u8>,
) {
    if written == 0 || sense.len() < 14 {
        (None, None, None)
    } else {
        (Some(sense[2] & 0x0F), Some(sense[12]), Some(sense[13]))
    }
}

/// Picks the sense key, the additional sense code and its qualifier out of fixed
/// format sense data. See [`sense_fields`].
pub fn parse_sense(sense: &[u8], sb_len_wr: u8) -> (fields: (Option<u8>, Option<u8>, Option<u8>))
    ensures
        fields == sense_fields(sense@, sb_len_wr),
{
    if sb_len_wr == 0 || sense.len() < 14 {
        return (None, None, None);
    }
    (Some(sense[2] & 0x0F), Some(sense[12]), Some(sense[13]))
}

} // verus!
