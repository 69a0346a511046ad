use cd_da_reader::bytes::{be_bytes, u32_from_be};
use cd_da_reader::data_reader::parse_sense;
use cd_da_reader::scsi::{read_cd_cdb, read_toc_cdb, transfer_len, TOC_ALLOCATION_BYTES};
use cd_da_reader::transfer::ChunkRequest;
use cd_da_reader::wav::create_wav_header;
use cd_da_reader::{create_wav, CdReader, SectorReadMode};

#[test]
fn sector_formats() {
    assert_eq!(SectorReadMode::Audio.sector_size(), 2352);
    assert_eq!(SectorReadMode::DataCooked.sector_size(), 2048);
    assert_eq!(SectorReadMode::DataRaw.sector_size(), 2352);
    assert_eq!(SectorReadMode::Audio.cdb_byte1(), 0x00);
    assert_eq!(SectorReadMode::DataCooked.cdb_byte1(), 0x04);
    assert_eq!(SectorReadMode::DataRaw.cdb_byte1(), 0x04);
    assert_eq!(SectorReadMode::Audio.cdb_byte9(), 0x10);
    assert_eq!(SectorReadMode::DataCooked.cdb_byte9(), 0x10);
    assert_eq!(SectorReadMode::DataRaw.cdb_byte9(), 0xF8);
}

#[test]
fn read_cd_command() {
    let request = ChunkRequest { lba: 0x0102_0304, sectors: 27, mode: SectorReadMode::Audio };
    assert_eq!(read_cd_cdb(&request), [0xBE, 0, 1, 2, 3, 4, 0, 0, 27, 0x10, 0, 0]);
    assert_eq!(transfer_len(&request), 27 * 2352);
    let request = ChunkRequest { lba: 16, sectors: 0x0A_0B0C, mode: SectorReadMode::DataRaw };
    assert_eq!(read_cd_cdb(&request), [0xBE, 4, 0, 0, 0, 16, 0x0A, 0x0B, 0x0C, 0xF8, 0, 0]);
}

#[test]
fn read_toc_command() {
    assert_eq!(read_toc_cdb(TOC_ALLOCATION_BYTES), [0x43, 0, 0, 0, 0, 0, 0, 8, 0, 0]);
    assert_eq!(read_toc_cdb(0x1234), [0x43, 0, 0, 0, 0, 0, 0, 0x12, 0x34, 0]);
}

#[test]
fn numbers_as_bytes() {
    assert_eq!(be_bytes(0x1234_5678), [0x12, 0x34, 0x56, 0x78]);
    assert_eq!(u32_from_be(0x12, 0x34, 0x56, 0x78), 0x1234_5678);
    let [a, b, c, d] = be_bytes(u32::MAX - 1);
    assert_eq!(u32_from_be(a, b, c, d), u32::MAX - 1);
}

#[test]
fn sense_needs_the_three_fields() {
    let mut sense = vec![0u8; 14];
    sense[2] = 0xF3;
    sense[12] = 0x11;
    sense[13] = 0x05;
    assert_eq!(parse_sense(&sense, 1), (Some(3), Some(0x11), Some(5)));
    assert_eq!(parse_sense(&sense, 0), (None, None, None));
    assert_eq!(parse_sense(&sense[..13], 18), (None, None, None));
}

#[test]
fn wav_header_bytes() {
    let expected = [
        b'R', b'I', b'F', b'F', 0x54, 0x09, 0, 0, b'W', b'A', b'V', b'E', b'f', b'm', b't', b' ',
        16, 0, 0, 0, 1, 0, 2, 0, 0x44, 0xAC, 0, 0, 0x10, 0xB1, 2, 0, 4, 0, 16, 0, b'd', b'a',
        b't', b'a', 0x30, 0x09, 0, 0,
    ];
    assert_eq!(create_wav_header(2352), expected);
    assert_eq!(create_wav_header(u32::MAX)[4..8], [35, 0, 0, 0]);
}

#[test]
fn wav_is_header_and_pcm() {
    let pcm: Vec<u8> = (0..=255).collect();
    let wav = create_wav(pcm.clone());
    assert_eq!(wav.len(), 44 + 256);
    assert_eq!(wav[44..], pcm[..]);
    assert_eq!(wav[40..44], [0, 1, 0, 0]);
    assert_eq!(CdReader::create_wav(pcm), wav);
    // 44100 samples of 2 channels and 2 bytes are 75 sectors
    assert_eq!(44_100 * 2 * 2, 75 * 2352);
}
