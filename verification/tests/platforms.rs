use cd_da_reader::discovery::default_drive;
use cd_da_reader::drive::{check_path, DriveSlot};
use cd_da_reader::linux::{self, SgReply};
use cd_da_reader::macos::{self, MacDriveEntry, MacScsiError};
use cd_da_reader::reader::DriveReply;
use cd_da_reader::transfer::ChunkRequest;
use cd_da_reader::windows::{self, SptdReply};
use cd_da_reader::{
    CdReader, CdReaderError, DriveInfo, IoError, ScsiError, ScsiOp, SectorReadMode,
};

fn request() -> ChunkRequest {
    ChunkRequest { lba: 100, sectors: 2, mode: SectorReadMode::Audio }
}

fn sense(len: usize) -> Vec<u8> {
    let mut sense = vec![0u8; len];
    sense[2] = 0x73;
    sense[12] = 0x11;
    sense[13] = 0x05;
    sense
}

fn sg(data: Vec<u8>, resid: i32) -> SgReply {
    SgReply { data, sense: sense(64), status: 0, sb_len_wr: 0, resid, info: 0 }
}

fn toc_answer() -> Vec<u8> {
    vec![
        0, 18, 1, 1, 0, 0x10, 1, 0, 0, 0, 0, 0, 0, 0x10, 0xAA, 0, 0, 0, 0, 200,
    ]
}

fn scsi_error(err: CdReaderError) -> ScsiError {
    match err {
        CdReaderError::Scsi(err) => err,
        other => panic!("unexpected {other:?}"),
    }
}

#[test]
fn linux_chunk_is_cut_to_what_was_transferred() {
    let data: Vec<u8> = (0..100).collect();
    assert_eq!(linux::read_data_chunk(&request(), Ok(sg(data.clone(), 0))).unwrap(), data);
    assert_eq!(linux::read_data_chunk(&request(), Ok(sg(data.clone(), -5))).unwrap(), data);
    assert_eq!(linux::read_data_chunk(&request(), Ok(sg(data.clone(), 30))).unwrap(), data[..70]);
    assert!(linux::read_data_chunk(&request(), Ok(sg(data.clone(), 100))).unwrap().is_empty());
    assert!(linux::read_data_chunk(&request(), Ok(sg(data, i32::MAX))).unwrap().is_empty());
}

#[test]
fn linux_reports_errors_of_the_drive() {
    let mut reply = sg(vec![0; 10], 0);
    reply.status = 2;
    reply.sb_len_wr = 18;
    let err = scsi_error(linux::read_data_chunk(&request(), Ok(reply)).unwrap_err());
    assert_eq!(
        err,
        ScsiError {
            op: ScsiOp::ReadCd,
            lba: Some(100),
            sectors: Some(2),
            scsi_status: 2,
            sense_key: Some(3),
            asc: Some(0x11),
            ascq: Some(5),
        }
    );
    let mut reply = sg(vec![0; 10], 0);
    reply.info = 3;
    let err = scsi_error(linux::read_toc(Ok(reply)).unwrap_err());
    assert_eq!(err.op, ScsiOp::ReadToc);
    assert_eq!((err.lba, err.sectors, err.scsi_status), (None, None, 0));
    assert_eq!((err.sense_key, err.asc, err.ascq), (None, None, None));
    let mut reply = sg(vec![1, 2], 0);
    reply.info = 2;
    assert!(linux::read_data_chunk(&request(), Ok(reply)).is_ok());
    assert!(matches!(
        linux::read_data_chunk(&request(), Err(IoError::Os(5))),
        Err(CdReaderError::Io(IoError::Os(5)))
    ));
    assert!(matches!(
        linux::read_toc(Err(IoError::DriveNotOpened)),
        Err(CdReaderError::Io(IoError::DriveNotOpened))
    ));
}

#[test]
fn linux_toc_is_cut_unless_nothing_is_left() {
    let mut data = toc_answer();
    data.extend(vec![0; 10]);
    assert_eq!(linux::read_toc(Ok(sg(data.clone(), 10))).unwrap().leadout_lba, 200);
    assert!(matches!(
        linux::read_toc(Ok(sg(data.clone(), 11))),
        Err(CdReaderError::Parse(message)) if message == "TOC has no lead-out"
    ));
    assert_eq!(linux::read_toc(Ok(sg(data.clone(), 30))).unwrap().tracks.len(), 1);
    assert_eq!(linux::read_toc(Ok(sg(data, 31))).unwrap().tracks.len(), 1);
    assert!(matches!(
        linux::read_toc(Ok(sg(vec![0, 0], 0))),
        Err(CdReaderError::Parse(message)) if message == "TOC data too short"
    ));
}

fn strings(names: &[&str]) -> Vec<String> {
    names.iter().map(|name| name.to_string()).collect()
}

#[test]
fn linux_lists_optical_drives_in_order() {
    let names = strings(&["sr1", "sda", "sr0", "srx", "s", "sr10", "sr1", "nvme0n1", "sr"]);
    assert_eq!(
        linux::list_drive_paths(&names, true),
        strings(&["/dev/sr", "/dev/sr0", "/dev/sr1", "/dev/sr10", "/dev/srx"])
    );
    let mut expected = strings(&["/dev/sr\u{ffff}", "/dev/sr\u{10000}", "/dev/sr\u{e9}"]);
    expected.sort();
    assert_eq!(
        linux::list_drive_paths(&strings(&["sr\u{10000}", "sr\u{ffff}", "sr\u{e9}"]), false),
        expected
    );
}

#[test]
fn linux_falls_back_to_cdrom() {
    assert_eq!(linux::list_drive_paths(&strings(&["sda"]), true), strings(&["/dev/cdrom"]));
    assert!(linux::list_drive_paths(&strings(&["sda"]), false).is_empty());
}

fn sptd(scsi_status: u8, sense_info_length: u8) -> SptdReply {
    SptdReply { data: toc_answer(), sense: sense(32), scsi_status, sense_info_length }
}

#[test]
fn windows_replies() {
    assert_eq!(windows::read_toc(Ok(sptd(0, 32))).unwrap().leadout_lba, 200);
    assert_eq!(windows::read_data_chunk(&request(), Ok(sptd(0, 0))).unwrap(), toc_answer());
    let err = scsi_error(windows::read_toc(Ok(sptd(2, 14))).unwrap_err());
    assert_eq!((err.op, err.scsi_status), (ScsiOp::ReadToc, 2));
    assert_eq!((err.sense_key, err.asc, err.ascq), (Some(3), Some(0x11), Some(5)));
    // a READ TOC error wants complete sense data, a READ CD error any
    let err = scsi_error(windows::read_toc(Ok(sptd(2, 13))).unwrap_err());
    assert_eq!((err.sense_key, err.asc, err.ascq), (None, None, None));
    let err = scsi_error(windows::read_data_chunk(&request(), Ok(sptd(8, 13))).unwrap_err());
    assert_eq!((err.sense_key, err.lba, err.sectors), (Some(3), Some(100), Some(2)));
    assert!(matches!(
        windows::read_data_chunk(&request(), Err(IoError::Os(21))),
        Err(CdReaderError::Io(IoError::Os(21)))
    ));
    assert!(matches!(
        windows::read_toc(Err(IoError::Os(21))),
        Err(CdReaderError::Io(IoError::Os(21)))
    ));
}

#[test]
fn windows_sense_must_be_complete() {
    assert_eq!(windows::parse_sense(&sense(32), 14), (Some(3), Some(0x11), Some(5)));
    assert_eq!(windows::parse_sense(&sense(32), 13), (None, None, None));
    assert_eq!(windows::parse_sense(&[0; 13], 32), (None, None, None));
}

#[test]
fn windows_lists_drives_by_letter() {
    let mut types = [3u32; 26];
    assert!(windows::list_drive_paths(&types).is_empty());
    types[3] = 5;
    types[25] = 5;
    types[0] = 5;
    assert_eq!(
        windows::list_drive_paths(&types),
        strings(&[r"\\.\A:", r"\\.\D:", r"\\.\Z:"])
    );
    assert_eq!(windows::drive_root(4), "E:\\");
}

fn mac_error() -> MacScsiError {
    MacScsiError {
        has_scsi_error: 1,
        scsi_status: 2,
        has_sense: 1,
        sense_key: 3,
        asc: 0x11,
        ascq: 5,
        exec_error: 0,
        task_status: 0,
    }
}

#[test]
fn macos_replies() {
    assert_eq!(macos::read_toc(Ok(toc_answer())).unwrap().leadout_lba, 200);
    assert_eq!(macos::read_data_chunk(&request(), Ok(vec![1, 2])).unwrap(), vec![1, 2]);
    let err = scsi_error(macos::read_data_chunk(&request(), Err(mac_error())).unwrap_err());
    assert_eq!((err.op, err.lba, err.sectors), (ScsiOp::ReadCd, Some(100), Some(2)));
    assert_eq!((err.sense_key, err.asc, err.ascq), (Some(3), Some(0x11), Some(5)));
    let mut no_sense = mac_error();
    no_sense.has_sense = 0;
    let err = scsi_error(macos::read_toc(Err(no_sense)).unwrap_err());
    assert_eq!((err.op, err.scsi_status), (ScsiOp::ReadToc, 2));
    assert_eq!((err.sense_key, err.asc, err.ascq), (None, None, None));
    let mut no_scsi = mac_error();
    no_scsi.has_scsi_error = 0;
    assert!(matches!(
        macos::map_mac_error(no_scsi, ScsiOp::ReadCd, None, None),
        CdReaderError::Io(IoError::CommandFailed)
    ));
    assert_eq!(macos::open_drive(true), Ok(()));
    assert_eq!(macos::open_drive(false), Err(IoError::DeviceUnavailable));
}

fn entry(name: &str, has_audio: u8) -> MacDriveEntry {
    MacDriveEntry { bsd_name: name.to_string(), has_audio }
}

#[test]
fn macos_lists_each_drive_once() {
    let entries = vec![
        entry("disk6", 0),
        entry("", 1),
        entry("disk4", 2),
        entry("disk6", 1),
        entry("disk14", 0),
    ];
    let drives = macos::list_drives(Some(entries)).unwrap();
    let listed: Vec<(&str, bool)> =
        drives.iter().map(|drive| (drive.path.as_str(), drive.has_audio_cd)).collect();
    assert_eq!(listed, vec![("disk14", false), ("disk4", true), ("disk6", false)]);
    for drive in &drives {
        assert_eq!(drive.display_name.as_ref(), Some(&drive.path));
    }
    assert_eq!(macos::list_drives(None).unwrap_err(), IoError::EnumerationFailed);
    assert!(macos::list_drives(Some(vec![])).unwrap().is_empty());
}

#[test]
fn default_drive_is_the_first_with_audio() {
    let audio = || macos::read_toc(Ok(toc_answer()));
    let mut data_disc = toc_answer();
    data_disc[5] = 0x14;
    let drives = vec![
        DriveInfo::probed("/dev/sr0".to_string(), &Err(CdReaderError::Io(IoError::Os(123)))),
        DriveInfo::probed("/dev/sr1".to_string(), &macos::read_toc(Ok(data_disc))),
        DriveInfo::probed("/dev/sr2".to_string(), &audio()),
        DriveInfo::probed("/dev/sr3".to_string(), &audio()),
    ];
    assert_eq!(drives[2].path, "/dev/sr2");
    assert!(drives[2].has_audio_cd && !drives[1].has_audio_cd && !drives[0].has_audio_cd);
    assert_eq!(default_drive(&drives), Ok(2));
    assert_eq!(default_drive(&vec![]), Err(IoError::NoAudioDrive));
}

#[test]
fn reader_understands_each_platform() {
    let reader = CdReader {};
    assert!(reader.read_toc(DriveReply::Linux(Ok(sg(toc_answer(), 0)))).is_ok());
    assert!(reader.read_toc(DriveReply::MacOs(Ok(toc_answer()))).is_ok());
    assert!(reader.read_toc(DriveReply::Windows(Ok(sptd(0, 0)))).is_ok());
    let data = vec![7u8; 4704];
    let reply = DriveReply::Linux(Ok(sg(data.clone(), 4)));
    assert_eq!(reader.read_data_chunk(&request(), reply).unwrap().len(), 4700);
    let reply = DriveReply::MacOs(Ok(data.clone()));
    assert_eq!(reader.read_data_chunk(&request(), reply).unwrap(), data);
    let reply = DriveReply::Windows(Ok(sptd(2, 0)));
    assert!(reader.read_data_chunk(&request(), reply).is_err());
}

#[test]
fn slot_holds_the_open_drive() {
    let mut slot: DriveSlot<u32> = DriveSlot::new();
    assert!(matches!(slot.get(), Err(CdReaderError::Io(IoError::DriveNotOpened))));
    assert_eq!(slot.ensure_closed(), Ok(()));
    assert!(matches!(CdReader::open(slot.open(Err(IoError::Os(2)))), Err(IoError::Os(2))));
    assert!(slot.handle.is_none());
    assert!(CdReader::open(slot.open(Ok(7))).is_ok());
    assert_eq!(slot.get().unwrap(), &7);
    assert_eq!(slot.ensure_closed(), Err(IoError::DriveAlreadyOpen));
    assert!(CdReader::open(slot.open(Err(IoError::Os(2)))).is_err());
    assert_eq!(slot.get().unwrap(), &7);
    assert_eq!(slot.close(), Some(7));
    assert_eq!(slot.close(), None);
    assert!(slot.get().is_err());
}

#[test]
fn paths_with_a_zero_character_are_refused() {
    assert_eq!(check_path("/dev/sr0"), Ok(()));
    assert_eq!(check_path(""), Ok(()));
    assert_eq!(check_path("/dev/sr0\0"), Err(IoError::DeviceUnavailable));
    assert_eq!(check_path("\0"), Err(IoError::DeviceUnavailable));
    assert_eq!(check_path("\u{e9}\0x"), Err(IoError::DeviceUnavailable));
}

#[test]
fn windows_opens_one_drive_at_a_time() {
    let mut slot: DriveSlot<u32> = DriveSlot::new();
    assert_eq!(windows::open_drive(&mut slot, Err(IoError::Os(2))), Err(IoError::Os(2)));
    assert!(slot.handle.is_none());
    assert_eq!(windows::open_drive(&mut slot, Ok(7)), Ok(()));
    assert_eq!(windows::open_drive(&mut slot, Ok(8)), Err(IoError::DriveAlreadyOpen));
    assert_eq!(slot.get().unwrap(), &7);
    // on Linux the new drive takes the place of the old one
    assert_eq!(slot.open(Ok(9)), Ok(()));
    assert_eq!(slot.get().unwrap(), &9);
}

#[test]
fn errors_in_words() {
    assert_eq!(IoError::DriveNotOpened.message(), "Drive not opened");
    assert_eq!(IoError::DriveAlreadyOpen.message(), "Drive is already open");
    assert_eq!(IoError::DeviceUnavailable.message(), "could not get device");
    assert_eq!(IoError::EnumerationFailed.message(), "could not enumerate CD drives");
    assert_eq!(IoError::CommandFailed.message(), "macOS CD command failed");
    assert_eq!(IoError::InvalidTrackBounds.message(), "invalid TOC bounds");
}
