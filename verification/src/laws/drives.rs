//! Finding drives and opening them.

use vstd::prelude::*;
use vstd::utf8::encode_utf8;

use crate::backend::TrackReadError;
use crate::discovery;
use crate::discovery::DriveInfo;
use crate::drive;
use crate::drive::DriveSlot;
use crate::errors::{CdReaderError, IoError};
use crate::linux;
use crate::macos;
use crate::macos::MacDriveEntry;
use crate::parse_toc::TocParseError;
use crate::paths;
use crate::paths::{HasPath, PathRelation};
use crate::reader::CdReader;
use crate::toc::Toc;
use crate::windows;

verus! {

/// Whether `a` comes before `b` in the order of their UTF-8 bytes: behind what they
/// share, `a` ends or has the smaller byte.
pub open spec fn comes_before(a: Seq<char>, b: Seq<char>) -> bool {
    exists|shared: int| #[trigger] parts_after(encode_utf8(a), encode_utf8(b), shared)
}

/// Whether `a` and `b` share their first `shared` bytes, behind which `b` goes on, and
/// `a` ends or has a smaller byte.
pub open spec fn parts_after(a: Seq<u8>, b: Seq<u8>, shared: int) -> bool {
    &&& 0 <= shared <= a.len()
    &&& shared < b.len()
    &&& a.take(shared) == b.take(shared)
    &&& shared == a.len() || a[shared] < b[shared]
}

proof fn lemma_order(a: Seq<char>, b: Seq<char>)
    requires
        paths::path_before(a, b),
    ensures
        comes_before(a, b),
{
    let x = encode_utf8(a);
    let y = encode_utf8(b);
    let i = choose|i: int| paths::differs_at(x, y, i);
    assert(x.take(i) =~= y.take(i));
    assert(parts_after(x, y, i));
}

/// Whether `path` is the device of the block device `name`, an optical drive.
pub open spec fn is_optical_device(name: Seq<char>, path: Seq<char>) -> bool {
    &&& starts_with_sr(name)
    &&& path == "/dev/"@ + name
}

/// Whether a block device of this name is an optical drive.
pub open spec fn starts_with_sr(name: Seq<char>) -> bool {
    name.len() >= 2 && name[0] == 's' && name[1] == 'r'
}

/// Whether `path` is the device of an optical drive among the block devices.
pub open spec fn is_device_of_one(names: Seq<String>, path: Seq<char>) -> bool {
    exists|i: int| 0 <= i < names.len() && is_optical_device(#[trigger] names[i]@, path)
}

/// The optical drives on Linux are the devices of the block devices whose name starts
/// with "sr", each once and in order. Only if there is none it is `/dev/cdrom`, if that
/// exists.
pub proof fn law_linux_lists_optical_drives(
    names: Vec<String>,
    cdrom_exists: bool,
    drives: Vec<String>,
)
    requires
        call_ensures(linux::list_drive_paths, (&names, cdrom_exists), drives),
    ensures
        forall|i: int, j: int|
            0 <= i < j < drives@.len() ==> comes_before(
                (#[trigger] drives@[i])@,
                (#[trigger] drives@[j])@,
            ),
        forall|i: int|
            0 <= i < names@.len() && starts_with_sr((#[trigger] names@[i])@) ==> exists|k: int|
                0 <= k < drives@.len() && is_optical_device(names@[i]@, (#[trigger] drives@[k])@),
        forall|k: int|
            0 <= k < drives@.len() ==> is_device_of_one(names@, (#[trigger] drives@[k])@) || (
            drives@[k]@ == "/dev/cdrom"@ && cdrom_exists && drives@.len() == 1),
        cdrom_exists && (forall|i: int|
            0 <= i < names@.len() ==> !starts_with_sr((#[trigger] names@[i])@)) ==> drives@.len()
            == 1 && drives@[0]@ == "/dev/cdrom"@,
        (exists|i: int| 0 <= i < names@.len() && starts_with_sr((#[trigger] names@[i])@))
            ==> forall|k: int|
            0 <= k < drives@.len() ==> is_device_of_one(names@, (#[trigger] drives@[k])@),
{
    let listed = paths::paths_of(drives@);
    assert forall|i: int, j: int| 0 <= i < j < drives@.len() implies comes_before(
        (#[trigger] drives@[i])@,
        (#[trigger] drives@[j])@,
    ) by {
        assert(listed[i] == drives@[i]@ && listed[j] == drives@[j]@);
        lemma_order(listed[i], listed[j]);
    }
    assert forall|i: int|
        0 <= i < names@.len() && starts_with_sr((#[trigger] names@[i])@) implies exists|k: int|
        0 <= k < drives@.len() && is_optical_device(names@[i]@, (#[trigger] drives@[k])@) by {
        let path = "/dev/"@ + names@[i]@;
        assert(linux::is_optical_name(names@[i]@));
        assert(linux::is_drive_path(names@, cdrom_exists, path));
        assert(listed.contains(path));
        let k = choose|k: int| 0 <= k < listed.len() && listed[k] == path;
        assert(drives@[k]@ == path);
        assert(is_optical_device(names@[i]@, drives@[k]@));
    }
    assert forall|k: int| 0 <= k < drives@.len() implies if linux::any_optical(names@) {
        is_device_of_one(names@, (#[trigger] drives@[k])@)
    } else {
        drives@[k]@ == "/dev/cdrom"@ && cdrom_exists
    } by {
        assert(listed[k] == drives@[k]@);
        assert(listed.contains(listed[k]));
        assert(linux::is_drive_path(names@, cdrom_exists, listed[k]));
        if linux::any_optical(names@) {
            let i = choose|i: int|
                0 <= i < names@.len() && linux::is_optical_name(#[trigger] names@[i]@) && listed[k]
                    == "/dev/"@ + names@[i]@;
            assert(is_optical_device(names@[i]@, drives@[k]@));
        }
    }
    if !linux::any_optical(names@) {
        if drives@.len() > 1 {
            assert(drives@[0]@ == "/dev/cdrom"@ && drives@[1]@ == "/dev/cdrom"@);
            assert(listed[0] == drives@[0]@ && listed[1] == drives@[1]@);
            paths::lemma_before_is_asymmetric(listed[0], listed[1]);
        }
        if cdrom_exists {
            assert(linux::is_drive_path(names@, cdrom_exists, "/dev/cdrom"@));
            assert(listed.contains("/dev/cdrom"@));
            assert(drives@[0]@ == "/dev/cdrom"@);
        }
    }
    if exists|i: int| 0 <= i < names@.len() && starts_with_sr((#[trigger] names@[i])@) {
        let i = choose|i: int| 0 <= i < names@.len() && starts_with_sr((#[trigger] names@[i])@);
        assert(linux::is_optical_name(names@[i]@));
    }
    if linux::any_optical(names@) {
        let i = choose|i: int|
            0 <= i < names@.len() && linux::is_optical_name(#[trigger] names@[i]@);
        assert(starts_with_sr(names@[i]@));
    }
}

/// Whether `drive` is shown under the name of entry `i`, the first one of that name, and
/// holds an audio disc if that entry says so.
pub open spec fn shows_first_of_name(
    drive: DriveInfo,
    entries: Seq<MacDriveEntry>,
    i: int,
) -> bool {
    &&& 0 <= i < entries.len()
    &&& drive.path@ == entries[i].bsd_name@
    &&& drive.display_name is Some && drive.display_name->0@ == entries[i].bsd_name@
    &&& drive.has_audio_cd == (entries[i].has_audio != 0)
    &&& entries[i].bsd_name@.len() > 0
    &&& forall|j: int| 0 <= j < i ==> (#[trigger] entries[j]).bsd_name@ != entries[i].bsd_name@
}

/// Whether `drive` is shown under the name of one of the entries.
pub open spec fn shows_some_name(drive: DriveInfo, entries: Seq<MacDriveEntry>) -> bool {
    exists|i: int| #[trigger] shows_first_of_name(drive, entries, i)
}

/// The drives on macOS are those that were enumerated under a name, each once and in
/// order.
pub proof fn law_macos_lists_each_drive_once(
    enumerated: Option<Vec<MacDriveEntry>>,
    result: Result<Vec<DriveInfo>, IoError>,
)
    requires
        call_ensures(macos::list_drives, (enumerated,), result),
    ensures
        match (enumerated, result) {
            (None, Err(err)) => err == IoError::EnumerationFailed,
            (Some(entries), Ok(drives)) => {
                &&& forall|i: int, j: int|
                    0 <= i < j < drives@.len() ==> comes_before(
                        (#[trigger] drives@[i]).path@,
                        (#[trigger] drives@[j]).path@,
                    )
                &&& forall|k: int|
                    0 <= k < drives@.len() ==> shows_some_name(#[trigger] drives@[k], entries@)
                &&& forall|i: int|
                    0 <= i < entries@.len() && (#[trigger] entries@[i]).bsd_name@.len() > 0
                        ==> exists|k: int|
                        0 <= k < drives@.len() && (#[trigger] drives@[k]).path@
                            == entries@[i].bsd_name@
            },
            _ => false,
        },
{
    if let (Some(entries), Ok(drives)) = (enumerated, result) {
        let listed = paths::paths_of(drives@);
        let n = entries@.len() as int;
        assert forall|i: int, j: int| 0 <= i < j < drives@.len() implies comes_before(
            (#[trigger] drives@[i]).path@,
            (#[trigger] drives@[j]).path@,
        ) by {
            assert(listed[i] == drives@[i].path@ && listed[j] == drives@[j].path@);
            lemma_order(listed[i], listed[j]);
        }
        assert forall|k: int| 0 <= k < drives@.len() implies shows_some_name(
            #[trigger] drives@[k],
            entries@,
        ) by {
            assert(macos::shows_one(drives@[k], entries@, n));
            let i = choose|i: int|
                0 <= i < n && #[trigger] macos::shows_entry(drives@[k], entries@, i);
            assert(listed[k] == drives@[k].path@);
            assert(listed.contains(listed[k]));
            assert forall|j: int| 0 <= j < i implies (#[trigger] entries@[j]).bsd_name@
                != entries@[i].bsd_name@ by {
                if entries@[j].bsd_name@ == entries@[i].bsd_name@ {
                    assert(macos::is_named(entries@, i, entries@[i].bsd_name@));
                }
            }
            assert(shows_first_of_name(drives@[k], entries@, i));
        }
        assert forall|i: int|
            0 <= i < entries@.len() && (#[trigger] entries@[i]).bsd_name@.len()
                > 0 implies exists|k: int|
            0 <= k < drives@.len() && (#[trigger] drives@[k]).path@ == entries@[i].bsd_name@ by {
            let name = entries@[i].bsd_name@;
            assert(macos::is_named(entries@, n, name));
            assert(listed.contains(name));
            let k = choose|k: int| 0 <= k < listed.len() && listed[k] == name;
            assert(drives@[k].path@ == name);
        }
    }
}

/// Drive letter number `i`, from A on.
pub open spec fn letter_of(i: int) -> char {
    (65 + i) as char
}

proof fn lemma_letter(i: int)
    requires
        0 <= i < 26,
    ensures
        windows::letter(i) == seq![letter_of(i)],
{
    reveal_strlit("ABCDEFGHIJKLMNOPQRSTUVWXYZ");
    let letters = "ABCDEFGHIJKLMNOPQRSTUVWXYZ"@;
    assert(letters.len() == 26);
    assert(letters[i] == letter_of(i)) by {
        if i < 13 {
            assert(i == 0 || i == 1 || i == 2 || i == 3 || i == 4 || i == 5 || i == 6 || i == 7 || i
                == 8 || i == 9 || i == 10 || i == 11 || i == 12);
        } else {
            assert(i == 13 || i == 14 || i == 15 || i == 16 || i == 17 || i == 18 || i == 19 || i
                == 20 || i == 21 || i == 22 || i == 23 || i == 24 || i == 25);
        }
    }
    assert(windows::letter(i) =~= seq![letter_of(i)]);
}

/// Numbers of the letters up to number `n` whose drive is optical (type 5), in order.
pub open spec fn optical_letters(drive_types: Seq<u32>, n: int) -> Seq<int> {
    Seq::new(n as nat, |i: int| i).filter(|i: int| drive_types[i] == 5)
}

proof fn lemma_optical(drive_types: Seq<u32>, n: int)
    requires
        0 <= n <= 26,
    ensures
        windows::optical_paths(drive_types, n).len() == optical_letters(drive_types, n).len(),
        forall|k: int|
            0 <= k < optical_letters(drive_types, n).len() ==> #[trigger] windows::optical_paths(
                drive_types,
                n,
            )[k] == seq!['\\', '\\', '.', '\\', letter_of(optical_letters(drive_types, n)[k]), ':'],
    decreases n,
{
    reveal(Seq::filter);
    reveal_strlit("\\\\.\\");
    reveal_strlit(":");
    let all = Seq::new(n as nat, |i: int| i);
    if n > 0 {
        lemma_optical(drive_types, n - 1);
        lemma_letter(n - 1);
        assert(all.drop_last() =~= Seq::new((n - 1) as nat, |i: int| i));
        assert(all.last() == n - 1);
        assert(windows::device_path(n - 1) =~= seq![
            '\\',
            '\\',
            '.',
            '\\',
            letter_of(n - 1),
            ':',
        ]);
        let before = optical_letters(drive_types, n - 1);
        let kept = optical_letters(drive_types, n);
        if drive_types[n - 1] == 5 {
            assert(kept =~= before.push(n - 1));
        } else {
            assert(kept =~= before);
        }
        assert forall|k: int| 0 <= k < kept.len() implies #[trigger] windows::optical_paths(
            drive_types,
            n,
        )[k] == seq!['\\', '\\', '.', '\\', letter_of(kept[k]), ':'] by {
            if k < before.len() {
                assert(windows::optical_paths(drive_types, n - 1)[k] == seq![
                    '\\',
                    '\\',
                    '.',
                    '\\',
                    letter_of(before[k]),
                    ':',
                ]);
            }
        }
    }
}

/// The optical drives on Windows are those of the letters from A to Z that the system
/// says so of, in order, each under the path of its device.
pub proof fn law_windows_lists_optical_letters(drive_types: [u32; 26], paths: Vec<String>)
    requires
        call_ensures(windows::list_drive_paths, (&drive_types,), paths),
    ensures
        paths@.len() == optical_letters(drive_types@, 26).len(),
        forall|k: int|
            0 <= k < paths@.len() ==> (#[trigger] paths@[k])@ == seq![
                '\\',
                '\\',
                '.',
                '\\',
                letter_of(optical_letters(drive_types@, 26)[k]),
                ':',
            ],
{
    lemma_optical(drive_types@, 26);
}

/// The type of a drive on Windows is asked for with its root directory.
pub proof fn law_windows_asks_for_roots(i: usize, root: String)
    requires
        i < 26,
        call_ensures(windows::drive_root, (i,), root),
    ensures
        root@ == seq![letter_of(i as int), ':', '\\'],
{
    lemma_letter(i as int);
    reveal_strlit(":\\");
    assert(root@ =~= seq![letter_of(i as int), ':', '\\']);
}

/// A drive is listed under its path, and holds an audio disc if its table of contents
/// could be read and has an audio track.
pub proof fn law_probe_tells_audio_discs(
    path: String,
    toc: Result<Toc, CdReaderError>,
    drive: DriveInfo,
)
    requires
        call_ensures(DriveInfo::probed, (path, &toc), drive),
    ensures
        drive.path@ == path@,
        drive.display_name matches Some(name) && name@ == path@,
        drive.has_audio_cd <==> toc is Ok && exists|i: int|
            0 <= i < toc->Ok_0.tracks@.len() && (#[trigger] toc->Ok_0.tracks@[i]).is_audio,
{
}

/// An entry shows what it was made of.
pub proof fn law_entry_shows_its_path(path: String, has_audio_cd: bool, drive: DriveInfo)
    requires
        call_ensures(DriveInfo::at_path, (path, has_audio_cd), drive),
    ensures
        drive.path@ == path@,
        drive.display_name matches Some(name) && name@ == path@,
        drive.has_audio_cd == has_audio_cd,
{
}

/// The default drive is the first one that holds an audio disc.
pub proof fn law_default_drive_is_the_first_with_audio(
    drives: Vec<DriveInfo>,
    picked: Result<usize, IoError>,
)
    requires
        call_ensures(discovery::default_drive, (&drives,), picked),
    ensures
        match picked {
            Ok(i) => i < drives@.len() && drives@[i as int].has_audio_cd && forall|j: int|
                0 <= j < i ==> !(#[trigger] drives@[j]).has_audio_cd,
            Err(err) => err == IoError::NoAudioDrive && forall|j: int|
                0 <= j < drives@.len() ==> !(#[trigger] drives@[j]).has_audio_cd,
        },
{
}

/// A path is refused exactly if a zero character stands in it.
pub proof fn law_paths_have_no_zero(path: &str, result: Result<(), IoError>)
    requires
        call_ensures(drive::check_path, (path,), result),
    ensures
        match result {
            Ok(_) => forall|i: int| 0 <= i < path@.len() ==> #[trigger] path@[i] != '\0',
            Err(err) => err == IoError::DeviceUnavailable && exists|i: int|
                0 <= i < path@.len() && #[trigger] path@[i] == '\0',
        },
{
    if path@.contains('\0') {
        let i = choose|i: int| 0 <= i < path@.len() && path@[i] == '\0';
        assert(path@[i] == '\0');
    } else {
        assert forall|i: int| 0 <= i < path@.len() implies #[trigger] path@[i] != '\0' by {
            if path@[i] == '\0' {
                assert(path@.contains('\0'));
            }
        }
    }
}

/// A command finds the handle in the slot, or is told that no drive is open; another
/// drive is let in only while none is.
pub proof fn law_slot_gives_its_handle<H>(
    slot: DriveSlot<H>,
    empty: DriveSlot<H>,
    given: Result<&H, CdReaderError>,
    closed: Result<(), IoError>,
)
    requires
        call_ensures(DriveSlot::<H>::get, (&slot,), given),
        call_ensures(DriveSlot::<H>::ensure_closed, (&slot,), closed),
        call_ensures(DriveSlot::<H>::new, (), empty),
    ensures
        match (slot.handle, given) {
            (Some(handle), Ok(found)) => *found == handle,
            (None, Err(err)) => err == CdReaderError::Io(IoError::DriveNotOpened),
            _ => false,
        },
        match (slot.handle, closed) {
            (Some(_), Err(err)) => err == IoError::DriveAlreadyOpen,
            (None, Ok(_)) => true,
            _ => false,
        },
        empty.handle is None,
{
}

/// A drive that was opened takes the place of what was in the slot, and a failure
/// leaves the slot as it is. On Windows an open drive stays, whatever comes. Closing
/// gives the handle up and leaves the slot empty.
pub proof fn law_slot_holds_the_drive_opened_last<H>()
    ensures
        forall|slot: &mut DriveSlot<H>, opened: Result<H, IoError>, result: Result<(), IoError>|
            #[trigger] call_ensures(DriveSlot::<H>::open, (slot, opened), result)
                ==> match opened {
                Ok(handle) => final(slot).handle == Some(handle) && result is Ok,
                Err(why) => final(slot).handle == slot.handle && result == Err::<(), IoError>(why),
            },
        forall|slot: &mut DriveSlot<H>, opened: Result<H, IoError>, result: Result<(), IoError>|
            #[trigger] call_ensures(windows::open_drive::<H>, (slot, opened), result)
                ==> match (slot.handle, opened) {
                (Some(_), _) => final(slot).handle == slot.handle && result == Err::<(), IoError>(
                    IoError::DriveAlreadyOpen,
                ),
                (None, Ok(handle)) => final(slot).handle == Some(handle) && result is Ok,
                (None, Err(why)) => final(slot).handle is None && result == Err::<(), IoError>(why),
            },
        forall|slot: &mut DriveSlot<H>, handle: Option<H>| #[trigger]
            call_ensures(DriveSlot::<H>::close, (slot,), handle) ==> handle == slot.handle
                && final(slot).handle is None,
{
}

/// Two paths are the same, or one of them comes first.
pub proof fn law_paths_have_an_order(a: &str, b: &str, relation: PathRelation)
    requires
        call_ensures(paths::relate_paths, (a, b), relation),
    ensures
        match relation {
            PathRelation::Before => comes_before(a@, b@),
            PathRelation::Same => a@ == b@,
            PathRelation::After => comes_before(b@, a@),
        },
{
    match relation {
        PathRelation::Before => lemma_order(a@, b@),
        PathRelation::Same => {},
        PathRelation::After => lemma_order(b@, a@),
    }
}

/// Whether an item of this path is in the list.
pub open spec fn has_path<T: HasPath>(list: Seq<T>, path: Seq<char>) -> bool {
    exists|i: int| 0 <= i < list.len() && (#[trigger] list[i]).path_text() == path
}

/// Whether the paths of a list are in order, each of them once.
pub open spec fn is_ordered<T: HasPath>(list: Seq<T>) -> bool {
    forall|i: int, j: int|
        0 <= i < j < list.len() ==> comes_before(
            (#[trigger] list[i]).path_text(),
            (#[trigger] list[j]).path_text(),
        )
}

/// An item is put into its place in an ordered list, and nothing else changes. If there
/// is an item of the same path already, that one stays and nothing changes at all.
pub proof fn law_items_are_put_in_order<T: HasPath>()
    ensures
        forall|list: &mut Vec<T>, item: T| #[trigger]
            call_ensures(paths::insert_by_path::<T>, (list, item), ()) ==> {
                &&& is_ordered(final(list)@)
                &&& has_path(list@, item.path_text()) ==> final(list)@ == list@
                &&& !has_path(list@, item.path_text()) ==> exists|at: int|
                    0 <= at <= list@.len() && final(list)@ == #[trigger] list@.insert(at, item)
            },
{
    assert forall|list: &mut Vec<T>, item: T| #[trigger]
        call_ensures(paths::insert_by_path::<T>, (list, item), ()) implies {
        &&& is_ordered(final(list)@)
        &&& has_path(list@, item.path_text()) ==> final(list)@ == list@
        &&& !has_path(list@, item.path_text()) ==> exists|at: int|
            0 <= at <= list@.len() && final(list)@ == #[trigger] list@.insert(at, item)
    } by {
        let before = paths::paths_of(list@);
        let after = paths::paths_of(final(list)@);
        assert forall|i: int, j: int| 0 <= i < j < final(list)@.len() implies comes_before(
            (#[trigger] final(list)@[i]).path_text(),
            (#[trigger] final(list)@[j]).path_text(),
        ) by {
            assert(after[i] == final(list)@[i].path_text());
            assert(after[j] == final(list)@[j].path_text());
            lemma_order(after[i], after[j]);
        }
        if has_path(list@, item.path_text()) {
            let i = choose|i: int|
                0 <= i < list@.len() && (#[trigger] list@[i]).path_text() == item.path_text();
            assert(before[i] == item.path_text());
            assert(before.contains(item.path_text()));
        } else {
            if before.contains(item.path_text()) {
                let i = choose|i: int| 0 <= i < before.len() && before[i] == item.path_text();
                assert(list@[i].path_text() == item.path_text());
            }
        }
    }
}

/// Errors say in words what went wrong.
pub proof fn law_errors_have_their_words<E>(
    err: IoError,
    words: String,
    table: TocParseError,
    table_words: String,
    track: TrackReadError<E>,
    detail: &str,
    track_words: String,
)
    requires
        call_ensures(IoError::message, (&err,), words),
        call_ensures(TocParseError::message, (&table,), table_words),
        call_ensures(TrackReadError::<E>::message, (&track, detail), track_words),
    ensures
        match err {
            IoError::Os(_) => words@ == "operating system error"@,
            IoError::DriveNotOpened => words@ == "Drive not opened"@,
            IoError::DriveAlreadyOpen => words@ == "Drive is already open"@,
            IoError::DeviceUnavailable => words@ == "could not get device"@,
            IoError::EnumerationFailed => words@ == "could not enumerate CD drives"@,
            IoError::CommandFailed => words@ == "macOS CD command failed"@,
            IoError::NoAudioDrive => words@ == "no drive with an audio CD"@,
            IoError::TrackNotFound => words@ == "track not in TOC"@,
            IoError::InvalidTrackBounds => words@ == "invalid TOC bounds"@,
            IoError::IncompleteRead => words@ == "incomplete sector read"@,
        },
        match table {
            TocParseError::TooShort => table_words@ == "TOC data too short"@,
            TocParseError::NoLeadout => table_words@ == "TOC has no lead-out"@,
        },
        match track {
            TrackReadError::Toc(_) => track_words@ == "TOC error: "@ + detail@,
            TrackReadError::Backend(_) => track_words@ == "backend error: "@ + detail@,
        },
{
}

/// There is a reader if the drive could be opened, and the reason why not otherwise.
pub proof fn law_reader_comes_with_an_open_drive(
    opened: Result<(), IoError>,
    reader: Result<CdReader, IoError>,
    device: bool,
    session: Result<(), IoError>,
)
    requires
        call_ensures(CdReader::open, (opened,), reader),
        call_ensures(macos::open_drive, (device,), session),
    ensures
        match (opened, reader) {
            (Ok(_), Ok(_)) => true,
            (Err(why), Err(err)) => err == why,
            _ => false,
        },
        match session {
            Ok(_) => device,
            Err(err) => !device && err == IoError::DeviceUnavailable,
        },
{
}

} // verus!
