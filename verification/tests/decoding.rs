use winwalk::attributes;
use winwalk::path::{extension, join, pattern_for, read_name, self_or_parent};
use winwalk::time::join_words;
use winwalk::{drives, DirEntry, Error, FileAttributes, FileTime, RawRecord, SystemTime, Timestamp};

fn calendar(year: u16, month: u16, day: u16, hour: u16, minute: u16) -> SystemTime {
    SystemTime { year, month, day_of_week: 0, day, hour, minute, second: 0, milliseconds: 0 }
}

fn stamp(low: u32, high: u32, time: SystemTime) -> Timestamp {
    Timestamp {
        raw: FileTime { dw_low_date_time: low, dw_high_date_time: high },
        calendar: Some(time),
    }
}

fn record(name: &[u8], file_attributes: u32, high: u32, low: u32) -> RawRecord {
    let mut file_name = name.to_vec();
    file_name.push(0);
    file_name.extend_from_slice(b"junk after the terminator");
    RawRecord {
        file_attributes,
        creation_time: stamp(1, 2, calendar(2020, 1, 2, 3, 4)),
        last_access_time: stamp(3, 4, calendar(2021, 5, 6, 7, 8)),
        last_write_time: stamp(5, 6, calendar(2022, 9, 10, 11, 12)),
        file_size_high: high,
        file_size_low: low,
        file_name,
    }
}

#[test]
fn dmyhm_pads_each_field() {
    assert_eq!(calendar(2024, 3, 5, 7, 9).dmyhm(), "05/03/2024 07:09");
    assert_eq!(calendar(1999, 12, 31, 23, 59).dmyhm(), "31/12/1999 23:59");
}

#[test]
fn dmyhm_of_the_zero_time() {
    assert_eq!(SystemTime::default().dmyhm(), "00/00/0000 00:00");
}

#[test]
fn dmyhm_pads_the_year_to_four_digits() {
    assert_eq!(calendar(987, 10, 10, 10, 10).dmyhm(), "10/10/0987 10:10");
    assert_eq!(calendar(7, 1, 1, 0, 0).dmyhm(), "01/01/0007 00:00");
}

#[test]
fn dmyhm_keeps_digits_beyond_the_width() {
    assert_eq!(calendar(30827, 123, 100, 99, 65535).dmyhm(), "100/123/30827 99:65535");
    assert_eq!(
        calendar(65535, 65535, 65535, 65535, 65535).dmyhm(),
        "65535/65535/65535 65535:65535"
    );
}

#[test]
fn default_time_is_all_zero() {
    let zero = SystemTime::default();
    assert_eq!(zero, calendar(0, 0, 0, 0, 0));
    assert_eq!(zero.second, 0);
    assert_eq!(zero.milliseconds, 0);
    assert_eq!(zero.day_of_week, 0);
}

#[test]
fn decode_drops_unknown_bits() {
    let decoded = FileAttributes::decode(0x8000_0000 | attributes::DIRECTORY);
    assert!(decoded.contains(attributes::DIRECTORY));
    assert!(decoded.is_directory());
    assert_eq!(decoded.bits(), attributes::DIRECTORY);
    assert_eq!(decoded, FileAttributes::decode(attributes::DIRECTORY));
    assert!(!decoded.contains(0x8000_0000));
}

#[test]
fn decode_keeps_every_named_flag() {
    let all = [
        attributes::READONLY,
        attributes::HIDDEN,
        attributes::SYSTEM,
        attributes::DIRECTORY,
        attributes::ARCHIVE,
        attributes::DEVICE,
        attributes::NORMAL,
        attributes::TEMPORARY,
        attributes::SPARSE_FILE,
        attributes::REPARSE_POINT,
        attributes::COMPRESSED,
        attributes::OFFLINE,
        attributes::NOT_CONTENT_INDEXED,
        attributes::ENCRYPTED,
        attributes::INTEGRITY_STREAM,
        attributes::VIRTUAL,
        attributes::NO_SCRUB_DATA,
        attributes::EA,
        attributes::PINNED,
        attributes::UNPINNED,
        attributes::RECALL_ON_OPEN,
        attributes::RECALL_ON_DATA_ACCESS,
    ];
    let mut union = 0;
    for flag in all {
        let decoded = FileAttributes::decode(flag);
        assert_eq!(decoded.bits(), flag);
        assert!(decoded.contains(flag));
        union |= flag;
    }
    assert_eq!(union, attributes::KNOWN);
    assert_eq!(FileAttributes::decode(u32::MAX).bits(), attributes::KNOWN);
    assert_eq!(FileAttributes::decode(0x0000_0008).bits(), 0);
    assert_eq!(FileAttributes::decode(0x0020_0000).bits(), 0);
}

#[test]
fn contains_asks_for_every_bit_of_the_flag() {
    let decoded = FileAttributes::decode(attributes::HIDDEN | attributes::SYSTEM);
    assert!(decoded.contains(attributes::HIDDEN));
    assert!(decoded.contains(attributes::SYSTEM));
    assert!(decoded.contains(attributes::HIDDEN | attributes::SYSTEM));
    assert!(!decoded.contains(attributes::HIDDEN | attributes::READONLY));
    assert!(!decoded.contains(attributes::DIRECTORY));
    assert!(!decoded.is_directory());
    assert!(decoded.contains(0));
}

#[test]
fn size_is_high_word_times_two_to_32_plus_low_word() {
    assert_eq!(join_words(1, 5), (1u64 << 32) + 5);
    assert_eq!(join_words(1, 5), 4_294_967_301);
    assert_eq!(join_words(0, 0), 0);
    assert_eq!(join_words(0, u32::MAX), 4_294_967_295);
    assert_eq!(join_words(u32::MAX, u32::MAX), u64::MAX);
    let built = DirEntry::from_record(b"C:", &record(b"big.bin", attributes::ARCHIVE, 1, 5));
    assert_eq!(built.unwrap().unwrap().size, Some(4_294_967_301));
}

#[test]
fn raw_timestamps_are_ordered_by_their_ticks() {
    let early = FileTime { dw_low_date_time: u32::MAX, dw_high_date_time: 1 };
    let late = FileTime { dw_low_date_time: 0, dw_high_date_time: 2 };
    assert_eq!(early.ticks(), 0x1_FFFF_FFFF);
    assert_eq!(late.ticks(), 0x2_0000_0000);
    assert!(early.ticks() < late.ticks());
    assert!(!early.is_zero());
    assert!(FileTime { dw_low_date_time: 0, dw_high_date_time: 0 }.is_zero());
    assert!(!FileTime { dw_low_date_time: 0, dw_high_date_time: 1 }.is_zero());
    assert!(!FileTime { dw_low_date_time: 1, dw_high_date_time: 0 }.is_zero());
}

#[test]
fn a_converted_timestamp_resolves_to_its_calendar_form() {
    let time = calendar(2023, 4, 5, 6, 7);
    assert_eq!(stamp(9, 9, time).resolve(), Ok(time));
    assert_eq!(stamp(0, 0, time).resolve(), Ok(time));
}

#[test]
fn a_refused_zero_timestamp_resolves_to_the_zero_time() {
    let unset = Timestamp {
        raw: FileTime { dw_low_date_time: 0, dw_high_date_time: 0 },
        calendar: None,
    };
    assert_eq!(unset.resolve(), Ok(SystemTime::default()));
}

#[test]
fn a_refused_timestamp_is_an_error() {
    let refused = Timestamp {
        raw: FileTime { dw_low_date_time: 0, dw_high_date_time: 0x8000_0000 },
        calendar: None,
    };
    assert_eq!(refused.resolve(), Err(Error::InvalidSystemTime));
    let low_only = Timestamp {
        raw: FileTime { dw_low_date_time: 1, dw_high_date_time: 0 },
        calendar: None,
    };
    assert_eq!(low_only.resolve(), Err(Error::InvalidSystemTime));
}

#[test]
fn the_name_ends_at_the_first_terminator() {
    assert_eq!(read_name(b"name.txt\0rest\0more"), b"name.txt".to_vec());
    assert_eq!(read_name(b"no terminator"), b"no terminator".to_vec());
    assert_eq!(read_name(b"\0hidden"), Vec::<u8>::new());
    assert_eq!(read_name(b""), Vec::<u8>::new());
    let mut buffer = [0u8; 260];
    buffer[..3].copy_from_slice(b"abc");
    assert_eq!(read_name(&buffer), b"abc".to_vec());
    assert_eq!(read_name(&[0xE9, 0xFF, 0x00, 0x41]), vec![0xE9, 0xFF]);
}

#[test]
fn only_dot_and_dot_dot_are_skipped() {
    assert!(self_or_parent(b"."));
    assert!(self_or_parent(b".."));
    assert!(!self_or_parent(b"..."));
    assert!(!self_or_parent(b""));
    assert!(!self_or_parent(b".a"));
    assert!(!self_or_parent(b"a."));
    assert!(!self_or_parent(b"a"));
    assert!(!self_or_parent(b".git"));
}

#[test]
fn paths_are_joined_with_a_backslash() {
    assert_eq!(join(b"C:\\Users", b"me"), b"C:\\Users\\me".to_vec());
    assert_eq!(join(b"", b"x"), b"\\x".to_vec());
    assert_eq!(join(b"D:", b""), b"D:\\".to_vec());
}

#[test]
fn the_search_pattern_matches_everything_below_the_path() {
    assert_eq!(pattern_for(b"D:\\Desktop"), b"D:\\Desktop\\*\0".to_vec());
    assert_eq!(pattern_for(b""), b"\\*\0".to_vec());
}

#[test]
fn extension_follows_the_last_dot() {
    assert_eq!(extension(b"archive.tar.gz"), Some(&b"gz"[..]));
    assert_eq!(extension(b".gitignore"), None);
    assert_eq!(extension(b"README"), None);
    assert_eq!(extension(b"a.b"), Some(&b"b"[..]));
    assert_eq!(extension(b"trailing."), Some(&b""[..]));
    assert_eq!(extension(b""), None);
    assert_eq!(extension(b"."), None);
    assert_eq!(extension(b".."), None);
    assert_eq!(extension(b".config.json"), None);
    assert_eq!(extension(b"x..y"), Some(&b"y"[..]));
}

#[test]
fn entry_extension_reads_the_name() {
    let built = DirEntry::from_record(b"C:", &record(b"archive.tar.gz", 0, 0, 1));
    let entry = built.unwrap().unwrap();
    assert_eq!(entry.extension(), Some(&b"gz"[..]));
    let dotfile = DirEntry::from_record(b"C:", &record(b".gitignore", 0, 0, 1)).unwrap().unwrap();
    assert_eq!(dotfile.extension(), None);
    let plain = DirEntry::from_record(b"C:", &record(b"README", 0, 0, 1)).unwrap().unwrap();
    assert_eq!(plain.extension(), None);
}

#[test]
fn a_file_record_becomes_an_entry_with_a_size() {
    let raw = record(b"y.bin", attributes::ARCHIVE | 0x8000_0000, 0, 0);
    let entry = DirEntry::from_record(b"C:\\root", &raw).unwrap().unwrap();
    assert_eq!(entry.name, b"y.bin".to_vec());
    assert_eq!(entry.path, b"C:\\root\\y.bin".to_vec());
    assert_eq!(entry.path(), &b"C:\\root\\y.bin"[..]);
    assert_eq!(entry.date_created, calendar(2020, 1, 2, 3, 4));
    assert_eq!(entry.last_access, calendar(2021, 5, 6, 7, 8));
    assert_eq!(entry.last_write, calendar(2022, 9, 10, 11, 12));
    assert_eq!(entry.attributes.bits(), attributes::ARCHIVE);
    assert_eq!(entry.size, Some(0));
    assert!(!entry.is_folder());
}

#[test]
fn a_folder_record_becomes_an_entry_without_a_size() {
    let raw = record(b"sub", attributes::DIRECTORY | attributes::HIDDEN, 7, 9);
    let entry = DirEntry::from_record(b"C:\\root", &raw).unwrap().unwrap();
    assert_eq!(entry.name, b"sub".to_vec());
    assert_eq!(entry.path, b"C:\\root\\sub".to_vec());
    assert_eq!(entry.size, None);
    assert!(entry.is_folder());
    assert!(entry.attributes.contains(attributes::HIDDEN));
}

#[test]
fn is_folder_goes_by_the_attributes_alone() {
    let mut entry = DirEntry::from_record(b"C:", &record(b"f", 0, 0, 3)).unwrap().unwrap();
    entry.size = None;
    assert!(!entry.is_folder());
    entry.attributes = FileAttributes::decode(attributes::DIRECTORY);
    entry.size = Some(3);
    assert!(entry.is_folder());
}

#[test]
fn self_and_parent_records_are_no_entries() {
    assert_eq!(DirEntry::from_record(b"C:", &record(b".", attributes::DIRECTORY, 0, 0)), None);
    assert_eq!(DirEntry::from_record(b"C:", &record(b"..", attributes::DIRECTORY, 0, 0)), None);
    let mut broken = record(b".", attributes::DIRECTORY, 0, 0);
    broken.creation_time.calendar = None;
    assert_eq!(DirEntry::from_record(b"C:", &broken), None);
}

#[test]
fn a_record_with_a_refused_timestamp_is_an_error() {
    let mut first = record(b"a", 0, 0, 1);
    first.creation_time.calendar = None;
    assert_eq!(DirEntry::from_record(b"C:", &first), Some(Err(Error::InvalidSystemTime)));
    let mut second = record(b"a", 0, 0, 1);
    second.last_access_time.calendar = None;
    assert_eq!(DirEntry::from_record(b"C:", &second), Some(Err(Error::InvalidSystemTime)));
    let mut third = record(b"a", 0, 0, 1);
    third.last_write_time.calendar = None;
    assert_eq!(DirEntry::from_record(b"C:", &third), Some(Err(Error::InvalidSystemTime)));
}

#[test]
fn a_record_with_an_unset_timestamp_gets_the_zero_time() {
    let mut raw = record(b"a", 0, 0, 1);
    raw.last_write_time =
        Timestamp { raw: FileTime { dw_low_date_time: 0, dw_high_date_time: 0 }, calendar: None };
    let entry = DirEntry::from_record(b"C:", &raw).unwrap().unwrap();
    assert_eq!(entry.last_write, SystemTime::default());
    assert_eq!(entry.date_created, calendar(2020, 1, 2, 3, 4));
}

#[test]
fn drives_are_read_off_the_mask() {
    let none = drives(0);
    assert_eq!(none, [None; 26]);
    let some = drives(0b101);
    assert_eq!(some[0], Some('A'));
    assert_eq!(some[1], None);
    assert_eq!(some[2], Some('C'));
    assert!(some[3..].iter().all(|slot| slot.is_none()));
    let last = drives(1 << 25);
    assert_eq!(last[25], Some('Z'));
    assert!(last[..25].iter().all(|slot| slot.is_none()));
}

#[test]
fn drives_ignore_bits_beyond_the_letters() {
    assert_eq!(drives(1 << 26), [None; 26]);
    assert_eq!(drives(0xFC00_0000), [None; 26]);
    let all = drives(u32::MAX);
    let letters: String = all.iter().map(|slot| slot.unwrap()).collect();
    assert_eq!(letters, "ABCDEFGHIJKLMNOPQRSTUVWXYZ");
}

#[test]
fn raw_timestamps_compare_by_the_high_word_first() {
    let early = FileTime { dw_low_date_time: u32::MAX, dw_high_date_time: 1 };
    let late = FileTime { dw_low_date_time: 0, dw_high_date_time: 2 };
    assert!(early < late);
    assert!(late > early);
    assert!(early <= early);
    assert!(!(late <= early));
    assert_eq!(early.partial_cmp(&late), Some(std::cmp::Ordering::Less));
    assert_eq!(late.partial_cmp(&early), Some(std::cmp::Ordering::Greater));
    assert_eq!(late.partial_cmp(&late), Some(std::cmp::Ordering::Equal));
    let low = FileTime { dw_low_date_time: 1, dw_high_date_time: 2 };
    assert!(late < low);
}
