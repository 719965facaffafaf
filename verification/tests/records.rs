use fat32::dir::{lookup, position, Entry};
use fat32::metadata::{Attributes, Metadata, Timestamp};
use fat32::name::{checksum, cut_at_nul, decode_utf16, entry_name, long_name, short_name};
use fat32::path::{chars_of, components, fold_case, same_name};
use fat32::util::{copy_into, le_u16, le_u32, le_u64};

fn short(name: &[u8; 11], attr: u8, first: u32, size: u32) -> [u8; 32] {
    let mut raw = [0u8; 32];
    raw[..11].copy_from_slice(name);
    raw[11] = attr;
    raw[20..22].copy_from_slice(&((first >> 16) as u16).to_le_bytes());
    raw[26..28].copy_from_slice(&(first as u16).to_le_bytes());
    raw[28..32].copy_from_slice(&size.to_le_bytes());
    raw
}

fn sum_of(name: &[u8; 11]) -> u8 {
    let mut sum = 0u8;
    for b in name {
        sum = ((sum & 1) << 7).wrapping_add(sum >> 1).wrapping_add(*b);
    }
    sum
}

/// The long-name records for `name`, in the order in which a directory
/// stores them, with `sum` as the checksum of each.
fn long_records(name: &str, sum: u8) -> Vec<u8> {
    let mut units: Vec<u16> = name.encode_utf16().collect();
    if units.is_empty() || units.len() % 13 != 0 {
        units.push(0);
    }
    while units.len() % 13 != 0 {
        units.push(0xFFFF);
    }
    let count = units.len() / 13;
    let mut out = Vec::new();
    for number in (1..=count).rev() {
        let mut raw = [0u8; 32];
        raw[0] = number as u8 | if number == count { 0x40 } else { 0 };
        raw[11] = 0x0F;
        raw[13] = sum;
        let part = &units[13 * (number - 1)..13 * number];
        let offsets = [1usize, 3, 5, 7, 9, 14, 16, 18, 20, 22, 24, 28, 30];
        for (unit, at) in part.iter().zip(offsets.iter()) {
            raw[*at..*at + 2].copy_from_slice(&unit.to_le_bytes());
        }
        out.extend_from_slice(&raw);
    }
    out
}

fn names(entries: &[Entry]) -> Vec<String> {
    entries.iter().map(|e| e.name().to_string()).collect()
}

// Integers.

#[test]
fn little_endian_integers() {
    let raw = [0x01u8, 0x02, 0x03, 0x04, 0x05, 0x06, 0x07, 0x08, 0xFF];
    assert_eq!(le_u16(&raw, 0), 0x0201);
    assert_eq!(le_u16(&raw, 7), 0xFF08);
    assert_eq!(le_u32(&raw, 0), 0x0403_0201);
    assert_eq!(le_u32(&raw, 5), 0xFF08_0706);
    assert_eq!(le_u64(&raw, 0), 0x0807_0605_0403_0201);
    assert_eq!(le_u64(&raw, 1), 0xFF08_0706_0504_0302);
    assert_eq!(le_u32(&[0xFF; 4], 0), u32::MAX);
}

#[test]
fn copy_into_replaces_a_range() {
    let mut dst = [0u8; 8];
    copy_into(&mut dst, 2, &[1, 2, 3, 4, 5], 1, 3);
    assert_eq!(dst, [0, 0, 2, 3, 4, 0, 0, 0]);
    copy_into(&mut dst, 8, &[9], 0, 0);
    assert_eq!(dst, [0, 0, 2, 3, 4, 0, 0, 0]);
}

// Records.

#[test]
fn file_record_round_trip() {
    let raw = short(b"FILE    TXT", 0x20, 0x0012_3456, 1234);
    let entries = Entry::decode_all(&raw);
    assert_eq!(entries.len(), 1);
    match &entries[0] {
        Entry::File(file) => {
            assert_eq!(file.metadata.name, "FILE.TXT");
            assert_eq!(file.metadata.size, 1234);
            assert_eq!(file.metadata.first_cluster, 0x0012_3456);
            assert_eq!(file.position, 0);
            assert_eq!(file.metadata().name(), "FILE.TXT");
            assert_eq!(file.metadata().size(), 1234);
        }
        Entry::Dir(_) => panic!("a file was decoded as a directory"),
    }
    assert_eq!(entries[0].metadata().name(), "FILE.TXT");
    assert_eq!(entries[0].metadata().size(), 1234);
}

#[test]
fn directory_bit_makes_a_directory() {
    let raw = short(b"SUB        ", 0x10, 9, 0);
    let entry = Entry::decode(&[], 0, &raw);
    assert!(entry.is_dir());
    assert_eq!(entry.name(), "SUB");
    assert_eq!(entry.metadata().first_cluster, 9);
    let raw = short(b"SUB        ", 0x30, 9, 0);
    assert!(Entry::decode(&[], 0, &raw).is_dir());
    let raw = short(b"LABEL      ", 0x08, 0, 0);
    let label = Entry::decode(&[], 0, &raw);
    assert!(label.is_file());
    assert!(label.metadata().attributes.volume_id());
}

#[test]
fn end_record_ends_the_directory() {
    let mut bytes = Vec::new();
    bytes.extend_from_slice(&short(b"A          ", 0x20, 3, 1));
    bytes.extend_from_slice(&[0u8; 32]);
    bytes.extend_from_slice(&short(b"B          ", 0x20, 4, 2));
    assert_eq!(names(&Entry::decode_all(&bytes)), vec!["A"]);
    assert_eq!(Entry::decode_all(&[0u8; 64]).len(), 0);
    assert_eq!(Entry::decode_all(&[]).len(), 0);
}

#[test]
fn deleted_records_are_skipped() {
    let mut bytes = Vec::new();
    let mut deleted = short(b"GONE    TXT", 0x20, 3, 1);
    deleted[0] = 0xE5;
    bytes.extend_from_slice(&deleted);
    bytes.extend_from_slice(&short(b"KEPT    TXT", 0x20, 4, 2));
    bytes.extend_from_slice(&deleted);
    bytes.extend_from_slice(&short(b"ALSO       ", 0x10, 5, 0));
    let entries = Entry::decode_all(&bytes);
    assert_eq!(names(&entries), vec!["KEPT.TXT", "ALSO"]);
    assert!(entries[0].is_file());
    assert!(entries[1].is_dir());
}

#[test]
fn trailing_partial_record_is_ignored() {
    let mut bytes = Vec::new();
    bytes.extend_from_slice(&short(b"A          ", 0x20, 3, 1));
    bytes.extend_from_slice(&[b'B'; 31]);
    assert_eq!(names(&Entry::decode_all(&bytes)), vec!["A"]);
}

// Short names.

#[test]
fn short_names_are_trimmed_and_joined() {
    assert_eq!(short_name(b"FILE    TXT"), "FILE.TXT");
    assert_eq!(short_name(b"README     "), "README");
    assert_eq!(short_name(b"ABCDEFGHXYZ"), "ABCDEFGH.XYZ");
    assert_eq!(short_name(b"A       B  "), "A.B");
    assert_eq!(short_name(b"A B     C D"), "A B.C D");
    assert_eq!(short_name(b"        TXT"), ".TXT");
    assert_eq!(short_name(b"           "), "");
    assert_eq!(short_name(b".          "), ".");
    assert_eq!(short_name(b"..         "), "..");
}

#[test]
fn short_names_keep_their_case() {
    assert_eq!(short_name(b"MiXeD   tXt"), "MiXeD.tXt");
    assert_eq!(short_name(b"lower      "), "lower");
}

#[test]
fn short_name_bytes_above_ascii_are_code_points() {
    let mut raw = *b"CAF     TXT";
    raw[3] = 0xC9;
    assert_eq!(short_name(&raw), "CAF\u{C9}.TXT");
}

// Long names.

#[test]
fn checksum_of_a_short_name() {
    assert_eq!(checksum(b"FILE    TXT"), sum_of(b"FILE    TXT"));
    assert_eq!(checksum(b"           "), sum_of(b"           "));
    assert_eq!(checksum(&[0u8; 11]), 0);
    assert_eq!(checksum(&[1, 0, 0, 0, 0, 0, 0, 0, 0, 0, 0]), 0x40);
    assert_eq!(checksum(&[0, 0, 0, 0, 0, 0, 0, 0, 0, 0, 0xFF]), 0xFF);
    assert_eq!(checksum(&[0, 0, 0, 0, 0, 0, 0, 0, 0, 0xFF, 0xFF]), 0xFE);
    assert_ne!(checksum(b"FILE    TXT"), checksum(b"FILE    TXU"));
}

#[test]
fn long_name_replaces_the_short_name() {
    let name = b"LONGFI~1TXT";
    let raw = short(name, 0x20, 3, 7);
    let long = long_records("long file name.txt", sum_of(name));
    assert_eq!(long.len(), 64);
    assert_eq!(entry_name(&long, 2, &raw), "long file name.txt");
    let mut bytes = long.clone();
    bytes.extend_from_slice(&raw);
    bytes.extend_from_slice(&short(b"NEXT       ", 0x20, 4, 1));
    let entries = Entry::decode_all(&bytes);
    assert_eq!(names(&entries), vec!["long file name.txt", "NEXT"]);
    assert_eq!(entries[0].metadata().size(), 7);
}

#[test]
fn long_name_of_exactly_thirteen_units() {
    let name = b"THIRTE~1   ";
    let long = long_records("thirteen.char", sum_of(name));
    assert_eq!(long.len(), 32);
    assert_eq!(long_name(&long, 1, name), Some("thirteen.char".to_string()));
}

#[test]
fn long_name_may_hold_any_character() {
    let name = b"UNICOD~1   ";
    let text = "caf\u{e9} \u{4e2d}\u{6587} \u{1F600}!";
    let long = long_records(text, sum_of(name));
    assert_eq!(long.len(), 32);
    assert_eq!(long_name(&long, 1, name), Some(text.to_string()));
    let longer = "\u{1F600}\u{1F601}\u{1F602}\u{1F603}\u{1F604}\u{1F605}\u{1F606}";
    let long = long_records(longer, sum_of(name));
    assert_eq!(long.len(), 64);
    assert_eq!(long_name(&long, 2, name), Some(longer.to_string()));
}

#[test]
fn wrong_checksum_falls_back_to_the_short_name() {
    let name = b"LONGFI~1TXT";
    let raw = short(name, 0x20, 3, 7);
    let long = long_records("long file name.txt", sum_of(name).wrapping_add(1));
    assert_eq!(long_name(&long, 2, &raw), None);
    assert_eq!(entry_name(&long, 2, &raw), "LONGFI~1.TXT");
}

#[test]
fn inconsistent_numbering_falls_back_to_the_short_name() {
    let name = b"LONGFI~1TXT";
    let raw = short(name, 0x20, 3, 7);
    let good = long_records("long file name.txt", sum_of(name));

    let mut unflagged = good.clone();
    unflagged[0] &= !0x40;
    assert_eq!(entry_name(&unflagged, 2, &raw), "LONGFI~1.TXT");

    let mut twice_flagged = good.clone();
    twice_flagged[32] |= 0x40;
    assert_eq!(entry_name(&twice_flagged, 2, &raw), "LONGFI~1.TXT");

    let mut misnumbered = good.clone();
    misnumbered[32] = 2;
    assert_eq!(entry_name(&misnumbered, 2, &raw), "LONGFI~1.TXT");

    // The second record alone lacks the flag; the first alone has the wrong number.
    assert_eq!(entry_name(&good[32..], 1, &raw), "LONGFI~1.TXT");
    assert_eq!(entry_name(&good[..32], 1, &raw), "LONGFI~1.TXT");
    assert_eq!(entry_name(&good, 0, &raw), "LONGFI~1.TXT");
    assert_eq!(entry_name(&good, 2, &raw), "long file name.txt");
}

#[test]
fn lone_surrogate_falls_back_to_the_short_name() {
    let name = b"BAD        ";
    let mut long = long_records("ab", sum_of(name));
    long[3..5].copy_from_slice(&0xD800u16.to_le_bytes());
    assert_eq!(long_name(&long, 1, name), None);
    assert_eq!(entry_name(&long, 1, name), "BAD");
    long[3..5].copy_from_slice(&0xDC00u16.to_le_bytes());
    assert_eq!(long_name(&long, 1, name), None);
}

#[test]
fn empty_long_name_falls_back_to_the_short_name() {
    let name = b"EMPTY      ";
    let long = long_records("", sum_of(name));
    assert_eq!(long.len(), 32);
    assert_eq!(long_name(&long, 1, name), None);
    assert_eq!(entry_name(&long, 1, name), "EMPTY");
}

#[test]
fn deleted_record_drops_the_long_name_before_it() {
    let name = b"SHORT      ";
    let long = long_records("a long name", sum_of(name));
    let mut deleted = short(b"GONE       ", 0x20, 3, 1);
    deleted[0] = 0xE5;
    let mut bytes = long.clone();
    bytes.extend_from_slice(&deleted);
    bytes.extend_from_slice(&short(name, 0x20, 4, 1));
    assert_eq!(names(&Entry::decode_all(&bytes)), vec!["SHORT"]);
}

#[test]
fn utf16_is_decoded() {
    assert_eq!(decode_utf16(&vec![]), Some(String::new()));
    assert_eq!(decode_utf16(&vec![0x68, 0x69]), Some("hi".to_string()));
    assert_eq!(decode_utf16(&vec![0xD7FF, 0xE000, 0xFFFF]), Some("\u{D7FF}\u{E000}\u{FFFF}".to_string()));
    assert_eq!(decode_utf16(&vec![0xD83D, 0xDE00]), Some("\u{1F600}".to_string()));
    assert_eq!(decode_utf16(&vec![0xD800, 0xDC00]), Some("\u{10000}".to_string()));
    assert_eq!(decode_utf16(&vec![0xDBFF, 0xDFFF]), Some("\u{10FFFF}".to_string()));
    assert_eq!(decode_utf16(&vec![0x41, 0xD83D]), None);
    assert_eq!(decode_utf16(&vec![0xD83D, 0x41]), None);
    assert_eq!(decode_utf16(&vec![0xDE00, 0xD83D]), None);
    assert_eq!(decode_utf16(&vec![0xD83D, 0xD83D, 0xDE00]), None);
}

#[test]
fn units_are_cut_at_the_first_zero() {
    assert_eq!(cut_at_nul(&vec![1, 2, 0, 3, 0]), vec![1, 2]);
    assert_eq!(cut_at_nul(&vec![0, 1]), Vec::<u16>::new());
    assert_eq!(cut_at_nul(&vec![7, 8]), vec![7, 8]);
    assert_eq!(cut_at_nul(&vec![]), Vec::<u16>::new());
}

// Attributes and timestamps.

#[test]
fn attribute_bits() {
    let all = Attributes(0x3F);
    assert!(all.read_only() && all.hidden() && all.system());
    assert!(all.volume_id() && all.directory() && all.archive());
    let none = Attributes(0xC0);
    assert!(!none.read_only() && !none.hidden() && !none.system());
    assert!(!none.volume_id() && !none.directory() && !none.archive());
    assert!(Attributes(0x01).read_only());
    assert!(Attributes(0x02).hidden());
    assert!(Attributes(0x04).system());
    assert!(Attributes(0x08).volume_id());
    assert!(Attributes(0x10).directory());
    assert!(Attributes(0x20).archive());
    assert!(!Attributes(0x20).directory());
}

fn pack_date(year: u16, month: u16, day: u16) -> u16 {
    (year - 1980) << 9 | month << 5 | day
}

fn pack_time(hour: u16, minute: u16, second: u16) -> u16 {
    hour << 11 | minute << 5 | second / 2
}

#[test]
fn timestamp_is_decoded() {
    let stamp = Timestamp::new(pack_date(2018, 3, 14), pack_time(15, 9, 26)).unwrap();
    assert_eq!(
        stamp,
        Timestamp { year: 2018, month: 3, day: 14, hour: 15, minute: 9, second: 26 }
    );
    assert_eq!(stamp.year(), 2018);
    assert_eq!(stamp.month(), 3);
    assert_eq!(stamp.day(), 14);
    assert_eq!(stamp.hour(), 15);
    assert_eq!(stamp.minute(), 9);
    assert_eq!(stamp.second(), 26);
    assert_eq!(
        Timestamp::new(0x0021, 0),
        Some(Timestamp { year: 1980, month: 1, day: 1, hour: 0, minute: 0, second: 0 })
    );
    assert_eq!(
        Timestamp::new(pack_date(2107, 12, 31), pack_time(23, 59, 58)),
        Some(Timestamp { year: 2107, month: 12, day: 31, hour: 23, minute: 59, second: 58 })
    );
    assert_eq!(Timestamp::new(0xFF9F, 0xBF7D).unwrap().year(), 2107);
}

#[test]
fn timestamp_out_of_range_is_rejected() {
    assert_eq!(Timestamp::new(0, 0), None);
    assert_eq!(Timestamp::new(pack_date(2000, 0, 10), 0), None);
    assert_eq!(Timestamp::new(pack_date(2000, 13, 10), 0), None);
    assert_eq!(Timestamp::new(pack_date(2000, 15, 10), 0), None);
    assert_eq!(Timestamp::new(pack_date(2000, 5, 0), 0), None);
    assert_eq!(Timestamp::new(pack_date(2001, 4, 31), 0), None);
    assert_eq!(Timestamp::new(pack_date(2001, 2, 29), 0), None);
    assert_eq!(Timestamp::new(pack_date(2100, 2, 29), 0), None);
    assert!(Timestamp::new(pack_date(2000, 2, 29), 0).is_some());
    assert!(Timestamp::new(pack_date(2004, 2, 29), 0).is_some());
    assert!(Timestamp::new(pack_date(2001, 2, 28), 0).is_some());
    assert!(Timestamp::new(pack_date(2001, 1, 31), 0).is_some());
    assert_eq!(Timestamp::new(pack_date(2000, 1, 1), pack_time(24, 0, 0)), None);
    assert_eq!(Timestamp::new(pack_date(2000, 1, 1), pack_time(31, 0, 0)), None);
    assert_eq!(Timestamp::new(pack_date(2000, 1, 1), pack_time(0, 60, 0)), None);
    assert_eq!(Timestamp::new(pack_date(2000, 1, 1), pack_time(0, 0, 60)), None);
    assert_eq!(Timestamp::new(pack_date(2000, 1, 1), pack_time(0, 0, 62)), None);
}

#[test]
fn record_timestamps_are_decoded() {
    let mut raw = short(b"DATED      ", 0x21, 3, 4);
    raw[14..16].copy_from_slice(&pack_time(1, 2, 4).to_le_bytes());
    raw[16..18].copy_from_slice(&pack_date(1999, 12, 31).to_le_bytes());
    raw[18..20].copy_from_slice(&pack_date(2001, 2, 3).to_le_bytes());
    raw[22..24].copy_from_slice(&pack_time(23, 59, 58).to_le_bytes());
    raw[24..26].copy_from_slice(&pack_date(2020, 2, 29).to_le_bytes());
    let metadata = Metadata::decode(&[], 0, &raw);
    assert_eq!(
        metadata.created(),
        Some(Timestamp { year: 1999, month: 12, day: 31, hour: 1, minute: 2, second: 4 })
    );
    assert_eq!(
        metadata.accessed(),
        Some(Timestamp { year: 2001, month: 2, day: 3, hour: 0, minute: 0, second: 0 })
    );
    assert_eq!(
        metadata.modified(),
        Some(Timestamp { year: 2020, month: 2, day: 29, hour: 23, minute: 59, second: 58 })
    );
    assert!(metadata.read_only());
    assert!(!metadata.hidden());
    assert_eq!(metadata.attributes, Attributes(0x21));
    let blank = Metadata::decode(&[], 0, &short(b"BLANK      ", 0, 0, 0));
    assert_eq!(blank.created(), None);
    assert_eq!(blank.accessed(), None);
    assert_eq!(blank.modified(), None);
}

// Paths.

#[test]
fn paths_are_split_at_slashes() {
    let split = |path: &str| -> Vec<String> {
        components(path).iter().map(|part| part.iter().collect()).collect()
    };
    assert_eq!(split("/a/bc/d.txt"), vec!["a", "bc", "d.txt"]);
    assert_eq!(split("a"), vec!["a"]);
    assert_eq!(split("//a///b/"), vec!["a", "b"]);
    assert_eq!(split("/"), Vec::<String>::new());
    assert_eq!(split(""), Vec::<String>::new());
    assert_eq!(split("/caf\u{e9}/x y"), vec!["caf\u{e9}", "x y"]);
    assert_eq!(chars_of("h\u{e9}!"), vec!['h', '\u{e9}', '!']);
}

#[test]
fn names_are_compared_without_case() {
    let same = |a: &str, b: &str| same_name(&chars_of(a), &chars_of(b));
    assert!(same("README", "readme"));
    assert!(same("File.TxT", "fILE.tXt"));
    assert!(same("", ""));
    assert!(!same("README", "READM"));
    assert!(!same("README", "README "));
    assert!(!same("a_b", "a-b"));
    assert!(!same("\u{c9}", "\u{e9}"));
    assert!(!same("@", "`"));
    assert!(!same("[", "{"));
    assert_eq!(fold_case('A'), 'a');
    assert_eq!(fold_case('Z'), 'z');
    assert_eq!(fold_case('a'), 'a');
    assert_eq!(fold_case('@'), '@');
    assert_eq!(fold_case('['), '[');
    assert_eq!(fold_case('1'), '1');
}

#[test]
fn lookup_takes_the_first_match() {
    let mut bytes = Vec::new();
    bytes.extend_from_slice(&short(b"ONE        ", 0x20, 3, 1));
    bytes.extend_from_slice(&short(b"Two        ", 0x20, 4, 2));
    bytes.extend_from_slice(&short(b"TWO        ", 0x20, 5, 3));
    let entries = Entry::decode_all(&bytes);
    assert_eq!(position(&entries, &chars_of("two")), Some(1));
    assert_eq!(position(&entries, &chars_of("ONE")), Some(0));
    assert_eq!(position(&entries, &chars_of("three")), None);
    let found = lookup(entries, &chars_of("tWO")).unwrap();
    assert_eq!(found.name(), "Two");
    assert_eq!(found.metadata().size(), 2);
    assert!(lookup(Entry::decode_all(&bytes), &chars_of("")).is_none());
}
