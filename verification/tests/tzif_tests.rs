use tzif::{FormatFault, Header, IsStd, IsUT, ParseError, Time, TimeZoneInfo};

/// A 44-byte header with the given version byte and counts, in wire order.
fn header(
    ver: u8,
    isutcnt: u32,
    isstdcnt: u32,
    leapcnt: u32,
    timecnt: u32,
    typecnt: u32,
    charcnt: u32,
) -> Vec<u8> {
    let mut out = vec![0x54, 0x5a, 0x69, 0x66, ver];
    out.extend_from_slice(&[0u8; 15]);
    for c in [isutcnt, isstdcnt, leapcnt, timecnt, typecnt, charcnt] {
        out.extend_from_slice(&c.to_be_bytes());
    }
    out
}

/// A minimal valid v1-mode body: one transition at 1000 of type 0, one type
/// (offset 3600, not DST, designation "UTC"), no leap records, no indicator
/// tables.
fn minimal_v1(ver: u8) -> Vec<u8> {
    let mut buf = header(ver, 0, 0, 0, 1, 1, 4);
    buf.extend_from_slice(&1000i32.to_be_bytes()); // transition time
    buf.push(0); // transition type index
    buf.extend_from_slice(&3600i32.to_be_bytes()); // ut_off_secs
    buf.push(0); // is_dst
    buf.push(0); // desig_idx
    buf.extend_from_slice(b"UTC\0");
    buf
}

#[test]
fn test_header_v1() {
    let bytes = [
        0x54, 0x5a, 0x69, 0x66,
        0x00, 0x00, 0x00, 0x00,
        0x00, 0x00, 0x00, 0x00,
        0x00, 0x00, 0x00, 0x00,
        0x00, 0x00, 0x00, 0x00,
        0x00, 0x00, 0x00, 0x01,
        0x00, 0x00, 0x00, 0x01,
        0x00, 0x00, 0x00, 0x1b,
        0x00, 0x00, 0x00, 0x00,
        0x00, 0x00, 0x00, 0x01,
        0x00, 0x00, 0x00, 0x04,
    ];

    let hdr = Header::from_array(bytes);
    println!("{hdr:#?}");
    assert_eq!(b"TZif", &hdr.magic);
    assert_eq!(0, hdr.ver);
    assert_eq!(1u32, hdr.isutcnt);
    assert_eq!(1u32, hdr.isstdcnt);
    assert_eq!(27u32, hdr.leapcnt);
    assert_eq!(0u32, hdr.timecnt);
    assert_eq!(1u32, hdr.typecnt);
    assert_eq!(4u32, hdr.charcnt);
}

#[test]
fn minimal_end_to_end() {
    let buf = minimal_v1(0);
    let info = TimeZoneInfo::parse(&buf).unwrap();
    assert_eq!(info.version, 1);
    assert_eq!(info.transition_times, vec![1000i64]);
    assert_eq!(info.transition_types, vec![0u8]);
    assert_eq!(info.local_time_types.len(), 1);
    assert_eq!(info.local_time_types[0].ut_off_secs, 3600);
    assert!(!info.local_time_types[0].is_dst);
    assert_eq!(info.local_time_types[0].desig_idx, 0);
    assert_eq!(info.time_zone_designations, b"UTC\0".to_vec());
    assert!(info.leap_second_records.is_empty());
    assert!(info.is_std.is_empty());
    assert!(info.is_ut.is_empty());

    let mut it = info.iter_transitions();
    let t = it.next().unwrap();
    // Absent indicator tables default to (Wall, Local): a wall-clock reading.
    assert_eq!(t.at_time, Time::LocalWall(1000));
    assert_eq!(t.local.desig, b"UTC".to_vec());
    assert_eq!(t.local.ut_offset_secs, 3600);
    assert!(!t.local.is_dst);
    assert_eq!(t.at_time.to_ut(&t.local), 4600);
    assert!(it.next().is_none());
}

#[test]
fn iteration_is_restartable() {
    let buf = minimal_v1(0);
    let info = TimeZoneInfo::parse(&buf).unwrap();
    let mut first = info.iter_transitions();
    assert!(first.next().is_some());
    assert!(first.next().is_none());
    let mut second = info.iter_transitions();
    assert!(second.next().is_some());
}

#[test]
fn v1_trailing_bytes_ignored() {
    let plain = minimal_v1(0);
    let mut noisy = plain.clone();
    noisy.extend_from_slice(b"trailing garbage \xff\x00\x7f after the body");
    let a = TimeZoneInfo::parse(&plain).unwrap();
    let b = TimeZoneInfo::parse(&noisy).unwrap();
    assert_eq!(a.version, b.version);
    assert_eq!(a.transition_times, b.transition_times);
    assert_eq!(a.transition_types, b.transition_types);
    assert_eq!(a.time_zone_designations, b.time_zone_designations);
    assert_eq!(a.local_time_types.len(), b.local_time_types.len());
    assert_eq!(a.leap_second_records, b.leap_second_records);
    assert_eq!(a.is_std, b.is_std);
    assert_eq!(a.is_ut, b.is_ut);
}

#[test]
fn v2_truncated_second_block_falls_back() {
    // A version-2 stream whose second block is cut off mid-header.
    let mut buf = minimal_v1(b'2');
    buf.extend_from_slice(b"TZif2");
    let info = TimeZoneInfo::parse(&buf).unwrap();
    assert_eq!(info.version, 2);
    assert_eq!(info.transition_times, vec![1000i64]);
}

#[test]
fn v2_corrupt_second_magic_falls_back() {
    let mut buf = minimal_v1(b'2');
    let mut second = minimal_v1(b'2');
    second[0] = b'X'; // corrupt the second block's magic
    buf.extend_from_slice(&second);
    let info = TimeZoneInfo::parse(&buf).unwrap();
    assert_eq!(info.version, 2);
    assert_eq!(info.transition_times, vec![1000i64]);
}

#[test]
fn v2_good_second_block_wins() {
    let mut buf = minimal_v1(b'2');
    // Second block in modern mode: one 64-bit transition time beyond i32.
    let mut second = header(b'2', 0, 0, 0, 1, 1, 4);
    second.extend_from_slice(&0x1_0000_0000i64.to_be_bytes());
    second.push(0);
    second.extend_from_slice(&(-3600i32).to_be_bytes());
    second.push(1); // is_dst
    second.push(0);
    second.extend_from_slice(b"XST\0");
    buf.extend_from_slice(&second);
    let info = TimeZoneInfo::parse(&buf).unwrap();
    assert_eq!(info.version, 2);
    assert_eq!(info.transition_times, vec![0x1_0000_0000i64]);
    assert_eq!(info.local_time_types[0].ut_off_secs, -3600);
    assert!(info.local_time_types[0].is_dst);
    assert_eq!(info.time_zone_designations, b"XST\0".to_vec());
}

#[test]
fn bad_magic_rejected() {
    let mut buf = minimal_v1(0);
    buf[1] = b'X';
    assert_eq!(TimeZoneInfo::parse(&buf).unwrap_err(), ParseError::InvalidFormat(FormatFault::BadMagic));
}

#[test]
fn bad_version_rejected() {
    let buf = minimal_v1(b'4');
    assert_eq!(TimeZoneInfo::parse(&buf).unwrap_err(), ParseError::InvalidFormat(FormatFault::BadVersion));
}

#[test]
fn short_header_rejected() {
    let buf = vec![0x54, 0x5a, 0x69, 0x66, 0x00];
    assert_eq!(TimeZoneInfo::parse(&buf).unwrap_err(), ParseError::UnexpectedEof);
}

#[test]
fn truncated_body_rejected() {
    let mut buf = minimal_v1(0);
    buf.truncate(46); // cut inside the transition time block
    assert_eq!(TimeZoneInfo::parse(&buf).unwrap_err(), ParseError::UnexpectedEof);
}

#[test]
fn bad_isstdcnt_rejected() {
    // isstdcnt = 2 with typecnt = 1: neither 0 nor typecnt.
    let buf = header(0, 0, 2, 0, 0, 1, 1);
    assert_eq!(TimeZoneInfo::parse(&buf).unwrap_err(), ParseError::InvalidFormat(FormatFault::BadStdCount));
}

#[test]
fn bad_isutcnt_rejected() {
    let buf = header(0, 3, 0, 0, 0, 1, 1);
    assert_eq!(TimeZoneInfo::parse(&buf).unwrap_err(), ParseError::InvalidFormat(FormatFault::BadUtCount));
}

#[test]
fn type_index_out_of_range_rejected() {
    let mut buf = minimal_v1(0);
    // The single transition's type index: 1 with typecnt = 1 is out of range.
    buf[48] = 1;
    assert_eq!(TimeZoneInfo::parse(&buf).unwrap_err(), ParseError::InvalidFormat(FormatFault::TypeIndexOutOfRange));
}

#[test]
fn bad_dst_flag_rejected() {
    let mut buf = minimal_v1(0);
    buf[53] = 2; // the type's is_dst byte
    assert_eq!(TimeZoneInfo::parse(&buf).unwrap_err(), ParseError::InvalidFormat(FormatFault::BadDstFlag));
}

#[test]
fn bad_std_wall_byte_rejected() {
    let mut buf = header(0, 0, 1, 0, 0, 1, 1);
    buf.extend_from_slice(&0i32.to_be_bytes());
    buf.push(0);
    buf.push(0);
    buf.push(0); // designation blob
    buf.push(9); // standard/wall indicator: not 0 or 1
    assert_eq!(TimeZoneInfo::parse(&buf).unwrap_err(), ParseError::InvalidFormat(FormatFault::BadStdWallByte));
}

#[test]
fn bad_ut_local_byte_rejected() {
    let mut buf = header(0, 1, 0, 0, 0, 1, 1);
    buf.extend_from_slice(&0i32.to_be_bytes());
    buf.push(0);
    buf.push(0);
    buf.push(0); // designation blob
    buf.push(7); // UT/local indicator: not 0 or 1
    assert_eq!(TimeZoneInfo::parse(&buf).unwrap_err(), ParseError::InvalidFormat(FormatFault::BadUtLocalByte));
}

#[test]
fn wall_and_ut_rejected() {
    // isutcnt = typecnt = 1 with the UT bit set, and no standard/wall table:
    // the type defaults to Wall, which may not pair with UT.
    let mut buf = header(0, 1, 0, 0, 0, 1, 1);
    buf.extend_from_slice(&0i32.to_be_bytes());
    buf.push(0);
    buf.push(0);
    buf.push(0); // designation blob
    buf.push(1); // UT/local indicator: UT
    assert_eq!(TimeZoneInfo::parse(&buf).unwrap_err(), ParseError::InvalidFormat(FormatFault::WallAndUt));
}

#[test]
fn to_ut_three_interpretations() {
    let plain = tzif::LocalTimeType {
        desig: b"AAA".to_vec(),
        ut_offset_secs: 1800,
        is_dst: false,
    };
    let dst = tzif::LocalTimeType {
        desig: b"BBB".to_vec(),
        ut_offset_secs: 1800,
        is_dst: true,
    };
    assert_eq!(Time::UT(12345).to_ut(&plain), 12345);
    assert_eq!(Time::UT(12345).to_ut(&dst), 12345);
    assert_eq!(Time::LocalStandard(-500).to_ut(&plain), 1300);
    assert_eq!(Time::LocalStandard(-500).to_ut(&dst), 1300);
    assert_eq!(Time::LocalWall(-500).to_ut(&plain), 1300);
    assert_eq!(Time::LocalWall(-500).to_ut(&dst), 4900);
}

#[test]
fn designation_lookup_splits_on_nul() {
    // Two types sharing a blob "UTC\0EST" whose second designation has no
    // trailing NUL, and a third whose index is past the end of the blob.
    let mut buf = header(0, 0, 0, 0, 0, 3, 7);
    for (off, idx) in [(0i32, 0u8), (3600, 4), (7200, 200)] {
        buf.extend_from_slice(&off.to_be_bytes());
        buf.push(0);
        buf.push(idx);
    }
    buf.extend_from_slice(b"UTC\0EST");
    let info = TimeZoneInfo::parse(&buf).unwrap();
    assert_eq!(info.local_time_type(0).desig, b"UTC".to_vec());
    assert_eq!(info.local_time_type(1).desig, b"EST".to_vec());
    assert_eq!(info.local_time_type(2).desig, Vec::<u8>::new());
}

#[test]
fn counts_round_trip() {
    // Non-trivial counts in every table; re-derive them from the decoded
    // sequences' lengths.
    let mut buf = header(0, 2, 2, 1, 2, 2, 5);
    buf.extend_from_slice(&100i32.to_be_bytes());
    buf.extend_from_slice(&200i32.to_be_bytes());
    buf.push(0);
    buf.push(1);
    for (off, dst, idx) in [(0i32, 0u8, 0u8), (3600, 1, 4)] {
        buf.extend_from_slice(&off.to_be_bytes());
        buf.push(dst);
        buf.push(idx);
    }
    buf.extend_from_slice(b"UTC\0A");
    buf.extend_from_slice(&50i32.to_be_bytes()); // leap instant
    buf.extend_from_slice(&1i32.to_be_bytes()); // leap correction
    buf.extend_from_slice(&[1, 1]); // standard/wall
    buf.extend_from_slice(&[1, 1]); // UT/local
    let info = TimeZoneInfo::parse(&buf).unwrap();
    assert_eq!(info.transition_times.len(), 2);
    assert_eq!(info.transition_types.len(), 2);
    assert_eq!(info.local_time_types.len(), 2);
    assert_eq!(info.time_zone_designations.len(), 5);
    assert_eq!(info.leap_second_records.len(), 1);
    assert_eq!(info.leap_second_records[0], (50, 1));
    assert_eq!(info.is_std, vec![IsStd::Standard, IsStd::Standard]);
    assert_eq!(info.is_ut, vec![IsUT::UT, IsUT::UT]);

    let mut it = info.iter_transitions();
    let first = it.next().unwrap();
    assert_eq!(first.at_time, Time::UT(100));
    assert_eq!(first.local.desig, b"UTC".to_vec());
    let second = it.next().unwrap();
    assert_eq!(second.at_time, Time::UT(200));
    assert_eq!(second.local.desig, b"A".to_vec());
    assert!(second.local.is_dst);
    assert!(it.next().is_none());
}
