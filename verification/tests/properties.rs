use bytebuf::{Bytes, Ordering};

const ORDERINGS: [Ordering; 2] = [Ordering::LittleEndian, Ordering::BigEndian];

#[test]
fn round_trip_all_widths() {
    for ordering in &ORDERINGS {
        let mut b = Bytes::new();
        b.set_ordering(*ordering);

        let at8: usize = b.len();
        b.add_u8(0xa5);
        assert_eq!(b.read_u8(at8).unwrap(), 0xa5);

        let at32: usize = b.len();
        b.add_u32(0xdeadbeef);
        assert_eq!(b.read_u32(at32).unwrap(), 0xdeadbeef);

        let at64: usize = b.len();
        b.add_u64(0x0123456789abcdef);
        assert_eq!(b.read_u64(at64).unwrap(), 0x0123456789abcdef);

        assert_eq!(b.alter_u8(at8, 0x5a), true);
        assert_eq!(b.read_u8(at8).unwrap(), 0x5a);

        assert_eq!(b.alter_u32(at32, 0xfeedf00d), true);
        assert_eq!(b.read_u32(at32).unwrap(), 0xfeedf00d);

        assert_eq!(b.alter_u64(at64, 0xfedcba9876543210), true);
        assert_eq!(b.read_u64(at64).unwrap(), 0xfedcba9876543210);
    }
}

#[test]
fn ordering_symmetry_u32() {
    let mut le = Bytes::new();
    le.set_ordering(Ordering::LittleEndian);
    le.add_u32(0x01234567);

    let mut be = Bytes::new();
    be.set_ordering(Ordering::BigEndian);
    be.add_u32(0x01234567);

    let mut reversed = le.as_vec();
    reversed.reverse();
    assert_eq!(be.as_slice(), reversed.as_slice());
}

#[test]
fn ordering_symmetry_u64() {
    let mut le = Bytes::new();
    le.set_ordering(Ordering::LittleEndian);
    le.add_u64(0x0123456789abcdef);

    let mut be = Bytes::new();
    be.set_ordering(Ordering::BigEndian);
    be.add_u64(0x0123456789abcdef);

    let mut reversed = le.as_vec();
    reversed.reverse();
    assert_eq!(be.as_slice(), reversed.as_slice());
}

#[test]
fn bounds_safety_reads() {
    let b = Bytes::from_slice(&[1, 2, 3, 4, 5]);
    for offset in 5..10 {
        assert!(b.read_u8(offset).is_none());
        assert!(b.read_u32(offset).is_none());
        assert!(b.read_u64(offset).is_none());
    }
    // a partial fit is refused too
    assert!(b.read_u32(2).is_none());
    assert!(b.read_u64(0).is_none());
}

#[test]
fn bounds_safety_alters() {
    let mut b = Bytes::from_slice(&[1, 2, 3, 4, 5]);
    assert_eq!(b.alter_u8(5, 9), false);
    assert_eq!(b.alter_u32(2, 9), false);
    assert_eq!(b.alter_u64(0, 9), false);
    // a failed alteration leaves every byte unchanged
    assert_eq!(b.as_slice(), &[1, 2, 3, 4, 5]);
}

#[test]
fn length_monotonicity() {
    let mut b = Bytes::new();
    assert_eq!(b.len(), 0);
    b.add_u8(1);
    assert_eq!(b.len(), 1);
    b.add_u32(2);
    assert_eq!(b.len(), 5);
    b.add_u64(3);
    assert_eq!(b.len(), 13);

    // reads and alterations never change the length
    b.read_u8(0);
    b.read_u32(1);
    b.read_u64(5);
    b.alter_u8(0, 7);
    b.alter_u32(1, 7);
    b.alter_u64(5, 7);
    b.alter_u64(6, 7);
    assert_eq!(b.len(), 13);
}

#[test]
fn set_ordering_keeps_stored_bytes() {
    let mut b = Bytes::new();
    b.add_u32(0xaabbccdd);
    let before = b.as_vec();
    b.set_ordering(Ordering::BigEndian);
    assert_eq!(b.as_vec(), before);
    b.set_ordering(Ordering::LittleEndian);
    assert_eq!(b.as_vec(), before);
    // only subsequent operations see the new ordering
    b.set_ordering(Ordering::BigEndian);
    assert_eq!(b.read_u32(0).unwrap(), 0xddccbbaa);
}

#[test]
fn append_u32_layout_scenario() {
    let mut le = Bytes::new();
    le.set_ordering(Ordering::LittleEndian);
    le.add_u32(0xaabbccdd);
    assert_eq!(le.as_slice(), &[0xdd, 0xcc, 0xbb, 0xaa]);

    let mut be = Bytes::new();
    be.set_ordering(Ordering::BigEndian);
    be.add_u32(0xaabbccdd);
    assert_eq!(be.as_slice(), &[0xaa, 0xbb, 0xcc, 0xdd]);
}

#[test]
fn read_u32_scenario() {
    let mut b = Bytes::from_slice(&[0x11, 0x22, 0x33, 0x44, 0x55, 0x66, 0x77, 0x88]);
    b.set_ordering(Ordering::LittleEndian);
    assert_eq!(b.read_u32(0).unwrap(), 0x44332211);
    assert_eq!(b.read_u32(4).unwrap(), 0x88776655);
    b.set_ordering(Ordering::BigEndian);
    assert_eq!(b.read_u32(0).unwrap(), 0x11223344);
}

#[test]
fn empty_buffer_scenario() {
    let mut b = Bytes::new();
    assert!(b.read_u8(0).is_none());
    assert_eq!(b.alter_u8(0, 5), false);
    assert_eq!(b.len(), 0);
}

#[test]
fn pad_to_u32_unaligned() {
    let mut b = Bytes::from_slice(&[1, 2, 3, 4, 5]);
    b.pad_to_u32();
    assert_eq!(b.len(), 8);
    assert_eq!(b.as_slice(), &[1, 2, 3, 4, 5, 0, 0, 0]);
}

#[test]
fn pad_to_u32_already_aligned() {
    // an aligned buffer still grows by a full word of padding
    let mut b = Bytes::from_slice(&[1, 2, 3, 4]);
    b.pad_to_u32();
    assert_eq!(b.len(), 8);
    assert_eq!(b.as_slice(), &[1, 2, 3, 4, 0, 0, 0, 0]);
}

#[test]
fn add_string_bytes() {
    let mut b = Bytes::new();
    b.add_string("abc");
    assert_eq!(b.as_slice(), b"abc");
    // multi-byte characters append their full UTF-8 encoding
    let mut m = Bytes::new();
    m.add_string("\u{e9}");
    assert_eq!(m.as_slice(), &[0xc3, 0xa9]);
}

#[test]
fn add_null_terminator_byte() {
    let mut b = Bytes::new();
    b.add_u8(7);
    b.add_null_terminator();
    assert_eq!(b.as_slice(), &[7, 0]);
}

#[test]
fn add_null_term_string_bytes() {
    let mut b = Bytes::new();
    b.add_null_term_string("hi");
    assert_eq!(b.as_slice(), &[b'h', b'i', 0]);
}

#[test]
fn offsets_follow_length() {
    let mut b = Bytes::new();
    assert_eq!(b.offset32(), 0);
    assert_eq!(b.offset64(), 0);
    b.add_u64(1);
    b.add_u8(2);
    assert_eq!(b.offset32(), 9);
    assert_eq!(b.offset64(), 9);
}

#[test]
fn as_vec_is_a_copy() {
    let mut b = Bytes::from_slice(&[9, 8, 7]);
    let copy = b.as_vec();
    b.alter_u8(0, 1);
    assert_eq!(copy, vec![9, 8, 7]);
    assert_eq!(b.as_slice(), &[1, 8, 7]);
}

#[test]
fn new_defaults_to_little_endian() {
    let mut b = Bytes::new();
    b.add_u32(0x01020304);
    assert_eq!(b.as_slice(), &[0x04, 0x03, 0x02, 0x01]);
}
