use android_bootimage::{Header, HeaderKind, SamsungHeader, ShortRead, HEADER_SIZE, MAGIC, MAGIC_STR};

fn sample_bytes() -> [u8; HEADER_SIZE] {
    let mut b = [0u8; HEADER_SIZE];
    b[..8].copy_from_slice(b"ANDROID!");
    let fields: [u32; 10] = [
        5000, 0x1000_8000, 1234, 0x1100_0000, 0, 0x100f_0000, 77, 0x0200_0000, 0x1000_0100, 2048,
    ];
    for (i, v) in fields.iter().enumerate() {
        b[8 + 4 * i..12 + 4 * i].copy_from_slice(&v.to_le_bytes());
    }
    b[48..53].copy_from_slice(b"hello");
    b[72..80].copy_from_slice(b"console=");
    for i in 0..32 {
        b[584 + i] = i as u8;
    }
    b
}

#[test]
fn parse_reads_every_field() {
    let h = SamsungHeader::parse(&sample_bytes());
    assert_eq!(&h.magic, b"ANDROID!");
    assert_eq!(h.kernel_size, 5000);
    assert_eq!(h.kernel_load_address, 0x1000_8000);
    assert_eq!(h.ramdisk_size, 1234);
    assert_eq!(h.ramdisk_load_address, 0x1100_0000);
    assert_eq!(h.second_size, 0);
    assert_eq!(h.second_load_address, 0x100f_0000);
    assert_eq!(h.device_tree_size, 77);
    assert_eq!(h.reserved, 0x0200_0000);
    assert_eq!(h.kernel_tags_address, 0x1000_0100);
    assert_eq!(h.page_size, 2048);
    assert_eq!(&h.product_name[..5], b"hello");
    assert_eq!(&h.boot_arguments[..8], b"console=");
    assert_eq!(h.unique_id[31], 31);
}

#[test]
fn parse_is_little_endian() {
    let mut b = [0u8; HEADER_SIZE];
    b[8..12].copy_from_slice(&[0x88, 0x13, 0x00, 0x00]);
    b[44..48].copy_from_slice(&[0x01, 0x02, 0x03, 0x04]);
    let h = SamsungHeader::parse(&b);
    assert_eq!(h.kernel_size, 5000);
    assert_eq!(h.page_size, 0x0403_0201);
}

#[test]
fn serialize_parse_round_trip() {
    let b = sample_bytes();
    let h = SamsungHeader::parse(&b);
    assert_eq!(h.to_bytes(), b);
}

#[test]
fn serialize_parse_round_trip_on_arbitrary_bytes() {
    let mut b = [0u8; HEADER_SIZE];
    for (i, x) in b.iter_mut().enumerate() {
        *x = (i * 7 + 3) as u8;
    }
    assert_eq!(SamsungHeader::parse(&b).to_bytes(), b);
}

#[test]
fn serialize_writes_integers_little_endian() {
    let mut h = Header::default();
    h.kernel_size = 5000;
    let b = h.to_bytes();
    assert_eq!(&b[8..12], &[0x88, 0x13, 0x00, 0x00]);
    assert_eq!(&b[44..48], &2048u32.to_le_bytes());
    assert_eq!(&b[..8], b"ANDROID!");
}

#[test]
fn write_to_appends_the_encoding() {
    let h = SamsungHeader::parse(&sample_bytes());
    let mut out = vec![9u8, 9];
    let n = h.write_to(&mut out);
    assert_eq!(n, HEADER_SIZE);
    assert_eq!(out.len(), HEADER_SIZE + 2);
    assert_eq!(&out[..2], &[9, 9]);
    assert_eq!(&out[2..], &sample_bytes()[..]);
}

#[test]
fn read_from_takes_the_first_header_bytes() {
    let mut source = sample_bytes().to_vec();
    source.extend_from_slice(&[1, 2, 3]);
    let h = SamsungHeader::read_from(&source).unwrap();
    assert_eq!(h, SamsungHeader::parse(&sample_bytes()));
}

#[test]
fn read_from_short_source_fails() {
    let source = vec![0u8; HEADER_SIZE - 1];
    assert_eq!(
        SamsungHeader::read_from(&source).unwrap_err(),
        ShortRead { offset: 0, size: HEADER_SIZE as u64 }
    );
}

#[test]
fn magic_check() {
    let h = SamsungHeader::parse(&sample_bytes());
    assert!(h.correct_magic());
    let mut bad = h;
    bad.magic[7] = b'?';
    assert!(!bad.correct_magic());
    assert_eq!(MAGIC_STR.as_bytes(), &MAGIC);
}

#[test]
fn default_header_values() {
    let h = Header::default();
    assert!(h.correct_magic());
    assert_eq!(h.page_size, 2048);
    assert_eq!(h.kernel_size, 0);
    assert_eq!(h.ramdisk_size, 0);
    assert_eq!(h.second_size, 0);
    assert_eq!(h.device_tree_size, 0);
    assert_eq!(h.kernel_load_address, 0x1000_8000);
    assert_eq!(h.ramdisk_load_address, 0x1100_0000);
    assert_eq!(h.second_load_address, 0x100f_0000);
    assert_eq!(h.kernel_tags_address, 0x1000_0100);
    assert_eq!(h.reserved, 0x0200_0000);
    assert!(h.product_name.iter().all(|&b| b == 0));
    assert!(h.boot_arguments.iter().all(|&b| b == 0));
    assert!(h.unique_id.iter().all(|&b| b == 0));
}

#[test]
fn header_kind_size_and_magic() {
    let samsung = HeaderKind::SamsungHeader(Header::default());
    assert_eq!(samsung.header_size(), Some(HEADER_SIZE));
    assert!(samsung.has_correct_magic());
    assert_eq!(HeaderKind::AospHeaderv2.header_size(), None);
    assert!(!HeaderKind::Undefined.has_correct_magic());
    assert!(matches!(HeaderKind::default(), HeaderKind::Undefined));
}
