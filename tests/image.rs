use android_bootimage::{
    BadHeaderError, BootImage, Header, ReadBootImageError, SamsungBootImage, Section, ShortRead,
    HEADER_SIZE,
};

fn pattern(len: usize, seed: u8) -> Vec<u8> {
    (0..len).map(|i| (i as u8).wrapping_mul(31).wrapping_add(seed)).collect()
}

fn populated(kernel: usize, ramdisk: usize, second: usize, device_tree: usize) -> BootImage {
    let mut image = BootImage::default();
    image.insert_kernel(pattern(kernel, 1));
    image.insert_ramdisk(pattern(ramdisk, 2));
    image.insert_second_ramdisk(pattern(second, 3));
    image.insert_device_tree(pattern(device_tree, 4));
    image
}

fn assert_sizes_match(image: &BootImage) {
    let h = image.header();
    assert_eq!(h.kernel_size as usize, image.kernel().len());
    assert_eq!(h.ramdisk_size as usize, image.ramdisk().len());
    assert_eq!(h.second_size as usize, image.second_ramdisk().len());
    assert_eq!(h.device_tree_size as usize, image.device_tree().len());
}

/// Lays an image out the way a bootloader expects it: each section at its
/// page-aligned offset, with zero padding in between.
fn padded_bytes(image: &BootImage) -> Vec<u8> {
    let mut out = Vec::new();
    image.write_header_to(&mut out);
    for (section, bytes) in [
        (Section::Kernel, image.kernel()),
        (Section::Ramdisk, image.ramdisk()),
        (Section::SecondStage, image.second_ramdisk()),
        (Section::DeviceTree, image.device_tree()),
    ] {
        if !bytes.is_empty() {
            let (offset, _) = image.section_offset_and_size(section);
            out.resize(offset as usize, 0);
            out.extend_from_slice(bytes);
        }
    }
    out
}

#[test]
fn default_image() {
    let image = BootImage::default();
    assert_eq!(image.page_size(), 2048);
    assert!(image.kernel().is_empty());
    assert!(image.ramdisk().is_empty());
    assert!(image.second_ramdisk().is_empty());
    assert!(image.device_tree().is_empty());
    assert_eq!(&image.header().magic, b"ANDROID!");
}

#[test]
fn inserts_keep_sizes_in_step() {
    let mut image = SamsungBootImage::default();
    assert!(image.insert_kernel(pattern(5000, 1)).is_empty());
    assert_sizes_match(&image);
    let old = image.insert_kernel(pattern(10, 9));
    assert_eq!(old, pattern(5000, 1));
    assert_eq!(image.header().kernel_size, 10);
    image.insert_ramdisk(pattern(300, 2));
    image.insert_second_ramdisk(pattern(7, 3));
    image.insert_device_tree(pattern(1, 4));
    assert_sizes_match(&image);
    let old = image.insert_section(Section::Ramdisk, Vec::new());
    assert_eq!(old, pattern(300, 2));
    assert_eq!(image.header().ramdisk_size, 0);
    assert_sizes_match(&image);
}

#[test]
fn insert_header_takes_sizes_from_buffers() {
    let mut image = populated(5000, 300, 0, 20);
    let mut new_header = Header::default();
    new_header.kernel_size = 1;
    new_header.ramdisk_size = 99999;
    new_header.page_size = 4096;
    new_header.product_name[0] = b'x';
    let previous = image.insert_header(new_header).unwrap();
    assert_eq!(previous.kernel_size, 5000);
    assert_eq!(previous.page_size, 2048);
    assert_eq!(image.page_size(), 4096);
    assert_eq!(image.header().product_name[0], b'x');
    assert_sizes_match(&image);
}

#[test]
fn insert_header_with_bad_magic_is_rejected() {
    let mut image = populated(5000, 300, 0, 20);
    let before = image.header().clone();
    let mut bad = Header::default();
    bad.magic = *b"ANDROID?";
    bad.page_size = 4096;
    match image.insert_header(bad) {
        Err(BadHeaderError::BadMagic(h)) => assert_eq!(h, bad),
        other => panic!("unexpected {:?}", other),
    }
    assert_eq!(*image.header(), before);
    assert_eq!(image.kernel(), &pattern(5000, 1)[..]);
    assert_eq!(image.page_size(), 2048);
}

#[test]
fn insert_header_without_page_size_is_rejected() {
    let mut image = populated(10, 0, 0, 0);
    let mut bad = Header::default();
    bad.page_size = 0;
    assert!(matches!(image.insert_header(bad), Err(BadHeaderError::NoPageSize(h)) if h == bad));
    assert_eq!(image.page_size(), 2048);
}

#[test]
fn page_alignment_of_image_sections() {
    let image = populated(5000, 100, 0, 0);
    assert_eq!(image.header_size_in_pages(), 1);
    assert_eq!(image.kernel_size_in_pages(), 3);
    assert_eq!(image.ramdisk_size_in_pages(), 1);
    assert_eq!(image.second_ramdisk_size_in_pages(), 0);
    assert_eq!(image.device_tree_size_in_pages(), 0);
    assert_eq!(image.header_offset_in_pages(), 0);
    assert_eq!(image.kernel_offset_in_pages(), 1);
    assert_eq!(image.ramdisk_offset_in_pages(), 4);
    assert_eq!(image.second_ramdisk_offset_in_pages(), 5);
    assert_eq!(image.device_tree_offset_in_pages(), 5);
    assert_eq!(image.header_offset(), 0);
    assert_eq!(image.kernel_offset(), 2048);
    assert_eq!(image.ramdisk_offset(), 1 * 2048 + 3 * 2048);
    assert_eq!(image.second_ramdisk_offset(), 10240);
    assert_eq!(image.device_tree_offset(), 10240);
    assert_eq!(image.section_offset_and_size(Section::Kernel), (2048, 5000));
}

#[test]
fn write_to_concatenates_sections() {
    let image = populated(5, 3, 0, 2);
    let mut out = Vec::new();
    let n = image.write_to(&mut out);
    assert_eq!(n, HEADER_SIZE + 10);
    assert_eq!(out.len(), n);
    assert_eq!(&out[..HEADER_SIZE], &image.header().to_bytes()[..]);
    assert_eq!(&out[HEADER_SIZE..HEADER_SIZE + 5], image.kernel());
    assert_eq!(&out[HEADER_SIZE + 8..], image.device_tree());
    let mut kernel_only = Vec::new();
    assert_eq!(image.write_section_to(Section::Kernel, &mut kernel_only), 5);
    assert_eq!(kernel_only, pattern(5, 1));
    let mut header_only = Vec::new();
    assert_eq!(image.write_section_to(Section::Header, &mut header_only), HEADER_SIZE);
}

#[test]
fn write_then_read_round_trip() {
    let mut image = populated(8 * 40, 8 * 3, 8, 13);
    let mut h = *image.header();
    h.page_size = 8;
    image.insert_header(h).unwrap();
    let mut bytes = Vec::new();
    image.write_to(&mut bytes);
    let back = BootImage::read_from(&bytes, None).unwrap();
    assert_eq!(back.header(), image.header());
    assert_eq!(back.kernel(), image.kernel());
    assert_eq!(back.ramdisk(), image.ramdisk());
    assert_eq!(back.second_ramdisk(), image.second_ramdisk());
    assert_eq!(back.device_tree(), image.device_tree());
}

#[test]
fn read_from_page_aligned_image() {
    let image = populated(5000, 100, 0, 3000);
    let bytes = padded_bytes(&image);
    assert_eq!(bytes.len(), 10240 + 3000);
    let back = BootImage::read_from(&bytes, None).unwrap();
    assert_eq!(back.header(), image.header());
    assert_eq!(back.kernel(), image.kernel());
    assert_eq!(back.ramdisk(), image.ramdisk());
    assert!(back.second_ramdisk().is_empty());
    assert_eq!(back.device_tree(), image.device_tree());
}

#[test]
fn read_from_with_page_size_override() {
    let mut image = populated(5000, 100, 0, 0);
    let mut h = *image.header();
    h.page_size = 4096;
    image.insert_header(h).unwrap();
    let mut bytes = padded_bytes(&image);
    bytes[44..48].copy_from_slice(&0u32.to_le_bytes());
    match BootImage::read_from(&bytes, None) {
        Err(ReadBootImageError::BadHeader(BadHeaderError::NoPageSize(bad))) => {
            assert_eq!(bad.page_size, 0);
            assert_eq!(bad.kernel_size, 5000);
        }
        other => panic!("unexpected {:?}", other),
    }
    let back = BootImage::read_from(&bytes, Some(4096)).unwrap();
    assert_eq!(back.page_size(), 4096);
    assert_eq!(back.kernel(), image.kernel());
    assert_eq!(back.ramdisk(), image.ramdisk());
}

#[test]
fn read_from_rejects_bad_magic() {
    let image = populated(10, 0, 0, 0);
    let mut bytes = padded_bytes(&image);
    bytes[0] = b'a';
    assert!(matches!(
        BootImage::read_from(&bytes, None),
        Err(ReadBootImageError::BadHeader(BadHeaderError::BadMagic(h))) if h.magic[0] == b'a'
    ));
}

#[test]
fn read_from_short_sources() {
    let short = vec![0u8; 100];
    assert!(matches!(
        BootImage::read_from(&short, None),
        Err(ReadBootImageError::Io(ShortRead { offset: 0, size: 616 }))
    ));
    let image = populated(5000, 100, 0, 0);
    let mut bytes = padded_bytes(&image);
    bytes.truncate(bytes.len() - 1);
    assert!(matches!(
        BootImage::read_from(&bytes, None),
        Err(ReadBootImageError::Io(ShortRead { offset: 8192, size: 100 }))
    ));
}

#[test]
fn read_from_allows_empty_sections_past_the_end() {
    let image = populated(5000, 100, 0, 0);
    let bytes = padded_bytes(&image);
    assert_eq!(bytes.len(), 8192 + 100);
    let back = BootImage::read_from(&bytes, None).unwrap();
    assert_eq!(back.ramdisk(), image.ramdisk());
    assert!(back.second_ramdisk().is_empty());
    assert!(back.device_tree().is_empty());
}
