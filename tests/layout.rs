use android_bootimage::layout::size_to_size_in_pages;
use android_bootimage::{
    offset_of, present_sections, section_size, size_and_offset, BadHeaderError, Header, Section,
    HEADER_SIZE,
};

const ALL: [Section; 5] = [
    Section::Header,
    Section::Kernel,
    Section::Ramdisk,
    Section::SecondStage,
    Section::DeviceTree,
];

fn header_with_sizes(kernel: u32, ramdisk: u32, second: u32, device_tree: u32) -> Header {
    let mut h = Header::default();
    h.kernel_size = kernel;
    h.ramdisk_size = ramdisk;
    h.second_size = second;
    h.device_tree_size = device_tree;
    h
}

#[test]
fn pages_round_up() {
    assert_eq!(size_to_size_in_pages(5000, 2048), 3);
    assert_eq!(size_to_size_in_pages(4096, 2048), 2);
    assert_eq!(size_to_size_in_pages(0, 2048), 0);
    assert_eq!(size_to_size_in_pages(1, 2048), 1);
    assert_eq!(size_to_size_in_pages(616, 4096), 1);
    assert_eq!(size_to_size_in_pages(u64::MAX, 2), u64::MAX / 2 + 1);
}

#[test]
fn section_sizes_come_from_the_header() {
    let h = header_with_sizes(5000, 1234, 0, 77);
    assert_eq!(section_size(&h, Section::Header), HEADER_SIZE as u64);
    assert_eq!(section_size(&h, Section::Kernel), 5000);
    assert_eq!(section_size(&h, Section::Ramdisk), 1234);
    assert_eq!(section_size(&h, Section::SecondStage), 0);
    assert_eq!(section_size(&h, Section::DeviceTree), 77);
}

#[test]
fn page_alignment_scenario() {
    let h = header_with_sizes(5000, 100, 0, 0);
    assert_eq!(size_to_size_in_pages(5000, 2048), 3);
    assert_eq!(offset_of(&h, 2048, Section::Kernel).unwrap(), 2048);
    assert_eq!(offset_of(&h, 2048, Section::Ramdisk).unwrap(), 2048 + 3 * 2048);
}

#[test]
fn offsets_accumulate_whole_pages() {
    let h = header_with_sizes(5000, 100, 0, 3000);
    assert_eq!(offset_of(&h, 2048, Section::Header).unwrap(), 0);
    assert_eq!(offset_of(&h, 2048, Section::Kernel).unwrap(), 2048);
    assert_eq!(offset_of(&h, 2048, Section::Ramdisk).unwrap(), 8192);
    assert_eq!(offset_of(&h, 2048, Section::SecondStage).unwrap(), 10240);
    assert_eq!(offset_of(&h, 2048, Section::DeviceTree).unwrap(), 10240);
    assert_eq!(size_and_offset(&h, 2048, Section::DeviceTree).unwrap(), (10240, 3000));
}

#[test]
fn offsets_with_largest_sizes() {
    let h = header_with_sizes(u32::MAX, u32::MAX, u32::MAX, u32::MAX);
    let expected = 4096 + 3 * 4096 * (u32::MAX as u64 / 4096 + 1);
    assert_eq!(offset_of(&h, 4096, Section::DeviceTree).unwrap(), expected);
    assert_eq!(offset_of(&h, 1, Section::DeviceTree).unwrap(), 616 + 3 * u32::MAX as u64);
}

#[test]
fn header_always_starts_at_zero() {
    for ps in [1u32, 2, 512, 2048, 4096, u32::MAX] {
        let h = header_with_sizes(5000, 7, 9, 11);
        assert_eq!(offset_of(&h, ps, Section::Header).unwrap(), 0);
    }
}

#[test]
fn sections_are_ordered_and_aligned() {
    let h = header_with_sizes(5000, 0, 1, 2049);
    for ps in [1u32, 3, 512, 2048, 4096] {
        for w in ALL.windows(2) {
            let (o1, s1) = size_and_offset(&h, ps, w[0]).unwrap();
            let o2 = offset_of(&h, ps, w[1]).unwrap();
            assert!(o2 >= o1 + s1);
            assert_eq!(o2 % ps as u64, 0);
        }
    }
}

#[test]
fn zero_page_size_is_rejected_for_every_section() {
    let h = header_with_sizes(5000, 7, 9, 11);
    for s in ALL {
        match offset_of(&h, 0, s) {
            Err(BadHeaderError::NoPageSize(bad)) => assert_eq!(bad, h),
            other => panic!("unexpected {:?}", other),
        }
        assert!(matches!(size_and_offset(&h, 0, s), Err(BadHeaderError::NoPageSize(_))));
    }
}

#[test]
fn present_sections_skip_empty_ones() {
    let h = header_with_sizes(5000, 0, 0, 3);
    assert_eq!(present_sections(&h), vec![Section::Header, Section::Kernel, Section::DeviceTree]);
    let empty = header_with_sizes(0, 0, 0, 0);
    assert_eq!(present_sections(&empty), vec![Section::Header]);
    assert_eq!(Section::DeviceTree.index(), 4);
}
