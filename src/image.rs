//! The boot image model: one header and four section buffers, kept
//! consistent by every operation, with the offsets the layout gives them.

use crate::bytes::{lemma_append_assoc, le_u32, push_bytes};
use crate::errors::{BadHeaderError, ReadBootImageError, ShortRead};
use crate::header::{
    has_magic, header_bytes, is_default_header, lemma_parsed_from_unique,
    lemma_serialize_then_parse, parsed_from, SamsungHeader, HEADER_SIZE,
};
use crate::layout::{
    catalog, lemma_exact_pages, lemma_offset_depends_on_earlier, offset_in_pages, pages_before,
    section_size, size_to_size_in_pages, spec_offset, spec_offset_in_pages, spec_pages,
    spec_section_size, Section,
};
use vstd::prelude::*;
use vstd::slice::{slice_subrange, slice_to_vec};

verus! {

/// What a boot image holds, as mathematical values.
pub struct BootImageModel {
    pub header: SamsungHeader,
    pub kernel: Seq<u8>,
    pub ramdisk: Seq<u8>,
    pub second_ramdisk: Seq<u8>,
    pub device_tree: Seq<u8>,
}

/// `h` with its four section sizes replaced.
pub open spec fn with_sizes(
    h: SamsungHeader,
    kernel: u32,
    ramdisk: u32,
    second: u32,
    device_tree: u32,
) -> SamsungHeader {
    SamsungHeader {
        kernel_size: kernel,
        ramdisk_size: ramdisk,
        second_size: second,
        device_tree_size: device_tree,
        ..h
    }
}

impl BootImageModel {
    /// The bytes of a section: the header's encoding, or a section buffer.
    pub open spec fn buffer(self, s: Section) -> Seq<u8> {
        match s {
            Section::Header => header_bytes(self.header),
            Section::Kernel => self.kernel,
            Section::Ramdisk => self.ramdisk,
            Section::SecondStage => self.second_ramdisk,
            Section::DeviceTree => self.device_tree,
        }
    }

    /// The header carries the magic signature and a page size, and each of
    /// its size fields equals the length of the matching buffer.
    pub open spec fn wf(self) -> bool {
        &&& has_magic(self.header)
        &&& self.header.page_size > 0
        &&& self.header.kernel_size == self.kernel.len()
        &&& self.header.ramdisk_size == self.ramdisk.len()
        &&& self.header.second_size == self.second_ramdisk.len()
        &&& self.header.device_tree_size == self.device_tree.len()
    }

    /// The page size that the header gives.
    pub open spec fn page_size(self) -> nat {
        self.header.page_size as nat
    }

    /// How many pages a section takes.
    pub open spec fn size_in_pages(self, s: Section) -> nat {
        spec_pages(spec_section_size(self.header, s), self.page_size())
    }

    /// Where a section starts, counted in pages.
    pub open spec fn offset_in_pages(self, s: Section) -> nat {
        spec_offset_in_pages(self.header, self.page_size(), s)
    }

    /// Where a section starts, in bytes.
    pub open spec fn offset(self, s: Section) -> nat {
        spec_offset(self.header, self.page_size(), s)
    }

    /// The image with the buffer of section `s`, other than the header,
    /// replaced by `bytes`, and the header's size for it following.
    pub open spec fn with_section(self, s: Section, bytes: Seq<u8>) -> BootImageModel {
        let h = self.header;
        let n = bytes.len() as u32;
        match s {
            Section::Kernel => BootImageModel {
                header: SamsungHeader { kernel_size: n, ..h },
                kernel: bytes,
                ..self
            },
            Section::Ramdisk => BootImageModel {
                header: SamsungHeader { ramdisk_size: n, ..h },
                ramdisk: bytes,
                ..self
            },
            Section::SecondStage => BootImageModel {
                header: SamsungHeader { second_size: n, ..h },
                second_ramdisk: bytes,
                ..self
            },
            Section::DeviceTree => BootImageModel {
                header: SamsungHeader { device_tree_size: n, ..h },
                device_tree: bytes,
                ..self
            },
            Section::Header => self,
        }
    }

    /// What writing the image produces: the header's encoding, then each
    /// section buffer in catalog order, with nothing in between.
    pub open spec fn image_bytes(self) -> Seq<u8> {
        header_bytes(self.header) + self.kernel + self.ramdisk + self.second_ramdisk
            + self.device_tree
    }
}

/// `h` with its page size replaced.
pub open spec fn with_page_size(h: SamsungHeader, page_size: u32) -> SamsungHeader {
    SamsungHeader { page_size, ..h }
}

/// The page size stored in the header at the start of `source`.
pub open spec fn stored_page_size(source: Seq<u8>) -> u32 {
    le_u32(source.subrange(44, 48))
}

/// `h` is the header that reading `source` takes in: the header decoded
/// from its first bytes, with the page size replaced by the override when
/// one is given.
pub open spec fn header_read(
    h: SamsungHeader,
    source: Seq<u8>,
    override_page_size: Option<u32>,
) -> bool {
    &&& source.len() >= HEADER_SIZE
    &&& parsed_from(
        with_page_size(h, stored_page_size(source)),
        source.subrange(0, HEADER_SIZE as int),
    )
    &&& h.page_size == match override_page_size {
        Some(p) => p,
        None => stored_page_size(source),
    }
}

/// The bytes that section `s` of an image with header `h` occupies in
/// `source`. An empty section holds no bytes wherever it starts.
pub open spec fn region(source: Seq<u8>, h: SamsungHeader, s: Section) -> Seq<u8> {
    let start = spec_offset(h, h.page_size as nat, s);
    if spec_section_size(h, s) == 0 {
        Seq::empty()
    } else {
        source.subrange(start as int, (start + spec_section_size(h, s)) as int)
    }
}

/// Section `s` of an image with header `h` is empty or ends within `len`
/// bytes.
pub open spec fn region_fits(h: SamsungHeader, s: Section, len: nat) -> bool {
    spec_section_size(h, s) == 0 || spec_offset(h, h.page_size as nat, s) + spec_section_size(h, s)
        <= len
}

/// Every section after the header ends within `len` bytes.
pub open spec fn sections_fit(h: SamsungHeader, len: nat) -> bool {
    &&& region_fits(h, Section::Kernel, len)
    &&& region_fits(h, Section::Ramdisk, len)
    &&& region_fits(h, Section::SecondStage, len)
    &&& region_fits(h, Section::DeviceTree, len)
}

/// `m` is what reading `source` gives: the header read from its start, and
/// each section's bytes taken from where the layout puts that section.
pub open spec fn read_gives(
    source: Seq<u8>,
    override_page_size: Option<u32>,
    m: BootImageModel,
) -> bool {
    &&& header_read(m.header, source, override_page_size)
    &&& m.wf()
    &&& sections_fit(m.header, source.len())
    &&& m.kernel == region(source, m.header, Section::Kernel)
    &&& m.ramdisk == region(source, m.header, Section::Ramdisk)
    &&& m.second_ramdisk == region(source, m.header, Section::SecondStage)
    &&& m.device_tree == region(source, m.header, Section::DeviceTree)
}

/// Reading a source takes in at most one header.
pub proof fn lemma_header_read_unique(
    h1: SamsungHeader,
    h2: SamsungHeader,
    source: Seq<u8>,
    override_page_size: Option<u32>,
)
    requires
        header_read(h1, source, override_page_size),
        header_read(h2, source, override_page_size),
    ensures
        h1 == h2,
{
    lemma_parsed_from_unique(
        with_page_size(h1, stored_page_size(source)),
        with_page_size(h2, stored_page_size(source)),
        source.subrange(0, HEADER_SIZE as int),
    );
    assert(h1.magic == h2.magic);
    assert(h1.product_name == h2.product_name);
    assert(h1.boot_arguments == h2.boot_arguments);
    assert(h1.unique_id == h2.unique_id);
}

/// Copies the `size` bytes of `source` that start at `offset`. Fails when
/// there are some and they reach past its end.
fn read_region(source: &[u8], offset: u64, size: u64) -> (r: Result<Vec<u8>, ShortRead>)
    ensures
        match r {
            Ok(bytes) => (size == 0 || offset + size <= source@.len()) && bytes@ == (if size
                == 0 {
                Seq::empty()
            } else {
                source@.subrange(offset as int, offset + size)
            }),
            Err(e) => size > 0 && offset + size > source@.len() && e == (ShortRead {
                offset,
                size,
            }),
        },
{
    if size == 0 {
        return Ok(Vec::new());
    }
    let len = source.len() as u64;
    if offset > len || size > len - offset {
        return Err(ShortRead { offset, size });
    }
    let bytes = slice_subrange(source, offset as usize, (offset + size) as usize);
    Ok(slice_to_vec(bytes))
}

/// A boot image in memory: a header and the four section buffers.
#[derive(Debug, Clone)]
pub struct SamsungBootImage {
    header: SamsungHeader,
    kernel: Vec<u8>,
    ramdisk: Vec<u8>,
    second_ramdisk: Vec<u8>,
    device_tree: Vec<u8>,
}

/// The boot image of the canonical header layout.
pub type BootImage = SamsungBootImage;

impl View for SamsungBootImage {
    type V = BootImageModel;

    closed spec fn view(&self) -> BootImageModel {
        BootImageModel {
            header: self.header,
            kernel: self.kernel@,
            ramdisk: self.ramdisk@,
            second_ramdisk: self.second_ramdisk@,
            device_tree: self.device_tree@,
        }
    }
}

impl Default for SamsungBootImage {
    /// An image with the default header and no sections.
    fn default() -> (r: Self)
        ensures
            r.wf(),
            is_default_header(r@.header),
            r@.kernel.len() == 0,
            r@.ramdisk.len() == 0,
            r@.second_ramdisk.len() == 0,
            r@.device_tree.len() == 0,
    {
        SamsungBootImage {
            header: SamsungHeader::default(),
            kernel: Vec::new(),
            ramdisk: Vec::new(),
            second_ramdisk: Vec::new(),
            device_tree: Vec::new(),
        }
    }
}

impl SamsungBootImage {
    /// The image is consistent; every operation keeps it so.
    pub open spec fn wf(&self) -> bool {
        self@.wf()
    }

    /// Takes `new_header` as the header of this image and returns the
    /// previous one. The new header's size fields are set from the current
    /// buffers. Fails, leaving the image unchanged, when the new header
    /// lacks the magic signature or has a page size of zero.
    pub fn insert_header(&mut self, new_header: SamsungHeader) -> (r: Result<
        SamsungHeader,
        BadHeaderError,
    >)
        requires
            old(self).wf(),
        ensures
            final(self).wf(),
            match r {
                Ok(previous) => {
                    &&& has_magic(new_header)
                    &&& new_header.page_size > 0
                    &&& previous == old(self)@.header
                    &&& final(self)@ == (BootImageModel {
                        header: with_sizes(
                            new_header,
                            old(self)@.kernel.len() as u32,
                            old(self)@.ramdisk.len() as u32,
                            old(self)@.second_ramdisk.len() as u32,
                            old(self)@.device_tree.len() as u32,
                        ),
                        ..old(self)@
                    })
                },
                Err(BadHeaderError::BadMagic(h)) => {
                    &&& !has_magic(new_header)
                    &&& h == new_header
                    &&& final(self)@ == old(self)@
                },
                Err(BadHeaderError::NoPageSize(h)) => {
                    &&& has_magic(new_header)
                    &&& new_header.page_size == 0
                    &&& h == new_header
                    &&& final(self)@ == old(self)@
                },
            },
    {
        if !new_header.correct_magic() {
            return Err(BadHeaderError::BadMagic(new_header));
        } else if new_header.page_size == 0 {
            return Err(BadHeaderError::NoPageSize(new_header));
        }
        let previous = self.header;
        self.header = new_header;
        self.update_all_sizes();
        Ok(previous)
    }

    /// Takes `new_kernel` as the kernel and returns the previous one; the
    /// header's kernel size follows.
    pub fn insert_kernel(&mut self, new_kernel: Vec<u8>) -> (r: Vec<u8>)
        requires
            old(self).wf(),
            new_kernel@.len() <= u32::MAX,
        ensures
            final(self).wf(),
            r@ == old(self)@.kernel,
            final(self)@ == old(self)@.with_section(Section::Kernel, new_kernel@),
    {
        let mut new_kernel = new_kernel;
        self.header.kernel_size = new_kernel.len() as u32;
        core::mem::swap(&mut self.kernel, &mut new_kernel);
        new_kernel
    }

    /// Takes `new_ramdisk` as the ramdisk and returns the previous one; the
    /// header's ramdisk size follows.
    pub fn insert_ramdisk(&mut self, new_ramdisk: Vec<u8>) -> (r: Vec<u8>)
        requires
            old(self).wf(),
            new_ramdisk@.len() <= u32::MAX,
        ensures
            final(self).wf(),
            r@ == old(self)@.ramdisk,
            final(self)@ == old(self)@.with_section(Section::Ramdisk, new_ramdisk@),
    {
        let mut new_ramdisk = new_ramdisk;
        self.header.ramdisk_size = new_ramdisk.len() as u32;
        core::mem::swap(&mut self.ramdisk, &mut new_ramdisk);
        new_ramdisk
    }

    /// Takes `new_second_ramdisk` as the second stage and returns the
    /// previous one; the header's second stage size follows.
    pub fn insert_second_ramdisk(&mut self, new_second_ramdisk: Vec<u8>) -> (r: Vec<u8>)
        requires
            old(self).wf(),
            new_second_ramdisk@.len() <= u32::MAX,
        ensures
            final(self).wf(),
            r@ == old(self)@.second_ramdisk,
            final(self)@ == old(self)@.with_section(Section::SecondStage, new_second_ramdisk@),
    {
        let mut new_second_ramdisk = new_second_ramdisk;
        self.header.second_size = new_second_ramdisk.len() as u32;
        core::mem::swap(&mut self.second_ramdisk, &mut new_second_ramdisk);
        new_second_ramdisk
    }

    /// Takes `new_device_tree` as the device tree and returns the previous
    /// one; the header's device tree size follows.
    pub fn insert_device_tree(&mut self, new_device_tree: Vec<u8>) -> (r: Vec<u8>)
        requires
            old(self).wf(),
            new_device_tree@.len() <= u32::MAX,
        ensures
            final(self).wf(),
            r@ == old(self)@.device_tree,
            final(self)@ == old(self)@.with_section(Section::DeviceTree, new_device_tree@),
    {
        let mut new_device_tree = new_device_tree;
        self.header.device_tree_size = new_device_tree.len() as u32;
        core::mem::swap(&mut self.device_tree, &mut new_device_tree);
        new_device_tree
    }

    /// Sets every size field of the header from the length of its buffer.
    fn update_all_sizes(&mut self)
        requires
            old(self)@.kernel.len() <= u32::MAX,
            old(self)@.ramdisk.len() <= u32::MAX,
            old(self)@.second_ramdisk.len() <= u32::MAX,
            old(self)@.device_tree.len() <= u32::MAX,
        ensures
            final(self)@ == (BootImageModel {
                header: with_sizes(
                    old(self)@.header,
                    old(self)@.kernel.len() as u32,
                    old(self)@.ramdisk.len() as u32,
                    old(self)@.second_ramdisk.len() as u32,
                    old(self)@.device_tree.len() as u32,
                ),
                ..old(self)@
            }),
    {
        self.header.kernel_size = self.kernel.len() as u32;
        self.header.ramdisk_size = self.ramdisk.len() as u32;
        self.header.second_size = self.second_ramdisk.len() as u32;
        self.header.device_tree_size = self.device_tree.len() as u32;
    }

    /// The header of this image.
    pub fn header(&self) -> (r: &SamsungHeader)
        ensures
            *r == self@.header,
    {
        &self.header
    }

    /// The size of a single page, in bytes.
    pub fn page_size(&self) -> (r: usize)
        ensures
            r == self@.header.page_size,
    {
        self.header.page_size as usize
    }

    /// The kernel.
    pub fn kernel(&self) -> (r: &[u8])
        ensures
            r@ == self@.kernel,
    {
        self.kernel.as_slice()
    }

    /// The ramdisk.
    pub fn ramdisk(&self) -> (r: &[u8])
        ensures
            r@ == self@.ramdisk,
    {
        self.ramdisk.as_slice()
    }

    /// The second stage.
    pub fn second_ramdisk(&self) -> (r: &[u8])
        ensures
            r@ == self@.second_ramdisk,
    {
        self.second_ramdisk.as_slice()
    }

    /// The device tree.
    pub fn device_tree(&self) -> (r: &[u8])
        ensures
            r@ == self@.device_tree,
    {
        self.device_tree.as_slice()
    }

    /// How many pages the header takes.
    pub fn header_size_in_pages(&self) -> (r: u64)
        requires
            self.wf(),
        ensures
            r == self@.size_in_pages(Section::Header),
    {
        size_to_size_in_pages(HEADER_SIZE as u64, self.header.page_size as u64)
    }

    /// How many pages the kernel takes.
    pub fn kernel_size_in_pages(&self) -> (r: u64)
        requires
            self.wf(),
        ensures
            r == self@.size_in_pages(Section::Kernel),
    {
        size_to_size_in_pages(self.kernel.len() as u64, self.header.page_size as u64)
    }

    /// How many pages the ramdisk takes.
    pub fn ramdisk_size_in_pages(&self) -> (r: u64)
        requires
            self.wf(),
        ensures
            r == self@.size_in_pages(Section::Ramdisk),
    {
        size_to_size_in_pages(self.ramdisk.len() as u64, self.header.page_size as u64)
    }

    /// How many pages the second stage takes.
    pub fn second_ramdisk_size_in_pages(&self) -> (r: u64)
        requires
            self.wf(),
        ensures
            r == self@.size_in_pages(Section::SecondStage),
    {
        size_to_size_in_pages(self.second_ramdisk.len() as u64, self.header.page_size as u64)
    }

    /// How many pages the device tree takes.
    pub fn device_tree_size_in_pages(&self) -> (r: u64)
        requires
            self.wf(),
        ensures
            r == self@.size_in_pages(Section::DeviceTree),
    {
        size_to_size_in_pages(self.device_tree.len() as u64, self.header.page_size as u64)
    }

    /// Where the header starts, counted in pages.
    pub fn header_offset_in_pages(&self) -> (r: u64)
        requires
            self.wf(),
        ensures
            r == self@.offset_in_pages(Section::Header),
    {
        offset_in_pages(&self.header, self.header.page_size, Section::Header)
    }

    /// Where the kernel starts, counted in pages.
    pub fn kernel_offset_in_pages(&self) -> (r: u64)
        requires
            self.wf(),
        ensures
            r == self@.offset_in_pages(Section::Kernel),
    {
        offset_in_pages(&self.header, self.header.page_size, Section::Kernel)
    }

    /// Where the ramdisk starts, counted in pages.
    pub fn ramdisk_offset_in_pages(&self) -> (r: u64)
        requires
            self.wf(),
        ensures
            r == self@.offset_in_pages(Section::Ramdisk),
    {
        offset_in_pages(&self.header, self.header.page_size, Section::Ramdisk)
    }

    /// Where the second stage starts, counted in pages.
    pub fn second_ramdisk_offset_in_pages(&self) -> (r: u64)
        requires
            self.wf(),
        ensures
            r == self@.offset_in_pages(Section::SecondStage),
    {
        offset_in_pages(&self.header, self.header.page_size, Section::SecondStage)
    }

    /// Where the device tree starts, counted in pages.
    pub fn device_tree_offset_in_pages(&self) -> (r: u64)
        requires
            self.wf(),
        ensures
            r == self@.offset_in_pages(Section::DeviceTree),
    {
        offset_in_pages(&self.header, self.header.page_size, Section::DeviceTree)
    }

    /// Where the header starts, in bytes.
    pub fn header_offset(&self) -> (r: u64)
        requires
            self.wf(),
        ensures
            r == self@.offset(Section::Header),
    {
        let pages = offset_in_pages(&self.header, self.header.page_size, Section::Header);
        self.header.page_size as u64 * pages
    }

    /// Where the kernel starts, in bytes.
    pub fn kernel_offset(&self) -> (r: u64)
        requires
            self.wf(),
        ensures
            r == self@.offset(Section::Kernel),
    {
        let pages = offset_in_pages(&self.header, self.header.page_size, Section::Kernel);
        self.header.page_size as u64 * pages
    }

    /// Where the ramdisk starts, in bytes.
    pub fn ramdisk_offset(&self) -> (r: u64)
        requires
            self.wf(),
        ensures
            r == self@.offset(Section::Ramdisk),
    {
        let pages = offset_in_pages(&self.header, self.header.page_size, Section::Ramdisk);
        self.header.page_size as u64 * pages
    }

    /// Where the second stage starts, in bytes.
    pub fn second_ramdisk_offset(&self) -> (r: u64)
        requires
            self.wf(),
        ensures
            r == self@.offset(Section::SecondStage),
    {
        let pages = offset_in_pages(&self.header, self.header.page_size, Section::SecondStage);
        self.header.page_size as u64 * pages
    }

    /// Where the device tree starts, in bytes.
    pub fn device_tree_offset(&self) -> (r: u64)
        requires
            self.wf(),
        ensures
            r == self@.offset(Section::DeviceTree),
    {
        let pages = offset_in_pages(&self.header, self.header.page_size, Section::DeviceTree);
        self.header.page_size as u64 * pages
    }

    /// Reads a boot image from `source`, which holds the image's bytes.
    /// The header is read from its start; `override_page_size`, when given,
    /// replaces the page size before any offset is computed. Each section
    /// is then read from the offset that the layout gives it.
    ///
    /// Fails with `Io` when the header or a section reaches past the end of
    /// `source`, and with `BadHeader` when the header lacks the magic
    /// signature or has no page size.
    pub fn read_from(source: &[u8], override_page_size: Option<u32>) -> (r: Result<
        Self,
        ReadBootImageError,
    >)
        ensures
            match r {
                Ok(image) => read_gives(source@, override_page_size, image@),
                Err(ReadBootImageError::Io(e)) => {
                    &&& e.offset + e.size > source@.len()
                    &&& (source@.len() < HEADER_SIZE || forall|h: SamsungHeader|
                        #[trigger] header_read(h, source@, override_page_size) ==> has_magic(h)
                            && h.page_size > 0 && !sections_fit(h, source@.len()))
                },
                Err(ReadBootImageError::BadHeader(BadHeaderError::BadMagic(h))) => {
                    header_read(h, source@, override_page_size) && !has_magic(h)
                },
                Err(ReadBootImageError::BadHeader(BadHeaderError::NoPageSize(h))) => {
                    &&& header_read(h, source@, override_page_size)
                    &&& has_magic(h)
                    &&& h.page_size == 0
                },
            },
    {
        let mut header = match SamsungHeader::read_from(source) {
            Ok(h) => h,
            Err(e) => return Err(ReadBootImageError::Io(e)),
        };
        let ghost stored = header;
        match override_page_size {
            Some(p) => header.page_size = p,
            None => {},
        }
        proof {
            assert(source@.subrange(0, HEADER_SIZE as int).subrange(44, 48) =~= source@.subrange(
                44,
                48,
            ));
            assert(with_page_size(header, stored_page_size(source@)) == stored);
            assert(header_read(header, source@, override_page_size));
        }
        let mut image = SamsungBootImage::default();
        match image.insert_header(header) {
            Ok(_) => {},
            Err(e) => return Err(ReadBootImageError::BadHeader(e)),
        }
        proof {
            lemma_offset_depends_on_earlier(
                image@.header,
                header,
                header.page_size as nat,
                Section::Kernel,
            );
        }
        let kernel = match read_region(
            source,
            image.kernel_offset(),
            header.kernel_size as u64,
        ) {
            Ok(bytes) => bytes,
            Err(e) => {
                proof {
                    assert forall|h: SamsungHeader| #[trigger]
                        header_read(h, source@, override_page_size) implies has_magic(h)
                        && h.page_size > 0 && !sections_fit(h, source@.len()) by {
                        lemma_header_read_unique(h, header, source@, override_page_size);
                    }
                }
                return Err(ReadBootImageError::Io(e));
            },
        };
        image.insert_kernel(kernel);
        proof {
            lemma_offset_depends_on_earlier(
                image@.header,
                header,
                header.page_size as nat,
                Section::Ramdisk,
            );
        }
        let ramdisk = match read_region(
            source,
            image.ramdisk_offset(),
            header.ramdisk_size as u64,
        ) {
            Ok(bytes) => bytes,
            Err(e) => {
                proof {
                    assert forall|h: SamsungHeader| #[trigger]
                        header_read(h, source@, override_page_size) implies has_magic(h)
                        && h.page_size > 0 && !sections_fit(h, source@.len()) by {
                        lemma_header_read_unique(h, header, source@, override_page_size);
                    }
                }
                return Err(ReadBootImageError::Io(e));
            },
        };
        image.insert_ramdisk(ramdisk);
        proof {
            lemma_offset_depends_on_earlier(
                image@.header,
                header,
                header.page_size as nat,
                Section::SecondStage,
            );
        }
        let second_ramdisk = match read_region(
            source,
            image.second_ramdisk_offset(),
            header.second_size as u64,
        ) {
            Ok(bytes) => bytes,
            Err(e) => {
                proof {
                    assert forall|h: SamsungHeader| #[trigger]
                        header_read(h, source@, override_page_size) implies has_magic(h)
                        && h.page_size > 0 && !sections_fit(h, source@.len()) by {
                        lemma_header_read_unique(h, header, source@, override_page_size);
                    }
                }
                return Err(ReadBootImageError::Io(e));
            },
        };
        image.insert_second_ramdisk(second_ramdisk);
        proof {
            lemma_offset_depends_on_earlier(
                image@.header,
                header,
                header.page_size as nat,
                Section::DeviceTree,
            );
        }
        let device_tree = match read_region(
            source,
            image.device_tree_offset(),
            header.device_tree_size as u64,
        ) {
            Ok(bytes) => bytes,
            Err(e) => {
                proof {
                    assert forall|h: SamsungHeader| #[trigger]
                        header_read(h, source@, override_page_size) implies has_magic(h)
                        && h.page_size > 0 && !sections_fit(h, source@.len()) by {
                        lemma_header_read_unique(h, header, source@, override_page_size);
                    }
                }
                return Err(ReadBootImageError::Io(e));
            },
        };
        image.insert_device_tree(device_tree);
        assert(image@.header == header);
        Ok(image)
    }

    /// Appends the header's encoding to `target`, returning how many bytes
    /// were written.
    pub fn write_header_to(&self, target: &mut Vec<u8>) -> (r: usize)
        ensures
            final(target)@ == old(target)@ + header_bytes(self@.header),
            r == header_bytes(self@.header).len(),
    {
        self.header.write_to(target)
    }

    /// Appends the kernel to `target`, returning how many bytes were written.
    pub fn write_kernel_to(&self, target: &mut Vec<u8>) -> (r: usize)
        ensures
            final(target)@ == old(target)@ + self@.kernel,
            r == self@.kernel.len(),
    {
        push_bytes(target, self.kernel.as_slice());
        self.kernel.len()
    }

    /// Appends the ramdisk to `target`, returning how many bytes were written.
    pub fn write_ramdisk_to(&self, target: &mut Vec<u8>) -> (r: usize)
        ensures
            final(target)@ == old(target)@ + self@.ramdisk,
            r == self@.ramdisk.len(),
    {
        push_bytes(target, self.ramdisk.as_slice());
        self.ramdisk.len()
    }

    /// Appends the second stage to `target`, returning how many bytes were written.
    pub fn write_second_ramdisk_to(&self, target: &mut Vec<u8>) -> (r: usize)
        ensures
            final(target)@ == old(target)@ + self@.second_ramdisk,
            r == self@.second_ramdisk.len(),
    {
        push_bytes(target, self.second_ramdisk.as_slice());
        self.second_ramdisk.len()
    }

    /// Appends the device tree to `target`, returning how many bytes were written.
    pub fn write_device_tree_to(&self, target: &mut Vec<u8>) -> (r: usize)
        ensures
            final(target)@ == old(target)@ + self@.device_tree,
            r == self@.device_tree.len(),
    {
        push_bytes(target, self.device_tree.as_slice());
        self.device_tree.len()
    }

    /// Appends the whole image to `target`: the header, then each section
    /// in catalog order, with no padding in between. Returns how many bytes
    /// were written.
    pub fn write_to(&self, target: &mut Vec<u8>) -> (r: usize)
        ensures
            final(target)@ == old(target)@ + self@.image_bytes(),
            r == self@.image_bytes().len(),
    {
        let ghost start = target@;
        let ghost m = self@;
        let start_len = target.len();
        self.write_header_to(target);
        self.write_kernel_to(target);
        self.write_ramdisk_to(target);
        self.write_second_ramdisk_to(target);
        self.write_device_tree_to(target);
        proof {
            let hb = header_bytes(m.header);
            lemma_append_assoc(start, hb, m.kernel);
            lemma_append_assoc(start, hb + m.kernel, m.ramdisk);
            lemma_append_assoc(start, hb + m.kernel + m.ramdisk, m.second_ramdisk);
            lemma_append_assoc(start, hb + m.kernel + m.ramdisk + m.second_ramdisk, m.device_tree);
        }
        target.len() - start_len
    }

    /// Takes `bytes` as the buffer of `section`, which is not the header,
    /// and returns the previous buffer; the header's size for it follows.
    pub fn insert_section(&mut self, section: Section, bytes: Vec<u8>) -> (r: Vec<u8>)
        requires
            old(self).wf(),
            section != Section::Header,
            bytes@.len() <= u32::MAX,
        ensures
            final(self).wf(),
            r@ == old(self)@.buffer(section),
            final(self)@ == old(self)@.with_section(section, bytes@),
    {
        match section {
            Section::Kernel => self.insert_kernel(bytes),
            Section::Ramdisk => self.insert_ramdisk(bytes),
            Section::SecondStage => self.insert_second_ramdisk(bytes),
            Section::DeviceTree => self.insert_device_tree(bytes),
            Section::Header => bytes,
        }
    }

    /// Where `section` starts and how many bytes it holds.
    pub fn section_offset_and_size(&self, section: Section) -> (r: (u64, u64))
        requires
            self.wf(),
        ensures
            r.0 == self@.offset(section),
            r.1 == spec_section_size(self@.header, section),
    {
        let pages = offset_in_pages(&self.header, self.header.page_size, section);
        (self.header.page_size as u64 * pages, section_size(&self.header, section))
    }

    /// Appends the bytes of `section` to `target`, returning how many bytes
    /// were written.
    pub fn write_section_to(&self, section: Section, target: &mut Vec<u8>) -> (r: usize)
        ensures
            final(target)@ == old(target)@ + self@.buffer(section),
            r == self@.buffer(section).len(),
    {
        match section {
            Section::Header => self.write_header_to(target),
            Section::Kernel => self.write_kernel_to(target),
            Section::Ramdisk => self.write_ramdisk_to(target),
            Section::SecondStage => self.write_second_ramdisk_to(target),
            Section::DeviceTree => self.write_device_tree_to(target),
        }
    }
}

/// In a consistent image, the size that the header gives every section,
/// the header included, is the length of that section's bytes.
pub proof fn lemma_sizes_match_buffers(m: BootImageModel)
    requires
        m.wf(),
    ensures
        forall|s: Section| spec_section_size(m.header, s) == (#[trigger] m.buffer(s)).len(),
{
    lemma_serialize_then_parse(m.header);
}

/// The parts of a concatenation of five sequences sit at the offsets that
/// the lengths of the parts before them add up to.
proof fn lemma_five_parts(a: Seq<u8>, b: Seq<u8>, c: Seq<u8>, d: Seq<u8>, e: Seq<u8>)
    ensures
        ({
            let all = a + b + c + d + e;
            let (la, lb, lc, ld) = (a.len() as int, b.len() as int, c.len() as int, d.len() as int);
            &&& all.len() == la + lb + lc + ld + e.len()
            &&& all.subrange(0, la) == a
            &&& all.subrange(la, la + lb) == b
            &&& all.subrange(la + lb, la + lb + lc) == c
            &&& all.subrange(la + lb + lc, la + lb + lc + ld) == d
            &&& all.subrange(la + lb + lc + ld, la + lb + lc + ld + e.len()) == e
        }),
{
    let all = a + b + c + d + e;
    let (la, lb, lc, ld) = (a.len() as int, b.len() as int, c.len() as int, d.len() as int);
    assert(all.subrange(0, la) =~= a);
    assert(all.subrange(la, la + lb) =~= b);
    assert(all.subrange(la + lb, la + lb + lc) =~= c);
    assert(all.subrange(la + lb + lc, la + lb + lc + ld) =~= d);
    assert(all.subrange(la + lb + lc + ld, la + lb + lc + ld + e.len()) =~= e);
}

/// When every section before the device tree, the header included, fills
/// whole pages, each section starts where the ones before it end.
proof fn lemma_offsets_without_padding(h: SamsungHeader)
    requires
        h.page_size > 0,
        HEADER_SIZE as nat % h.page_size as nat == 0,
        h.kernel_size as nat % h.page_size as nat == 0,
        h.ramdisk_size as nat % h.page_size as nat == 0,
        h.second_size as nat % h.page_size as nat == 0,
    ensures
        spec_offset(h, h.page_size as nat, Section::Kernel) == HEADER_SIZE,
        spec_offset(h, h.page_size as nat, Section::Ramdisk) == HEADER_SIZE + h.kernel_size,
        spec_offset(h, h.page_size as nat, Section::SecondStage) == HEADER_SIZE + h.kernel_size
            + h.ramdisk_size,
        spec_offset(h, h.page_size as nat, Section::DeviceTree) == HEADER_SIZE + h.kernel_size
            + h.ramdisk_size + h.second_size,
{
    let ps = h.page_size as nat;
    let hp = spec_pages(HEADER_SIZE as nat, ps);
    let kp = spec_pages(h.kernel_size as nat, ps);
    let rp = spec_pages(h.ramdisk_size as nat, ps);
    let sp = spec_pages(h.second_size as nat, ps);
    lemma_exact_pages(HEADER_SIZE as nat, ps);
    lemma_exact_pages(h.kernel_size as nat, ps);
    lemma_exact_pages(h.ramdisk_size as nat, ps);
    lemma_exact_pages(h.second_size as nat, ps);
    assert(catalog()[0] == Section::Header && catalog()[1] == Section::Kernel && catalog()[2]
        == Section::Ramdisk && catalog()[3] == Section::SecondStage);
    assert(pages_before(h, ps, 1) == pages_before(h, ps, 0) + hp);
    assert(pages_before(h, ps, 2) == pages_before(h, ps, 1) + kp);
    assert(pages_before(h, ps, 3) == pages_before(h, ps, 2) + rp);
    assert(pages_before(h, ps, 4) == pages_before(h, ps, 3) + sp);
    assert(spec_offset_in_pages(h, ps, Section::Kernel) == hp);
    assert(spec_offset_in_pages(h, ps, Section::Ramdisk) == hp + kp);
    assert(spec_offset_in_pages(h, ps, Section::SecondStage) == hp + kp + rp);
    assert(spec_offset_in_pages(h, ps, Section::DeviceTree) == hp + kp + rp + sp);
    assert(ps * (hp + kp) == ps * hp + ps * kp) by (nonlinear_arith);
    assert(ps * (hp + kp + rp) == ps * hp + ps * kp + ps * rp) by (nonlinear_arith);
    assert(ps * (hp + kp + rp + sp) == ps * hp + ps * kp + ps * rp + ps * sp) by (nonlinear_arith);
}

/// Writing an image and reading the bytes back, with the page size of its
/// header, gives the same header and the same four sections. Writing puts
/// no padding between sections, so this holds where every section before
/// the device tree, the header included, fills whole pages.
pub proof fn lemma_write_then_read(m: BootImageModel)
    requires
        m.wf(),
        HEADER_SIZE as nat % m.header.page_size as nat == 0,
        m.kernel.len() % m.header.page_size as nat == 0,
        m.ramdisk.len() % m.header.page_size as nat == 0,
        m.second_ramdisk.len() % m.header.page_size as nat == 0,
    ensures
        read_gives(m.image_bytes(), None, m),
        read_gives(m.image_bytes(), Some(m.header.page_size), m),
{
    let h = m.header;
    let hb = header_bytes(h);
    let bytes = m.image_bytes();
    lemma_serialize_then_parse(h);
    lemma_five_parts(hb, m.kernel, m.ramdisk, m.second_ramdisk, m.device_tree);
    assert(hb.subrange(44, 48) =~= bytes.subrange(44, 48));
    assert(with_page_size(h, stored_page_size(bytes)) == h);
    lemma_offsets_without_padding(h);
    assert(region(bytes, h, Section::Kernel) =~= m.kernel);
    assert(region(bytes, h, Section::Ramdisk) =~= m.ramdisk);
    assert(region(bytes, h, Section::SecondStage) =~= m.second_ramdisk);
    assert(region(bytes, h, Section::DeviceTree) =~= m.device_tree);
}

} // verus!
