//! The fixed binary layout of the boot image header: decoding, encoding,
//! the magic signature check and the conventional defaults.

use crate::bytes::{copy_array, le_u32, push_bytes, read_u32_at, u32_le, u32_to_le};
use crate::bytes::{lemma_append_assoc, lemma_le_u32_of_u32_le, lemma_u32_le_of_le_u32};
use crate::errors::ShortRead;
use vstd::prelude::*;

verus! {

/// The size of the header on disk, in bytes.
pub const HEADER_SIZE: usize = 616;

/// The width of the magic signature, in bytes.
pub const MAGIC_SIZE: usize = 8;

/// The width of the product name field, in bytes.
pub const PRODUCT_NAME_SIZE: usize = 24;

/// The width of the kernel command line field, in bytes.
pub const BOOT_ARGUMENTS_SIZE: usize = 512;

/// The width of the unique identifier field, in bytes.
pub const UNIQUE_ID_SIZE: usize = 32;

/// The magic signature, as text.
pub const MAGIC_STR: &'static str = "ANDROID!";

/// The magic signature that every valid header starts with.
pub const MAGIC: [u8; MAGIC_SIZE] = [0x41, 0x4E, 0x44, 0x52, 0x4F, 0x49, 0x44, 0x21];

/// The bytes of the magic signature, `ANDROID!` in ASCII.
pub open spec fn magic_bytes() -> Seq<u8> {
    seq![0x41u8, 0x4Eu8, 0x44u8, 0x52u8, 0x4Fu8, 0x49u8, 0x44u8, 0x21u8]
}

/// The header of a boot image, field by field in on-disk order.
#[derive(Debug, Clone, Copy, PartialEq, Eq)]
pub struct SamsungHeader {
    /// Header magic. Used to make sure this is in fact a header.
    pub magic: [u8; MAGIC_SIZE],
    /// Kernel size, in bytes.
    pub kernel_size: u32,
    /// Address the kernel should be loaded to.
    pub kernel_load_address: u32,
    /// Ramdisk size, in bytes.
    pub ramdisk_size: u32,
    /// Address the ramdisk should be loaded to.
    pub ramdisk_load_address: u32,
    /// Size of an optional second file.
    pub second_size: u32,
    /// Address the optional second file should be loaded to.
    pub second_load_address: u32,
    /// The size of the device tree, in bytes.
    pub device_tree_size: u32,
    /// Room for future expansion, carried through unchanged.
    pub reserved: u32,
    /// Physical address of the kernel tags.
    pub kernel_tags_address: u32,
    /// The page size. Zero means that it is not set.
    pub page_size: u32,
    /// Name of the product, null-padded ASCII.
    pub product_name: [u8; PRODUCT_NAME_SIZE],
    /// Arguments to pass to the kernel during boot, null-padded.
    pub boot_arguments: [u8; BOOT_ARGUMENTS_SIZE],
    /// Used to uniquely identify boot images.
    pub unique_id: [u8; UNIQUE_ID_SIZE],
}

/// The canonical header layout.
pub type Header = SamsungHeader;

/// The on-disk encoding of a header: each field in declared order, the
/// integers as four little-endian bytes.
pub open spec fn header_bytes(h: SamsungHeader) -> Seq<u8> {
    h.magic@ + u32_le(h.kernel_size) + u32_le(h.kernel_load_address) + u32_le(h.ramdisk_size)
        + u32_le(h.ramdisk_load_address) + u32_le(h.second_size) + u32_le(h.second_load_address)
        + u32_le(h.device_tree_size) + u32_le(h.reserved) + u32_le(h.kernel_tags_address)
        + u32_le(h.page_size) + h.product_name@ + h.boot_arguments@ + h.unique_id@
}

/// `h` is what decoding the header-sized buffer `b` gives: every field is
/// read at its fixed position, integers in little-endian order.
pub open spec fn parsed_from(h: SamsungHeader, b: Seq<u8>) -> bool {
    &&& b.len() == HEADER_SIZE
    &&& h.magic@ == b.subrange(0, 8)
    &&& h.kernel_size == le_u32(b.subrange(8, 12))
    &&& h.kernel_load_address == le_u32(b.subrange(12, 16))
    &&& h.ramdisk_size == le_u32(b.subrange(16, 20))
    &&& h.ramdisk_load_address == le_u32(b.subrange(20, 24))
    &&& h.second_size == le_u32(b.subrange(24, 28))
    &&& h.second_load_address == le_u32(b.subrange(28, 32))
    &&& h.device_tree_size == le_u32(b.subrange(32, 36))
    &&& h.reserved == le_u32(b.subrange(36, 40))
    &&& h.kernel_tags_address == le_u32(b.subrange(40, 44))
    &&& h.page_size == le_u32(b.subrange(44, 48))
    &&& h.product_name@ == b.subrange(48, 72)
    &&& h.boot_arguments@ == b.subrange(72, 584)
    &&& h.unique_id@ == b.subrange(584, 616)
}

/// The header starts with the magic signature.
pub open spec fn has_magic(h: SamsungHeader) -> bool {
    h.magic@ == magic_bytes()
}

/// A prefix of `b` followed by the bytes of `b` that come next is a longer
/// prefix of `b`.
proof fn lemma_extend_prefix(b: Seq<u8>, p: Seq<u8>, x: Seq<u8>, i: int, j: int)
    requires
        0 <= i <= j <= b.len(),
        p == b.subrange(0, i),
        x == b.subrange(i, j),
    ensures
        p + x == b.subrange(0, j),
{
    assert(p + x =~= b.subrange(0, j));
}

/// Encoding a decoded buffer gives that buffer back, byte for byte.
pub proof fn lemma_parse_then_serialize(h: SamsungHeader, b: Seq<u8>)
    requires
        parsed_from(h, b),
    ensures
        header_bytes(h) == b,
{
    let pre1 = h.magic@;
    let pre2 = pre1 + u32_le(h.kernel_size);
    let pre3 = pre2 + u32_le(h.kernel_load_address);
    let pre4 = pre3 + u32_le(h.ramdisk_size);
    let pre5 = pre4 + u32_le(h.ramdisk_load_address);
    let pre6 = pre5 + u32_le(h.second_size);
    let pre7 = pre6 + u32_le(h.second_load_address);
    let pre8 = pre7 + u32_le(h.device_tree_size);
    let pre9 = pre8 + u32_le(h.reserved);
    let pre10 = pre9 + u32_le(h.kernel_tags_address);
    let pre11 = pre10 + u32_le(h.page_size);
    let pre12 = pre11 + h.product_name@;
    let pre13 = pre12 + h.boot_arguments@;
    let pre14 = pre13 + h.unique_id@;
    assert(header_bytes(h) == pre14);
    lemma_u32_le_of_le_u32(b.subrange(8, 12));
    lemma_u32_le_of_le_u32(b.subrange(12, 16));
    lemma_u32_le_of_le_u32(b.subrange(16, 20));
    lemma_u32_le_of_le_u32(b.subrange(20, 24));
    lemma_u32_le_of_le_u32(b.subrange(24, 28));
    lemma_u32_le_of_le_u32(b.subrange(28, 32));
    lemma_u32_le_of_le_u32(b.subrange(32, 36));
    lemma_u32_le_of_le_u32(b.subrange(36, 40));
    lemma_u32_le_of_le_u32(b.subrange(40, 44));
    lemma_u32_le_of_le_u32(b.subrange(44, 48));
    assert(pre1 =~= b.subrange(0, 8));
    lemma_extend_prefix(b, pre1, u32_le(h.kernel_size), 8, 12);
    lemma_extend_prefix(b, pre2, u32_le(h.kernel_load_address), 12, 16);
    lemma_extend_prefix(b, pre3, u32_le(h.ramdisk_size), 16, 20);
    lemma_extend_prefix(b, pre4, u32_le(h.ramdisk_load_address), 20, 24);
    lemma_extend_prefix(b, pre5, u32_le(h.second_size), 24, 28);
    lemma_extend_prefix(b, pre6, u32_le(h.second_load_address), 28, 32);
    lemma_extend_prefix(b, pre7, u32_le(h.device_tree_size), 32, 36);
    lemma_extend_prefix(b, pre8, u32_le(h.reserved), 36, 40);
    lemma_extend_prefix(b, pre9, u32_le(h.kernel_tags_address), 40, 44);
    lemma_extend_prefix(b, pre10, u32_le(h.page_size), 44, 48);
    lemma_extend_prefix(b, pre11, h.product_name@, 48, 72);
    lemma_extend_prefix(b, pre12, h.boot_arguments@, 72, 584);
    lemma_extend_prefix(b, pre13, h.unique_id@, 584, 616);
    assert(b.subrange(0, 616) =~= b);
}

/// Decoding the encoding of a header gives that header back.
pub proof fn lemma_serialize_then_parse(h: SamsungHeader)
    ensures
        parsed_from(h, header_bytes(h)),
{
    let b = header_bytes(h);
    let pre1 = h.magic@;
    let pre2 = pre1 + u32_le(h.kernel_size);
    let pre3 = pre2 + u32_le(h.kernel_load_address);
    let pre4 = pre3 + u32_le(h.ramdisk_size);
    let pre5 = pre4 + u32_le(h.ramdisk_load_address);
    let pre6 = pre5 + u32_le(h.second_size);
    let pre7 = pre6 + u32_le(h.second_load_address);
    let pre8 = pre7 + u32_le(h.device_tree_size);
    let pre9 = pre8 + u32_le(h.reserved);
    let pre10 = pre9 + u32_le(h.kernel_tags_address);
    let pre11 = pre10 + u32_le(h.page_size);
    let pre12 = pre11 + h.product_name@;
    let pre13 = pre12 + h.boot_arguments@;
    let pre14 = pre13 + h.unique_id@;
    assert(header_bytes(h) == pre14);
    assert(pre14 =~= b.subrange(0, 616));
    assert(pre13 =~= b.subrange(0, 584)) by {
        assert(pre13 =~= pre14.subrange(0, 584));
    }
    assert(pre12 =~= b.subrange(0, 72)) by {
        assert(pre12 =~= pre13.subrange(0, 72));
    }
    assert(pre11 =~= b.subrange(0, 48)) by {
        assert(pre11 =~= pre12.subrange(0, 48));
    }
    assert(pre10 =~= b.subrange(0, 44)) by {
        assert(pre10 =~= pre11.subrange(0, 44));
    }
    assert(pre9 =~= b.subrange(0, 40)) by {
        assert(pre9 =~= pre10.subrange(0, 40));
    }
    assert(pre8 =~= b.subrange(0, 36)) by {
        assert(pre8 =~= pre9.subrange(0, 36));
    }
    assert(pre7 =~= b.subrange(0, 32)) by {
        assert(pre7 =~= pre8.subrange(0, 32));
    }
    assert(pre6 =~= b.subrange(0, 28)) by {
        assert(pre6 =~= pre7.subrange(0, 28));
    }
    assert(pre5 =~= b.subrange(0, 24)) by {
        assert(pre5 =~= pre6.subrange(0, 24));
    }
    assert(pre4 =~= b.subrange(0, 20)) by {
        assert(pre4 =~= pre5.subrange(0, 20));
    }
    assert(pre3 =~= b.subrange(0, 16)) by {
        assert(pre3 =~= pre4.subrange(0, 16));
    }
    assert(pre2 =~= b.subrange(0, 12)) by {
        assert(pre2 =~= pre3.subrange(0, 12));
    }
    assert(pre1 =~= b.subrange(0, 8)) by {
        assert(pre1 =~= pre2.subrange(0, 8));
    }
    assert(h.magic@ =~= b.subrange(0, 8)) by {
        assert(h.magic@ =~= pre1.subrange(0, 8));
    }
    assert(u32_le(h.kernel_size) =~= b.subrange(8, 12)) by {
        assert(u32_le(h.kernel_size) =~= pre2.subrange(8, 12));
    }
    assert(u32_le(h.kernel_load_address) =~= b.subrange(12, 16)) by {
        assert(u32_le(h.kernel_load_address) =~= pre3.subrange(12, 16));
    }
    assert(u32_le(h.ramdisk_size) =~= b.subrange(16, 20)) by {
        assert(u32_le(h.ramdisk_size) =~= pre4.subrange(16, 20));
    }
    assert(u32_le(h.ramdisk_load_address) =~= b.subrange(20, 24)) by {
        assert(u32_le(h.ramdisk_load_address) =~= pre5.subrange(20, 24));
    }
    assert(u32_le(h.second_size) =~= b.subrange(24, 28)) by {
        assert(u32_le(h.second_size) =~= pre6.subrange(24, 28));
    }
    assert(u32_le(h.second_load_address) =~= b.subrange(28, 32)) by {
        assert(u32_le(h.second_load_address) =~= pre7.subrange(28, 32));
    }
    assert(u32_le(h.device_tree_size) =~= b.subrange(32, 36)) by {
        assert(u32_le(h.device_tree_size) =~= pre8.subrange(32, 36));
    }
    assert(u32_le(h.reserved) =~= b.subrange(36, 40)) by {
        assert(u32_le(h.reserved) =~= pre9.subrange(36, 40));
    }
    assert(u32_le(h.kernel_tags_address) =~= b.subrange(40, 44)) by {
        assert(u32_le(h.kernel_tags_address) =~= pre10.subrange(40, 44));
    }
    assert(u32_le(h.page_size) =~= b.subrange(44, 48)) by {
        assert(u32_le(h.page_size) =~= pre11.subrange(44, 48));
    }
    assert(h.product_name@ =~= b.subrange(48, 72)) by {
        assert(h.product_name@ =~= pre12.subrange(48, 72));
    }
    assert(h.boot_arguments@ =~= b.subrange(72, 584)) by {
        assert(h.boot_arguments@ =~= pre13.subrange(72, 584));
    }
    assert(h.unique_id@ =~= b.subrange(584, 616)) by {
        assert(h.unique_id@ =~= pre14.subrange(584, 616));
    }
    lemma_le_u32_of_u32_le(h.kernel_size);
    lemma_le_u32_of_u32_le(h.kernel_load_address);
    lemma_le_u32_of_u32_le(h.ramdisk_size);
    lemma_le_u32_of_u32_le(h.ramdisk_load_address);
    lemma_le_u32_of_u32_le(h.second_size);
    lemma_le_u32_of_u32_le(h.second_load_address);
    lemma_le_u32_of_u32_le(h.device_tree_size);
    lemma_le_u32_of_u32_le(h.reserved);
    lemma_le_u32_of_u32_le(h.kernel_tags_address);
    lemma_le_u32_of_u32_le(h.page_size);
}

/// Two headers decoded from the same buffer are the same header.
pub proof fn lemma_parsed_from_unique(h1: SamsungHeader, h2: SamsungHeader, b: Seq<u8>)
    requires
        parsed_from(h1, b),
        parsed_from(h2, b),
    ensures
        h1 == h2,
{
    assert(h1.magic =~= h2.magic);
    assert(h1.product_name =~= h2.product_name);
    assert(h1.boot_arguments =~= h2.boot_arguments);
    assert(h1.unique_id =~= h2.unique_id);
}

/// Appends the four little-endian bytes of `n` to `out`.
fn push_u32(out: &mut Vec<u8>, n: u32)
    ensures
        final(out)@ == old(out)@ + u32_le(n),
{
    let b = u32_to_le(n);
    push_bytes(out, b.as_slice());
}

impl SamsungHeader {
    /// Decodes a header from a header-sized buffer. The magic signature is
    /// not checked here, so this cannot fail.
    pub fn parse(source: &[u8; HEADER_SIZE]) -> (r: Self)
        ensures
            parsed_from(r, source@),
    {
        let s = source.as_slice();
        SamsungHeader {
            magic: copy_array::<MAGIC_SIZE>(s, 0),
            kernel_size: read_u32_at(s, 8),
            kernel_load_address: read_u32_at(s, 12),
            ramdisk_size: read_u32_at(s, 16),
            ramdisk_load_address: read_u32_at(s, 20),
            second_size: read_u32_at(s, 24),
            second_load_address: read_u32_at(s, 28),
            device_tree_size: read_u32_at(s, 32),
            reserved: read_u32_at(s, 36),
            kernel_tags_address: read_u32_at(s, 40),
            page_size: read_u32_at(s, 44),
            product_name: copy_array::<PRODUCT_NAME_SIZE>(s, 48),
            boot_arguments: copy_array::<BOOT_ARGUMENTS_SIZE>(s, 72),
            unique_id: copy_array::<UNIQUE_ID_SIZE>(s, 584),
        }
    }

    /// Decodes the header at the start of `source`. Fails when `source` is
    /// shorter than a header.
    pub fn read_from(source: &[u8]) -> (r: Result<Self, ShortRead>)
        ensures
            match r {
                Ok(h) => source@.len() >= HEADER_SIZE && parsed_from(
                    h,
                    source@.subrange(0, HEADER_SIZE as int),
                ),
                Err(e) => source@.len() < HEADER_SIZE && e == (ShortRead {
                    offset: 0,
                    size: HEADER_SIZE as u64,
                }),
            },
    {
        if source.len() < HEADER_SIZE {
            Err(ShortRead { offset: 0, size: HEADER_SIZE as u64 })
        } else {
            let buffer = copy_array::<HEADER_SIZE>(source, 0);
            Ok(Self::parse(&buffer))
        }
    }

    /// Appends the encoding of this header to `target`, returning how many
    /// bytes were written.
    pub fn write_to(&self, target: &mut Vec<u8>) -> (r: usize)
        ensures
            final(target)@ == old(target)@ + header_bytes(*self),
            r == HEADER_SIZE,
            header_bytes(*self).len() == HEADER_SIZE,
    {
        let ghost start = target@;
        let ghost h = *self;
        let ghost pre1 = h.magic@;
        let ghost pre2 = pre1 + u32_le(h.kernel_size);
        let ghost pre3 = pre2 + u32_le(h.kernel_load_address);
        let ghost pre4 = pre3 + u32_le(h.ramdisk_size);
        let ghost pre5 = pre4 + u32_le(h.ramdisk_load_address);
        let ghost pre6 = pre5 + u32_le(h.second_size);
        let ghost pre7 = pre6 + u32_le(h.second_load_address);
        let ghost pre8 = pre7 + u32_le(h.device_tree_size);
        let ghost pre9 = pre8 + u32_le(h.reserved);
        let ghost pre10 = pre9 + u32_le(h.kernel_tags_address);
        let ghost pre11 = pre10 + u32_le(h.page_size);
        let ghost pre12 = pre11 + h.product_name@;
        let ghost pre13 = pre12 + h.boot_arguments@;
        let ghost pre14 = pre13 + h.unique_id@;
        push_bytes(target, self.magic.as_slice());
        push_u32(target, self.kernel_size);
        proof {
            lemma_append_assoc(start, pre1, u32_le(h.kernel_size));
        }
        push_u32(target, self.kernel_load_address);
        proof {
            lemma_append_assoc(start, pre2, u32_le(h.kernel_load_address));
        }
        push_u32(target, self.ramdisk_size);
        proof {
            lemma_append_assoc(start, pre3, u32_le(h.ramdisk_size));
        }
        push_u32(target, self.ramdisk_load_address);
        proof {
            lemma_append_assoc(start, pre4, u32_le(h.ramdisk_load_address));
        }
        push_u32(target, self.second_size);
        proof {
            lemma_append_assoc(start, pre5, u32_le(h.second_size));
        }
        push_u32(target, self.second_load_address);
        proof {
            lemma_append_assoc(start, pre6, u32_le(h.second_load_address));
        }
        push_u32(target, self.device_tree_size);
        proof {
            lemma_append_assoc(start, pre7, u32_le(h.device_tree_size));
        }
        push_u32(target, self.reserved);
        proof {
            lemma_append_assoc(start, pre8, u32_le(h.reserved));
        }
        push_u32(target, self.kernel_tags_address);
        proof {
            lemma_append_assoc(start, pre9, u32_le(h.kernel_tags_address));
        }
        push_u32(target, self.page_size);
        proof {
            lemma_append_assoc(start, pre10, u32_le(h.page_size));
        }
        push_bytes(target, self.product_name.as_slice());
        proof {
            lemma_append_assoc(start, pre11, h.product_name@);
        }
        push_bytes(target, self.boot_arguments.as_slice());
        proof {
            lemma_append_assoc(start, pre12, h.boot_arguments@);
        }
        push_bytes(target, self.unique_id.as_slice());
        proof {
            lemma_append_assoc(start, pre13, h.unique_id@);
        }
        assert(header_bytes(h) == pre14);
        HEADER_SIZE
    }

    /// The encoding of this header as a header-sized buffer.
    pub fn to_bytes(&self) -> (r: [u8; HEADER_SIZE])
        ensures
            r@ == header_bytes(*self),
    {
        let mut out: Vec<u8> = Vec::new();
        self.write_to(&mut out);
        assert(out@ =~= header_bytes(*self));
        copy_array::<HEADER_SIZE>(out.as_slice(), 0)
    }

    /// Tells whether the header starts with the magic signature.
    pub fn correct_magic(&self) -> (r: bool)
        ensures
            r == has_magic(*self),
    {
        let mut i: usize = 0;
        while i < MAGIC_SIZE
            invariant
                i <= MAGIC_SIZE,
                forall|j: int| 0 <= j < i ==> self.magic@[j] == magic_bytes()[j],
            decreases MAGIC_SIZE - i,
        {
            if self.magic[i] != MAGIC[i] {
                return false;
            }
            i += 1;
        }
        assert(self.magic@ =~= magic_bytes());
        true
    }
}

/// The kernel load address of a header built from scratch.
pub const DEFAULT_KERNEL_LOAD_ADDRESS: u32 = 0x1000_8000;

/// The ramdisk load address of a header built from scratch.
pub const DEFAULT_RAMDISK_LOAD_ADDRESS: u32 = 0x1100_0000;

/// The second stage load address of a header built from scratch.
pub const DEFAULT_SECOND_LOAD_ADDRESS: u32 = 0x100f_0000;

/// The kernel tags address of a header built from scratch.
pub const DEFAULT_KERNEL_TAGS_ADDRESS: u32 = 0x1000_0100;

/// The value of the reserved field in a header built from scratch.
pub const DEFAULT_RESERVED: u32 = 0x0200_0000;

/// The page size of a header built from scratch.
pub const DEFAULT_PAGE_SIZE: u32 = 2048;

/// Every byte of `s` is zero.
pub open spec fn all_zero(s: Seq<u8>) -> bool {
    forall|i: int| 0 <= i < s.len() ==> s[i] == 0
}

/// `h` is the header of an image built from scratch: the magic signature,
/// no sections, a page size of 2048, the conventional load addresses and
/// zero-filled text fields.
pub open spec fn is_default_header(h: SamsungHeader) -> bool {
    &&& has_magic(h)
    &&& h.kernel_size == 0
    &&& h.ramdisk_size == 0
    &&& h.second_size == 0
    &&& h.device_tree_size == 0
    &&& h.kernel_load_address == DEFAULT_KERNEL_LOAD_ADDRESS
    &&& h.ramdisk_load_address == DEFAULT_RAMDISK_LOAD_ADDRESS
    &&& h.second_load_address == DEFAULT_SECOND_LOAD_ADDRESS
    &&& h.kernel_tags_address == DEFAULT_KERNEL_TAGS_ADDRESS
    &&& h.reserved == DEFAULT_RESERVED
    &&& h.page_size == DEFAULT_PAGE_SIZE
    &&& all_zero(h.product_name@)
    &&& all_zero(h.boot_arguments@)
    &&& all_zero(h.unique_id@)
}

impl Default for SamsungHeader {
    /// A header for an image built from scratch.
    fn default() -> (r: Self)
        ensures
            is_default_header(r),
    {
        let r = SamsungHeader {
            magic: MAGIC,
            kernel_size: 0,
            kernel_load_address: DEFAULT_KERNEL_LOAD_ADDRESS,
            ramdisk_size: 0,
            ramdisk_load_address: DEFAULT_RAMDISK_LOAD_ADDRESS,
            second_size: 0,
            second_load_address: DEFAULT_SECOND_LOAD_ADDRESS,
            device_tree_size: 0,
            reserved: DEFAULT_RESERVED,
            kernel_tags_address: DEFAULT_KERNEL_TAGS_ADDRESS,
            page_size: DEFAULT_PAGE_SIZE,
            product_name: [0; PRODUCT_NAME_SIZE],
            boot_arguments: [0; BOOT_ARGUMENTS_SIZE],
            unique_id: [0; UNIQUE_ID_SIZE],
        };
        assert(r.magic@ =~= magic_bytes());
        r
    }
}

/// The header layouts an image may carry. Only the Samsung layout is
/// defined by this library; the others name layouts it does not decode.
#[derive(Debug, Clone, Copy, Default)]
pub enum HeaderKind {
    AospHeaderv0,
    AospHeaderv1,
    AospHeaderv2,
    AospHeaderv3,
    AospHeaderv4,
    SamsungHeader(SamsungHeader),
    #[default]
    Undefined,
}

impl HeaderKind {
    /// The size of the header on disk, for the layouts that this library
    /// defines.
    pub fn header_size(&self) -> (r: Option<usize>)
        ensures
            r == (match self {
                HeaderKind::SamsungHeader(_) => Some(HEADER_SIZE),
                _ => None::<usize>,
            }),
    {
        match self {
            HeaderKind::SamsungHeader(_) => Some(HEADER_SIZE),
            _ => None,
        }
    }

    /// Tells whether the header is of a defined layout and carries its
    /// magic signature.
    pub fn has_correct_magic(&self) -> (r: bool)
        ensures
            r == (match self {
                HeaderKind::SamsungHeader(h) => has_magic(*h),
                _ => false,
            }),
    {
        match self {
            HeaderKind::SamsungHeader(h) => h.correct_magic(),
            _ => false,
        }
    }
}

} // verus!
