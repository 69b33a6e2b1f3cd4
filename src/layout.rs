//! The section catalog and the layout calculator: which sections an image
//! has, in which order they lie on disk, and where each one starts.

use crate::errors::BadHeaderError;
use crate::header::{SamsungHeader, HEADER_SIZE};
use vstd::prelude::*;

verus! {

/// A region of a boot image. The variants are listed in on-disk order.
#[derive(Debug, Clone, Copy, PartialEq, Eq, Structural)]
pub enum Section {
    Header,
    Kernel,
    Ramdisk,
    SecondStage,
    DeviceTree,
}

/// The sections in on-disk order.
pub const CATALOG: [Section; 5] = [
    Section::Header,
    Section::Kernel,
    Section::Ramdisk,
    Section::SecondStage,
    Section::DeviceTree,
];

/// The sections in on-disk order.
pub open spec fn catalog() -> Seq<Section> {
    seq![
        Section::Header,
        Section::Kernel,
        Section::Ramdisk,
        Section::SecondStage,
        Section::DeviceTree,
    ]
}

/// The position of a section in the catalog.
pub open spec fn section_index(s: Section) -> nat {
    match s {
        Section::Header => 0,
        Section::Kernel => 1,
        Section::Ramdisk => 2,
        Section::SecondStage => 3,
        Section::DeviceTree => 4,
    }
}

/// The size of a section in bytes: the format's constant for the header,
/// the declared size field for every other section.
pub open spec fn spec_section_size(h: SamsungHeader, s: Section) -> nat {
    match s {
        Section::Header => HEADER_SIZE as nat,
        Section::Kernel => h.kernel_size as nat,
        Section::Ramdisk => h.ramdisk_size as nat,
        Section::SecondStage => h.second_size as nat,
        Section::DeviceTree => h.device_tree_size as nat,
    }
}

/// How many pages `size` bytes take: `size` divided by `page_size`,
/// rounded up.
pub open spec fn spec_pages(size: nat, page_size: nat) -> nat
    recommends
        page_size > 0,
{
    ((size + page_size - 1) as int / page_size as int) as nat
}

/// How many pages the first `i` sections of the catalog take together.
pub open spec fn pages_before(h: SamsungHeader, page_size: nat, i: nat) -> nat
    decreases i,
{
    if i == 0 {
        0
    } else {
        pages_before(h, page_size, (i - 1) as nat) + spec_pages(
            spec_section_size(h, catalog()[i - 1]),
            page_size,
        )
    }
}

/// Where a section starts, counted in pages.
pub open spec fn spec_offset_in_pages(h: SamsungHeader, page_size: nat, s: Section) -> nat {
    pages_before(h, page_size, section_index(s))
}

/// Where a section starts, in bytes: the pages of every section before it
/// in the catalog, times the page size.
pub open spec fn spec_offset(h: SamsungHeader, page_size: nat, s: Section) -> nat {
    page_size * spec_offset_in_pages(h, page_size, s)
}

/// The sections of the catalog whose size is not zero, in catalog order.
pub open spec fn spec_present_sections(h: SamsungHeader) -> Seq<Section> {
    catalog().filter(|s: Section| spec_section_size(h, s) > 0)
}

/// Rounding a size up to whole pages covers it, and wastes less than one
/// page.
pub proof fn lemma_pages_cover(size: nat, page_size: nat)
    requires
        page_size > 0,
    ensures
        size <= page_size * spec_pages(size, page_size) <= size + page_size - 1,
{
    let q = spec_pages(size, page_size);
    let n = (size + page_size - 1) as int;
    assert(page_size * q <= n && n < page_size * q + page_size) by (nonlinear_arith)
        requires
            q == n / page_size as int,
            page_size > 0,
            n >= 0,
    ;
}

/// How many pages `size` bytes take with pages of `page_size` bytes.
pub fn size_to_size_in_pages(size: u64, page_size: u64) -> (r: u64)
    requires
        page_size > 0,
    ensures
        r == spec_pages(size as nat, page_size as nat),
{
    let whole = size / page_size;
    let r = if size % page_size == 0 {
        whole
    } else {
        assert(whole < size) by (nonlinear_arith)
            requires
                whole == size / page_size,
                size % page_size != 0,
                page_size > 0,
        ;
        whole + 1
    };
    assert(r == spec_pages(size as nat, page_size as nat)) by (nonlinear_arith)
        requires
            page_size > 0,
            whole == size / page_size,
            size % page_size == 0 ==> r == whole,
            size % page_size != 0 ==> r == whole + 1,
    {
        assert(size == page_size * whole + size % page_size);
    }
    r
}

/// The catalog holds each section once, at its index.
proof fn lemma_catalog_index(s: Section)
    ensures
        section_index(s) < 5,
        catalog()[section_index(s) as int] == s,
{
}

impl Section {
    /// The position of this section in the catalog.
    pub fn index(self) -> (r: usize)
        ensures
            r == section_index(self),
    {
        match self {
            Section::Header => 0,
            Section::Kernel => 1,
            Section::Ramdisk => 2,
            Section::SecondStage => 3,
            Section::DeviceTree => 4,
        }
    }
}

/// The size of a section in bytes, as the header declares it. The header's
/// own size is the format's constant.
pub fn section_size(header: &SamsungHeader, section: Section) -> (r: u64)
    ensures
        r == spec_section_size(*header, section),
{
    match section {
        Section::Header => HEADER_SIZE as u64,
        Section::Kernel => header.kernel_size as u64,
        Section::Ramdisk => header.ramdisk_size as u64,
        Section::SecondStage => header.second_size as u64,
        Section::DeviceTree => header.device_tree_size as u64,
    }
}

/// Every section is smaller than 2^32 bytes.
proof fn lemma_section_size_bound(h: SamsungHeader, s: Section)
    ensures
        spec_section_size(h, s) < 0x1_0000_0000,
{
}

/// Where `target` starts, counted in pages of `page_size` bytes: the pages
/// of every section before it in the catalog, zero-size sections included.
pub(crate) fn offset_in_pages(header: &SamsungHeader, page_size: u32, target: Section) -> (r: u64)
    requires
        page_size > 0,
    ensures
        r == spec_offset_in_pages(*header, page_size as nat, target),
        page_size * r <= section_index(target) * 0x2_0000_0000,
{
    let ps = page_size as u64;
    let end = target.index();
    let mut pages: u64 = 0;
    let mut i: usize = 0;
    while i < end
        invariant
            i <= end == section_index(target) <= 4,
            ps == page_size > 0,
            pages == pages_before(*header, ps as nat, i as nat),
            ps * pages <= i * 0x2_0000_0000,
        decreases end - i,
    {
        let size = section_size(header, CATALOG[i]);
        let p = size_to_size_in_pages(size, ps);
        proof {
            lemma_section_size_bound(*header, CATALOG[i as int]);
            lemma_pages_cover(size as nat, ps as nat);
            assert(ps * (pages + p) <= (i + 1) * 0x2_0000_0000 && pages + p <= ps * (pages + p))
                by (nonlinear_arith)
                requires
                    ps * pages <= i * 0x2_0000_0000,
                    ps * p <= size + ps - 1,
                    size < 0x1_0000_0000,
                    ps < 0x1_0000_0000,
                    ps > 0,
                    pages >= 0,
                    p >= 0,
            ;
            assert(CATALOG@[i as int] == catalog()[i as int]);
        }
        pages = pages + p;
        i += 1;
    }
    pages
}

/// Where `target` starts, in bytes, with pages of `page_size` bytes. Fails
/// with `NoPageSize` when the page size is zero, whatever the section.
pub fn offset_of(header: &SamsungHeader, page_size: u32, target: Section) -> (r: Result<
    u64,
    BadHeaderError,
>)
    ensures
        match r {
            Ok(offset) => page_size > 0 && offset == spec_offset(
                *header,
                page_size as nat,
                target,
            ),
            Err(e) => page_size == 0 && e == BadHeaderError::NoPageSize(*header),
        },
{
    if page_size == 0 {
        return Err(BadHeaderError::NoPageSize(*header));
    }
    let pages = offset_in_pages(header, page_size, target);
    Ok(page_size as u64 * pages)
}

/// Where `section` starts and how many bytes it holds, with pages of
/// `page_size` bytes. Fails with `NoPageSize` when the page size is zero.
pub fn size_and_offset(header: &SamsungHeader, page_size: u32, section: Section) -> (r: Result<
    (u64, u64),
    BadHeaderError,
>)
    ensures
        match r {
            Ok((offset, size)) => page_size > 0 && offset == spec_offset(
                *header,
                page_size as nat,
                section,
            ) && size == spec_section_size(*header, section),
            Err(e) => page_size == 0 && e == BadHeaderError::NoPageSize(*header),
        },
{
    let offset = offset_of(header, page_size, section)?;
    Ok((offset, section_size(header, section)))
}

/// The sections whose size is not zero, in catalog order. The header is
/// always among them.
pub fn present_sections(header: &SamsungHeader) -> (r: Vec<Section>)
    ensures
        r@ == spec_present_sections(*header),
{
    let ghost pred = |s: Section| spec_section_size(*header, s) > 0;
    let mut r: Vec<Section> = Vec::new();
    let mut i: usize = 0;
    while i < 5
        invariant
            i <= 5,
            pred == (|s: Section| spec_section_size(*header, s) > 0),
            r@ == catalog().take(i as int).filter(pred),
        decreases 5 - i,
    {
        let s = CATALOG[i];
        proof {
            assert(CATALOG@[i as int] == catalog()[i as int]);
            let t = catalog().take(i + 1);
            assert(t =~= catalog().take(i as int).push(s));
            catalog().take(i as int).lemma_filter_push(s, pred);
            assert(t.filter(pred) == if pred(s) {
                r@.push(s)
            } else {
                r@
            });
            assert(pred(s) == (spec_section_size(*header, s) > 0));
        }
        if section_size(header, s) > 0 {
            r.push(s);
        }
        i += 1;
    }
    assert(catalog().take(5) =~= catalog());
    r
}

/// The header, first in the catalog, starts at the beginning of the image
/// whatever the page size and the section sizes.
pub proof fn lemma_header_starts_image(h: SamsungHeader, page_size: nat)
    requires
        page_size > 0,
    ensures
        spec_offset(h, page_size, Section::Header) == 0,
{
    assert(page_size * 0 == 0) by (nonlinear_arith);
}

/// A section starts no earlier than the end of the section before it in
/// the catalog, and on a page boundary.
pub proof fn lemma_sections_aligned(h: SamsungHeader, page_size: nat, s1: Section, s2: Section)
    requires
        page_size > 0,
        section_index(s2) == section_index(s1) + 1,
    ensures
        spec_offset(h, page_size, s2) >= spec_offset(h, page_size, s1) + spec_section_size(h, s1),
        spec_offset(h, page_size, s2) % page_size == 0,
{
    lemma_catalog_index(s1);
    let before = spec_offset_in_pages(h, page_size, s1);
    let size = spec_section_size(h, s1);
    let p = spec_pages(size, page_size);
    assert(spec_offset_in_pages(h, page_size, s2) == before + p);
    lemma_pages_cover(size, page_size);
    assert(page_size * (before + p) == page_size * before + page_size * p) by (nonlinear_arith);
    assert((page_size * (before + p)) % page_size == 0) by (nonlinear_arith)
        requires
            page_size > 0,
    ;
}

/// The first `i` sections take the same pages under two headers that give
/// them the same sizes.
proof fn lemma_pages_before_agree(h1: SamsungHeader, h2: SamsungHeader, page_size: nat, i: nat)
    requires
        i <= 5,
        forall|j: int|
            0 <= j < i ==> spec_section_size(h1, #[trigger] catalog()[j]) == spec_section_size(
                h2,
                catalog()[j],
            ),
    ensures
        pages_before(h1, page_size, i) == pages_before(h2, page_size, i),
    decreases i,
{
    if i > 0 {
        lemma_pages_before_agree(h1, h2, page_size, (i - 1) as nat);
        assert(spec_section_size(h1, catalog()[i - 1]) == spec_section_size(h2, catalog()[i - 1]));
    }
}

/// Where a section starts depends only on the sizes of the sections before
/// it in the catalog.
pub proof fn lemma_offset_depends_on_earlier(
    h1: SamsungHeader,
    h2: SamsungHeader,
    page_size: nat,
    s: Section,
)
    requires
        forall|t: Section|
            section_index(t) < section_index(s) ==> spec_section_size(h1, t) == spec_section_size(
                h2,
                t,
            ),
    ensures
        spec_offset_in_pages(h1, page_size, s) == spec_offset_in_pages(h2, page_size, s),
        spec_offset(h1, page_size, s) == spec_offset(h2, page_size, s),
{
    assert forall|j: int| 0 <= j < section_index(s) implies spec_section_size(
        h1,
        #[trigger] catalog()[j],
    ) == spec_section_size(h2, catalog()[j]) by {
        assert(section_index(catalog()[j]) == j);
    }
    lemma_pages_before_agree(h1, h2, page_size, section_index(s));
}

/// A size that is a whole number of pages takes exactly that many pages.
pub proof fn lemma_exact_pages(size: nat, page_size: nat)
    requires
        page_size > 0,
        size % page_size == 0,
    ensures
        page_size * spec_pages(size, page_size) == size,
{
    let q = spec_pages(size, page_size);
    let n = (size + page_size - 1) as int;
    assert(page_size * q == size) by (nonlinear_arith)
        requires
            q == n / page_size as int,
            n == size + page_size - 1,
            size % page_size == 0,
            page_size > 0,
    {
        let k = size as int / page_size as int;
        assert(size == page_size * k);
        assert(n == page_size * k + (page_size - 1));
    }
}

} // verus!
