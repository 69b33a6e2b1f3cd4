//! The ways in which taking a header or reading an image can fail.

use crate::header::SamsungHeader;
use vstd::prelude::*;

verus! {

/// Why a header cannot be taken into an image.
#[derive(Debug, Clone, Copy)]
pub enum BadHeaderError {
    /// The page size is zero, so no section can be located.
    NoPageSize(SamsungHeader),
    /// The header does not start with the `ANDROID!` signature.
    BadMagic(SamsungHeader),
}

/// A region that the layout declares reaches past the end of the source.
#[derive(Debug, Clone, Copy, PartialEq, Eq)]
pub struct ShortRead {
    /// Where the region starts, in bytes from the start of the source.
    pub offset: u64,
    /// How many bytes the region holds.
    pub size: u64,
}

/// Why a boot image cannot be read.
#[derive(Debug, Clone, Copy)]
pub enum ReadBootImageError {
    /// The source ended before the header or a section could be read.
    Io(ShortRead),
    /// The header was read but cannot be taken into an image.
    BadHeader(BadHeaderError),
}

} // verus!
