//! Reading, modelling and writing Android boot images, including the
//! Samsung variant of the header.
//!
//! A boot image is a fixed-size header followed by the kernel, the ramdisk,
//! an optional second stage and a device tree, each starting on a page
//! boundary. The layout rules are stated as spec functions and every
//! operation on images is proved against them.

pub mod bytes;
pub mod errors;
pub mod header;
pub mod layout;
pub mod image;

pub use errors::{BadHeaderError, ReadBootImageError, ShortRead};
pub use header::{Header, HeaderKind, SamsungHeader, HEADER_SIZE, MAGIC, MAGIC_STR};
pub use image::{BootImage, SamsungBootImage};
pub use layout::{offset_of, present_sections, section_size, size_and_offset, Section};
