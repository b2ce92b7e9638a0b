//! The section base addresses that call-frame-information parsing needs.

use vstd::prelude::*;

use crate::image::builder;
use crate::image::linux;

verus! {

/// The base addresses of the sections that call-frame-information parsing
/// consumes: `.text`, the unwind-frame section, the GOT, and optionally the
/// unwind-frame header.
#[derive(Debug, Clone, Copy, PartialEq, Eq)]
pub struct BaseAddresses {
    /// The address of the text section.
    pub text: u64,
    /// The address of the unwind-frame section (`.eh_frame` / `__eh_frame`).
    pub eh_frame: u64,
    /// The address of the global offset table.
    pub got: u64,
    /// The address of the unwind-frame header (`.eh_frame_hdr`), absent on
    /// object formats without one.
    pub eh_frame_hdr: Option<u64>,
}

/// Assemble the base addresses of the ELF object held in `data`: `.text`,
/// `.eh_frame` and `.got` must all be present, `.eh_frame_hdr` is overlaid
/// best-effort.
pub fn load(data: &[u8]) -> (r: Option<BaseAddresses>)
    ensures
        r == builder::built_bases(
            data@,
            linux::Builder::base_model(),
            linux::Builder::optional_model(),
        ),
{
    let table = linux::Builder::mapper();
    builder::build(data, &table)
}

} // verus!
