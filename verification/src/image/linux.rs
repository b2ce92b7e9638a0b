//! The ELF section-name table.

use vstd::prelude::*;

use crate::image::builder::entries_view;
use crate::image::builder::SectionMapper;
use crate::image::builder::SectionSlot;

verus! {

/// Provides the section table of ELF objects.
pub struct Builder;

impl Builder {
    /// The required ELF sections.
    pub open spec fn base_model() -> Seq<(Seq<char>, SectionSlot)> {
        seq![
            (".text"@, SectionSlot::Text),
            (".eh_frame"@, SectionSlot::EhFrame),
            (".got"@, SectionSlot::Got),
        ]
    }

    /// The best-effort ELF sections.
    pub open spec fn optional_model() -> Seq<(Seq<char>, SectionSlot)> {
        seq![(".eh_frame_hdr"@, SectionSlot::EhFrameHdr)]
    }

    /// The `(section name, slot)` table of ELF objects: `.text`, `.eh_frame`
    /// and `.got` are required, `.eh_frame_hdr` is overlaid best-effort.
    pub fn mapper() -> (r: SectionMapper)
        ensures
            entries_view(r.base@) == Self::base_model(),
            entries_view(r.optional@) == Self::optional_model(),
    {
        let mut base: Vec<(&'static str, SectionSlot)> = Vec::new();
        base.push((".text", SectionSlot::Text));
        base.push((".eh_frame", SectionSlot::EhFrame));
        base.push((".got", SectionSlot::Got));
        let mut optional: Vec<(&'static str, SectionSlot)> = Vec::new();
        optional.push((".eh_frame_hdr", SectionSlot::EhFrameHdr));
        proof {
            assert(entries_view(base@) =~= Self::base_model());
            assert(entries_view(optional@) =~= Self::optional_model());
        }
        SectionMapper { base, optional }
    }
}

} // verus!
