//! The Mach-O section-name table.

use vstd::prelude::*;

use crate::image::builder::entries_view;
use crate::image::builder::SectionMapper;
use crate::image::builder::SectionSlot;

verus! {

/// Provides the section table of Mach-O objects.
pub struct Builder;

impl Builder {
    /// The required Mach-O sections.
    pub open spec fn base_model() -> Seq<(Seq<char>, SectionSlot)> {
        seq![
            ("__text"@, SectionSlot::Text),
            ("__eh_frame"@, SectionSlot::EhFrame),
            ("__got"@, SectionSlot::Got),
        ]
    }

    /// Mach-O objects have no unwind-frame header section.
    pub open spec fn optional_model() -> Seq<(Seq<char>, SectionSlot)> {
        Seq::empty()
    }

    /// The `(section name, slot)` table of Mach-O objects: `__text`,
    /// `__eh_frame` and `__got` are required, and there is no header section.
    pub fn mapper() -> (r: SectionMapper)
        ensures
            entries_view(r.base@) == Self::base_model(),
            entries_view(r.optional@) == Self::optional_model(),
    {
        let mut base: Vec<(&'static str, SectionSlot)> = Vec::new();
        base.push(("__text", SectionSlot::Text));
        base.push(("__eh_frame", SectionSlot::EhFrame));
        base.push(("__got", SectionSlot::Got));
        let optional: Vec<(&'static str, SectionSlot)> = Vec::new();
        proof {
            assert(entries_view(base@) =~= Self::base_model());
            assert(entries_view(optional@) =~= Self::optional_model());
        }
        SectionMapper { base, optional }
    }
}

} // verus!
