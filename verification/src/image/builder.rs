//! Table-driven assembly of section base addresses.
//!
//! A per-OS table lists canonical section names in two classes: *base*
//! entries must all be present for call-frame-information parsing, *optional*
//! entries are overlaid best-effort.

use vstd::prelude::*;

use crate::image::base_addresses::BaseAddresses;
use crate::image::raw_image;
use crate::image::raw_image::section_address_of;

verus! {

/// Which base-address slot a section fills.
#[derive(Debug, Clone, Copy, PartialEq, Eq, Structural)]
pub enum SectionSlot {
    Text,
    EhFrame,
    EhFrameHdr,
    Got,
}

/// A per-OS table of `(canonical section name, slot)` pairs.
pub struct SectionMapper {
    /// Sections that must all be present.
    pub base: Vec<(&'static str, SectionSlot)>,
    /// Sections overlaid best-effort.
    pub optional: Vec<(&'static str, SectionSlot)>,
}

/// The four slots while a table is being applied.
pub ghost struct PartialBases {
    pub text: Option<u64>,
    pub eh_frame: Option<u64>,
    pub got: Option<u64>,
    pub eh_frame_hdr: Option<u64>,
}

impl PartialBases {
    /// No slot filled.
    pub open spec fn empty() -> PartialBases {
        PartialBases { text: None, eh_frame: None, got: None, eh_frame_hdr: None }
    }

    /// This record with one slot set to `a`.
    pub open spec fn set(self, slot: SectionSlot, a: u64) -> PartialBases {
        match slot {
            SectionSlot::Text => PartialBases { text: Some(a), ..self },
            SectionSlot::EhFrame => PartialBases { eh_frame: Some(a), ..self },
            SectionSlot::EhFrameHdr => PartialBases { eh_frame_hdr: Some(a), ..self },
            SectionSlot::Got => PartialBases { got: Some(a), ..self },
        }
    }
}

/// The slots after requiring each base entry of `entries` in order: `None`
/// as soon as one section is missing.
pub open spec fn apply_base(
    data: Seq<u8>,
    entries: Seq<(Seq<char>, SectionSlot)>,
    acc: PartialBases,
) -> Option<PartialBases>
    decreases entries.len(),
{
    if entries.len() == 0 {
        Some(acc)
    } else {
        match section_address_of(data, entries[0].0) {
            Some(a) => apply_base(data, entries.drop_first(), acc.set(entries[0].1, a)),
            None => None,
        }
    }
}

/// The slots after overlaying each optional entry of `entries` in order,
/// skipping missing sections.
pub open spec fn apply_optional(
    data: Seq<u8>,
    entries: Seq<(Seq<char>, SectionSlot)>,
    acc: PartialBases,
) -> PartialBases
    decreases entries.len(),
{
    if entries.len() == 0 {
        acc
    } else {
        let acc2 = match section_address_of(data, entries[0].0) {
            Some(a) => acc.set(entries[0].1, a),
            None => acc,
        };
        apply_optional(data, entries.drop_first(), acc2)
    }
}

/// The view of a table entry.
pub open spec fn entry_view(e: (&'static str, SectionSlot)) -> (Seq<char>, SectionSlot) {
    (e.0@, e.1)
}

/// The view of a table.
pub open spec fn entries_view(s: Seq<(&'static str, SectionSlot)>) -> Seq<
    (Seq<char>, SectionSlot),
> {
    s.map_values(|e: (&'static str, SectionSlot)| entry_view(e))
}

/// What `build` returns for an object's bytes and a table: the base entries
/// are required, the optional ones overlaid, and the three mandatory slots
/// must have been filled.
pub open spec fn built_bases(
    data: Seq<u8>,
    base: Seq<(Seq<char>, SectionSlot)>,
    optional: Seq<(Seq<char>, SectionSlot)>,
) -> Option<BaseAddresses> {
    match apply_base(data, base, PartialBases::empty()) {
        None => None,
        Some(acc) => {
            let done = apply_optional(data, optional, acc);
            if done.text is Some && done.eh_frame is Some && done.got is Some {
                Some(
                    BaseAddresses {
                        text: done.text->0,
                        eh_frame: done.eh_frame->0,
                        got: done.got->0,
                        eh_frame_hdr: done.eh_frame_hdr,
                    },
                )
            } else {
                None
            }
        },
    }
}

/// Assemble the base addresses of the object file held in `data` per the
/// table `mapper`: every base entry's section must be present, optional
/// entries are overlaid best-effort.
pub fn build(data: &[u8], mapper: &SectionMapper) -> (r: Option<BaseAddresses>)
    ensures
        r == built_bases(data@, entries_view(mapper.base@), entries_view(mapper.optional@)),
{
    let ghost base_entries = entries_view(mapper.base@);
    let mut text: Option<u64> = None;
    let mut eh_frame: Option<u64> = None;
    let mut got: Option<u64> = None;
    let mut eh_frame_hdr: Option<u64> = None;
    proof {
        assert(base_entries.skip(0) =~= base_entries);
    }
    let mut i: usize = 0;
    while i < mapper.base.len()
        invariant
            i <= mapper.base@.len(),
            base_entries == entries_view(mapper.base@),
            apply_base(data@, base_entries, PartialBases::empty()) == apply_base(
                data@,
                base_entries.skip(i as int),
                PartialBases { text, eh_frame, got, eh_frame_hdr },
            ),
        decreases mapper.base@.len() - i,
    {
        let (name, slot) = mapper.base[i];
        proof {
            assert(base_entries.skip(i as int)[0] == entry_view(mapper.base@[i as int]));
            assert(base_entries.skip(i as int).drop_first() =~= base_entries.skip(i + 1));
        }
        match raw_image::section_address(data, name) {
            Some(a) => {
                match slot {
                    SectionSlot::Text => text = Some(a),
                    SectionSlot::EhFrame => eh_frame = Some(a),
                    SectionSlot::EhFrameHdr => eh_frame_hdr = Some(a),
                    SectionSlot::Got => got = Some(a),
                }
            },
            None => {
                return None;
            },
        }
        i = i + 1;
    }
    proof {
        assert(base_entries.skip(i as int) =~= Seq::<(Seq<char>, SectionSlot)>::empty());
    }
    let ghost opt_entries = entries_view(mapper.optional@);
    let ghost after_base = PartialBases { text, eh_frame, got, eh_frame_hdr };
    proof {
        assert(opt_entries.skip(0) =~= opt_entries);
    }
    let mut j: usize = 0;
    while j < mapper.optional.len()
        invariant
            j <= mapper.optional@.len(),
            opt_entries == entries_view(mapper.optional@),
            apply_optional(data@, opt_entries, after_base) == apply_optional(
                data@,
                opt_entries.skip(j as int),
                PartialBases { text, eh_frame, got, eh_frame_hdr },
            ),
        decreases mapper.optional@.len() - j,
    {
        let (name, slot) = mapper.optional[j];
        proof {
            assert(opt_entries.skip(j as int)[0] == entry_view(mapper.optional@[j as int]));
            assert(opt_entries.skip(j as int).drop_first() =~= opt_entries.skip(j + 1));
        }
        match raw_image::section_address(data, name) {
            Some(a) => {
                match slot {
                    SectionSlot::Text => text = Some(a),
                    SectionSlot::EhFrame => eh_frame = Some(a),
                    SectionSlot::EhFrameHdr => eh_frame_hdr = Some(a),
                    SectionSlot::Got => got = Some(a),
                }
            },
            None => {},
        }
        j = j + 1;
    }
    proof {
        assert(opt_entries.skip(j as int) =~= Seq::<(Seq<char>, SectionSlot)>::empty());
    }
    match (text, eh_frame, got) {
        (Some(t), Some(e), Some(g)) => Some(
            BaseAddresses { text: t, eh_frame: e, got: g, eh_frame_hdr },
        ),
        _ => None,
    }
}

} // verus!
