//! One mapped object file of the running process, and the pipeline that
//! builds the registry's images from raw object-file bytes.

use vstd::prelude::*;

pub mod base_addresses;
pub mod builder;
pub mod debug_info;
pub mod line_info;
pub mod linux;
pub mod macos;
pub mod raw_image;
pub mod symbol_map;

use crate::cursor::state;
use crate::cursor::state::UnwindRow;
use crate::cursor::state::UnwindRowModel;
use crate::ErrorKind;
use crate::UnwindError;
use base_addresses::BaseAddresses;
use line_info::LineContext;
use symbol_map::OwnedSymbolMap;

verus! {

/// The byte order of an object file.
#[derive(Debug, Clone, Copy, PartialEq, Eq, Structural)]
pub enum Endianness {
    Little,
    Big,
}

impl Endianness {
    /// Whether this is little-endian byte order.
    pub fn is_little(&self) -> (r: bool)
        ensures
            r == (*self is Little),
    {
        match self {
            Endianness::Little => true,
            Endianness::Big => false,
        }
    }
}

/// A record describing one mapped object file.
pub struct Image {
    /// The path of the object file on disk.
    pub filename: String,
    /// Section base addresses required by call-frame-information parsing.
    pub base_addresses: BaseAddresses,
    /// `AVMA - SVMA` for this image; subtract to obtain static addresses.
    pub bias: usize,
    /// The first runtime address this image occupies.
    pub start_address: usize,
    /// The number of bytes of the runtime address range.
    pub length: usize,
    /// Sorted, address-keyed list of static symbols.
    pub symbol_map: OwnedSymbolMap,
    /// The bytes of the `.debug_info` section, for expression evaluation.
    pub dbg_info: Vec<u8>,
    /// The address-to-frames resolver built from the image's DWARF, if any.
    pub line_context: Option<LineContext>,
    /// The bytes of the `.eh_frame` section.
    pub eh_frame_section: Vec<u8>,
    /// The bytes of the `.eh_frame_hdr` section, when the object has one.
    pub eh_frame_hdr_section: Option<Vec<u8>>,
    /// The byte order of the object file.
    pub endian: Endianness,
}

impl Image {
    /// Whether this image's runtime range `[start_address, start_address + length)`
    /// contains `avma`.
    pub open spec fn owns(self, avma: usize) -> bool {
        self.start_address <= avma && avma < self.start_address + self.length
    }

    /// Whether this image's runtime range contains `avma`.
    pub fn has(&self, avma: usize) -> (r: bool)
        ensures
            r == self.owns(avma),
    {
        avma >= self.start_address && avma - self.start_address < self.length
    }

    /// Validity of one image: a non-empty runtime range that starts above
    /// address zero, does not wrap the address space, and whose bias does
    /// not exceed its start (static addresses are non-negative).
    pub open spec fn wf(self) -> bool {
        &&& 0 < self.start_address
        &&& 0 < self.length
        &&& self.bias <= self.start_address
        &&& self.start_address + self.length <= usize::MAX
    }

    /// Whether this image is valid.
    pub fn is_wf(&self) -> (r: bool)
        ensures
            r == self.wf(),
    {
        0 < self.start_address && 0 < self.length && self.bias <= self.start_address
            && self.length <= usize::MAX - self.start_address
    }

    /// The view of the optional unwind-frame-header bytes.
    pub open spec fn spec_hdr_bytes(self) -> Option<Seq<u8>> {
        match self.eh_frame_hdr_section {
            Some(v) => Some(v@),
            None => None,
        }
    }

    /// The unwind-table row this image's CFI resolves for a static address.
    pub open spec fn spec_unwind_row(self, svma: u64) -> Option<UnwindRowModel> {
        state::unwind_row_of(
            self.eh_frame_section@,
            self.spec_hdr_bytes(),
            self.base_addresses.text,
            self.base_addresses.eh_frame,
            self.base_addresses.got,
            self.base_addresses.eh_frame_hdr,
            self.endian is Little,
            svma,
        )
    }

    /// Resolve the unwind-table row covering the static address `svma` from
    /// this image's unwind sections: through the header's binary-search
    /// table when the image has one, else by a linear search of the frame
    /// section. Malformed CFI surfaces as `GimliError`.
    pub fn unwind_row_for(&self, svma: u64) -> (r: Result<UnwindRow, UnwindError>)
        ensures
            match r {
                Ok(row) => self.spec_unwind_row(svma) == Some(row@),
                Err(e) => self.spec_unwind_row(svma) is None && e.spec_kind()
                    == ErrorKind::GimliError,
            },
    {
        let hdr: Option<&[u8]> = match &self.eh_frame_hdr_section {
            Some(v) => Some(v.as_slice()),
            None => None,
        };
        let looked = state::lookup_row(
            self.eh_frame_section.as_slice(),
            hdr,
            self.base_addresses.text,
            self.base_addresses.eh_frame,
            self.base_addresses.got,
            self.base_addresses.eh_frame_hdr,
            self.endian.is_little(),
            svma,
        );
        match looked {
            Ok(row) => Ok(row),
            Err(e) => Err(UnwindError::GimliError(e)),
        }
    }
}

/// What the loading pipeline hands the library for one mapped object: the
/// values the OS enumerator reports and the object file's raw bytes, plus
/// the bytes of an external debug file when the caller located one.
pub struct ImageInput {
    /// The path of the object file on disk.
    pub filename: String,
    /// The first runtime address the object occupies.
    pub start_address: usize,
    /// The number of bytes of the runtime address range.
    pub length: usize,
    /// `AVMA - SVMA` for this object.
    pub bias: usize,
    /// The raw bytes of the object file.
    pub data: Vec<u8>,
    /// The raw bytes of an external debug file (such as a dSYM), if any.
    pub debug_data: Option<Vec<u8>>,
}

impl ImageInput {
    /// The bytes whose DWARF serves this input: the primary object when it
    /// carries debug symbols, else the external debug file.
    pub open spec fn spec_debug_source(self) -> Option<Seq<u8>> {
        if debug_info::has_debug_symbols_of(self.data@) {
            Some(self.data@)
        } else {
            match self.debug_data {
                Some(d) => Some(d@),
                None => None,
            }
        }
    }
}

/// Whether `im` is what the pipeline builds from `input`: each field comes
/// from the input's enumerator values or from the named queries on its
/// bytes.
pub open spec fn built_from(im: Image, input: ImageInput) -> bool {
    &&& im.filename@ == input.filename@
    &&& im.start_address == input.start_address
    &&& im.length == input.length
    &&& im.bias == input.bias
    &&& Some(im.base_addresses) == builder::built_bases(
        input.data@,
        linux::Builder::base_model(),
        linux::Builder::optional_model(),
    )
    &&& Some(im.endian is Little) == raw_image::little_endian_of(input.data@)
    &&& im.symbol_map.wf()
    &&& im.symbol_map.entries().to_multiset() == symbol_map::symbols_of(
        input.data@,
    ).to_multiset()
    &&& im.eh_frame_section@ == section_or_empty(input.data@, ".eh_frame"@)
    &&& im.spec_hdr_bytes() == raw_image::section_data_of(input.data@, ".eh_frame_hdr"@)
    &&& im.dbg_info@ == section_or_empty(input.data@, ".debug_info"@)
    &&& match input.spec_debug_source() {
        None => im.line_context is None,
        Some(d) => {
            &&& (im.line_context is Some) == line_info::line_context_available(d)
            &&& (im.line_context matches Some(c) ==> forall|svma: u64|
                line_info::context_frames_at(c, svma) == line_info::dwarf_frames_of(d, svma))
        },
    }
}

/// The contents of the named section, or empty bytes when the object has
/// none.
pub open spec fn section_or_empty(data: Seq<u8>, name: Seq<char>) -> Seq<u8> {
    match raw_image::section_data_of(data, name) {
        Some(d) => d,
        None => Seq::empty(),
    }
}

/// Build one image from its raw input. Returns `None` when the bytes do not
/// parse as an object file or lack one of the required sections, in which
/// case the image is skipped: degraded symbolication is preferred over
/// failure.
pub fn build_image(input: ImageInput) -> (r: Option<Image>)
    ensures
        match r {
            Some(im) => built_from(im, input),
            None => builder::built_bases(
                input.data@,
                linux::Builder::base_model(),
                linux::Builder::optional_model(),
            ) is None || raw_image::little_endian_of(input.data@) is None,
        },
{
    let ImageInput { filename, start_address, length, bias, data, debug_data } = input;
    let endian = match raw_image::is_little_endian(data.as_slice()) {
        Some(true) => Endianness::Little,
        Some(false) => Endianness::Big,
        None => {
            return None;
        },
    };
    let table = linux::Builder::mapper();
    let base_addresses = match builder::build(data.as_slice(), &table) {
        Some(b) => b,
        None => {
            return None;
        },
    };
    let symbol_map = symbol_map::load(data.as_slice());
    let eh_frame_section = match raw_image::section_data(data.as_slice(), ".eh_frame") {
        Some(d) => d,
        None => Vec::new(),
    };
    let eh_frame_hdr_section = raw_image::section_data(data.as_slice(), ".eh_frame_hdr");
    let dbg_info = match raw_image::section_data(data.as_slice(), ".debug_info") {
        Some(d) => d,
        None => Vec::new(),
    };
    let debug_source = debug_info::load(&data, debug_data);
    let line_context = match &debug_source {
        Some(d) => line_info::load(d),
        None => None,
    };
    Some(
        Image {
            filename,
            base_addresses,
            bias,
            start_address,
            length,
            symbol_map,
            dbg_info,
            line_context,
            eh_frame_section,
            eh_frame_hdr_section,
            endian,
        },
    )
}

/// Whether `s` is sorted by descending start address.
pub open spec fn sorted_by_start_desc(s: Seq<Image>) -> bool {
    forall|i: int, j: int| 0 <= i < j < s.len() ==> s[i].start_address >= s[j].start_address
}

/// Sort the images by descending start address with insertion sort, keeping
/// the multiset of images.
pub fn sort_images(v: &mut Vec<Image>)
    ensures
        final(v)@.to_multiset() == old(v)@.to_multiset(),
        sorted_by_start_desc(final(v)@),
{
    let ghost orig = v@;
    if v.len() < 2 {
        return;
    }
    let mut i: usize = 1;
    while i < v.len()
        invariant
            1 <= i <= v@.len(),
            v@.len() == orig.len(),
            v@.to_multiset() == orig.to_multiset(),
            forall|a: int, b: int| 0 <= a < b < i ==> v@[a].start_address >= v@[b].start_address,
        decreases v@.len() - i,
    {
        let mut j: usize = i;
        while j > 0 && v[j - 1].start_address < v[j].start_address
            invariant
                j <= i < v@.len(),
                v@.len() == orig.len(),
                v@.to_multiset() == orig.to_multiset(),
                forall|a: int, b: int|
                    0 <= a < b <= i && a != j && b != j ==> v@[a].start_address
                        >= v@[b].start_address,
                forall|a: int| j < a <= i ==> v@[j as int].start_address >= v@[a].start_address,
            decreases j,
        {
            let ghost before = v@;
            let x = v.remove(j);
            let ghost mid = v@;
            v.insert(j - 1, x);
            proof {
                broadcast use vstd::seq_lib::to_multiset_remove;
                broadcast use vstd::seq_lib::to_multiset_insert;
                broadcast use vstd::seq_lib::to_multiset_contains;
                broadcast use vstd::multiset::group_multiset_axioms;

                assert(mid == before.remove(j as int));
                assert(v@ =~= before.update(j - 1, before[j as int]).update(
                    j as int,
                    before[(j - 1) as int],
                ));
                assert(before.contains(before[j as int]));
                assert(v@.to_multiset() =~= before.to_multiset());
                assert forall|a: int, b: int|
                    0 <= a < b <= i && a != j - 1 && b != j - 1 implies v@[a].start_address
                    >= v@[b].start_address by {
                    if a == j {
                        assert(before[(j - 1) as int].start_address >= before[b].start_address);
                    } else if b == j {
                        assert(before[a].start_address >= before[(j - 1) as int].start_address);
                    }
                }
                assert forall|a: int| j - 1 < a <= i implies v@[(j - 1) as int].start_address >= (
                #[trigger] v@[a]).start_address by {
                    if a == j {
                        assert(v@[a] == before[(j - 1) as int]);
                        assert(before[j as int].start_address > before[(j - 1) as int].start_address);
                    } else {
                        assert(v@[a] == before[a]);
                        assert(before[j as int].start_address >= before[a].start_address);
                    }
                }
            }
            j = j - 1;
        }
        proof {
            assert forall|a: int, b: int| 0 <= a < b < i + 1 implies v@[a].start_address >= v@[b].start_address by {
                if b == j && j > 0 {
                    assert(v@[(j - 1) as int].start_address >= v@[j as int].start_address);
                    if a < j - 1 {
                        assert(v@[a].start_address >= v@[(j - 1) as int].start_address);
                    }
                }
            }
        }
        i = i + 1;
    }
}

/// Whether an input has everything an image needs: its bytes parse and the
/// required sections are present.
pub open spec fn buildable(input: ImageInput) -> bool {
    &&& builder::built_bases(
        input.data@,
        linux::Builder::base_model(),
        linux::Builder::optional_model(),
    ) is Some
    &&& raw_image::little_endian_of(input.data@) is Some
}

/// Every image of `r` was built from some input of `inputs`.
pub open spec fn all_built_from(r: Seq<Image>, inputs: Seq<ImageInput>) -> bool {
    forall|k: int| 0 <= k < r.len() ==> exists|i: int|
        0 <= i < inputs.len() && built_from(#[trigger] r[k], inputs[i])
}

/// Every buildable input of `inputs` yielded an image of `r`.
pub open spec fn builds_complete(r: Seq<Image>, inputs: Seq<ImageInput>) -> bool {
    forall|i: int| 0 <= i < inputs.len() && buildable(#[trigger] inputs[i]) ==> exists|k: int|
        0 <= k < r.len() && built_from(#[trigger] r[k], inputs[i])
}

/// Build every image that can be built from `inputs`, in order: the
/// pipeline of the registry. An input whose bytes yield no image is
/// skipped.
pub fn load_all(inputs: Vec<ImageInput>) -> (r: Vec<Image>)
    ensures
        r@.len() <= inputs@.len(),
        all_built_from(r@, inputs@),
        builds_complete(r@, inputs@),
{
    let ghost orig = inputs@;
    let mut rest = inputs;
    let mut r: Vec<Image> = Vec::new();
    proof {
        assert(orig.skip(0) =~= orig);
        assert(orig.take(0) =~= Seq::<ImageInput>::empty());
    }
    while rest.len() > 0
        invariant
            rest@ =~= orig.skip(orig.len() - rest@.len()),
            rest@.len() <= orig.len(),
            r@.len() + rest@.len() <= orig.len(),
            all_built_from(r@, orig),
            builds_complete(r@, orig.take(orig.len() - rest@.len())),
        decreases rest@.len(),
    {
        let ghost p = orig.len() - rest@.len();
        let input = rest.remove(0);
        proof {
            assert(input == orig[p]);
            assert(rest@ =~= orig.skip(p + 1));
        }
        let ghost old_r = r@;
        let built = build_image(input);
        let ghost b = built;
        match built {
            Some(im) => {
                r.push(im);
            },
            None => {},
        }
        proof {
            assert forall|k: int| 0 <= k < r@.len() implies exists|i: int|
                0 <= i < orig.len() && built_from(#[trigger] r@[k], orig[i]) by {
                if k < old_r.len() {
                    assert(r@[k] == old_r[k]);
                    let i0 = choose|i: int| 0 <= i < orig.len() && built_from(old_r[k], orig[i]);
                    assert(built_from(r@[k], orig[i0]));
                } else {
                    assert(r@[k] == b->0);
                    assert(built_from(r@[k], orig[p]));
                }
            }
            assert(all_built_from(r@, orig));
            let ghost done = orig.take(p + 1);
            assert forall|i: int| 0 <= i < done.len() && buildable(#[trigger] done[i]) implies exists|
                k: int,
            | 0 <= k < r@.len() && built_from(#[trigger] r@[k], done[i]) by {
                assert(done[i] == orig[i]);
                if i < p {
                    assert(orig.take(p)[i] == orig[i]);
                    assert(buildable(orig.take(p)[i]));
                    let k0 = choose|k: int|
                        0 <= k < old_r.len() && built_from(#[trigger] old_r[k], orig.take(p)[i]);
                    assert(r@[k0] == old_r[k0]);
                    assert(built_from(r@[k0], done[i]));
                } else {
                    assert(i == p);
                    assert(b is Some);
                    assert(r@[old_r.len() as int] == b->0);
                    assert(built_from(r@[old_r.len() as int], done[i]));
                }
            }
            assert(builds_complete(r@, done));
            assert(orig.len() - rest@.len() == p + 1);
        }
    }
    proof {
        assert(orig.take(orig.len() - rest@.len()) =~= orig);
        assert(all_built_from(r@, inputs@));
        assert(builds_complete(r@, inputs@));
    }
    r
}

} // verus!
