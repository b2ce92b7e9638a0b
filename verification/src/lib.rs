//! In-process stack unwinding and symbolication.
//!
//! Given a runtime address (an AVMA, "actual virtual memory address") inside
//! the live process, the registry of mapped object files locates the owning
//! image, converts the address into the image's static address space (SVMA),
//! and produces a symbol record with the object name, the static address, and
//! the inline frame chain from DWARF, falling back to the image's symbol map.
//!
//! The registry and the symbolicator are pure data structures over plain
//! values; parsing of object files, DWARF and call-frame information is
//! delegated to outside crates behind a small trusted boundary.

use vstd::prelude::*;
use vstd::string::StringExecFns;

pub mod cursor;
pub mod image;

use image::line_info;
use image::line_info::FrameRecord;
use image::line_info::FrameRecordModel;
use image::Image;

verus! {

/// The unified error kind of every fallible operation of this library.
#[derive(Debug)]
pub enum UnwindError {
    /// A file could not be opened or mapped.
    IOError,
    /// An object file could not be parsed.
    ObjectParsingError,
    /// Malformed DWARF or call-frame information.
    GimliError(gimli::Error),
    /// An OS primitive failed while capturing a machine context.
    ErrnoError(i32),
    /// The program counter lies outside every known image.
    UnknownProgramCounter(usize),
    /// An internal invariant was violated during DWARF evaluation.
    UnwindLogicalError(String),
    /// A call-frame construct beyond the simplified cursor state.
    NotSupported(String),
    /// The `Undefined` rule was found for the return address: top of stack.
    UnwindEnded,
}

/// The kind of an `UnwindError`, without its payload.
#[derive(Debug, Clone, Copy, PartialEq, Eq, Structural)]
pub enum ErrorKind {
    IOError,
    ObjectParsingError,
    GimliError,
    ErrnoError,
    UnknownProgramCounter,
    UnwindLogicalError,
    NotSupported,
    UnwindEnded,
}

impl UnwindError {
    /// The kind of this error.
    pub open spec fn spec_kind(self) -> ErrorKind {
        match self {
            UnwindError::IOError => ErrorKind::IOError,
            UnwindError::ObjectParsingError => ErrorKind::ObjectParsingError,
            UnwindError::GimliError(_) => ErrorKind::GimliError,
            UnwindError::ErrnoError(_) => ErrorKind::ErrnoError,
            UnwindError::UnknownProgramCounter(_) => ErrorKind::UnknownProgramCounter,
            UnwindError::UnwindLogicalError(_) => ErrorKind::UnwindLogicalError,
            UnwindError::NotSupported(_) => ErrorKind::NotSupported,
            UnwindError::UnwindEnded => ErrorKind::UnwindEnded,
        }
    }

    /// What `describe` returns for this error.
    pub open spec fn spec_describe(self) -> Seq<char> {
        match self {
            UnwindError::IOError => "failed to open or map a file"@,
            UnwindError::ObjectParsingError => "failed to parse an object file"@,
            UnwindError::GimliError(_) => "malformed DWARF or call frame information"@,
            UnwindError::ErrnoError(n) => if n < 0 {
                "errno: -"@ + dec_digits((-(n as int)) as nat)
            } else {
                "errno: "@ + dec_digits(n as nat)
            },
            UnwindError::UnknownProgramCounter(pc) => "unknown program counter: 0x"@ + hex_digits(
                pc as nat,
            ),
            UnwindError::UnwindLogicalError(m) => m@,
            UnwindError::NotSupported(m) => m@,
            UnwindError::UnwindEnded => "cursor cannot step any further"@,
        }
    }

    /// A human-readable description of this error, in the place of a
    /// `Display` implementation.
    pub fn describe(&self) -> (r: String)
        ensures
            r@ == self.spec_describe(),
    {
        match self {
            UnwindError::IOError => "failed to open or map a file".to_string(),
            UnwindError::ObjectParsingError => "failed to parse an object file".to_string(),
            UnwindError::GimliError(_) => "malformed DWARF or call frame information".to_string(),
            UnwindError::ErrnoError(n) => {
                if *n < 0 {
                    let mut s = "errno: -".to_string();
                    let m = (-(*n as i64)) as usize;
                    s.append(dec_string(m).as_str());
                    s
                } else {
                    let mut s = "errno: ".to_string();
                    s.append(dec_string(*n as usize).as_str());
                    s
                }
            },
            UnwindError::UnknownProgramCounter(pc) => {
                let mut s = "unknown program counter: 0x".to_string();
                s.append(hex_string(*pc).as_str());
                s
            },
            UnwindError::UnwindLogicalError(m) => m.clone(),
            UnwindError::NotSupported(m) => m.clone(),
            UnwindError::UnwindEnded => "cursor cannot step any further".to_string(),
        }
    }

    /// The kind of this error.
    pub fn kind(&self) -> (r: ErrorKind)
        ensures
            r == self.spec_kind(),
    {
        match self {
            UnwindError::IOError => ErrorKind::IOError,
            UnwindError::ObjectParsingError => ErrorKind::ObjectParsingError,
            UnwindError::GimliError(_) => ErrorKind::GimliError,
            UnwindError::ErrnoError(_) => ErrorKind::ErrnoError,
            UnwindError::UnknownProgramCounter(_) => ErrorKind::UnknownProgramCounter,
            UnwindError::UnwindLogicalError(_) => ErrorKind::UnwindLogicalError,
            UnwindError::NotSupported(_) => ErrorKind::NotSupported,
            UnwindError::UnwindEnded => ErrorKind::UnwindEnded,
        }
    }
}

/// The hexadecimal digit of a value below sixteen.
pub open spec fn hex_digit(d: nat) -> char {
    if d == 0 {
        '0'
    } else if d == 1 {
        '1'
    } else if d == 2 {
        '2'
    } else if d == 3 {
        '3'
    } else if d == 4 {
        '4'
    } else if d == 5 {
        '5'
    } else if d == 6 {
        '6'
    } else if d == 7 {
        '7'
    } else if d == 8 {
        '8'
    } else if d == 9 {
        '9'
    } else if d == 10 {
        'a'
    } else if d == 11 {
        'b'
    } else if d == 12 {
        'c'
    } else if d == 13 {
        'd'
    } else if d == 14 {
        'e'
    } else {
        'f'
    }
}

/// The hexadecimal digits of `x`, most significant first, without leading
/// zeros.
pub open spec fn hex_digits(x: nat) -> Seq<char>
    decreases x,
{
    if x < 16 {
        seq![hex_digit(x)]
    } else {
        hex_digits(x / 16).push(hex_digit(x % 16))
    }
}

/// The decimal digits of `x`, most significant first, without leading
/// zeros.
pub open spec fn dec_digits(x: nat) -> Seq<char>
    decreases x,
{
    if x < 10 {
        seq![hex_digit(x)]
    } else {
        dec_digits(x / 10).push(hex_digit(x % 10))
    }
}

/// The one-character string of the hexadecimal digit `d`.
fn digit_str(d: usize) -> (r: &'static str)
    requires
        d < 16,
    ensures
        r@ == seq![hex_digit(d as nat)],
{
    proof {
        reveal_strlit("0");
        reveal_strlit("1");
        reveal_strlit("2");
        reveal_strlit("3");
        reveal_strlit("4");
        reveal_strlit("5");
        reveal_strlit("6");
        reveal_strlit("7");
        reveal_strlit("8");
        reveal_strlit("9");
        reveal_strlit("a");
        reveal_strlit("b");
        reveal_strlit("c");
        reveal_strlit("d");
        reveal_strlit("e");
        reveal_strlit("f");
    }
    match d {
        0 => "0",
        1 => "1",
        2 => "2",
        3 => "3",
        4 => "4",
        5 => "5",
        6 => "6",
        7 => "7",
        8 => "8",
        9 => "9",
        10 => "a",
        11 => "b",
        12 => "c",
        13 => "d",
        14 => "e",
        _ => "f",
    }
}

/// Format `x` in lowercase hexadecimal without leading zeros.
pub fn hex_string(x: usize) -> (r: String)
    ensures
        r@ == hex_digits(x as nat),
    decreases x,
{
    if x < 16 {
        digit_str(x).to_string()
    } else {
        let mut s = hex_string(x / 16);
        s.append(digit_str(x % 16));
        proof {
            assert(hex_digits((x as nat) / 16).push(hex_digit((x as nat) % 16)) =~= hex_digits(
                (x as nat) / 16,
            ) + seq![hex_digit((x as nat) % 16)]);
        }
        s
    }
}

/// Format `x` in decimal.
pub fn dec_string(x: usize) -> (r: String)
    ensures
        r@ == dec_digits(x as nat),
    decreases x,
{
    if x < 10 {
        digit_str(x).to_string()
    } else {
        let mut s = dec_string(x / 10);
        s.append(digit_str(x % 10));
        proof {
            assert(dec_digits((x as nat) / 10).push(hex_digit((x as nat) % 10)) =~= dec_digits(
                (x as nat) / 10,
            ) + seq![hex_digit((x as nat) % 10)]);
        }
        s
    }
}

/// One resolved frame: either an inline frame from DWARF line information or
/// a plain name from the image's symbol map.
#[derive(Debug, Clone, PartialEq, Eq)]
pub enum Frame {
    Dwarf(FrameRecord),
    SymbolMap(String),
}

/// The ghost model of a `Frame`.
pub ghost enum FrameModel {
    Dwarf(FrameRecordModel),
    SymbolMap(Seq<char>),
}

impl View for Frame {
    type V = FrameModel;

    open spec fn view(&self) -> FrameModel {
        match self {
            Frame::Dwarf(r) => FrameModel::Dwarf(r@),
            Frame::SymbolMap(n) => FrameModel::SymbolMap(n@),
        }
    }
}

/// What `resolve_symbol` returns for one runtime address.
#[derive(Debug, Clone, PartialEq, Eq)]
pub struct SymbolInfo {
    /// The path of the owning image, if one was found.
    pub object_name: Option<String>,
    /// The runtime address that was resolved.
    pub avma: usize,
    /// The static address inside the owning image, if one was found.
    pub svma: Option<usize>,
    /// The inline frame chain, outer-most frame last; or a single symbol-map
    /// entry when DWARF produced nothing; or empty when neither source had an
    /// answer.
    pub associated_frames: Vec<Frame>,
}

/// The ghost model of a `SymbolInfo`.
#[verifier::ext_equal]
pub ghost struct SymbolInfoModel {
    pub object_name: Option<Seq<char>>,
    pub avma: usize,
    pub svma: Option<usize>,
    pub associated_frames: Seq<FrameModel>,
}

impl View for SymbolInfo {
    type V = SymbolInfoModel;

    open spec fn view(&self) -> SymbolInfoModel {
        SymbolInfoModel {
            object_name: match self.object_name {
                Some(n) => Some(n@),
                None => None,
            },
            avma: self.avma,
            svma: self.svma,
            associated_frames: self.associated_frames@.map_values(|f: Frame| f@),
        }
    }
}

impl SymbolInfo {
    /// The record for an address that no image owns: only `avma` is filled.
    pub fn new_unresolved(avma: usize) -> (r: SymbolInfo)
        ensures
            r@ == SymbolInfo::unresolved_model(avma),
    {
        let r = SymbolInfo {
            object_name: None,
            avma,
            svma: None,
            associated_frames: Vec::new(),
        };
        proof {
            assert(r.associated_frames@.map_values(|f: Frame| f@) =~= Seq::<FrameModel>::empty());
        }
        r
    }

    /// What `new_unresolved` returns.
    pub open spec fn unresolved_model(avma: usize) -> SymbolInfoModel {
        SymbolInfoModel {
            object_name: None,
            avma,
            svma: None,
            associated_frames: Seq::empty(),
        }
    }
}

/// Whether the runtime ranges of two images do not intersect.
pub open spec fn ranges_disjoint(a: Image, b: Image) -> bool {
    a.start_address + a.length <= b.start_address || b.start_address + b.length <= a.start_address
}

/// Whether every two distinct image values of `s` occupy disjoint ranges.
pub open spec fn pairwise_disjoint(s: Seq<Image>) -> bool {
    forall|v1: Image, v2: Image|
        s.contains(v1) && s.contains(v2) && v1 != v2 ==> ranges_disjoint(v1, v2)
}

/// Whether `s` is sorted by strictly descending, pairwise disjoint runtime
/// ranges: each image ends at or below the start of the one before it.
pub open spec fn sorted_disjoint(s: Seq<Image>) -> bool {
    forall|i: int, j: int|
        0 <= i < j < s.len() ==> (#[trigger] s[j]).start_address + s[j].length <= (
        #[trigger] s[i]).start_address
}

/// The registry of every mapped object file, sorted descending by start
/// address for binary-search lookup by runtime address.
pub struct GlobalContext {
    images: Vec<Image>,
}

impl GlobalContext {
    /// The registered images, in descending start-address order.
    pub closed spec fn images(self) -> Seq<Image> {
        self.images@
    }

    /// The registry's invariant: every image is valid, and the images are
    /// sorted descending by start address with pairwise disjoint ranges.
    #[verifier::type_invariant]
    pub closed spec fn wf(self) -> bool {
        &&& forall|i: int| 0 <= i < self.images@.len() ==> (#[trigger] self.images@[i]).wf()
        &&& sorted_disjoint(self.images@)
    }

    /// Build the registry from a list of images: invalid images are
    /// dropped, the rest are sorted descending by start address, and of two
    /// overlapping images the one with the higher start is kept. When the
    /// given images are pairwise disjoint — as the OS loader guarantees of
    /// a live process — every valid image is registered.
    pub fn new(images: Vec<Image>) -> (r: GlobalContext)
        ensures
            forall|k: int|
                0 <= k < r.images().len() ==> images@.contains(#[trigger] r.images()[k])
                    && r.images()[k].wf(),
            sorted_disjoint(r.images()),
            pairwise_disjoint(images@) ==> forall|q: int|
                0 <= q < images@.len() && (#[trigger] images@[q]).wf() ==> r.images().contains(
                    images@[q],
                ),
    {
        let ghost orig = images@;
        let mut rest = images;
        let mut kept: Vec<Image> = Vec::new();
        proof {
            assert(orig.skip(0) =~= orig);
        }
        while rest.len() > 0
            invariant
                rest@ =~= orig.skip(orig.len() - rest@.len()),
                rest@.len() <= orig.len(),
                forall|k: int|
                    0 <= k < kept@.len() ==> orig.contains(#[trigger] kept@[k]) && kept@[k].wf(),
                forall|q: int|
                    0 <= q < orig.len() - rest@.len() && (#[trigger] orig[q]).wf()
                        ==> kept@.contains(orig[q]),
            decreases rest@.len(),
        {
            let ghost p = orig.len() - rest@.len();
            let im = rest.remove(0);
            proof {
                assert(im == orig[p]);
                assert(rest@ =~= orig.skip(p + 1));
            }
            let ghost old_kept = kept@;
            let keep = im.is_wf();
            if keep {
                kept.push(im);
            }
            proof {
                assert(orig.contains(orig[p]));
                assert forall|k: int|
                    0 <= k < kept@.len() implies orig.contains(#[trigger] kept@[k])
                    && kept@[k].wf() by {
                    if k < old_kept.len() {
                        assert(kept@[k] == old_kept[k]);
                    } else {
                        assert(kept@[k] == orig[p]);
                    }
                }
                assert forall|q: int|
                    0 <= q < p + 1 && (#[trigger] orig[q]).wf() implies kept@.contains(
                    orig[q],
                ) by {
                    if q < p {
                        let k0 = choose|k: int| 0 <= k < old_kept.len() && old_kept[k] == orig[q];
                        assert(kept@[k0] == orig[q]);
                    } else {
                        assert(kept@[old_kept.len() as int] == orig[p]);
                    }
                }
            }
        }
        let ghost pre_sort = kept@;
        image::sort_images(&mut kept);
        proof {
            broadcast use vstd::seq_lib::to_multiset_contains;

            assert forall|k: int|
                0 <= k < kept@.len() implies orig.contains(#[trigger] kept@[k])
                && kept@[k].wf() by {
                assert(kept@.contains(kept@[k]));
                assert(kept@.to_multiset().count(kept@[k]) > 0);
                assert(pre_sort.to_multiset().count(kept@[k]) > 0);
                assert(pre_sort.contains(kept@[k]));
                let k0 = choose|i: int| 0 <= i < pre_sort.len() && pre_sort[i] == kept@[k];
                assert(orig.contains(pre_sort[k0]) && pre_sort[k0].wf());
            }
            assert forall|q: int|
                0 <= q < orig.len() && (#[trigger] orig[q]).wf() implies kept@.contains(
                orig[q],
            ) by {
                assert(pre_sort.contains(orig[q]));
                assert(pre_sort.to_multiset().count(orig[q]) > 0);
                assert(kept@.to_multiset().count(orig[q]) > 0);
                assert(kept@.contains(orig[q]));
            }
        }
        let ghost sorted_seq = kept@;
        let mut rest2 = kept;
        let mut result: Vec<Image> = Vec::new();
        proof {
            assert(sorted_seq.skip(0) =~= sorted_seq);
        }
        while rest2.len() > 0
            invariant
                rest2@ =~= sorted_seq.skip(sorted_seq.len() - rest2@.len()),
                rest2@.len() <= sorted_seq.len(),
                image::sorted_by_start_desc(sorted_seq),
                forall|k: int|
                    0 <= k < sorted_seq.len() ==> orig.contains(#[trigger] sorted_seq[k])
                        && sorted_seq[k].wf(),
                forall|q: int|
                    0 <= q < orig.len() && (#[trigger] orig[q]).wf() ==> sorted_seq.contains(
                        orig[q],
                    ),
                forall|k: int|
                    0 <= k < result@.len() ==> orig.contains(#[trigger] result@[k])
                        && result@[k].wf(),
                sorted_disjoint(result@),
                forall|k: int, l: int|
                    0 <= k < result@.len() && 0 <= l < rest2@.len() ==> (
                    #[trigger] rest2@[l]).start_address <= (#[trigger] result@[k]).start_address,
                pairwise_disjoint(orig) ==> forall|q: int|
                    0 <= q < sorted_seq.len() - rest2@.len() ==> result@.contains(
                        #[trigger] sorted_seq[q],
                    ),
            decreases rest2@.len(),
        {
            let ghost p = sorted_seq.len() - rest2@.len();
            let im = rest2.remove(0);
            proof {
                assert(im == sorted_seq[p]);
                assert(rest2@ =~= sorted_seq.skip(p + 1));
                assert(im.wf());
            }
            let ghost old_result = result@;
            let mut pushed = false;
            if result.len() == 0 {
                result.push(im);
                pushed = true;
            } else {
                let n = result.len();
                let fits = im.start_address + im.length <= result[n - 1].start_address;
                if fits {
                    result.push(im);
                    pushed = true;
                }
            }
            proof {
                assert forall|k: int|
                    0 <= k < result@.len() implies orig.contains(#[trigger] result@[k])
                    && result@[k].wf() by {
                    if k < old_result.len() {
                        assert(result@[k] == old_result[k]);
                    } else {
                        assert(result@[k] == sorted_seq[p]);
                    }
                }
                if pushed {
                    let n = old_result.len() as int;
                    assert forall|i: int, j: int|
                        0 <= i < j < result@.len() implies (#[trigger] result@[j]).start_address
                        + result@[j].length <= (#[trigger] result@[i]).start_address by {
                        if j < n {
                            assert(result@[i] == old_result[i] && result@[j] == old_result[j]);
                        } else {
                            assert(result@[j] == im);
                            assert(result@[i] == old_result[i]);
                            if i < n - 1 {
                                assert(old_result[n - 1].start_address + old_result[n - 1].length
                                    <= old_result[i].start_address);
                                assert(old_result[n - 1].wf());
                            }
                        }
                    }
                }
                assert forall|k: int, l: int|
                    0 <= k < result@.len() && 0 <= l < rest2@.len() implies (
                #[trigger] rest2@[l]).start_address <= (
                #[trigger] result@[k]).start_address by {
                    assert(rest2@[l] == sorted_seq[p + 1 + l]);
                    assert(sorted_seq[p + 1 + l].start_address <= sorted_seq[p].start_address);
                    if k < old_result.len() {
                        assert(result@[k] == old_result[k]);
                        assert(sorted_seq[p].start_address <= old_result[k].start_address);
                    } else {
                        assert(result@[k] == im);
                    }
                }
                if pairwise_disjoint(orig) {
                    assert forall|q: int|
                        0 <= q < p + 1 implies result@.contains(#[trigger] sorted_seq[q]) by {
                        if q < p {
                            let k0 = choose|k: int|
                                0 <= k < old_result.len() && old_result[k] == sorted_seq[q];
                            assert(result@[k0] == sorted_seq[q]);
                        } else if pushed {
                            assert(result@[old_result.len() as int] == sorted_seq[p]);
                        } else {
                            let last = old_result[old_result.len() - 1];
                            assert(orig.contains(last) && last.wf());
                            assert(orig.contains(im));
                            assert(im.start_address <= last.start_address);
                            if im != last {
                                assert(ranges_disjoint(im, last));
                                assert(false);
                            }
                            let k0 = choose|k: int|
                                0 <= k < old_result.len() && old_result[k] == last;
                            assert(result@[k0] == sorted_seq[q]);
                        }
                    }
                }
            }
        }
        proof {
            if pairwise_disjoint(orig) {
                assert forall|q: int|
                    0 <= q < orig.len() && (#[trigger] orig[q]).wf() implies result@.contains(
                    orig[q],
                ) by {
                    assert(sorted_seq.contains(orig[q]));
                    let s0 = choose|i: int|
                        0 <= i < sorted_seq.len() && sorted_seq[i] == orig[q];
                    assert(result@.contains(sorted_seq[s0]));
                }
            }
        }
        GlobalContext { images: result }
    }

    /// Whether some registered image owns `avma`.
    pub open spec fn has_owner(self, avma: usize) -> bool {
        exists|i: int| 0 <= i < self.images().len() && (#[trigger] self.images()[i]).owns(avma)
    }

    /// The index of the image owning `avma`.
    pub open spec fn owner_index(self, avma: usize) -> int {
        choose|i: int| 0 <= i < self.images().len() && (#[trigger] self.images()[i]).owns(avma)
    }

    /// At most one registered image owns any address: the ranges are
    /// pairwise disjoint.
    pub proof fn lemma_unique_owner(self, avma: usize, i: int, j: int)
        requires
            self.wf(),
            0 <= i < self.images().len(),
            0 <= j < self.images().len(),
            self.images()[i].owns(avma),
            self.images()[j].owns(avma),
        ensures
            i == j,
    {
        if i < j {
            assert(self.images()[j].start_address + self.images()[j].length <= self.images()[
                i].start_address);
        } else if j < i {
            assert(self.images()[i].start_address + self.images()[i].length <= self.images()[
                j].start_address);
        }
    }

    /// Locate the image owning `avma` by binary search over the descending
    /// start addresses: an image is returned exactly when one of the
    /// registered images owns the address — what a linear scan would find.
    pub fn find_image(&self, avma: usize) -> (r: Option<&Image>)
        ensures
            match r {
                Some(im) => im.owns(avma) && exists|i: int|
                    0 <= i < self.images().len() && self.images()[i] == *im,
                None => !self.has_owner(avma),
            },
    {
        proof {
            use_type_invariant(self);
        }
        let mut lo: usize = 0;
        let mut hi: usize = self.images.len();
        // After the loop, `lo` is the first index whose start address is at
        // or below `avma`.
        while lo < hi
            invariant
                self.wf(),
                lo <= hi <= self.images@.len(),
                forall|i: int| 0 <= i < lo ==> (#[trigger] self.images@[i]).start_address > avma,
                forall|i: int|
                    hi <= i < self.images@.len() ==> (#[trigger] self.images@[i]).start_address
                        <= avma,
            decreases hi - lo,
        {
            let mid = lo + (hi - lo) / 2;
            if self.images[mid].start_address > avma {
                proof {
                    assert forall|i: int| 0 <= i < mid + 1 implies (
                    #[trigger] self.images@[i]).start_address > avma by {
                        if i < mid {
                            assert(self.images@[mid as int].start_address + self.images@[
                            mid as int].length <= self.images@[i].start_address);
                            assert(self.images@[mid as int].wf());
                        }
                    }
                }
                lo = mid + 1;
            } else {
                proof {
                    assert forall|i: int|
                        mid <= i < self.images@.len() implies (
                    #[trigger] self.images@[i]).start_address <= avma by {
                        if i > mid {
                            assert(self.images@[i].start_address + self.images@[i].length
                                <= self.images@[mid as int].start_address);
                            assert(self.images@[i].wf());
                        }
                    }
                }
                hi = mid;
            }
        }
        if lo == self.images.len() {
            proof {
                assert forall|i: int|
                    0 <= i < self.images@.len() implies !(#[trigger] self.images@[i]).owns(
                    avma,
                ) by {
                    assert(self.images@[i].start_address > avma);
                }
            }
            None
        } else {
            let candidate = &self.images[lo];
            if candidate.has(avma) {
                proof {
                    assert(self.images()[lo as int] == *candidate);
                }
                Some(candidate)
            } else {
                proof {
                    assert forall|i: int|
                        0 <= i < self.images@.len() implies !(#[trigger] self.images@[i]).owns(
                        avma,
                    ) by {
                        if i < lo {
                            assert(self.images@[i].start_address > avma);
                        } else if i > lo {
                            assert(self.images@[i].start_address + self.images@[i].length
                                <= self.images@[lo as int].start_address);
                        }
                    }
                }
                None
            }
        }
    }

    /// The frame chain symbolication yields for a static address of one
    /// image: the DWARF inline chain when the resolver has one, else the
    /// symbol-map fallback, else nothing.
    pub open spec fn frames_model(im: Image, svma: usize) -> Seq<FrameModel> {
        let d = match im.line_context {
            Some(c) => line_info::context_frames_at(c, svma as u64),
            None => Seq::empty(),
        };
        if d.len() > 0 {
            d.map_values(|m: FrameRecordModel| FrameModel::Dwarf(m))
        } else {
            match im.symbol_map.spec_get(svma as u64) {
                Some(e) => seq![FrameModel::SymbolMap(e.name@)],
                None => Seq::empty(),
            }
        }
    }

    /// What `resolve_symbol` returns: when some image owns the address, its
    /// name, the bias-removed static address and the frame chain; else the
    /// unresolved record.
    pub open spec fn spec_resolve(self, avma: usize) -> SymbolInfoModel {
        if self.has_owner(avma) {
            let im = self.images()[self.owner_index(avma)];
            let svma = (avma - im.bias) as usize;
            SymbolInfoModel {
                object_name: Some(im.filename@),
                avma,
                svma: Some(svma),
                associated_frames: Self::frames_model(im, svma),
            }
        } else {
            SymbolInfo::unresolved_model(avma)
        }
    }

    /// Resolve a runtime address into a symbol record: locate the owning
    /// image, convert to its static address space, and collect the DWARF
    /// inline chain, falling back to the image's symbol map.
    pub fn resolve_symbol(&self, avma: usize) -> (r: SymbolInfo)
        ensures
            r@ == self.spec_resolve(avma),
    {
        proof {
            use_type_invariant(self);
        }
        match self.find_image(avma) {
            None => {
                let r = SymbolInfo::new_unresolved(avma);
                proof {
                    assert(!self.has_owner(avma));
                }
                r
            },
            Some(im) => {
                proof {
                    let k = choose|i: int|
                        0 <= i < self.images().len() && self.images()[i] == *im;
                    assert(self.images()[k].owns(avma));
                    assert(self.has_owner(avma));
                    self.lemma_unique_owner(avma, k, self.owner_index(avma));
                    assert(self.images()[self.owner_index(avma)] == *im);
                    assert(im.wf());
                }
                let svma = avma - im.bias;
                let mut associated_frames: Vec<Frame> = Vec::new();
                let ghost target = Self::frames_model(*im, svma);
                match &im.line_context {
                    Some(ctx) => {
                        let mut recs = line_info::context_find_frames(ctx, svma as u64);
                        let ghost d = line_info::context_frames_at(*ctx, svma as u64);
                        proof {
                            assert(recs@.map_values(|f: FrameRecord| f@) == d);
                            assert(d.skip(0) =~= d);
                        }
                        while recs.len() > 0
                            invariant
                                associated_frames@.map_values(|f: Frame| f@) =~= d.take(
                                    d.len() - recs@.len(),
                                ).map_values(|m: FrameRecordModel| FrameModel::Dwarf(m)),
                                recs@.map_values(|f: FrameRecord| f@) =~= d.skip(
                                    d.len() - recs@.len(),
                                ),
                                recs@.len() <= d.len(),
                            decreases recs@.len(),
                        {
                            let ghost done = d.len() - recs@.len();
                            let ghost old_af = associated_frames@;
                            let ghost old_recs = recs@;
                            let rec = recs.remove(0);
                            associated_frames.push(Frame::Dwarf(rec));
                            proof {
                                assert(old_recs.map_values(|f: FrameRecord| f@)[0] == rec@);
                                assert(d.skip(done)[0] == d[done]);
                                assert(rec@ == d[done]);
                                assert(associated_frames@ =~= old_af.push(Frame::Dwarf(rec)));
                                assert(associated_frames@.map_values(|f: Frame| f@) =~= old_af
                                    .map_values(|f: Frame| f@).push(FrameModel::Dwarf(rec@)));
                                assert(d.take(done + 1) =~= d.take(done).push(d[done]));
                                assert(d.take(done + 1).map_values(
                                    |m: FrameRecordModel| FrameModel::Dwarf(m),
                                ) =~= d.take(done).map_values(
                                    |m: FrameRecordModel| FrameModel::Dwarf(m),
                                ).push(FrameModel::Dwarf(d[done])));
                                assert(associated_frames@.map_values(|f: Frame| f@) =~= d.take(
                                    done + 1,
                                ).map_values(|m: FrameRecordModel| FrameModel::Dwarf(m)));
                                assert(recs@ =~= old_recs.drop_first());
                                assert(recs@.map_values(|f: FrameRecord| f@) =~= old_recs
                                    .map_values(|f: FrameRecord| f@).drop_first());
                                assert(d.skip(done).drop_first() =~= d.skip(done + 1));
                                assert(recs@.map_values(|f: FrameRecord| f@) =~= d.skip(done + 1));
                            }
                        }
                        proof {
                            assert(d.take(d.len() as int) =~= d);
                        }
                    },
                    None => {},
                }
                if associated_frames.len() == 0 {
                    let found = im.symbol_map.get(svma as u64);
                    match found {
                        Some(e) => {
                            let name = e.name().to_string();
                            associated_frames.push(Frame::SymbolMap(name));
                        },
                        None => {},
                    }
                }
                let r = SymbolInfo {
                    object_name: Some(im.filename.clone()),
                    avma,
                    svma: Some(svma),
                    associated_frames,
                };
                proof {
                    assert(r@.associated_frames =~= target);
                    assert(r@ =~= self.spec_resolve(avma));
                }
                r
            },
        }
    }

    /// For an address inside a registered image, resolution reports that
    /// image's name and the bias-removed static address.
    pub proof fn lemma_resolve_in_image(self, avma: usize, i: int)
        requires
            self.wf(),
            0 <= i < self.images().len(),
            self.images()[i].owns(avma),
        ensures
            self.spec_resolve(avma).object_name == Some(self.images()[i].filename@),
            self.spec_resolve(avma).svma == Some((avma - self.images()[i].bias) as usize),
            self.spec_resolve(avma).avma == avma,
    {
        assert(self.has_owner(avma));
        self.lemma_unique_owner(avma, i, self.owner_index(avma));
    }

    /// Resolution is pure with respect to the registry: two resolutions of
    /// the same address against the same registry yield equal records.
    pub proof fn lemma_resolve_pure(self, avma: usize, r1: SymbolInfo, r2: SymbolInfo)
        requires
            r1@ == self.spec_resolve(avma),
            r2@ == self.spec_resolve(avma),
        ensures
            r1@ == r2@,
    {
    }

    /// Re-applying the image's bias to the resolved static address restores
    /// the runtime address exactly.
    pub proof fn lemma_svma_round_trip(self, avma: usize, i: int)
        requires
            self.wf(),
            0 <= i < self.images().len(),
            self.images()[i].owns(avma),
        ensures
            self.spec_resolve(avma).svma matches Some(s) && s + self.images()[i].bias == avma,
    {
        assert(self.images()[i].wf());
        self.lemma_resolve_in_image(avma, i);
    }

    /// No registered image owns address zero, so resolving it yields the
    /// unresolved record.
    pub proof fn lemma_resolve_zero(self)
        requires
            self.wf(),
        ensures
            self.spec_resolve(0) == SymbolInfo::unresolved_model(0),
    {
        assert forall|i: int|
            0 <= i < self.images().len() implies !(#[trigger] self.images()[i]).owns(0) by {
            assert(self.images()[i].wf());
        }
        assert(!self.has_owner(0));
    }

    /// A registered image owns its start address but not the address one
    /// past its end, and resolving the start reports the image.
    pub proof fn lemma_boundaries(self, i: int)
        requires
            self.wf(),
            0 <= i < self.images().len(),
        ensures
            self.images()[i].owns(self.images()[i].start_address),
            !self.images()[i].owns(
                (self.images()[i].start_address + self.images()[i].length) as usize,
            ),
            self.spec_resolve(self.images()[i].start_address).object_name == Some(
                self.images()[i].filename@,
            ),
    {
        assert(self.images()[i].wf());
        self.lemma_resolve_in_image(self.images()[i].start_address, i);
    }
}

} // verus!
