//! The call-frame rules a cursor steps by.
//!
//! A row of the unwind table is modelled as plain values: the rule that
//! yields the canonical frame address and one recovery rule per register.
//! The row is produced by the outside CFI parser behind a trusted lookup.

use vstd::prelude::*;

use gimli::BaseAddresses;
use gimli::EhFrame;
use gimli::EhFrameHdr;
use gimli::RunTimeEndian;
use gimli::UnwindContext;
use gimli::UnwindSection;

use crate::cursor::x86_64::FramePointerBasedState;
use crate::cursor::x86_64::RegisterRecovery;
use crate::cursor::x86_64::STACK_POINTER_IDX;
use crate::image::Endianness;
use crate::ErrorKind;
use crate::UnwindError;

verus! {

#[verifier::external_type_specification]
#[verifier::external_body]
pub struct ExGimliError(gimli::Error);

/// An owned copy of gimli's unwind-table row, opaque to verification; it is
/// carried from the trusted lookup to the trusted conversion below.
#[verifier::external_body]
struct RawRow {
    inner: gimli::UnwindTableRow<usize, gimli::StoreOnHeap>,
}

/// gimli's section base addresses, opaque to verification; built from the
/// plain values the trusted lookup receives.
#[verifier::external_body]
struct RawBases {
    inner: gimli::BaseAddresses,
}

/// Builds gimli's base-address record from the four plain base addresses.
///
/// Relies on gimli's `BaseAddresses` setters: pure construction from the
/// arguments.
#[verifier::external_body]
fn make_bases(text: u64, eh_base: u64, got: u64, hdr_base: Option<u64>) -> (r: RawBases) {
    let mut ba = BaseAddresses::default().set_text(text).set_eh_frame(eh_base).set_got(got);
    if let Some(h) = hdr_base {
        ba = ba.set_eh_frame_hdr(h);
    }
    RawBases { inner: ba }
}

/// How the canonical frame address of a row is computed.
#[derive(Debug, Clone, Copy, PartialEq, Eq, Structural)]
pub enum CfaRule {
    /// The CFA is the given register's value plus the offset.
    RegisterAndOffset { register: u16, offset: i64 },
    /// The CFA is the value of a DWARF expression (beyond the simplified
    /// cursor state).
    Expression,
}

/// How a register of the caller's frame is recovered.
#[derive(Debug, Clone, Copy, PartialEq, Eq, Structural)]
pub enum RegisterRule {
    /// The register has no recoverable value: unwinding ends here.
    Undefined,
    /// The register was not modified.
    SameValue,
    /// The value is stored at `CFA + n`.
    Offset(i64),
    /// The value is `CFA + n` itself.
    ValOffset(i64),
    /// The value is held in another register.
    Register(u16),
    /// The value is at the address a DWARF expression yields.
    Expression,
    /// The value is what a DWARF expression yields.
    ValExpression,
    /// The rule is defined by the augmenter.
    Architectural,
    /// A pseudo-register with a constant value.
    Constant(u64),
}

/// The unwind-table row resolved for one program counter.
#[derive(Debug, Clone, PartialEq, Eq)]
pub struct UnwindRow {
    /// The rule that yields the canonical frame address.
    pub cfa: CfaRule,
    /// The non-default register rules, keyed by DWARF register number.
    pub registers: Vec<(u16, RegisterRule)>,
}

/// The ghost model of an `UnwindRow`.
#[verifier::ext_equal]
pub ghost struct UnwindRowModel {
    pub cfa: CfaRule,
    pub registers: Seq<(u16, RegisterRule)>,
}

impl View for UnwindRow {
    type V = UnwindRowModel;

    open spec fn view(&self) -> UnwindRowModel {
        UnwindRowModel { cfa: self.cfa, registers: self.registers@ }
    }
}

/// The first rule recorded for `reg`, or `Undefined` when none is: a
/// register that makes no appearance in a row keeps the default rule.
pub open spec fn rule_in(regs: Seq<(u16, RegisterRule)>, reg: u16) -> RegisterRule
    decreases regs.len(),
{
    if regs.len() == 0 {
        RegisterRule::Undefined
    } else if regs[0].0 == reg {
        regs[0].1
    } else {
        rule_in(regs.drop_first(), reg)
    }
}

impl UnwindRowModel {
    /// The rule of register `reg` in this row.
    pub open spec fn rule_for(self, reg: u16) -> RegisterRule {
        rule_in(self.registers, reg)
    }
}

impl UnwindRow {
    /// The rule of register `reg` in this row, `Undefined` when the row
    /// records none.
    pub fn register(&self, reg: u16) -> (r: RegisterRule)
        ensures
            r == self@.rule_for(reg),
    {
        proof {
            assert(self.registers@.skip(0) =~= self.registers@);
        }
        let mut i: usize = 0;
        while i < self.registers.len()
            invariant
                i <= self.registers@.len(),
                rule_in(self.registers@, reg) == rule_in(self.registers@.skip(i as int), reg),
            decreases self.registers@.len() - i,
        {
            proof {
                assert(self.registers@.skip(i as int)[0] == self.registers@[i as int]);
                assert(self.registers@.skip(i as int).drop_first() =~= self.registers@.skip(
                    i + 1,
                ));
            }
            let (r, rule) = self.registers[i];
            if r == reg {
                return rule;
            }
            i = i + 1;
        }
        proof {
            assert(self.registers@.skip(i as int) =~= Seq::<(u16, RegisterRule)>::empty());
        }
        RegisterRule::Undefined
    }
}

/// The view of an optional byte-slice argument.
pub open spec fn opt_bytes_view(o: Option<&[u8]>) -> Option<Seq<u8>> {
    match o {
        Some(b) => Some(b@),
        None => None,
    }
}

/// The unwind-table row that the CFI of the given `.eh_frame` bytes (indexed
/// by the optional `.eh_frame_hdr` bytes) resolves for a static address, with
/// the given section base addresses and byte order; `None` when the CFI
/// resolves no row for that address.
pub uninterp spec fn unwind_row_of(
    eh: Seq<u8>,
    hdr: Option<Seq<u8>>,
    text: u64,
    eh_base: u64,
    got: u64,
    hdr_base: Option<u64>,
    little: bool,
    svma: u64,
) -> Option<UnwindRowModel>;

/// Resolve the unwind-table row for `svma` from raw section bytes.
///
/// Relies on gimli's `EhFrameHdr::parse`, `EhHdrTable::unwind_info_for_address`
/// and `EhFrame::unwind_info_for_address`: when the header is present and
/// parses, its binary-search table finds the frame entry, else the frame
/// section is searched linearly; the row is a function of the arguments
/// alone.
#[verifier::external_body]
pub fn lookup_row(
    eh: &[u8],
    hdr: Option<&[u8]>,
    text: u64,
    eh_base: u64,
    got: u64,
    hdr_base: Option<u64>,
    little: bool,
    svma: u64,
) -> (r: Result<UnwindRow, gimli::Error>)
    ensures
        match r {
            Ok(row) => unwind_row_of(eh@, opt_bytes_view(hdr), text, eh_base, got, hdr_base, little, svma)
                == Some(row@),
            Err(_) => unwind_row_of(eh@, opt_bytes_view(hdr), text, eh_base, got, hdr_base, little, svma)
                is None,
        },
{
    let e = if little { RunTimeEndian::Little } else { RunTimeEndian::Big };
    let ba = make_bases(text, eh_base, got, hdr_base).inner;
    let frame = EhFrame::new(eh, e);
    let mut cx = UnwindContext::new();
    let parsed = hdr.and_then(|b| EhFrameHdr::new(b, e).parse(&ba, 8).ok());
    let looked = match parsed.as_ref().and_then(|p| p.table()) {
        Some(t) => t.unwind_info_for_address(&frame, &ba, &mut cx, svma, EhFrame::cie_from_offset),
        None => frame.unwind_info_for_address(&ba, &mut cx, svma, EhFrame::cie_from_offset),
    };
    match looked {
        Ok(row) => Ok(convert_row(&RawRow { inner: row.clone() })),
        Err(err) => Err(err),
    }
}

/// Carries gimli's row over into the library's plain row.
#[verifier::external_body]
fn convert_row(raw: &RawRow) -> (r: UnwindRow) {
    let row = &raw.inner;
    let cfa = match row.cfa() {
        gimli::CfaRule::RegisterAndOffset { register, offset } => CfaRule::RegisterAndOffset {
            register: register.0,
            offset: *offset,
        },
        gimli::CfaRule::Expression(_) => CfaRule::Expression,
    };
    let mut registers: Vec<(u16, RegisterRule)> = Vec::new();
    for &(reg, ref _rule) in row.registers() {
        registers.push((reg.0, convert_rule_at(raw, reg.0)));
    }
    UnwindRow { cfa, registers }
}

/// Where a completed DWARF expression evaluation left its result.
#[derive(Debug, Clone, PartialEq, Eq)]
pub enum EvalLocation {
    /// The expression produced nothing.
    Empty,
    /// The value itself.
    Value(u64),
    /// The value is held in a register.
    Register(u16),
    /// The value is the machine word at this address.
    Address(u64),
    /// The value is held in these literal bytes.
    Bytes(Vec<u8>),
    /// The value lies inside the debug-info section, at the relocation's
    /// offset plus the byte offset.
    ImplicitPointer { offset: i64, byte_offset: i64 },
}

/// The ghost model of an `EvalLocation`.
pub ghost enum EvalLocationModel {
    Empty,
    Value(u64),
    Register(u16),
    Address(u64),
    Bytes(Seq<u8>),
    ImplicitPointer { offset: i64, byte_offset: i64 },
}

impl View for EvalLocation {
    type V = EvalLocationModel;

    open spec fn view(&self) -> EvalLocationModel {
        match self {
            EvalLocation::Empty => EvalLocationModel::Empty,
            EvalLocation::Value(v) => EvalLocationModel::Value(*v),
            EvalLocation::Register(r) => EvalLocationModel::Register(*r),
            EvalLocation::Address(a) => EvalLocationModel::Address(*a),
            EvalLocation::Bytes(b) => EvalLocationModel::Bytes(b@),
            EvalLocation::ImplicitPointer { offset, byte_offset } => (
            EvalLocationModel::ImplicitPointer { offset: *offset, byte_offset: *byte_offset }),
        }
    }
}

/// One piece of a completed evaluation result.
#[derive(Debug, Clone, PartialEq, Eq)]
pub struct EvalPiece {
    /// Where the piece's value is located.
    pub location: EvalLocation,
    /// The bit offset into the location, if any.
    pub bit_offset: Option<u64>,
    /// The size of the piece in bits, if the expression constrained it.
    pub size_in_bits: Option<u64>,
}

/// The ghost model of an `EvalPiece`.
#[verifier::ext_equal]
pub ghost struct EvalPieceModel {
    pub location: EvalLocationModel,
    pub bit_offset: Option<u64>,
    pub size_in_bits: Option<u64>,
}

impl View for EvalPiece {
    type V = EvalPieceModel;

    open spec fn view(&self) -> EvalPieceModel {
        EvalPieceModel {
            location: self.location@,
            bit_offset: self.bit_offset,
            size_in_bits: self.size_in_bits,
        }
    }
}

/// `256^n`.
pub open spec fn pow256(n: nat) -> nat
    decreases n,
{
    if n == 0 {
        1
    } else {
        256 * pow256((n - 1) as nat)
    }
}

/// The value of little-endian digits: the first byte is least significant.
pub open spec fn le_word(s: Seq<u8>) -> nat
    decreases s.len(),
{
    if s.len() == 0 {
        0
    } else {
        (s[0] + 256 * le_word(s.drop_first())) as nat
    }
}

/// The value of big-endian digits: the last byte is least significant.
pub open spec fn be_word(s: Seq<u8>) -> nat
    decreases s.len(),
{
    if s.len() == 0 {
        0
    } else {
        (256 * be_word(s.drop_last()) + s.last()) as nat
    }
}

/// The value of the digits `s` in the given byte order.
pub open spec fn word_of(s: Seq<u8>, little: bool) -> nat {
    if little {
        le_word(s)
    } else {
        be_word(s)
    }
}

/// A word's value is below `256^len`.
proof fn lemma_le_word_bound(s: Seq<u8>)
    ensures
        le_word(s) < pow256(s.len()),
    decreases s.len(),
{
    if s.len() > 0 {
        lemma_le_word_bound(s.drop_first());
    }
}

/// A word's value is below `256^len`.
proof fn lemma_be_word_bound(s: Seq<u8>)
    ensures
        be_word(s) < pow256(s.len()),
    decreases s.len(),
{
    if s.len() > 0 {
        lemma_be_word_bound(s.drop_last());
    }
}

/// `256^n` for `n` up to eight fits the next power: the largest word read
/// here fits in 64 bits.
proof fn lemma_pow256_small(n: nat)
    requires
        n <= 8,
    ensures
        pow256(n) <= 0x1_0000_0000_0000_0000,
{
    assert(pow256(0) == 1);
    assert(pow256(1) == 256);
    assert(pow256(2) == 0x1_0000);
    assert(pow256(3) == 0x100_0000);
    assert(pow256(4) == 0x1_0000_0000);
    assert(pow256(5) == 0x100_0000_0000);
    assert(pow256(6) == 0x1_0000_0000_0000);
    assert(pow256(7) == 0x100_0000_0000_0000);
    assert(pow256(8) == 0x1_0000_0000_0000_0000);
}

/// Read a word of `size` bytes starting at `at`, in the given byte order.
pub fn read_word(bytes: &Vec<u8>, at: usize, size: u8, little: bool) -> (r: u64)
    requires
        size <= 8,
        at + size <= bytes@.len(),
    ensures
        r == word_of(bytes@.subrange(at as int, at + size), little),
{
    let ghost full = bytes@.subrange(at as int, at + size);
    let n = bytes.len();
    let mut acc: u64 = 0;
    if little {
        let mut k: usize = size as usize;
        proof {
            assert(full.subrange(k as int, size as int) =~= Seq::<u8>::empty());
        }
        while k > 0
            invariant
                k <= size <= 8,
                at + size <= bytes@.len(),
                bytes@.len() <= usize::MAX,
                full == bytes@.subrange(at as int, at + size),
                acc == le_word(full.subrange(k as int, size as int)),
            decreases k,
        {
            proof {
                let next = full.subrange(k - 1, size as int);
                assert(next[0] == full[k - 1]);
                assert(next.drop_first() =~= full.subrange(k as int, size as int));
                lemma_le_word_bound(next);
                lemma_pow256_small(next.len());
                assert(full[k - 1] == bytes@[at + k - 1]);
                assert(at + k <= bytes@.len());
            }
            acc = acc * 256 + (bytes[at + k - 1] as u64);
            k = k - 1;
        }
        proof {
            assert(full.subrange(0, size as int) =~= full);
        }
    } else {
        let mut k: usize = 0;
        proof {
            assert(full.subrange(0, 0) =~= Seq::<u8>::empty());
        }
        while k < size as usize
            invariant
                k <= size <= 8,
                at + size <= bytes@.len(),
                bytes@.len() <= usize::MAX,
                full == bytes@.subrange(at as int, at + size),
                acc == be_word(full.subrange(0, k as int)),
            decreases size - k,
        {
            proof {
                let next = full.subrange(0, k + 1);
                assert(next.last() == full[k as int]);
                assert(next.drop_last() =~= full.subrange(0, k as int));
                lemma_be_word_bound(next);
                lemma_pow256_small(next.len());
                assert(full[k as int] == bytes@[at + k]);
                assert(at + k < bytes@.len());
            }
            acc = acc * 256 + (bytes[at + k] as u64);
            k = k + 1;
        }
        proof {
            assert(full.subrange(0, size as int) =~= full);
        }
    }
    acc
}

/// What resolving a completed evaluation yields: `Err` carries the kind of
/// the error it fails with.
pub open spec fn spec_resolve_evaluation(
    pieces: Seq<EvalPieceModel>,
    address_size: u8,
    state: FramePointerBasedState,
    dbg: Seq<u8>,
    little: bool,
) -> Result<RegisterRecovery, ErrorKind> {
    if pieces.len() != 1 {
        Err(ErrorKind::UnwindLogicalError)
    } else {
        let res = pieces[0];
        match res.location {
            EvalLocationModel::Empty => Err(ErrorKind::UnwindLogicalError),
            EvalLocationModel::Value(v) => Ok(RegisterRecovery::Value(v as usize)),
            EvalLocationModel::Register(reg) => if res.bit_offset is Some {
                Err(ErrorKind::NotSupported)
            } else if res.size_in_bits matches Some(s) && s != (address_size as u64) * 8 {
                Err(ErrorKind::UnwindLogicalError)
            } else if reg == STACK_POINTER_IDX {
                Ok(RegisterRecovery::Value(state.rsp))
            } else {
                Err(ErrorKind::NotSupported)
            },
            EvalLocationModel::Address(a) => {
                let addr = match res.bit_offset {
                    Some(x) => vstd::wrapping::usize_specs::wrapping_add(
                        a as usize,
                        (x / 8) as usize,
                    ),
                    None => a as usize,
                };
                Ok(RegisterRecovery::ReadMemory(addr))
            },
            EvalLocationModel::Bytes(b) => if b.len() < address_size {
                Err(ErrorKind::UnwindLogicalError)
            } else {
                Ok(
                    RegisterRecovery::Value(
                        word_of(b.subrange(0, address_size as int), little) as u64 as usize,
                    ),
                )
            },
            EvalLocationModel::ImplicitPointer { offset, byte_offset } => {
                let total = vstd::wrapping::i64_specs::wrapping_add(offset, byte_offset) as usize;
                if dbg.len() <= total {
                    Err(ErrorKind::UnwindLogicalError)
                } else if address_size > dbg.len() - total {
                    Err(ErrorKind::UnwindLogicalError)
                } else {
                    Ok(
                        RegisterRecovery::Value(
                            word_of(dbg.subrange(total as int, total + address_size), little) as u64
                                as usize,
                        ),
                    )
                }
            },
        }
    }
}

/// Resolve the pieces of a completed DWARF expression evaluation to the
/// recovered value, or to the address whose word holds it.
///
/// A result of more than one piece, an empty location, or a piece whose
/// size does not match the address size is a logical error; a bit offset on
/// a register piece and registers other than the stack pointer are beyond
/// the simplified state. Literal bytes and implicit-pointer reads out of
/// the debug-info section are decoded in the image's byte order.
pub fn resolve_evaluation(
    pieces: &Vec<EvalPiece>,
    address_size: u8,
    state: &FramePointerBasedState,
    dbg_info: &Vec<u8>,
    endian: Endianness,
) -> (r: Result<RegisterRecovery, UnwindError>)
    requires
        address_size <= 8,
    ensures
        match spec_resolve_evaluation(
            pieces@.map_values(|p: EvalPiece| p@),
            address_size,
            *state,
            dbg_info@,
            endian is Little,
        ) {
            Ok(v) => r == Ok::<RegisterRecovery, UnwindError>(v),
            Err(k) => r matches Err(e) && e.spec_kind() == k,
        },
{
    let ghost model = pieces@.map_values(|p: EvalPiece| p@);
    if pieces.len() != 1 {
        return Err(
            UnwindError::UnwindLogicalError("evaluation returns unexpected result".to_string()),
        );
    }
    let res = &pieces[0];
    proof {
        assert(model[0] == res@);
    }
    match &res.location {
        EvalLocation::Empty => Err(
            UnwindError::UnwindLogicalError("evaluation returns empty result".to_string()),
        ),
        EvalLocation::Value(v) => Ok(RegisterRecovery::Value(*v as usize)),
        EvalLocation::Register(reg) => {
            if res.bit_offset.is_some() {
                return Err(
                    UnwindError::NotSupported(
                        "bit offset in evaluation result is not supported".to_string(),
                    ),
                );
            }
            match res.size_in_bits {
                Some(s) => {
                    if s != (address_size as u64) * 8 {
                        return Err(
                            UnwindError::UnwindLogicalError(
                                "unexpected bit size in evaluation result".to_string(),
                            ),
                        );
                    }
                },
                None => {},
            }
            match state.get_register(*reg) {
                Ok(v) => Ok(RegisterRecovery::Value(v)),
                Err(e) => Err(e),
            }
        },
        EvalLocation::Address(a) => {
            let addr = match res.bit_offset {
                Some(x) => (*a as usize).wrapping_add((x / 8) as usize),
                None => *a as usize,
            };
            Ok(RegisterRecovery::ReadMemory(addr))
        },
        EvalLocation::Bytes(b) => {
            if b.len() < address_size as usize {
                return Err(
                    UnwindError::UnwindLogicalError(
                        "evaluation returns unexpected result".to_string(),
                    ),
                );
            }
            let w = read_word(b, 0, address_size, endian.is_little());
            proof {
                assert(b@.subrange(0, address_size as int) == b@.subrange(
                    0 as int,
                    0 + address_size,
                ));
            }
            Ok(RegisterRecovery::Value(w as usize))
        },
        EvalLocation::ImplicitPointer { offset, byte_offset } => {
            let total = offset.wrapping_add(*byte_offset) as usize;
            if dbg_info.len() <= total {
                return Err(
                    UnwindError::UnwindLogicalError(
                        "implicit pointer out of range in evaluation result".to_string(),
                    ),
                );
            }
            if address_size as usize > dbg_info.len() - total {
                return Err(
                    UnwindError::UnwindLogicalError(
                        "implicit pointer out of range in evaluation result".to_string(),
                    ),
                );
            }
            let w = read_word(dbg_info, total, address_size, endian.is_little());
            Ok(RegisterRecovery::Value(w as usize))
        },
    }
}

/// Carries the rule gimli's row records for one register over, variant for
/// variant; a register without a recorded rule keeps `Undefined`.
#[verifier::external_body]
fn convert_rule_at(raw: &RawRow, reg: u16) -> (r: RegisterRule) {
    match raw.inner.register(gimli::Register(reg)) {
        None => RegisterRule::Undefined,
        Some(gimli::RegisterRule::Undefined) => RegisterRule::Undefined,
        Some(gimli::RegisterRule::SameValue) => RegisterRule::SameValue,
        Some(gimli::RegisterRule::Offset(o)) => RegisterRule::Offset(o),
        Some(gimli::RegisterRule::ValOffset(o)) => RegisterRule::ValOffset(o),
        Some(gimli::RegisterRule::Register(t)) => RegisterRule::Register(t.0),
        Some(gimli::RegisterRule::Expression(_)) => RegisterRule::Expression,
        Some(gimli::RegisterRule::ValExpression(_)) => RegisterRule::ValExpression,
        Some(gimli::RegisterRule::Constant(c)) => RegisterRule::Constant(c),
        Some(_) => RegisterRule::Architectural,
    }
}

} // verus!
