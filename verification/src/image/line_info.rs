//! The address-to-line resolver built from an image's DWARF sections.
//!
//! The resolver itself is an outside structure; this module declares it,
//! names what it holds, and wraps the two calls the library makes on it.

use vstd::prelude::*;

use std::sync::Arc;

verus! {

/// The outside resolver from static addresses to inline frame chains,
/// opaque to verification: addr2line's context over owned section bytes.
#[verifier::external_body]
pub struct LineContext {
    ctx: addr2line::Context<gimli::EndianReader<gimli::RunTimeEndian, Arc<[u8]>>>,
}

/// One inline frame from DWARF line information: the function name if any,
/// and the source file, line and column of the call site.
#[derive(Debug, Clone, PartialEq, Eq)]
pub struct FrameRecord {
    /// The raw (mangled) function name, when DWARF records one.
    pub name: Option<String>,
    /// The source file path, when line information records one.
    pub file: Option<String>,
    /// The source line.
    pub line: Option<u32>,
    /// The source column; zero means the left edge.
    pub column: Option<u32>,
}

/// The ghost model of a `FrameRecord`.
#[verifier::ext_equal]
pub ghost struct FrameRecordModel {
    pub name: Option<Seq<char>>,
    pub file: Option<Seq<char>>,
    pub line: Option<u32>,
    pub column: Option<u32>,
}

impl View for FrameRecord {
    type V = FrameRecordModel;

    open spec fn view(&self) -> FrameRecordModel {
        FrameRecordModel {
            name: match self.name {
                Some(n) => Some(n@),
                None => None,
            },
            file: match self.file {
                Some(f) => Some(f@),
                None => None,
            },
            line: self.line,
            column: self.column,
        }
    }
}

/// Whether a resolver can be built from the DWARF sections of the object
/// file with the given bytes.
pub uninterp spec fn line_context_available(data: Seq<u8>) -> bool;

/// The inline frame chain that the DWARF of the object file with the given
/// bytes records for a static address, inner-most frame first.
pub uninterp spec fn dwarf_frames_of(data: Seq<u8>, svma: u64) -> Seq<FrameRecordModel>;

/// The inline frame chain a resolver holds for a static address.
pub uninterp spec fn context_frames_at(ctx: LineContext, svma: u64) -> Seq<FrameRecordModel>;

/// Build the resolver from the bytes of an object file holding DWARF
/// sections.
///
/// Relies on object's section lookup, gimli's `Dwarf::load` and addr2line's
/// `Context::from_dwarf`: the resolver is a function of the bytes alone, and
/// answers lookups with the frame chains that the DWARF records.
#[verifier::external_body]
pub fn load(data: &Vec<u8>) -> (r: Option<LineContext>)
    ensures
        (r is Some) == line_context_available(data@),
        r matches Some(c) ==> forall|svma: u64|
            context_frames_at(c, svma) == dwarf_frames_of(data@, svma),
{
    let obj = object::File::parse(data.as_slice()).ok()?;
    let endian = if object::Object::is_little_endian(&obj) {
        gimli::RunTimeEndian::Little
    } else {
        gimli::RunTimeEndian::Big
    };
    let dwarf = gimli::Dwarf::load(|id| -> Result<_, ()> {
        let bytes = object::Object::section_by_name(&obj, id.name())
            .and_then(|s| object::ObjectSection::uncompressed_data(&s).ok())
            .map_or_else(Vec::new, |c| c.into_owned());
        Ok(gimli::EndianReader::new(Arc::from(bytes.as_slice()), endian))
    })
    .ok()?;
    addr2line::Context::from_dwarf(dwarf).ok().map(|ctx| LineContext { ctx })
}

/// The frame chain the resolver holds for `svma`, inner-most frame first.
///
/// Relies on addr2line's `Context::find_frames`: the chain depends on the
/// resolver and the address alone; a lookup failure yields an empty chain.
#[verifier::external_body]
pub fn context_find_frames(ctx: &LineContext, svma: u64) -> (r: Vec<FrameRecord>)
    ensures
        r@.map_values(|f: FrameRecord| f@) == context_frames_at(*ctx, svma),
{
    let mut out: Vec<FrameRecord> = Vec::new();
    let mut it = match ctx.ctx.find_frames(svma).skip_all_loads() {
        Ok(it) => it,
        Err(_) => return out,
    };
    while let Ok(Some(f)) = it.next() {
        out.push(FrameRecord {
            name: f.function.as_ref().and_then(|n| n.raw_name().ok().map(|s| s.into_owned())),
            file: f.location.as_ref().and_then(|l| l.file.map(|s| s.to_string())),
            line: f.location.as_ref().and_then(|l| l.line),
            column: f.location.as_ref().and_then(|l| l.column),
        });
    }
    out
}

} // verus!
