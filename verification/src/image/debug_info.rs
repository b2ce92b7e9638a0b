//! Choosing the object that supplies an image's DWARF sections.
//!
//! When the primary object carries debug symbols it is used directly; when
//! it does not, an external debug file located by the caller (for formats
//! that support one, such as a Mach-O dSYM) takes its place.

use vstd::prelude::*;

verus! {

/// Whether the object file with the given bytes carries debug symbols.
pub uninterp spec fn has_debug_symbols_of(data: Seq<u8>) -> bool;

/// Whether the object file held in `data` carries debug symbols.
///
/// Relies on object's `File::parse` and `Object::has_debug_symbols`; bytes
/// that do not parse have none.
#[verifier::external_body]
pub fn has_debug_symbols(data: &[u8]) -> (r: bool)
    ensures
        r == has_debug_symbols_of(data@),
{
    object::File::parse(data).map_or(false, |o| object::Object::has_debug_symbols(&o))
}

/// The bytes of the object that supplies the image's DWARF: the primary
/// object when it has debug symbols, else the external debug file the
/// caller located, else nothing.
pub fn load(data: &Vec<u8>, external_debug: Option<Vec<u8>>) -> (r: Option<Vec<u8>>)
    ensures
        has_debug_symbols_of(data@) ==> (r matches Some(d) && d@ == data@),
        !has_debug_symbols_of(data@) ==> r == external_debug,
{
    if has_debug_symbols(data.as_slice()) {
        Some(data.clone())
    } else {
        external_debug
    }
}

} // verus!
