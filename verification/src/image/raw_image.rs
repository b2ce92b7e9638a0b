//! Trusted access to a parsed object file.
//!
//! Opening and mapping the file happens outside the library; the library
//! holds the raw bytes and queries them here. Every query parses the bytes
//! anew, so each result is a function of the bytes alone.

use vstd::prelude::*;

verus! {

/// The address of the section with the given name, or `None` when the bytes
/// do not parse as an object file or have no such section.
pub uninterp spec fn section_address_of(data: Seq<u8>, name: Seq<char>) -> Option<u64>;

/// The uncompressed contents of the section with the given name, or `None`
/// when the bytes do not parse as an object file or have no such section.
pub uninterp spec fn section_data_of(data: Seq<u8>, name: Seq<char>) -> Option<Seq<u8>>;

/// Whether the bytes parse as a little-endian object file; `None` when they
/// do not parse at all.
pub uninterp spec fn little_endian_of(data: Seq<u8>) -> Option<bool>;

/// The address of the named section of the object file held in `data`.
///
/// Relies on object's `File::parse`, `Object::section_by_name` and
/// `ObjectSection::address`: the answer is a function of the bytes and the
/// name alone.
#[verifier::external_body]
pub fn section_address(data: &[u8], name: &str) -> (r: Option<u64>)
    ensures
        r == section_address_of(data@, name@),
{
    let obj = match object::File::parse(data) {
        Ok(o) => o,
        Err(_) => return None,
    };
    object::Object::section_by_name(&obj, name).map(|s| object::ObjectSection::address(&s))
}

/// The uncompressed contents of the named section of the object file held in
/// `data`.
///
/// Relies on object's `File::parse`, `Object::section_by_name` and
/// `ObjectSection::uncompressed_data`: the answer is a function of the bytes
/// and the name alone.
#[verifier::external_body]
pub fn section_data(data: &[u8], name: &str) -> (r: Option<Vec<u8>>)
    ensures
        match r {
            Some(d) => section_data_of(data@, name@) == Some(d@),
            None => section_data_of(data@, name@) is None,
        },
{
    let obj = match object::File::parse(data) {
        Ok(o) => o,
        Err(_) => return None,
    };
    let sec = object::Object::section_by_name(&obj, name)?;
    object::ObjectSection::uncompressed_data(&sec).ok().map(|c| c.into_owned())
}

/// Whether the object file held in `data` is little-endian; `None` when the
/// bytes do not parse.
///
/// Relies on object's `File::parse` and `Object::is_little_endian`.
#[verifier::external_body]
pub fn is_little_endian(data: &[u8]) -> (r: Option<bool>)
    ensures
        r == little_endian_of(data@),
{
    object::File::parse(data).ok().map(|o| object::Object::is_little_endian(&o))
}

/// The build id recorded in the object file with the given bytes, or `None`
/// when the bytes do not parse or record none.
pub uninterp spec fn build_id_of(data: Seq<u8>) -> Option<Seq<u8>>;

/// The build id of the object file held in `data`, which identifies its
/// external debug file.
///
/// Relies on object's `File::parse` and `Object::build_id`.
#[verifier::external_body]
pub fn build_id(data: &[u8]) -> (r: Option<Vec<u8>>)
    ensures
        match r {
            Some(b) => build_id_of(data@) == Some(b@),
            None => build_id_of(data@) is None,
        },
{
    let obj = object::File::parse(data).ok()?;
    object::Object::build_id(&obj).ok()?.map(|b| b.to_vec())
}

} // verus!
