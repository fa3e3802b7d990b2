//! Identifiers of models and requests: 128-bit values, made and written by the
//! `uuid` crate.

use vstd::prelude::*;

verus! {

/// Whether `id` carries the marks of a random (version 4) identifier: the
/// version digit is 4 and the two highest variant bits are `10`.
pub open spec fn is_v4(id: u128) -> bool {
    id & 0x0000_0000_0000_f000_c000_0000_0000_0000u128 == 0x0000_0000_0000_4000_8000_0000_0000_0000u128
}

/// What `uuid::Uuid::parse_str` makes of a text: the identifier it reads, or
/// nothing where it rejects the text.
pub uninterp spec fn parsed_uuid(text: Seq<char>) -> Option<u128>;

/// The text that `uuid::Uuid` shows an identifier as.
pub uninterp spec fn uuid_text(id: u128) -> Seq<char>;

/// Draws a fresh identifier with `uuid::Uuid::new_v4`. The value is random;
/// the contract claims only the version and variant marks that the function
/// sets on every value it returns.
#[verifier::external_body]
pub(crate) fn new_v4() -> (id: u128)
    ensures
        is_v4(id),
{
    uuid::Uuid::new_v4().as_u128()
}

/// Reads an identifier with `uuid::Uuid::parse_str`. The contract names the
/// result: it depends on the text alone.
#[verifier::external_body]
pub(crate) fn parse_str(text: &str) -> (r: Option<u128>)
    ensures
        r == parsed_uuid(text@),
{
    match uuid::Uuid::parse_str(text) {
        Ok(id) => Some(id.as_u128()),
        Err(_) => None,
    }
}

/// Writes an identifier as `uuid::Uuid` displays it. The contract names the
/// result: it depends on the identifier alone.
#[verifier::external_body]
pub(crate) fn to_text(id: u128) -> (r: String)
    ensures
        r@ == uuid_text(id),
{
    uuid::Uuid::from_u128(id).to_string()
}

/// The number that bytes stand for when the first byte counts most.
pub open spec fn big_endian(bytes: Seq<u8>) -> nat
    decreases bytes.len(),
{
    if bytes.len() == 0 {
        0
    } else {
        big_endian(bytes.drop_last()) * 256 + bytes.last() as nat
    }
}

/// Reads an identifier from its sixteen bytes with `uuid::Uuid::from_slice`,
/// which refuses any other length and takes the bytes as they are; the value
/// is those bytes with the first byte counting most.
#[verifier::external_body]
pub(crate) fn from_slice(bytes: &[u8]) -> (r: Option<u128>)
    ensures
        r is Some <==> bytes@.len() == 16,
        r matches Some(id) ==> id == big_endian(bytes@),
{
    match uuid::Uuid::from_slice(bytes) {
        Ok(id) => Some(id.as_u128()),
        Err(_) => None,
    }
}

/// The sixteen bytes of an identifier, from `uuid::Uuid::as_bytes`: the
/// value with the first byte counting most.
#[verifier::external_body]
pub(crate) fn to_bytes(id: u128) -> (r: Vec<u8>)
    ensures
        r@.len() == 16,
        big_endian(r@) == id,
{
    uuid::Uuid::from_u128(id).as_bytes().to_vec()
}

} // verus!
