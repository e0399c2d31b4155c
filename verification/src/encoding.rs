//! Trusted bindings to the base32 and base64 codecs of the `data_encoding`
//! crate. The decoded and encoded values are named by uninterpreted spec
//! functions; the contracts state only what the crate documents.

use vstd::prelude::*;

verus! {

/// The value that case-insensitive, unpadded RFC 4648 base32 decoding
/// assigns to `s`, or `None` when `s` is not a valid encoding.
pub uninterp spec fn base32_decode(s: Seq<char>) -> Option<Seq<u8>>;

/// The unpadded RFC 4648 base32 encoding of `b`.
pub uninterp spec fn base32_encode(b: Seq<u8>) -> Seq<char>;

/// The value that padded RFC 4648 base64 decoding assigns to `s`, or
/// `None` when `s` is not a valid encoding.
pub uninterp spec fn base64_decode(s: Seq<char>) -> Option<Seq<u8>>;

/// The alphabet of unpadded base32: the symbols `A`-`Z` and `2`-`7`.
pub open spec fn is_base32_symbol(c: char) -> bool {
    ('A' <= c && c <= 'Z') || ('2' <= c && c <= '7')
}

/// Relies on `data_encoding::BASE32_NOPAD::decode`, applied to the
/// uppercased input so that the decode is case-insensitive; the result is
/// a function of the input characters alone. The length bound keeps the
/// decoder's internal length computation from overflowing.
#[verifier::external_body]
pub fn decode_base32(s: &str) -> (r: Option<Vec<u8>>)
    requires
        s@.len() <= usize::MAX as int / 128,
    ensures
        match r {
            Some(v) => base32_decode(s@) == Some(v@),
            None => base32_decode(s@) is None,
        },
{
    data_encoding::BASE32_NOPAD.decode(s.to_uppercase().as_bytes()).ok()
}

/// Relies on `data_encoding::BASE32_NOPAD::encode`: it emits only the
/// base32 symbols `A`-`Z` and `2`-`7`, and decoding an encoded value
/// yields the value back.
#[verifier::external_body]
pub fn encode_base32(b: &[u8]) -> (r: String)
    requires
        b@.len() <= usize::MAX as int / 8,
    ensures
        r@ == base32_encode(b@),
        base32_decode(r@) == Some(b@),
        forall|i: int| 0 <= i < r@.len() ==> is_base32_symbol(r@[i]),
{
    data_encoding::BASE32_NOPAD.encode(b)
}

/// Relies on `data_encoding::BASE64::decode`: padded RFC 4648 base64; the
/// result is a function of the input characters alone. The length bound
/// keeps the decoder's internal length computation from overflowing.
#[verifier::external_body]
pub fn decode_base64(s: &str) -> (r: Option<Vec<u8>>)
    requires
        s@.len() <= usize::MAX as int / 128,
    ensures
        match r {
            Some(v) => base64_decode(s@) == Some(v@),
            None => base64_decode(s@) is None,
        },
{
    data_encoding::BASE64.decode(s.as_bytes()).ok()
}

} // verus!
