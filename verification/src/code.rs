//! Verification-code derivation: a keyed digest of an address's variable
//! parts, truncated to a short code by a dynamic offset.

use vstd::prelude::*;
use vstd::string::StrSliceExecFns;
use vstd::utf8::encode_scalar;
use vstd::utf8::encode_utf8;

verus! {

/// Number of bytes of a verification code.
pub const NB_BYTES: usize = 5;

/// The HMAC-SHA-256 digest of `message` under `key`.
pub uninterp spec fn hmac_sha256(key: Seq<u8>, message: Seq<u8>) -> Seq<u8>;

/// Relies on `hmac::Hmac<sha2::Sha256>`: the digest is a function of the
/// key and message bytes alone and is 32 bytes long (the SHA-256 output
/// size). `new_from_slice` accepts a key of any length for an HMAC, so
/// the unwrap cannot fail.
#[verifier::external_body]
fn hmac_sha256_digest(key: &[u8], message: &[u8]) -> (r: Vec<u8>)
    ensures
        r@ == hmac_sha256(key@, message@),
        r@.len() == 32,
{
    let mut mac = <hmac::Hmac<sha2::Sha256> as hmac::Mac>::new_from_slice(key).unwrap();
    hmac::Mac::update(&mut mac, message);
    hmac::Mac::finalize(mac).into_bytes().to_vec()
}

/// The UTF-8 encoding of a single character.
pub fn encode_char(c: char) -> (r: Vec<u8>)
    ensures
        r@ == encode_scalar(c as u32),
{
    proof {
        vstd::utf8::char_is_scalar(c);
    }
    let u: u32 = c as u32;
    let mut v: Vec<u8> = Vec::new();
    if u <= 0x7F {
        v.push((u & 0x7F) as u8);
    } else if u <= 0x7FF {
        v.push(0xC0 | (((u >> 6) & 0x1F) as u8));
        v.push(0x80 | ((u & 0x3F) as u8));
    } else if u <= 0xFFFF {
        v.push(0xE0 | (((u >> 12) & 0x0F) as u8));
        v.push(0x80 | (((u >> 6) & 0x3F) as u8));
        v.push(0x80 | ((u & 0x3F) as u8));
    } else {
        v.push(0xF0 | (((u >> 18) & 0x7) as u8));
        v.push(0x80 | (((u >> 12) & 0x3F) as u8));
        v.push(0x80 | (((u >> 6) & 0x3F) as u8));
        v.push(0x80 | ((u & 0x3F) as u8));
    }
    proof {
        assert(v@ =~= encode_scalar(c as u32));
    }
    v
}

/// The bytes whose keyed digest the verification code truncates: the
/// UTF-8 encodings of the local part, the separator and the sub-address,
/// concatenated.
pub open spec fn code_message(local_part: Seq<char>, separator: char, sub_addr: Seq<char>) -> Seq<
    u8,
> {
    encode_utf8(local_part) + encode_scalar(separator as u32) + encode_utf8(sub_addr)
}

/// The verification code: five bytes of the keyed digest, starting at the
/// offset given by the low nibble of the digest's last byte.
pub open spec fn spec_generate_code(
    local_part: Seq<char>,
    separator: char,
    sub_addr: Seq<char>,
    key: Seq<u8>,
) -> Seq<u8> {
    let digest = hmac_sha256(key, code_message(local_part, separator, sub_addr));
    let offset = (digest[digest.len() - 1] & 0x0F) as int;
    digest.subrange(offset, offset + NB_BYTES as int)
}

/// Derive the verification code for `local_part`, `separator` and
/// `sub_addr` under the shared secret `key`.
pub fn generate_code(local_part: &str, separator: char, sub_addr: &str, key: &[u8]) -> (r: Vec<u8>)
    ensures
        r@ == spec_generate_code(local_part@, separator, sub_addr@, key@),
        r@.len() == NB_BYTES,
{
    let mut message = local_part.as_bytes_vec();
    let mut sep_bytes = encode_char(separator);
    message.append(&mut sep_bytes);
    let mut sub_bytes = sub_addr.as_bytes_vec();
    message.append(&mut sub_bytes);
    proof {
        assert(message@ =~= code_message(local_part@, separator, sub_addr@));
    }
    let digest = hmac_sha256_digest(key, message.as_slice());
    let last: u8 = digest[31];
    proof {
        assert(last & 0x0F < 16) by (bit_vector);
    }
    let offset: usize = (last & 0x0F) as usize;
    let mut r: Vec<u8> = Vec::new();
    let mut i: usize = 0;
    while i < NB_BYTES
        invariant
            0 <= i <= NB_BYTES,
            offset + NB_BYTES <= digest@.len(),
            digest@ == hmac_sha256(key@, code_message(local_part@, separator, sub_addr@)),
            offset == (digest@[digest@.len() - 1] & 0x0F) as int,
            r@ =~= digest@.subrange(offset as int, offset as int + i as int),
        decreases NB_BYTES - i,
    {
        r.push(digest[offset + i]);
        i = i + 1;
    }
    r
}

} // verus!
