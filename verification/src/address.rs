//! The two textual address forms: the recipient address of an inbound
//! delivery attempt, which may embed a sub-address and a verification
//! code, and the configured address, which pairs a protected identity
//! with its shared secret key.

use vstd::prelude::*;
use vstd::string::StrSliceExecFns;

use crate::code::spec_generate_code;
use crate::code::generate_code;
use crate::encoding::base32_decode;
use crate::encoding::base64_decode;
use crate::encoding::decode_base32;
use crate::encoding::decode_base64;
use crate::text::bytes_eq;
use crate::text::find_last;
use crate::text::last_at;
use crate::text::lemma_last_at;
use crate::text::lemma_split_chars_segment_len;
use crate::text::split_chars;
use crate::text::split_str;
use crate::text::str_eq;

verus! {

/// Why an address failed to parse.
#[derive(Clone, Copy, Debug, PartialEq, Eq, Structural)]
pub enum AddressError {
    /// The local part is empty.
    EmptyLocalPart,
    /// An `@` is present but the domain behind it is empty.
    EmptyDomain,
    /// A configured address lacks the key separator.
    MissingKeySeparator,
    /// The key of a configured address is not valid base64.
    InvalidKey,
    /// The key of a configured address decodes to no bytes.
    EmptyKey,
}

/// The mathematical value of a parsed recipient address.
#[verifier::ext_equal]
pub struct CodedAddressView {
    pub local_part: Seq<char>,
    pub sub_addr: Option<Seq<char>>,
    pub code: Seq<u8>,
    pub domain: Option<Seq<char>>,
    pub separator: char,
}

impl CodedAddressView {
    /// Structural invariant: the local part is never empty, and a domain,
    /// when present, is never empty.
    pub open spec fn wf(self) -> bool {
        &&& self.local_part.len() > 0
        &&& match self.domain {
            Some(d) => d.len() > 0,
            None => true,
        }
    }
}

/// A recipient address parsed from one inbound event.
#[derive(Clone, Debug)]
pub struct CodedAddress {
    local_part: String,
    sub_addr: Option<String>,
    code: Vec<u8>,
    domain: Option<String>,
    separator: char,
}

impl View for CodedAddress {
    type V = CodedAddressView;

    closed spec fn view(&self) -> CodedAddressView {
        CodedAddressView {
            local_part: self.local_part@,
            sub_addr: match self.sub_addr {
                Some(s) => Some(s@),
                None => None,
            },
            code: self.code@,
            domain: match self.domain {
                Some(d) => Some(d@),
                None => None,
            },
            separator: self.separator,
        }
    }
}

impl DeepView for CodedAddress {
    type V = CodedAddressView;

    open spec fn deep_view(&self) -> CodedAddressView {
        self.view()
    }
}

/// The mathematical value of a configured address.
#[verifier::ext_equal]
pub struct KeyedAddressView {
    pub local_part: Seq<char>,
    pub domain: Option<Seq<char>>,
    pub key: Seq<u8>,
}

impl KeyedAddressView {
    /// Structural invariant: non-empty local part and key, and a domain,
    /// when present, is never empty.
    pub open spec fn wf(self) -> bool {
        &&& self.local_part.len() > 0
        &&& match self.domain {
            Some(d) => d.len() > 0,
            None => true,
        }
        &&& self.key.len() > 0
    }
}

/// A protected identity together with its shared secret key.
#[derive(Clone, Debug)]
pub struct KeyedAddress {
    local_part: String,
    domain: Option<String>,
    key: Vec<u8>,
}

impl View for KeyedAddress {
    type V = KeyedAddressView;

    closed spec fn view(&self) -> KeyedAddressView {
        KeyedAddressView {
            local_part: self.local_part@,
            domain: match self.domain {
                Some(d) => Some(d@),
                None => None,
            },
            key: self.key@,
        }
    }
}

impl DeepView for KeyedAddress {
    type V = KeyedAddressView;

    open spec fn deep_view(&self) -> KeyedAddressView {
        self.view()
    }
}

/// The meaning of splitting an address on its last `@`: the local
/// segment, and the domain when an `@` is present.
pub open spec fn spec_split_local_part(s: Seq<char>) -> (Seq<char>, Option<Seq<char>>) {
    let a = last_at(s, '@');
    if a >= 0 {
        (s.take(a), Some(s.skip(a + 1)))
    } else {
        (s, None)
    }
}

/// Split `s` on the last `@` into a local segment and an optional domain.
pub fn split_local_part(s: &str) -> (r: (String, Option<String>))
    ensures
        r.0@ == spec_split_local_part(s@).0,
        match r.1 {
            Some(d) => spec_split_local_part(s@).1 == Some(d@),
            None => spec_split_local_part(s@).1 is None,
        },
{
    let n: usize = s.unicode_len();
    proof {
        lemma_last_at(s@, '@');
    }
    match find_last(s, '@') {
        Some(i) => {
            let local = s.substring_char(0, i).to_owned();
            let domain = s.substring_char(i + 1, n).to_owned();
            proof {
                assert(local@ =~= s@.take(i as int));
                assert(domain@ =~= s@.skip(i as int + 1));
            }
            (local, Some(domain))
        },
        None => (s.to_owned(), None),
    }
}

/// The meaning of parsing a recipient address: split on the last `@`
/// (an empty domain is an error), split the local segment on the
/// separator (an empty first field is an error), and decode the third
/// field, if any, as base32, degrading to no code bytes when the decode
/// fails.
pub open spec fn spec_parse_coded(s: Seq<char>, separator: char) -> Result<
    CodedAddressView,
    AddressError,
> {
    let (loc_seg, domain) = spec_split_local_part(s);
    if domain matches Some(d) && d.len() == 0 {
        Err(AddressError::EmptyDomain)
    } else {
        let parts = split_chars(loc_seg, separator);
        if parts[0].len() == 0 {
            Err(AddressError::EmptyLocalPart)
        } else {
            Ok(
                CodedAddressView {
                    local_part: parts[0],
                    sub_addr: if parts.len() >= 2 {
                        Some(parts[1])
                    } else {
                        None
                    },
                    code: if parts.len() >= 3 {
                        match base32_decode(parts[2]) {
                            Some(b) => b,
                            None => Seq::empty(),
                        }
                    } else {
                        Seq::empty()
                    },
                    domain,
                    separator,
                },
            )
        }
    }
}

impl CodedAddress {
    /// Parse a recipient address.
    pub fn parse(s: &str, separator: char) -> (r: Result<CodedAddress, AddressError>)
        requires
            s@.len() <= usize::MAX as int / 128,
        ensures
            match r {
                Ok(addr) => spec_parse_coded(s@, separator) == Ok::<_, AddressError>(addr@)
                    && addr@.wf(),
                Err(e) => spec_parse_coded(s@, separator) == Err::<CodedAddressView, _>(e),
            },
    {
        let (loc_seg, domain) = split_local_part(s);
        if let Some(d) = &domain {
            if d.as_str().is_empty() {
                return Err(AddressError::EmptyDomain);
            }
        }
        proof {
            lemma_last_at(s@, '@');
        }
        let parts = split_str(loc_seg.as_str(), separator);
        proof {
            lemma_split_chars_segment_len(loc_seg@, separator);
            assert(parts.deep_view()[0] == parts@[0]@);
        }
        let local_part = parts[0].clone();
        if local_part.as_str().is_empty() {
            return Err(AddressError::EmptyLocalPart);
        }
        let sub_addr = if parts.len() >= 2 {
            proof {
                assert(parts.deep_view()[1] == parts@[1]@);
            }
            Some(parts[1].clone())
        } else {
            None
        };
        let code = if parts.len() >= 3 {
            proof {
                assert(parts.deep_view()[2] == parts@[2]@);
            }
            match decode_base32(parts[2].as_str()) {
                Some(v) => v,
                None => Vec::new(),
            }
        } else {
            Vec::new()
        };
        let addr = CodedAddress { local_part, sub_addr, code, domain, separator };
        proof {
            let spec_r = spec_parse_coded(s@, separator);
            assert(spec_r matches Ok(v) && v =~= addr@);
        }
        Ok(addr)
    }

    /// The local part, never empty for a parsed address.
    pub fn local_part(&self) -> (r: &String)
        ensures
            r@ == self@.local_part,
    {
        &self.local_part
    }

    /// The sub-address, when the address had a second field.
    pub fn sub_addr(&self) -> (r: &Option<String>)
        ensures
            match r {
                Some(s) => self@.sub_addr == Some(s@),
                None => self@.sub_addr is None,
            },
    {
        &self.sub_addr
    }

    /// The decoded verification code; empty when absent or undecodable.
    pub fn code(&self) -> (r: &Vec<u8>)
        ensures
            r@ == self@.code,
    {
        &self.code
    }

    /// The domain, when the address had one.
    pub fn domain(&self) -> (r: &Option<String>)
        ensures
            match r {
                Some(d) => self@.domain == Some(d@),
                None => self@.domain is None,
            },
    {
        &self.domain
    }

    /// The separator this address was parsed with.
    pub fn separator(&self) -> (r: char)
        ensures
            r == self@.separator,
    {
        self.separator
    }
}

/// The meaning of parsing a configured address: split on the last key
/// separator (its absence is an error), split the address part on the
/// last `@` as for recipients, and decode the key as base64 (an invalid
/// or empty key is an error).
pub open spec fn spec_parse_keyed(s: Seq<char>) -> Result<KeyedAddressView, AddressError> {
    let k = last_at(s, crate::KEY_SEPARATOR);
    if k < 0 {
        Err(AddressError::MissingKeySeparator)
    } else {
        let (local_part, domain) = spec_split_local_part(s.take(k));
        let key_text = s.skip(k + 1);
        if domain matches Some(d) && d.len() == 0 {
            Err(AddressError::EmptyDomain)
        } else if local_part.len() == 0 {
            Err(AddressError::EmptyLocalPart)
        } else {
            match base64_decode(key_text) {
                None => Err(AddressError::InvalidKey),
                Some(key) => if key.len() == 0 {
                    Err(AddressError::EmptyKey)
                } else {
                    Ok(KeyedAddressView { local_part, domain, key })
                },
            }
        }
    }
}

impl KeyedAddress {
    /// Parse a configured address of the form `local[@domain]:key_b64`.
    pub fn parse(s: &str) -> (r: Result<KeyedAddress, AddressError>)
        requires
            s@.len() <= usize::MAX as int / 128,
        ensures
            match r {
                Ok(addr) => spec_parse_keyed(s@) == Ok::<_, AddressError>(addr@) && addr@.wf(),
                Err(e) => spec_parse_keyed(s@) == Err::<KeyedAddressView, _>(e),
            },
    {
        let n: usize = s.unicode_len();
        proof {
            lemma_last_at(s@, crate::KEY_SEPARATOR);
        }
        let k = match find_last(s, crate::KEY_SEPARATOR) {
            Some(k) => k,
            None => {
                return Err(AddressError::MissingKeySeparator);
            },
        };
        let address = s.substring_char(0, k);
        let key_text = s.substring_char(k + 1, n);
        proof {
            assert(address@ =~= s@.take(k as int));
            assert(key_text@ =~= s@.skip(k as int + 1));
        }
        let (local_part, domain) = split_local_part(address);
        if let Some(d) = &domain {
            if d.as_str().is_empty() {
                return Err(AddressError::EmptyDomain);
            }
        }
        if local_part.as_str().is_empty() {
            return Err(AddressError::EmptyLocalPart);
        }
        let key = match decode_base64(key_text) {
            None => {
                return Err(AddressError::InvalidKey);
            },
            Some(key) => key,
        };
        if key.len() == 0 {
            return Err(AddressError::EmptyKey);
        }
        let addr = KeyedAddress { local_part, domain, key };
        proof {
            let spec_r = spec_parse_keyed(s@);
            assert(spec_r matches Ok(v) && v =~= addr@);
        }
        Ok(addr)
    }

    /// The local part of the protected identity.
    pub fn local_part(&self) -> (r: &String)
        ensures
            r@ == self@.local_part,
    {
        &self.local_part
    }

    /// The domain of the protected identity, when it specifies one.
    pub fn domain(&self) -> (r: &Option<String>)
        ensures
            match r {
                Some(d) => self@.domain == Some(d@),
                None => self@.domain is None,
            },
    {
        &self.domain
    }

    /// The shared secret key.
    pub fn key(&self) -> (r: &Vec<u8>)
        ensures
            r@ == self@.key,
    {
        &self.key
    }

    /// Whether this configured identity covers the recipient `a`: the
    /// local parts are equal and, when this entry specifies a domain and
    /// the recipient has one, the domains are equal too. An entry without
    /// a domain protects that local part under every domain, and a
    /// recipient without a domain is covered by an entry with one.
    pub fn matches(&self, addr: &CodedAddress) -> (r: bool)
        ensures
            r == spec_matches(self@, addr@),
    {
        let domains_ok = match (&self.domain, &addr.domain) {
            (Some(dk), Some(dc)) => str_eq(dk.as_str(), dc.as_str()),
            _ => true,
        };
        domains_ok && str_eq(self.local_part.as_str(), addr.local_part.as_str())
    }

    /// Whether the recipient's embedded code is the verification code for
    /// its local part and sub-address under this entry's key.
    pub fn check_code(&self, addr: &CodedAddress) -> (r: bool)
        ensures
            r == spec_check_code(self@, addr@),
    {
        if addr.local_part.as_str().is_empty() || self.key.len() == 0 {
            return false;
        }
        match &addr.sub_addr {
            Some(sub_addr) => {
                if !sub_addr.as_str().is_empty() {
                    let expected = generate_code(
                        addr.local_part.as_str(),
                        addr.separator,
                        sub_addr.as_str(),
                        self.key.as_slice(),
                    );
                    bytes_eq(&addr.code, &expected)
                } else {
                    false
                }
            },
            None => false,
        }
    }

    /// Whether two configured entries name the same protected identity;
    /// the key takes no part in identity.
    pub fn same_identity(&self, other: &KeyedAddress) -> (r: bool)
        ensures
            r == spec_same_identity(self@, other@),
    {
        let domains_ok = match (&self.domain, &other.domain) {
            (Some(a), Some(b)) => str_eq(a.as_str(), b.as_str()),
            (None, None) => true,
            _ => false,
        };
        domains_ok && str_eq(self.local_part.as_str(), other.local_part.as_str())
    }
}

/// The cross-type match relation between a configured identity and a
/// recipient address.
pub open spec fn spec_matches(k: KeyedAddressView, a: CodedAddressView) -> bool {
    &&& match (k.domain, a.domain) {
        (Some(dk), Some(dc)) => dk == dc,
        _ => true,
    }
    &&& k.local_part == a.local_part
}

/// When a recipient's code verifies under a configured entry: both the
/// local part and the key are non-empty, a non-empty sub-address is
/// present, and the embedded code bytes equal the derived code.
pub open spec fn spec_check_code(k: KeyedAddressView, a: CodedAddressView) -> bool {
    &&& a.local_part.len() > 0
    &&& k.key.len() > 0
    &&& match a.sub_addr {
        Some(sub) => sub.len() > 0 && a.code.len() > 0 && a.code == spec_generate_code(
            a.local_part,
            a.separator,
            sub,
            k.key,
        ),
        None => false,
    }
}

/// Identity of configured entries: local part and domain, key excluded.
pub open spec fn spec_same_identity(a: KeyedAddressView, b: KeyedAddressView) -> bool {
    a.local_part == b.local_part && a.domain == b.domain
}

impl PartialEq for KeyedAddress {
    fn eq(&self, other: &Self) -> bool {
        self.same_identity(other)
    }
}

impl vstd::std_specs::cmp::PartialEqSpecImpl for KeyedAddress {
    open spec fn obeys_eq_spec() -> bool {
        true
    }

    open spec fn eq_spec(&self, other: &KeyedAddress) -> bool {
        spec_same_identity(self@, other@)
    }
}

impl PartialEq for CodedAddress {
    fn eq(&self, other: &Self) -> (r: bool) {
        let local_ok = str_eq(self.local_part.as_str(), other.local_part.as_str());
        let sub_ok = match (&self.sub_addr, &other.sub_addr) {
            (Some(a), Some(b)) => str_eq(a.as_str(), b.as_str()),
            (None, None) => true,
            _ => false,
        };
        let code_ok = bytes_eq(&self.code, &other.code);
        let domain_ok = match (&self.domain, &other.domain) {
            (Some(a), Some(b)) => str_eq(a.as_str(), b.as_str()),
            (None, None) => true,
            _ => false,
        };
        let r = local_ok && sub_ok && code_ok && domain_ok && self.separator == other.separator;
        proof {
            if r {
                assert(self@ =~= other@);
            }
        }
        r
    }
}

impl vstd::std_specs::cmp::PartialEqSpecImpl for CodedAddress {
    open spec fn obeys_eq_spec() -> bool {
        true
    }

    open spec fn eq_spec(&self, other: &CodedAddress) -> bool {
        self@ == other@
    }
}

} // verus!
