//! The startup configuration: literal configured-address strings, the
//! lines of an optional address file, and the separator character. The
//! configured set is built once and never mutated afterwards.

use vstd::prelude::*;
use vstd::string::StrSliceExecFns;

use crate::address::AddressError;
use crate::address::KeyedAddress;
use crate::address::KeyedAddressView;
use crate::address::spec_parse_keyed;
use crate::address::spec_same_identity;
use crate::text::lemma_trim_len;
use crate::text::trim_chars;
use crate::text::trim_str;

verus! {

/// Why the startup configuration was rejected.
#[derive(Clone, Copy, Debug, PartialEq, Eq, Structural)]
pub enum ConfigError {
    /// A configured address failed to parse.
    Address(AddressError),
    /// Two configured addresses name the same protected identity.
    DuplicateAddress,
}

/// Whether `entries` already holds an entry with `k`'s identity.
pub open spec fn spec_has_identity(entries: Seq<KeyedAddressView>, k: KeyedAddressView) -> bool {
    exists|i: int| 0 <= i < entries.len() && spec_same_identity(entries[i], k)
}

/// Parse one configured-address text and append it to `entries`; a text
/// that fails to parse, or whose identity is already present, rejects
/// the whole configuration.
pub open spec fn spec_add_entry(entries: Seq<KeyedAddressView>, text: Seq<char>) -> Result<
    Seq<KeyedAddressView>,
    ConfigError,
> {
    match spec_parse_keyed(text) {
        Err(e) => Err(ConfigError::Address(e)),
        Ok(k) => if spec_has_identity(entries, k) {
            Err(ConfigError::DuplicateAddress)
        } else {
            Ok(entries.push(k))
        },
    }
}

/// Collect the literal address arguments, in order.
pub open spec fn spec_collect_args(texts: Seq<Seq<char>>, entries: Seq<KeyedAddressView>) -> Result<
    Seq<KeyedAddressView>,
    ConfigError,
>
    decreases texts.len(),
{
    if texts.len() == 0 {
        Ok(entries)
    } else {
        match spec_add_entry(entries, texts[0]) {
            Err(e) => Err(e),
            Ok(next) => spec_collect_args(texts.drop_first(), next),
        }
    }
}

/// Collect the address-file lines, in order: each line is trimmed, and a
/// line that is then empty or starts with the comment character is
/// ignored.
pub open spec fn spec_collect_lines(lines: Seq<Seq<char>>, entries: Seq<KeyedAddressView>) -> Result<
    Seq<KeyedAddressView>,
    ConfigError,
>
    decreases lines.len(),
{
    if lines.len() == 0 {
        Ok(entries)
    } else {
        let t = trim_chars(lines[0]);
        if t.len() == 0 || t[0] == crate::COMMENT_CHAR {
            spec_collect_lines(lines.drop_first(), entries)
        } else {
            match spec_add_entry(entries, t) {
                Err(e) => Err(e),
                Ok(next) => spec_collect_lines(lines.drop_first(), next),
            }
        }
    }
}

/// The configured set: the literal arguments first, then the surviving
/// file lines.
pub open spec fn spec_addresses(address: Seq<Seq<char>>, file_lines: Seq<Seq<char>>) -> Result<
    Seq<KeyedAddressView>,
    ConfigError,
> {
    match spec_collect_args(address, Seq::empty()) {
        Err(e) => Err(e),
        Ok(entries) => spec_collect_lines(file_lines, entries),
    }
}

/// The remainder of the collection, given what is already collected.
pub open spec fn spec_collect_rest(
    texts: Seq<Seq<char>>,
    lines: Seq<Seq<char>>,
    entries: Seq<KeyedAddressView>,
) -> Result<Seq<KeyedAddressView>, ConfigError> {
    match spec_collect_args(texts, entries) {
        Err(e) => Err(e),
        Ok(next) => spec_collect_lines(lines, next),
    }
}

/// The mathematical value of the startup configuration.
pub struct ConfigView {
    pub address: Seq<Seq<char>>,
    pub file_lines: Seq<Seq<char>>,
    pub separator: char,
}

/// The startup configuration, as handed over by the process boundary:
/// the literal configured-address strings, the lines read from the
/// optional address file, and the separator.
pub struct Config {
    address: Vec<String>,
    file_lines: Vec<String>,
    separator: char,
}

impl View for Config {
    type V = ConfigView;

    closed spec fn view(&self) -> ConfigView {
        ConfigView {
            address: self.address.deep_view(),
            file_lines: self.file_lines.deep_view(),
            separator: self.separator,
        }
    }
}

/// Whether `entries` holds an entry with the same identity as `k`.
fn contains_identity(entries: &Vec<KeyedAddress>, k: &KeyedAddress) -> (r: bool)
    ensures
        r == spec_has_identity(entries.deep_view(), k@),
{
    let mut i: usize = 0;
    while i < entries.len()
        invariant
            0 <= i <= entries@.len(),
            forall|j: int| 0 <= j < i ==> !spec_same_identity(entries.deep_view()[j], k@),
        decreases entries@.len() - i,
    {
        if entries[i].same_identity(k) {
            proof {
                assert(spec_same_identity(entries.deep_view()[i as int], k@));
            }
            return true;
        }
        i = i + 1;
    }
    false
}

impl Config {
    /// Assemble a configuration from the literal address strings, the
    /// lines of the address file, and the separator.
    pub fn new(address: Vec<String>, file_lines: Vec<String>, separator: char) -> (r: Config)
        ensures
            r@.address == address.deep_view(),
            r@.file_lines == file_lines.deep_view(),
            r@.separator == separator,
    {
        Config { address, file_lines, separator }
    }

    /// The separator between local part, sub-address and code.
    pub fn get_separator(&self) -> (r: char)
        ensures
            r == self@.separator,
    {
        self.separator
    }

    /// Build the configured-address set: every literal argument and every
    /// surviving file line parsed, with duplicate identities rejected.
    pub fn addresses(&self) -> (r: Result<Vec<KeyedAddress>, ConfigError>)
        requires
            forall|i: int|
                0 <= i < self@.address.len() ==> (#[trigger] self@.address[i]).len() <= usize::MAX
                    as int / 128,
            forall|i: int|
                0 <= i < self@.file_lines.len() ==> (#[trigger] self@.file_lines[i]).len()
                    <= usize::MAX as int / 128,
        ensures
            match r {
                Ok(entries) => spec_addresses(self@.address, self@.file_lines) == Ok::<
                    _,
                    ConfigError,
                >(entries.deep_view()),
                Err(e) => spec_addresses(self@.address, self@.file_lines) == Err::<
                    Seq<KeyedAddressView>,
                    _,
                >(e),
            },
    {
        let ghost all_args = self@.address;
        let ghost all_lines = self@.file_lines;
        let mut entries: Vec<KeyedAddress> = Vec::new();
        proof {
            assert(all_args.skip(0) =~~= all_args);
            assert(entries.deep_view() =~~= Seq::<KeyedAddressView>::empty());
        }
        let mut i: usize = 0;
        while i < self.address.len()
            invariant
                0 <= i <= all_args.len(),
                all_args == self@.address,
                all_lines == self@.file_lines,
                self@.address.len() == self.address@.len(),
                forall|j: int|
                    0 <= j < all_args.len() ==> (#[trigger] all_args[j]).len() <= usize::MAX as int
                        / 128,
                spec_addresses(all_args, all_lines) == spec_collect_rest(
                    all_args.skip(i as int),
                    all_lines,
                    entries.deep_view(),
                ),
            decreases all_args.len() - i,
        {
            let ghost pending = all_args.skip(i as int);
            proof {
                assert(pending[0] == all_args[i as int]);
                assert(pending.drop_first() =~~= all_args.skip(i as int + 1));
                assert(self.address@[i as int]@ == all_args[i as int]);
            }
            let entry = match KeyedAddress::parse(self.address[i].as_str()) {
                Ok(entry) => entry,
                Err(e) => {
                    return Err(ConfigError::Address(e));
                },
            };
            if contains_identity(&entries, &entry) {
                return Err(ConfigError::DuplicateAddress);
            }
            let ghost before = entries.deep_view();
            entries.push(entry);
            proof {
                assert(entries.deep_view() =~~= before.push(entry@));
            }
            i = i + 1;
        }
        proof {
            assert(all_args.skip(all_args.len() as int) =~~= Seq::<Seq<char>>::empty());
        }
        proof {
            assert(all_lines.skip(0) =~~= all_lines);
        }
        let mut l: usize = 0;
        while l < self.file_lines.len()
            invariant
                0 <= l <= all_lines.len(),
                all_args == self@.address,
                all_lines == self@.file_lines,
                self@.file_lines.len() == self.file_lines@.len(),
                forall|j: int|
                    0 <= j < all_lines.len() ==> (#[trigger] all_lines[j]).len() <= usize::MAX
                        as int / 128,
                spec_addresses(all_args, all_lines) == spec_collect_lines(
                    all_lines.skip(l as int),
                    entries.deep_view(),
                ),
            decreases all_lines.len() - l,
        {
            let ghost pending = all_lines.skip(l as int);
            let ghost dv0 = entries.deep_view();
            proof {
                assert(pending[0] == all_lines[l as int]);
                assert(pending.drop_first() =~~= all_lines.skip(l as int + 1));
                assert(self.file_lines@[l as int]@ == all_lines[l as int]);
                lemma_trim_len(all_lines[l as int]);
            }
            let line = trim_str(self.file_lines[l].as_str());
            proof {
                assert(line@ == trim_chars(pending[0]));
            }
            if !line.is_empty() && !(line.get_char(0) == crate::COMMENT_CHAR) {
                proof {
                    assert(!(trim_chars(pending[0]).len() == 0 || trim_chars(pending[0])[0]
                        == crate::COMMENT_CHAR));
                    assert(spec_collect_lines(pending, dv0) == (match spec_add_entry(
                        dv0,
                        trim_chars(pending[0]),
                    ) {
                        Err(e) => Err::<Seq<KeyedAddressView>, ConfigError>(e),
                        Ok(next) => spec_collect_lines(pending.drop_first(), next),
                    }));
                }
                let entry = match KeyedAddress::parse(line) {
                    Ok(entry) => entry,
                    Err(e) => {
                        proof {
                            assert(spec_add_entry(dv0, line@) == Err::<
                                Seq<KeyedAddressView>,
                                ConfigError,
                            >(ConfigError::Address(e)));
                        }
                        return Err(ConfigError::Address(e));
                    },
                };
                if contains_identity(&entries, &entry) {
                    proof {
                        assert(spec_add_entry(dv0, line@) == Err::<
                            Seq<KeyedAddressView>,
                            ConfigError,
                        >(ConfigError::DuplicateAddress));
                    }
                    return Err(ConfigError::DuplicateAddress);
                }
                entries.push(entry);
                proof {
                    assert(entries.deep_view() =~~= dv0.push(entry@));
                    assert(spec_add_entry(dv0, line@) == Ok::<_, ConfigError>(
                        entries.deep_view(),
                    ));
                }
            } else {
                proof {
                    assert(trim_chars(pending[0]).len() == 0 || trim_chars(pending[0])[0]
                        == crate::COMMENT_CHAR);
                }
            }
            l = l + 1;
        }
        proof {
            assert(all_lines.skip(all_lines.len() as int) =~~= Seq::<Seq<char>>::empty());
        }
        Ok(entries)
    }
}

} // verus!
