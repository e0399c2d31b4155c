//! The properties the filter guarantees, stated and proved over the
//! specification functions of the other modules, together with an
//! executable builder that mints addresses the filter will accept.

use vstd::prelude::*;
use vstd::string::StringExecFns;

use crate::address::CodedAddressView;
use crate::address::KeyedAddressView;
use crate::address::spec_check_code;
use crate::address::spec_matches;
use crate::address::spec_parse_coded;
use crate::code::generate_code;
use crate::code::spec_generate_code;
use crate::encoding::base32_decode;
use crate::encoding::base32_encode;
use crate::encoding::encode_base32;
use crate::encoding::is_base32_symbol;
use crate::input::spec_parse_input;
use crate::service::CONFIG_END;
use crate::service::SessionState;
use crate::service::spec_decide;
use crate::service::spec_session;
use crate::service::spec_step;
use crate::text::char_to_string;
use crate::text::contains_char;
use crate::text::lemma_last_at;
use crate::text::lemma_occurs_concat;
use crate::text::lemma_split_chars_prefix;
use crate::text::lemma_split_chars_whole;
use crate::text::occurs;
use crate::text::split_chars;
use crate::text::trim_end_chars;

verus! {

/// A recipient covered by no configured entry is always allowed,
/// whatever its sub-address and code hold.
pub proof fn lemma_pass_through(entries: Seq<KeyedAddressView>, a: CodedAddressView)
    requires
        forall|i: int| 0 <= i < entries.len() ==> !spec_matches(#[trigger] entries[i], a),
    ensures
        spec_decide(entries, a),
    decreases entries.len(),
{
    if entries.len() > 0 {
        assert(!spec_matches(entries[0], a));
        assert(forall|i: int|
            0 <= i < entries.drop_first().len() ==> entries.drop_first()[i] == entries[i + 1]);
        lemma_pass_through(entries.drop_first(), a);
    }
}

/// A recipient covered by some configured entry, but carrying no
/// sub-address, an empty sub-address, or no code bytes, is rejected.
pub proof fn lemma_incomplete_rejects(entries: Seq<KeyedAddressView>, a: CodedAddressView)
    requires
        exists|i: int| 0 <= i < entries.len() && spec_matches(#[trigger] entries[i], a),
        (match a.sub_addr {
            Some(sub) => sub.len() == 0,
            None => true,
        }) || a.code.len() == 0,
    ensures
        !spec_decide(entries, a),
    decreases entries.len(),
{
    if spec_matches(entries[0], a) {
        assert(!spec_check_code(entries[0], a));
    } else {
        let i = choose|i: int| 0 <= i < entries.len() && spec_matches(#[trigger] entries[i], a);
        assert(i > 0);
        assert(forall|j: int|
            0 <= j < entries.drop_first().len() ==> entries.drop_first()[j] == entries[j + 1]);
        assert(spec_matches(entries.drop_first()[i - 1], a));
        lemma_incomplete_rejects(entries.drop_first(), a);
    }
}

/// While every line read so far differs from the handshake sentinel
/// (after removing trailing whitespace), the session stays in the
/// handshake and emits nothing at all.
pub proof fn lemma_handshake_gating(
    lines: Seq<Seq<char>>,
    separator: char,
    entries: Seq<KeyedAddressView>,
)
    requires
        forall|i: int|
            0 <= i < lines.len() ==> trim_end_chars(#[trigger] lines[i]) != CONFIG_END@,
    ensures
        spec_session(SessionState::Handshaking, lines, separator, entries).0
            == SessionState::Handshaking,
        spec_session(SessionState::Handshaking, lines, separator, entries).1 == Seq::<
            Seq<char>,
        >::empty(),
    decreases lines.len(),
{
    if lines.len() > 0 {
        assert(trim_end_chars(lines[0]) != CONFIG_END@);
        assert(forall|i: int|
            0 <= i < lines.drop_first().len() ==> lines.drop_first()[i] == lines[i + 1]);
        lemma_handshake_gating(lines.drop_first(), separator, entries);
        assert(Seq::<Seq<char>>::empty() + Seq::<Seq<char>>::empty() =~~= Seq::<
            Seq<char>,
        >::empty());
    }
}

/// A line that is empty or fails to parse as an event produces no
/// response, leaves the session looping, and has no effect on how the
/// following lines are processed.
pub proof fn lemma_malformed_event_resilience(
    line: Seq<char>,
    rest: Seq<Seq<char>>,
    separator: char,
    entries: Seq<KeyedAddressView>,
)
    requires
        line.len() == 0 || spec_parse_input(line, separator) is Err,
    ensures
        spec_step(SessionState::Looping, line, separator, entries).0 == SessionState::Looping,
        spec_step(SessionState::Looping, line, separator, entries).1 == Seq::<Seq<char>>::empty(),
        spec_session(SessionState::Looping, seq![line] + rest, separator, entries) == spec_session(
            SessionState::Looping,
            rest,
            separator,
            entries,
        ),
{
    let all = seq![line] + rest;
    assert(all[0] == line);
    assert(all.drop_first() =~~= rest);
    let tail = spec_session(SessionState::Looping, rest, separator, entries);
    assert(Seq::<Seq<char>>::empty() + tail.1 =~~= tail.1);
}

/// The round-trip law: for a configured entry with local part `local`
/// and key `key`, and any non-empty sub-address, an address built as
/// `local`, `sub`, and the base32 encoding of the derived code, joined
/// by the separator, parses and is allowed — provided none of the parts
/// contains the separator or an `@`.
pub proof fn lemma_round_trip(
    local: Seq<char>,
    separator: char,
    sub: Seq<char>,
    key: Seq<u8>,
    enc: Seq<char>,
)
    requires
        local.len() > 0,
        sub.len() > 0,
        key.len() > 0,
        separator != '@',
        !occurs(local, separator),
        !occurs(local, '@'),
        !occurs(sub, separator),
        !occurs(sub, '@'),
        !occurs(enc, separator),
        !occurs(enc, '@'),
        base32_decode(enc) == Some(spec_generate_code(local, separator, sub, key)),
        spec_generate_code(local, separator, sub, key).len() > 0,
    ensures
        spec_parse_coded(local + seq![separator] + sub + seq![separator] + enc, separator)
            matches Ok(a) && a.local_part == local && a.sub_addr == Some(sub) && a.code
            == spec_generate_code(local, separator, sub, key) && a.domain is None && spec_decide(
            seq![(KeyedAddressView { local_part: local, domain: None, key })],
            a,
        ),
{
    let text = local + seq![separator] + sub + seq![separator] + enc;
    let sep_seq = seq![separator];
    assert(!occurs(sep_seq, '@')) by {
        if occurs(sep_seq, '@') {
            let i = choose|i: int| 0 <= i < sep_seq.len() && sep_seq[i] == '@';
            assert(i == 0);
        }
    }
    lemma_occurs_concat(local, sep_seq, '@');
    lemma_occurs_concat(local + sep_seq, sub, '@');
    lemma_occurs_concat(local + sep_seq + sub, sep_seq, '@');
    lemma_occurs_concat(local + sep_seq + sub + sep_seq, enc, '@');
    assert(!occurs(text, '@'));
    lemma_last_at(text, '@');
    assert(crate::address::spec_split_local_part(text).0 == text);
    assert(crate::address::spec_split_local_part(text).1 is None);
    let tail = sub + sep_seq + enc;
    assert(text =~= local + sep_seq + tail);
    lemma_split_chars_prefix(local, tail, separator);
    lemma_split_chars_prefix(sub, enc, separator);
    lemma_split_chars_whole(enc, separator);
    assert(split_chars(text, separator) =~~= seq![local, sub, enc]) by {
        assert(split_chars(text, separator) == split_chars(local + sep_seq + tail, separator));
        assert(split_chars(local + sep_seq + tail, separator) =~~= seq![local] + split_chars(
            tail,
            separator,
        ));
        assert(split_chars(tail, separator) =~~= seq![sub] + seq![enc]);
    }
    let parts = split_chars(text, separator);
    assert(parts[0] == local && parts[1] == sub && parts[2] == enc && parts.len() == 3);
    let code = spec_generate_code(local, separator, sub, key);
    let a = spec_parse_coded(text, separator)->Ok_0;
    assert(a.local_part == local && a.sub_addr == Some(sub) && a.code == code && a.domain is None
        && a.separator == separator);
    let entry = KeyedAddressView { local_part: local, domain: None, key };
    assert(spec_matches(entry, a));
    assert(spec_check_code(entry, a));
    assert(seq![entry].drop_first().len() == 0);
    assert(spec_decide(seq![entry], a));
}

/// When an address can be built that the round-trip law covers: all
/// three parts non-empty, and the separator neither `@`, nor a base32
/// symbol, nor a character of the local part or sub-address, which must
/// not contain `@` either.
pub open spec fn spec_buildable(
    local: Seq<char>,
    separator: char,
    sub: Seq<char>,
    key: Seq<u8>,
) -> bool {
    &&& local.len() > 0
    &&& sub.len() > 0
    &&& key.len() > 0
    &&& separator != '@'
    &&& !is_base32_symbol(separator)
    &&& !occurs(local, separator)
    &&& !occurs(local, '@')
    &&& !occurs(sub, separator)
    &&& !occurs(sub, '@')
}

/// Mint a protected address: the local part, the sub-address and the
/// base32-encoded verification code, joined by the separator. The
/// result, when one can be built, parses as a recipient address and is
/// allowed by a configured entry with that local part and key.
pub fn build_protected_address(
    local_part: &str,
    separator: char,
    sub_addr: &str,
    key: &Vec<u8>,
) -> (r: Option<String>)
    ensures
        r is Some <==> spec_buildable(local_part@, separator, sub_addr@, key@),
        r matches Some(text) ==> text@ == local_part@ + seq![separator] + sub_addr@ + seq![
            separator,
        ] + base32_encode(spec_generate_code(local_part@, separator, sub_addr@, key@)),
        r matches Some(text) ==> (spec_parse_coded(text@, separator) matches Ok(a) && spec_decide(
            seq![(KeyedAddressView { local_part: local_part@, domain: None, key: key@ })],
            a,
        )),
{
    if local_part.is_empty() || sub_addr.is_empty() || key.len() == 0 {
        return None;
    }
    if separator == '@' || ('A' <= separator && separator <= 'Z') || ('2' <= separator && separator
        <= '7') {
        return None;
    }
    if contains_char(local_part, separator) || contains_char(local_part, '@') || contains_char(
        sub_addr,
        separator,
    ) || contains_char(sub_addr, '@') {
        return None;
    }
    let code = generate_code(local_part, separator, sub_addr, key.as_slice());
    let enc = encode_base32(code.as_slice());
    let sep_str = char_to_string(separator);
    let mut text = String::from_str(local_part);
    text.append(sep_str.as_str());
    text.append(sub_addr);
    text.append(sep_str.as_str());
    text.append(enc.as_str());
    proof {
        assert(!occurs(enc@, separator)) by {
            if occurs(enc@, separator) {
                let i = choose|i: int| 0 <= i < enc@.len() && enc@[i] == separator;
                assert(is_base32_symbol(enc@[i]));
            }
        }
        assert(!occurs(enc@, '@')) by {
            if occurs(enc@, '@') {
                let i = choose|i: int| 0 <= i < enc@.len() && enc@[i] == '@';
                assert(is_base32_symbol(enc@[i]));
            }
        }
        assert(text@ =~= local_part@ + seq![separator] + sub_addr@ + seq![separator] + enc@);
        lemma_round_trip(local_part@, separator, sub_addr@, key@, enc@);
    }
    Some(text)
}

} // verus!

