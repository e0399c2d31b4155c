//! The protocol session: a handshake that waits for a sentinel line,
//! then an event loop that answers each recipient-check event with a
//! verdict line. The session is a pure step function from a state and an
//! input line to the next state and the lines to emit; the surrounding
//! process performs the reads and writes.

use vstd::prelude::*;
use vstd::string::StringExecFns;

use crate::address::CodedAddressView;
use crate::address::KeyedAddress;
use crate::address::KeyedAddressView;
use crate::address::spec_check_code;
use crate::address::spec_matches;
use crate::input::Input;
use crate::input::parse_input;
use crate::input::spec_answer_line;
use crate::input::spec_parse_input;
use crate::text::str_eq;
use crate::text::trim_end_chars;
use crate::text::trim_end_str;

verus! {

/// The sentinel line ending the handshake.
pub const CONFIG_END: &'static str = "config|ready";

/// The verdict answered for an allowed recipient.
pub const ANSWER_OK: &'static str = "proceed";

/// The verdict answered for a rejected recipient.
pub const ANSWER_ERR: &'static str = "reject|550 No such recipient here";

/// The first registration line, declaring interest in recipient checks.
pub const REGISTER_FILTER: &'static str = "register|filter|smtp‐in|rcpt‐to";

/// The second registration line, declaring readiness.
pub const REGISTER_READY: &'static str = "register|ready";

/// The two states of the protocol session.
#[derive(Clone, Copy, Debug, PartialEq, Eq, Structural)]
pub enum SessionState {
    /// Reading and ignoring lines until the sentinel arrives.
    Handshaking,
    /// Answering one event per line.
    Looping,
}

/// The verdict for a recipient against the configured entries, in order:
/// the first entry covering the recipient decides, by its code check;
/// a recipient covered by no entry passes through.
pub open spec fn spec_decide(entries: Seq<KeyedAddressView>, a: CodedAddressView) -> bool
    decreases entries.len(),
{
    if entries.len() == 0 {
        true
    } else if spec_matches(entries[0], a) {
        spec_check_code(entries[0], a)
    } else {
        spec_decide(entries.drop_first(), a)
    }
}

/// Whether the recipient of `input` is allowed: protected recipients
/// must carry a verifying code, all others pass through.
pub fn allow_email(input: &Input, addr_lst: &Vec<KeyedAddress>) -> (r: bool)
    ensures
        r == spec_decide(addr_lst.deep_view(), input@.address),
{
    let ghost entries = addr_lst.deep_view();
    let address = input.get_coded_address();
    let mut i: usize = 0;
    proof {
        assert(entries.skip(0) =~~= entries);
    }
    while i < addr_lst.len()
        invariant
            0 <= i <= addr_lst@.len(),
            entries == addr_lst.deep_view(),
            entries.len() == addr_lst@.len(),
            address@ == input@.address,
            spec_decide(entries, address@) == spec_decide(entries.skip(i as int), address@),
        decreases addr_lst@.len() - i,
    {
        let ghost pending = entries.skip(i as int);
        proof {
            assert(pending[0] == addr_lst@[i as int]@);
            assert(pending.drop_first() =~~= entries.skip(i as int + 1));
        }
        let entry = &addr_lst[i];
        if entry.matches(address) {
            return entry.check_code(address);
        }
        i = i + 1;
    }
    proof {
        assert(entries.skip(entries.len() as int) =~~= Seq::<KeyedAddressView>::empty());
    }
    true
}

/// The meaning of one step of the session. While handshaking, every
/// line other than the sentinel (compared after removing trailing
/// whitespace) is ignored; the sentinel emits the two registration lines
/// and starts the loop. While looping, an empty line is ignored, a line
/// that parses is answered with a verdict line, and a line that does not
/// parse is dropped without an answer.
pub open spec fn spec_step(
    state: SessionState,
    line: Seq<char>,
    separator: char,
    entries: Seq<KeyedAddressView>,
) -> (SessionState, Seq<Seq<char>>) {
    match state {
        SessionState::Handshaking => {
            if trim_end_chars(line) == CONFIG_END@ {
                (SessionState::Looping, seq![REGISTER_FILTER@, REGISTER_READY@])
            } else {
                (SessionState::Handshaking, Seq::empty())
            }
        },
        SessionState::Looping => {
            if line.len() == 0 {
                (SessionState::Looping, Seq::empty())
            } else {
                match spec_parse_input(line, separator) {
                    Ok(iv) => (
                        SessionState::Looping,
                        seq![
                            spec_answer_line(
                                iv.session_id,
                                iv.token,
                                if spec_decide(entries, iv.address) {
                                    ANSWER_OK@
                                } else {
                                    ANSWER_ERR@
                                },
                            ),
                        ],
                    ),
                    Err(_) => (SessionState::Looping, Seq::empty()),
                }
            }
        },
    }
}

/// Run one step of the session on the line just read, yielding the next
/// state and the lines to write.
pub fn session_step(
    state: SessionState,
    line: &str,
    separator: char,
    addr_lst: &Vec<KeyedAddress>,
) -> (r: (SessionState, Vec<String>))
    requires
        line@.len() <= usize::MAX as int / 128,
    ensures
        r.0 == spec_step(state, line@, separator, addr_lst.deep_view()).0,
        r.1.deep_view() == spec_step(state, line@, separator, addr_lst.deep_view()).1,
{
    let ghost entries = addr_lst.deep_view();
    match state {
        SessionState::Handshaking => {
            let trimmed = trim_end_str(line);
            if str_eq(trimmed, CONFIG_END) {
                let mut out: Vec<String> = Vec::new();
                out.push(String::from_str(REGISTER_FILTER));
                out.push(String::from_str(REGISTER_READY));
                proof {
                    assert(out.deep_view() =~~= seq![REGISTER_FILTER@, REGISTER_READY@]);
                }
                (SessionState::Looping, out)
            } else {
                let out: Vec<String> = Vec::new();
                proof {
                    assert(out.deep_view() =~~= Seq::<Seq<char>>::empty());
                }
                (SessionState::Handshaking, out)
            }
        },
        SessionState::Looping => {
            if line.is_empty() {
                let out: Vec<String> = Vec::new();
                proof {
                    assert(out.deep_view() =~~= Seq::<Seq<char>>::empty());
                }
                return (SessionState::Looping, out);
            }
            match parse_input(line, separator) {
                Ok(inp) => {
                    let msg = if allow_email(&inp, addr_lst) {
                        ANSWER_OK
                    } else {
                        ANSWER_ERR
                    };
                    let answer = inp.answer(msg);
                    let mut out: Vec<String> = Vec::new();
                    let ghost answer_view = answer@;
                    out.push(answer);
                    proof {
                        assert(out.deep_view() =~~= seq![answer_view]);
                    }
                    (SessionState::Looping, out)
                },
                Err(_) => {
                    let out: Vec<String> = Vec::new();
                    proof {
                        assert(out.deep_view() =~~= Seq::<Seq<char>>::empty());
                    }
                    (SessionState::Looping, out)
                },
            }
        },
    }
}

/// The meaning of running the session over a whole sequence of input
/// lines: the final state and everything emitted, in order.
pub open spec fn spec_session(
    state: SessionState,
    lines: Seq<Seq<char>>,
    separator: char,
    entries: Seq<KeyedAddressView>,
) -> (SessionState, Seq<Seq<char>>)
    decreases lines.len(),
{
    if lines.len() == 0 {
        (state, Seq::empty())
    } else {
        let step = spec_step(state, lines[0], separator, entries);
        let rest = spec_session(step.0, lines.drop_first(), separator, entries);
        (rest.0, step.1 + rest.1)
    }
}

} // verus!
