//! One event of the wire protocol: an eight-field line carrying a
//! recipient-check request, and the response line answering it.

use vstd::prelude::*;
use vstd::string::StringExecFns;

use crate::address::AddressError;
use crate::address::CodedAddress;
use crate::address::CodedAddressView;
use crate::address::spec_parse_coded;
use crate::text::lemma_split_chars_segment_len;
use crate::text::lemma_trim_end_len;
use crate::text::split_chars;
use crate::text::split_str;
use crate::text::str_eq;
use crate::text::trim_end_chars;
use crate::text::trim_end_str;

verus! {

/// Why an event line was rejected.
#[derive(Clone, Copy, Debug, PartialEq, Eq, Structural)]
pub enum ProtocolError {
    /// The line does not hold exactly eight fields.
    WrongFieldCount,
    /// The first field is not the stream literal.
    InvalidStream,
    /// The protocol-version field is empty.
    EmptyVersion,
    /// The timestamp field is empty.
    EmptyTimestamp,
    /// The subsystem field is not the expected literal.
    InvalidSubsystem,
    /// The phase field is not the expected literal.
    InvalidPhase,
    /// The session-id field is empty.
    EmptySessionId,
    /// The token field is empty.
    EmptyToken,
    /// The address payload failed to parse.
    Address(AddressError),
}

/// The mathematical value of a parsed event.
#[verifier::ext_equal]
pub struct InputView {
    pub session_id: Seq<char>,
    pub token: Seq<char>,
    pub address: CodedAddressView,
}

/// One parsed recipient-check event.
#[derive(Debug)]
pub struct Input {
    session_id: String,
    token: String,
    address: CodedAddress,
}

impl View for Input {
    type V = InputView;

    closed spec fn view(&self) -> InputView {
        InputView { session_id: self.session_id@, token: self.token@, address: self.address@ }
    }
}

/// The meaning of parsing an event line: exactly eight `|`-separated
/// fields, fixed literals for stream, subsystem and phase, non-empty
/// version, timestamp, session id and token, and an address payload
/// parsed as a recipient address after trailing whitespace is removed.
pub open spec fn spec_parse_input(line: Seq<char>, separator: char) -> Result<
    InputView,
    ProtocolError,
> {
    let fields = split_chars(line, crate::PARAM_SEPARATOR);
    if fields.len() != 8 {
        Err(ProtocolError::WrongFieldCount)
    } else if fields[0] != "filter"@ {
        Err(ProtocolError::InvalidStream)
    } else if fields[1].len() == 0 {
        Err(ProtocolError::EmptyVersion)
    } else if fields[2].len() == 0 {
        Err(ProtocolError::EmptyTimestamp)
    } else if fields[3] != "smtp-in"@ {
        Err(ProtocolError::InvalidSubsystem)
    } else if fields[4] != "rcpt-to"@ {
        Err(ProtocolError::InvalidPhase)
    } else if fields[5].len() == 0 {
        Err(ProtocolError::EmptySessionId)
    } else if fields[6].len() == 0 {
        Err(ProtocolError::EmptyToken)
    } else {
        match spec_parse_coded(trim_end_chars(fields[7]), separator) {
            Ok(address) => Ok(
                InputView { session_id: fields[5], token: fields[6], address },
            ),
            Err(e) => Err(ProtocolError::Address(e)),
        }
    }
}

/// Parse one event line of the wire protocol.
pub fn parse_input(input: &str, separator: char) -> (r: Result<Input, ProtocolError>)
    requires
        input@.len() <= usize::MAX as int / 128,
    ensures
        match r {
            Ok(inp) => spec_parse_input(input@, separator) == Ok::<_, ProtocolError>(inp@),
            Err(e) => spec_parse_input(input@, separator) == Err::<InputView, _>(e),
        },
{
    let fields = split_str(input, crate::PARAM_SEPARATOR);
    proof {
        lemma_split_chars_segment_len(input@, crate::PARAM_SEPARATOR);
        assert(forall|k: int|
            0 <= k < fields@.len() ==> fields.deep_view()[k] == #[trigger] fields@[k]@);
    }
    if fields.len() != 8 {
        return Err(ProtocolError::WrongFieldCount);
    }
    if !str_eq(fields[0].as_str(), "filter") {
        return Err(ProtocolError::InvalidStream);
    }
    if fields[1].as_str().is_empty() {
        return Err(ProtocolError::EmptyVersion);
    }
    if fields[2].as_str().is_empty() {
        return Err(ProtocolError::EmptyTimestamp);
    }
    if !str_eq(fields[3].as_str(), "smtp-in") {
        return Err(ProtocolError::InvalidSubsystem);
    }
    if !str_eq(fields[4].as_str(), "rcpt-to") {
        return Err(ProtocolError::InvalidPhase);
    }
    if fields[5].as_str().is_empty() {
        return Err(ProtocolError::EmptySessionId);
    }
    if fields[6].as_str().is_empty() {
        return Err(ProtocolError::EmptyToken);
    }
    let address_text = trim_end_str(fields[7].as_str());
    proof {
        lemma_trim_end_len(fields@[7]@);
    }
    match CodedAddress::parse(address_text, separator) {
        Ok(address) => {
            let inp = Input { session_id: fields[5].clone(), token: fields[6].clone(), address };
            proof {
                let spec_r = spec_parse_input(input@, separator);
                assert(spec_r matches Ok(v) && v =~= inp@);
            }
            Ok(inp)
        },
        Err(e) => Err(ProtocolError::Address(e)),
    }
}

impl Input {
    /// The session id of the event, handed back verbatim in the answer.
    pub fn session_id(&self) -> (r: &String)
        ensures
            r@ == self@.session_id,
    {
        &self.session_id
    }

    /// The opaque token of the event, handed back verbatim in the answer.
    pub fn token(&self) -> (r: &String)
        ensures
            r@ == self@.token,
    {
        &self.token
    }

    /// The recipient address the event asks about.
    pub fn get_coded_address(&self) -> (r: &CodedAddress)
        ensures
            r@ == self@.address,
    {
        &self.address
    }

    /// The response line for this event carrying the verdict `msg`.
    pub fn answer(&self, msg: &str) -> (r: String)
        ensures
            r@ == spec_answer_line(self@.session_id, self@.token, msg@),
    {
        let mut line = String::from_str("filter-result|");
        line.append(self.session_id.as_str());
        line.append("|");
        line.append(self.token.as_str());
        line.append("|");
        line.append(msg);
        line
    }
}

/// The response line: the filter-result literal, then the session id,
/// the token and the verdict, `|`-separated.
pub open spec fn spec_answer_line(session_id: Seq<char>, token: Seq<char>, msg: Seq<char>) -> Seq<
    char,
> {
    "filter-result|"@ + session_id + "|"@ + token + "|"@ + msg
}

} // verus!
