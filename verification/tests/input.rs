use subaddr_filter::address::AddressError;
use subaddr_filter::input::parse_input;
use subaddr_filter::input::ProtocolError;

#[test]
fn test_valid_input() {
    let input = "filter|0.5|1576146008.006099|smtp-in|rcpt-to|7641df9771b4ed00|1ef1c203cc576e5d|derp@example.com";
    let res = parse_input(input, '+');
    assert!(res.is_ok());
    let inp = res.unwrap();
    assert_eq!(inp.session_id().as_str(), "7641df9771b4ed00");
    assert_eq!(inp.token().as_str(), "1ef1c203cc576e5d");
}

#[test]
fn test_empty_input() {
    assert!(parse_input("", '+').is_err());
}

#[test]
fn test_empty_stream() {
    let input = "|0.5|1576146008.006099|smtp-in|rcpt-to|7641df9771b4ed00|1ef1c203cc576e5d|derp@example.com";
    assert!(parse_input(input, '+').is_err());
}

#[test]
fn test_invalid_stream() {
    let input = "invalid|0.5|1576146008.006099|smtp-in|rcpt-to|7641df9771b4ed00|1ef1c203cc576e5d|derp@example.com";
    assert!(parse_input(input, '+').is_err());
}

#[test]
fn test_empty_version() {
    let input = "filter||1576146008.006099|smtp-in|rcpt-to|7641df9771b4ed00|1ef1c203cc576e5d|derp@example.com";
    assert!(parse_input(input, '+').is_err());
}

#[test]
fn test_empty_timestamp() {
    let input = "filter|0.5||smtp-in|rcpt-to|7641df9771b4ed00|1ef1c203cc576e5d|derp@example.com";
    assert!(parse_input(input, '+').is_err());
}

#[test]
fn test_empty_subsystem() {
    let input = "filter|0.5|1576146008.006099||rcpt-to|7641df9771b4ed00|1ef1c203cc576e5d|derp@example.com";
    assert!(parse_input(input, '+').is_err());
}

#[test]
fn test_invalid_subsystem() {
    let input = "filter|0.5|1576146008.006099|invalid|rcpt-to|7641df9771b4ed00|1ef1c203cc576e5d|derp@example.com";
    assert!(parse_input(input, '+').is_err());
}

#[test]
fn test_empty_phase() {
    let input = "filter|0.5|1576146008.006099|smtp-in||7641df9771b4ed00|1ef1c203cc576e5d|derp@example.com";
    assert!(parse_input(input, '+').is_err());
}

#[test]
fn test_invalid_phase() {
    let input = "filter|0.5|1576146008.006099|smtp-in|invalid|7641df9771b4ed00|1ef1c203cc576e5d|derp@example.com";
    assert!(parse_input(input, '+').is_err());
}

#[test]
fn test_empty_id() {
    let input = "filter|0.5|1576146008.006099|smtp-in|rcpt-to||1ef1c203cc576e5d|derp@example.com";
    assert!(parse_input(input, '+').is_err());
}

#[test]
fn test_empty_token() {
    let input = "filter|0.5|1576146008.006099|smtp-in|rcpt-to|7641df9771b4ed00||derp@example.com";
    assert!(parse_input(input, '+').is_err());
}

#[test]
fn test_empty_data() {
    let input = "filter|0.5|1576146008.006099|smtp-in|rcpt-to|7641df9771b4ed00|1ef1c203cc576e5d|";
    assert!(parse_input(input, '+').is_err());
}

#[test]
fn test_missing_data() {
    let input = "filter|0.5|1576146008.006099|smtp-in|rcpt-to|7641df9771b4ed00|1ef1c203cc576e5d";
    assert!(parse_input(input, '+').is_err());
}

#[test]
fn event_error_kinds() {
    assert_eq!(parse_input("", '+').unwrap_err(), ProtocolError::WrongFieldCount);
    assert_eq!(
        parse_input(
            "filter|0.5|1576146008.006099|smtp-in|rcpt-to|7641df9771b4ed00|1ef1c203cc576e5d",
            '+'
        )
        .unwrap_err(),
        ProtocolError::WrongFieldCount
    );
    assert_eq!(
        parse_input(
            "invalid|0.5|1576146008.006099|smtp-in|rcpt-to|7641df9771b4ed00|1ef1c203cc576e5d|derp@example.com",
            '+'
        )
        .unwrap_err(),
        ProtocolError::InvalidStream
    );
    assert_eq!(
        parse_input(
            "filter||1576146008.006099|smtp-in|rcpt-to|7641df9771b4ed00|1ef1c203cc576e5d|derp@example.com",
            '+'
        )
        .unwrap_err(),
        ProtocolError::EmptyVersion
    );
    assert_eq!(
        parse_input(
            "filter|0.5||smtp-in|rcpt-to|7641df9771b4ed00|1ef1c203cc576e5d|derp@example.com",
            '+'
        )
        .unwrap_err(),
        ProtocolError::EmptyTimestamp
    );
    assert_eq!(
        parse_input(
            "filter|0.5|1576146008.006099|invalid|rcpt-to|7641df9771b4ed00|1ef1c203cc576e5d|derp@example.com",
            '+'
        )
        .unwrap_err(),
        ProtocolError::InvalidSubsystem
    );
    assert_eq!(
        parse_input(
            "filter|0.5|1576146008.006099|smtp-in|invalid|7641df9771b4ed00|1ef1c203cc576e5d|derp@example.com",
            '+'
        )
        .unwrap_err(),
        ProtocolError::InvalidPhase
    );
    assert_eq!(
        parse_input(
            "filter|0.5|1576146008.006099|smtp-in|rcpt-to||1ef1c203cc576e5d|derp@example.com",
            '+'
        )
        .unwrap_err(),
        ProtocolError::EmptySessionId
    );
    assert_eq!(
        parse_input(
            "filter|0.5|1576146008.006099|smtp-in|rcpt-to|7641df9771b4ed00||derp@example.com",
            '+'
        )
        .unwrap_err(),
        ProtocolError::EmptyToken
    );
    assert_eq!(
        parse_input(
            "filter|0.5|1576146008.006099|smtp-in|rcpt-to|7641df9771b4ed00|1ef1c203cc576e5d|",
            '+'
        )
        .unwrap_err(),
        ProtocolError::Address(AddressError::EmptyLocalPart)
    );
}

#[test]
fn event_line_with_extra_field_rejected() {
    let input = "filter|0.5|1576146008.006099|smtp-in|rcpt-to|7641df9771b4ed00|1ef1c203cc576e5d|derp@example.com|extra";
    assert_eq!(parse_input(input, '+').unwrap_err(), ProtocolError::WrongFieldCount);
}

#[test]
fn event_address_payload_trailing_whitespace_trimmed() {
    let input = "filter|0.5|1576146008.006099|smtp-in|rcpt-to|7641df9771b4ed00|1ef1c203cc576e5d|derp@example.com \t";
    let inp = parse_input(input, '+').unwrap();
    assert_eq!(inp.get_coded_address().local_part().as_str(), "derp");
    assert_eq!(
        inp.get_coded_address().domain(),
        &Some("example.com".to_string())
    );
}

#[test]
fn answer_line_format() {
    let input = "filter|0.5|1576146008.006099|smtp-in|rcpt-to|7641df9771b4ed00|1ef1c203cc576e5d|derp@example.com";
    let inp = parse_input(input, '+').unwrap();
    assert_eq!(
        inp.answer("proceed").as_str(),
        "filter-result|7641df9771b4ed00|1ef1c203cc576e5d|proceed"
    );
}
