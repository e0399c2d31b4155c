use subaddr_filter::address::CodedAddress;
use subaddr_filter::address::KeyedAddress;
use subaddr_filter::laws::build_protected_address;

fn shared_key() -> Vec<u8> {
    vec![
        0xd7, 0x5b, 0xe8, 0x89, 0xe7, 0xca, 0xe4, 0xf8, 0x02, 0x5f, 0x91, 0x75, 0x4d, 0x37, 0x2e,
        0xa1,
    ]
}

#[test]
fn built_address_round_trips() {
    let text = build_protected_address("a", '+', "test", &shared_key()).unwrap();
    assert_eq!(text.as_str(), "a+test+PXMNOHEO");
    let parsed = CodedAddress::parse(&text, '+').unwrap();
    assert_eq!(parsed.local_part().as_str(), "a");
    assert_eq!(parsed.sub_addr(), &Some("test".to_string()));
    assert_eq!(parsed.code(), &vec![0x7d, 0xd8, 0xd7, 0x1c, 0x8e]);
    let entry = KeyedAddress::parse("a:11voiefK5PgCX5F1TTcuoQ==").unwrap();
    assert!(entry.matches(&parsed));
    assert!(entry.check_code(&parsed));
}

#[test]
fn built_address_round_trips_alt_separator() {
    let text = build_protected_address("someone", '-', "shop", &shared_key()).unwrap();
    let parsed = CodedAddress::parse(&text, '-').unwrap();
    let entry = KeyedAddress::parse("someone:11voiefK5PgCX5F1TTcuoQ==").unwrap();
    assert!(entry.check_code(&parsed));
}

#[test]
fn build_refuses_unusable_parts() {
    let key = shared_key();
    assert!(build_protected_address("", '+', "test", &key).is_none());
    assert!(build_protected_address("a", '+', "", &key).is_none());
    assert!(build_protected_address("a", '+', "test", &Vec::new()).is_none());
    // a separator drawn from the base32 alphabet would split the code
    assert!(build_protected_address("a", 'A', "test", &key).is_none());
    assert!(build_protected_address("a", '@', "test", &key).is_none());
    // parts containing the separator or an `@` cannot be re-parsed
    assert!(build_protected_address("a+b", '+', "test", &key).is_none());
    assert!(build_protected_address("a", '+', "te@st", &key).is_none());
}
