use subaddr_filter::address::AddressError;
use subaddr_filter::address::CodedAddress;
use subaddr_filter::address::KeyedAddress;

#[test]
fn parse_coded_addr_empty_email() {
    assert!(CodedAddress::parse("", '+').is_err());
}

#[test]
fn parse_coded_addr_empty_local() {
    assert!(CodedAddress::parse("@example.com", '+').is_err());
}

#[test]
fn parse_coded_addr_empty_domain() {
    assert!(CodedAddress::parse("derp@", '+').is_err());
}

#[test]
fn parse_keyed_addr_empty_email() {
    assert!(KeyedAddress::parse("").is_err());
}

#[test]
fn parse_keyed_addr_empty_local() {
    assert!(KeyedAddress::parse("@example.com").is_err());
}

#[test]
fn parse_keyed_addr_empty_domain() {
    assert!(KeyedAddress::parse("derp@").is_err());
}

#[test]
fn parse_valid_coded_addr_with_domain() {
    let addr_str = "a+test+orsxg5a@example.org";
    let addr = CodedAddress::parse(addr_str, '+');
    assert!(addr.is_ok(), "unable to parse {addr_str}: {addr:?}");
    let addr = addr.unwrap();
    assert_eq!(addr.local_part().as_str(), "a");
    assert_eq!(addr.sub_addr(), &Some("test".to_string()));
    assert_eq!(addr.code().as_slice(), b"test");
    assert_eq!(addr.domain(), &Some("example.org".to_string()));
}

#[test]
fn parse_valid_coded_addr_with_invalid_base32() {
    let addr_str = "a+test+invalid@example.org";
    let addr = CodedAddress::parse(addr_str, '+');
    assert!(addr.is_ok(), "unable to parse {addr_str}: {addr:?}");
    let addr = addr.unwrap();
    assert_eq!(addr.local_part().as_str(), "a");
    assert_eq!(addr.sub_addr(), &Some("test".to_string()));
    assert_eq!(addr.code(), &Vec::<u8>::new());
    assert_eq!(addr.domain(), &Some("example.org".to_string()));
}

#[test]
fn parse_valid_coded_addr_without_domain() {
    let addr_str = "local.part+test+orsxg5a";
    let addr = CodedAddress::parse(addr_str, '+');
    assert!(addr.is_ok(), "unable to parse {addr_str}: {addr:?}");
    let addr = addr.unwrap();
    assert_eq!(addr.local_part().as_str(), "local.part");
    assert_eq!(addr.sub_addr(), &Some("test".to_string()));
    assert_eq!(addr.code().as_slice(), b"test");
    assert!(addr.domain().is_none());
}

#[test]
fn parse_valid_coded_addr_alt_sep() {
    let addr_str = "local-part.test.orsxg5a@example.org";
    let addr = CodedAddress::parse(addr_str, '.');
    assert!(addr.is_ok(), "unable to parse {addr_str}: {addr:?}");
    let addr = addr.unwrap();
    assert_eq!(addr.local_part().as_str(), "local-part");
    assert_eq!(addr.sub_addr(), &Some("test".to_string()));
    assert_eq!(addr.code().as_slice(), b"test");
    assert_eq!(addr.domain(), &Some("example.org".to_string()));
}

#[test]
fn parse_valid_coded_addr_without_sub_addr() {
    let addr_str = "local.part@example.org";
    let addr = CodedAddress::parse(addr_str, '+');
    assert!(addr.is_ok(), "unable to parse {addr_str}: {addr:?}");
    let addr = addr.unwrap();
    assert_eq!(addr.local_part().as_str(), "local.part");
    assert!(addr.sub_addr().is_none());
    assert!(addr.code().is_empty());
    assert_eq!(addr.domain(), &Some("example.org".to_string()));
}

#[test]
fn parse_valid_keyed_addr_with_domain() {
    let addr_str = "a@example.org:11voiefK5PgCX5F1TTcuoQ==";
    let addr = KeyedAddress::parse(addr_str);
    assert!(addr.is_ok(), "unable to parse {addr_str}: {addr:?}");
    let addr = addr.unwrap();
    assert_eq!(addr.local_part().as_str(), "a");
    assert_eq!(addr.domain(), &Some("example.org".to_string()));
    assert_eq!(
        addr.key(),
        &vec![
            0xd7, 0x5b, 0xe8, 0x89, 0xe7, 0xca, 0xe4, 0xf8, 0x02, 0x5f, 0x91, 0x75, 0x4d, 0x37,
            0x2e, 0xa1
        ]
    );
}

#[test]
fn parse_valid_keyed_addr_without_domain() {
    let addr_str = "local.part:3d74YQqk";
    let addr = KeyedAddress::parse(addr_str);
    assert!(addr.is_ok(), "unable to parse {addr_str}: {addr:?}");
    let addr = addr.unwrap();
    assert_eq!(addr.local_part().as_str(), "local.part");
    assert_eq!(addr.domain(), &None);
    assert_eq!(addr.key(), &vec![0xdd, 0xde, 0xf8, 0x61, 0x0a, 0xa4]);
}

#[test]
fn keyed_addr_empty_address() {
    let res = KeyedAddress::parse("");
    assert!(res.is_err());
}

#[test]
fn keyed_addr_empty_base64() {
    let res = KeyedAddress::parse("a:");
    assert!(res.is_err());
}

#[test]
fn keyed_addr_invalid_base64() {
    let res = KeyedAddress::parse("a:uh2kv%j3");
    assert!(res.is_err());
}

#[test]
fn cmp_coded_addr_with_domain_eq() {
    let addr_1 = CodedAddress::parse("test+test+orsxg5a@example.org", '+').unwrap();
    let addr_2 = CodedAddress::parse("test+test+orsxg5a@example.org", '+').unwrap();
    assert_eq!(addr_1, addr_2);
}

#[test]
fn cmp_coded_addr_without_domain_eq() {
    let addr_1 = CodedAddress::parse("test+test+orsxg5a", '+').unwrap();
    let addr_2 = CodedAddress::parse("test+test+orsxg5a", '+').unwrap();
    assert_eq!(addr_1, addr_2);
}

#[test]
fn cmp_coded_addr_with_domain_ne() {
    let addr_1 = CodedAddress::parse("test+test+orsxg5a@example.org", '+').unwrap();
    let addr_2 = CodedAddress::parse("test2+test+orsxg5a@example.org", '+').unwrap();
    assert_ne!(addr_1, addr_2);
}

#[test]
fn cmp_coded_addr_without_domain_ne() {
    let addr_1 = CodedAddress::parse("test+test+orsxg5a", '+').unwrap();
    let addr_2 = CodedAddress::parse("test2+test+orsxg5a", '+').unwrap();
    assert_ne!(addr_1, addr_2);
}

#[test]
fn cmp_keyed_addr_with_domain_eq() {
    let addr_1 = KeyedAddress::parse("test@example.org:3d74YQqk").unwrap();
    let addr_2 = KeyedAddress::parse("test@example.org:11voiefK5PgCX5F1TTcuoQ==").unwrap();
    assert_eq!(addr_1, addr_2);
}

#[test]
fn cmp_keyed_addr_without_domain_eq() {
    let addr_1 = KeyedAddress::parse("test:3d74YQqk").unwrap();
    let addr_2 = KeyedAddress::parse("test:11voiefK5PgCX5F1TTcuoQ==").unwrap();
    assert_eq!(addr_1, addr_2);
}

#[test]
fn cmp_keyed_addr_with_domain_ne() {
    let addr_1 = KeyedAddress::parse("test@example.org:3d74YQqk").unwrap();
    let addr_2 = KeyedAddress::parse("test2@example.org:3d74YQqk").unwrap();
    assert_ne!(addr_1, addr_2);
}

#[test]
fn cmp_keyed_addr_without_domain_ne() {
    let addr_1 = KeyedAddress::parse("test:3d74YQqk").unwrap();
    let addr_2 = KeyedAddress::parse("test2:3d74YQqk").unwrap();
    assert_ne!(addr_1, addr_2);
}

#[test]
fn cmp_addr_types_with_domain_eq() {
    let addr_1 = KeyedAddress::parse("test@example.org:3d74YQqk").unwrap();
    let addr_2 = CodedAddress::parse("test+test+orsxg5a@example.org", '+').unwrap();
    assert!(addr_1.matches(&addr_2));
}

#[test]
fn cmp_addr_types_without_domain_eq() {
    let addr_1 = KeyedAddress::parse("test:3d74YQqk").unwrap();
    let addr_2 = CodedAddress::parse("test+test+orsxg5a", '+').unwrap();
    assert!(addr_1.matches(&addr_2));
}

#[test]
fn cmp_addr_types_without_sub_addr() {
    let addr_1 = KeyedAddress::parse("test@example.org:3d74YQqk").unwrap();
    let addr_2 = CodedAddress::parse("test@example.org", '+').unwrap();
    assert!(addr_1.matches(&addr_2));
}

#[test]
fn cmp_addr_types_with_domain_ne() {
    let addr_1 = KeyedAddress::parse("test@example.org:3d74YQqk").unwrap();
    let addr_2 = CodedAddress::parse("test+test+orsxg5a@example.com", '+').unwrap();
    assert!(!addr_1.matches(&addr_2));
}

#[test]
fn cmp_addr_types_without_domain_ne() {
    let addr_1 = KeyedAddress::parse("test:3d74YQqk").unwrap();
    let addr_2 = CodedAddress::parse("test2+test+orsxg5a", '+').unwrap();
    assert!(!addr_1.matches(&addr_2));
}

#[test]
fn entry_with_domain_covers_domainless_recipient() {
    let keyed = KeyedAddress::parse("test@example.org:3d74YQqk").unwrap();
    let coded = CodedAddress::parse("test", '+').unwrap();
    assert!(keyed.matches(&coded));
}

#[test]
fn split_local_part_takes_last_at_sign() {
    let (local, domain) = subaddr_filter::address::split_local_part("a@b@example.org");
    assert_eq!(local.as_str(), "a@b");
    assert_eq!(domain, Some("example.org".to_string()));
    let (local, domain) = subaddr_filter::address::split_local_part("plain");
    assert_eq!(local.as_str(), "plain");
    assert_eq!(domain, None);
}

#[test]
fn coded_addr_error_kinds() {
    assert_eq!(
        CodedAddress::parse("derp@", '+').unwrap_err(),
        AddressError::EmptyDomain
    );
    assert_eq!(
        CodedAddress::parse("+sub+code", '+').unwrap_err(),
        AddressError::EmptyLocalPart
    );
}

#[test]
fn keyed_addr_error_kinds() {
    assert_eq!(
        KeyedAddress::parse("no-separator").unwrap_err(),
        AddressError::MissingKeySeparator
    );
    assert_eq!(
        KeyedAddress::parse("a:uh2kv%j3").unwrap_err(),
        AddressError::InvalidKey
    );
    assert_eq!(KeyedAddress::parse("a:").unwrap_err(), AddressError::EmptyKey);
    assert_eq!(
        KeyedAddress::parse("a@:3d74YQqk").unwrap_err(),
        AddressError::EmptyDomain
    );
    assert_eq!(
        KeyedAddress::parse("@x:3d74YQqk").unwrap_err(),
        AddressError::EmptyLocalPart
    );
}
