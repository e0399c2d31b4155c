use subaddr_filter::address::AddressError;
use subaddr_filter::config::Config;
use subaddr_filter::config::ConfigError;

#[test]
fn config_collects_args_and_file_lines() {
    let cfg = Config::new(
        vec!["a:3d74YQqk".to_string()],
        vec![
            "  b@example.org:3d74YQqk  ".to_string(),
            "".to_string(),
            "   ".to_string(),
            "# a comment".to_string(),
            "c:11voiefK5PgCX5F1TTcuoQ==".to_string(),
        ],
        '+',
    );
    let entries = cfg.addresses().unwrap();
    assert_eq!(entries.len(), 3);
    assert_eq!(entries[0].local_part().as_str(), "a");
    assert_eq!(entries[1].local_part().as_str(), "b");
    assert_eq!(entries[1].domain(), &Some("example.org".to_string()));
    assert_eq!(entries[2].local_part().as_str(), "c");
}

#[test]
fn config_rejects_duplicate_identity() {
    let cfg = Config::new(
        vec![
            "a:3d74YQqk".to_string(),
            "a:11voiefK5PgCX5F1TTcuoQ==".to_string(),
        ],
        Vec::new(),
        '+',
    );
    assert_eq!(cfg.addresses().unwrap_err(), ConfigError::DuplicateAddress);
}

#[test]
fn config_distinguishes_identities_by_domain() {
    let cfg = Config::new(
        vec![
            "a:3d74YQqk".to_string(),
            "a@example.org:3d74YQqk".to_string(),
        ],
        Vec::new(),
        '+',
    );
    assert_eq!(cfg.addresses().unwrap().len(), 2);
}

#[test]
fn config_rejects_malformed_entry() {
    let cfg = Config::new(Vec::new(), vec!["no-separator".to_string()], '+');
    assert_eq!(
        cfg.addresses().unwrap_err(),
        ConfigError::Address(AddressError::MissingKeySeparator)
    );
}

#[test]
fn get_separator_returns_configured() {
    let cfg = Config::new(Vec::new(), Vec::new(), '.');
    assert_eq!(cfg.get_separator(), '.');
}
