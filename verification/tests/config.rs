use dau::{
    check_perms, load_config, load_or_defaults, Config, DauError, FileStat, Item, ParseError, Perm,
    Type,
};

const SIMPLE: &str = "
        timeout = '30s'

        [testuser]
        all = true

        [testgroup]
        type = 'group'
        all = true

        [limiteduser]
        commands = ['/bin/ls']";

#[test]
fn toml_default() {
    let config: Config = Config::parse("").unwrap();
    assert_eq!("5m", config.timeout());
    assert_eq!(0, config.len());
}

#[test]
fn toml_test() {
    let c = Config::parse(SIMPLE);
    let config: Config = c.unwrap();
    assert_eq!("30s", config.timeout());
    assert!(config.get("testuser").unwrap().all);
    assert_eq!(Type::Group, config.get("testgroup").unwrap().ptype);
    assert!(!config.get("limiteduser").unwrap().all);
    assert_eq!(vec!("/bin/ls"), config.get("limiteduser").unwrap().commands);
}

#[test]
fn toml_unknown_field() {
    let s = "[testuser]
                 all = true
                 unknown = true";
    let config = Config::parse(s);
    assert!(config.is_err());
}

#[test]
fn from_file() {
    let r = load_config(Some(SIMPLE));
    let config = r.unwrap().unwrap();
    assert_eq!("30s", config.timeout());
    assert!(config.get("testuser").unwrap().all);
    assert_eq!(Type::Group, config.get("testgroup").unwrap().ptype);
    assert!(!config.get("limiteduser").unwrap().all);
    assert_eq!(vec!("/bin/ls"), config.get("limiteduser").unwrap().commands);
}

#[test]
fn from_file_with_defaults() {
    let config = load_or_defaults(Some(SIMPLE), None).unwrap();
    assert_eq!("30s", config.timeout());
    assert!(config.get("testuser").unwrap().all);
    assert_eq!(Type::Group, config.get("testgroup").unwrap().ptype);
    assert!(!config.get("limiteduser").unwrap().all);
    assert_eq!(vec!("/bin/ls"), config.get("limiteduser").unwrap().commands);
}

#[test]
fn file_missing() {
    let config = load_or_defaults(None, None);
    assert!(config.is_err());
}

#[test]
fn file_invalid_owner() {
    assert!(!check_perms(Some(FileStat { uid: 1000, mode: 0o644 })));
}

#[test]
fn file_missing_is_no_config() {
    assert!(load_config(None).unwrap().is_none());
    assert_eq!(load_or_defaults(None, None).unwrap_err(), DauError::InvalidConfiguration);
}

#[test]
fn file_with_defaults_prefers_the_file() {
    let config = load_or_defaults(Some(SIMPLE), Some("sudo:wheel")).unwrap();
    assert_eq!(3, config.len());
    assert!(config.get("sudo").is_none());
}

#[test]
fn unreadable_file_keeps_the_cause() {
    assert_eq!(
        load_config(Some("[a")).unwrap_err(),
        DauError::UnreadableConfiguration(ParseError::Syntax)
    );
    assert_eq!(
        load_or_defaults(Some("[a]\nunknown = 1"), Some("sudo")).unwrap_err(),
        DauError::UnreadableConfiguration(ParseError::UnknownField)
    );
    assert_eq!(
        load_or_defaults(Some("[a]\nall = 1"), None).unwrap_err(),
        DauError::UnreadableConfiguration(ParseError::InvalidValue)
    );
    assert_eq!(
        load_config(Some(&"x = [".repeat(300))).unwrap_err(),
        DauError::UnreadableConfiguration(ParseError::TooNested)
    );
}

#[test]
fn default_config_is_empty() {
    let config = Config::default();
    assert_eq!("5m", config.timeout());
    assert_eq!(0, config.len());
    assert!(!config.contains("root"));
}

#[test]
fn default_perm_permits_nothing() {
    let perm = Perm::default();
    assert!(!perm.all);
    assert_eq!(Type::User, perm.ptype);
    assert!(perm.commands.is_empty());
    assert_eq!(Type::User, Type::default());
}

#[test]
fn insert_replaces_an_entry_of_the_same_name() {
    let mut config = Config::default();
    config.insert("ops".to_string(), Perm::new(false, Type::Group, vec!["/bin/ls".to_string()]));
    config.insert("dev".to_string(), Perm::default());
    config.insert("ops".to_string(), Perm::whole_group());
    assert_eq!(2, config.len());
    let ops = config.get("ops").unwrap();
    assert!(ops.all);
    assert_eq!(Type::Group, ops.ptype);
    assert!(ops.commands.is_empty());
    assert!(config.contains("dev"));
    config.set_timeout("1h".to_string());
    assert_eq!("1h", config.timeout());
    assert_eq!(2, config.len());
}

#[test]
fn timeout_alone_leaves_the_table_empty() {
    let config = Config::parse("timeout = '10m'").unwrap();
    assert_eq!("10m", config.timeout());
    assert_eq!(0, config.len());
}

#[test]
fn missing_fields_take_their_defaults() {
    let config = Config::parse("[someone]").unwrap();
    assert_eq!("5m", config.timeout());
    let perm = config.get("someone").unwrap();
    assert!(!perm.all);
    assert_eq!(Type::User, perm.ptype);
    assert!(perm.commands.is_empty());
}

#[test]
fn type_is_read_in_either_case_and_under_its_alias() {
    let config = Config::parse("[a]\ntype = 'GROUP'\n[b]\nptype = 'Group'\n[c]\ntype = 'User'").unwrap();
    assert_eq!(Type::Group, config.get("a").unwrap().ptype);
    assert_eq!(Type::Group, config.get("b").unwrap().ptype);
    assert_eq!(Type::User, config.get("c").unwrap().ptype);
}

#[test]
fn commands_keep_their_order() {
    let config = Config::parse("[a]\ncommands = ['/bin/ls', '/bin/cat', '/bin/ls']").unwrap();
    assert_eq!(vec!["/bin/ls", "/bin/cat", "/bin/ls"], config.get("a").unwrap().commands);
}

#[test]
fn parse_errors_by_kind() {
    assert_eq!(Config::parse("[testuser").unwrap_err(), ParseError::Syntax);
    assert_eq!(Config::parse(&"[a]\n".repeat(257)).unwrap_err(), ParseError::Syntax);
    assert_eq!(
        Config::parse(&format!("a = {}", "[".repeat(129))).unwrap_err(),
        ParseError::TooNested
    );
    assert_eq!(
        Config::parse(&format!("a = {}", "[".repeat(128))).unwrap_err(),
        ParseError::Syntax
    );
    assert_eq!(Config::parse("a = 1\na = 2").unwrap_err(), ParseError::Syntax);
    assert_eq!(Config::parse("[a]\nunknown = true").unwrap_err(), ParseError::UnknownField);
    assert_eq!(Config::parse("[a]\ntype = 'user'\nptype = 'group'").unwrap_err(), ParseError::DuplicateKey);
    assert_eq!(Config::parse("timeout = 30").unwrap_err(), ParseError::InvalidValue);
    assert_eq!(Config::parse("someone = true").unwrap_err(), ParseError::InvalidValue);
    assert_eq!(Config::parse("[a]\nall = 'yes'").unwrap_err(), ParseError::InvalidValue);
    assert_eq!(Config::parse("[a]\ntype = 'role'").unwrap_err(), ParseError::InvalidValue);
    assert_eq!(Config::parse("[a]\ntype = 1").unwrap_err(), ParseError::InvalidValue);
    assert_eq!(Config::parse("[a]\ncommands = '/bin/ls'").unwrap_err(), ParseError::InvalidValue);
    assert_eq!(Config::parse("[a]\ncommands = [1, 2]").unwrap_err(), ParseError::InvalidValue);
    assert_eq!(Config::parse("[[a]]\nall = true").unwrap_err(), ParseError::InvalidValue);
    assert_eq!(Config::parse("[timeout]\nall = true").unwrap_err(), ParseError::InvalidValue);
}

#[test]
fn the_first_fault_in_key_order_decides() {
    assert_eq!(
        Config::parse("[a]\nall = 1\n[b]\nunknown = true").unwrap_err(),
        ParseError::InvalidValue
    );
    assert_eq!(
        Config::parse("[b]\nall = 1\n[a]\nunknown = true").unwrap_err(),
        ParseError::UnknownField
    );
}

#[test]
fn document_by_hand() {
    let doc = Item::Table(vec![
        ("ops".to_string(), Item::Table(vec![
            ("all".to_string(), Item::Bool(true)),
            ("type".to_string(), Item::Str("group".to_string())),
        ])),
        ("timeout".to_string(), Item::Str("2m".to_string())),
    ]);
    let config = Config::from_document(&doc).unwrap();
    assert_eq!("2m", config.timeout());
    assert_eq!(1, config.len());
    assert!(config.get("ops").unwrap().all);
    assert_eq!(Type::Group, config.get("ops").unwrap().ptype);
}

#[test]
fn document_by_hand_faults() {
    assert_eq!(Config::from_document(&Item::Bool(true)).unwrap_err(), ParseError::InvalidValue);
    assert_eq!(Config::from_document(&Item::Array(vec![])).unwrap_err(), ParseError::InvalidValue);
    let twice = Item::Table(vec![
        ("a".to_string(), Item::Table(vec![])),
        ("a".to_string(), Item::Table(vec![])),
    ]);
    assert_eq!(Config::from_document(&twice).unwrap_err(), ParseError::DuplicateKey);
    let timeouts = Item::Table(vec![
        ("timeout".to_string(), Item::Str("1m".to_string())),
        ("timeout".to_string(), Item::Str("2m".to_string())),
    ]);
    assert_eq!(Config::from_document(&timeouts).unwrap_err(), ParseError::DuplicateKey);
    let all_twice = Item::Table(vec![
        ("all".to_string(), Item::Bool(true)),
        ("all".to_string(), Item::Bool(true)),
    ]);
    assert_eq!(Perm::from_document(&all_twice).unwrap_err(), ParseError::DuplicateKey);
    let commands_twice = Item::Table(vec![
        ("commands".to_string(), Item::Array(vec![])),
        ("commands".to_string(), Item::Array(vec![])),
    ]);
    assert_eq!(Perm::from_document(&commands_twice).unwrap_err(), ParseError::DuplicateKey);
    assert_eq!(Perm::from_document(&Item::Int(3)).unwrap_err(), ParseError::InvalidValue);
    let odd = Item::Table(vec![("commands".to_string(), Item::Array(vec![Item::Real]))]);
    assert_eq!(Perm::from_document(&odd).unwrap_err(), ParseError::InvalidValue);
    let dated = Item::Table(vec![("all".to_string(), Item::Datetime)]);
    assert_eq!(Perm::from_document(&dated).unwrap_err(), ParseError::InvalidValue);
}

#[test]
fn empty_document_is_the_default_configuration() {
    let config = Config::from_document(&Item::Table(vec![])).unwrap();
    assert_eq!("5m", config.timeout());
    assert_eq!(0, config.len());
}
