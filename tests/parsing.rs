use bot_core::command::Command;
use bot_core::metadata::{Version, VersionError};
use bot_core::parsers::{parse_perm_arg, parse_permission, parse_uid, parse_uid_perm, ParseError};
use bot_core::permission::Permission;

fn args(c: &Command) -> Vec<&str> {
    c.args.iter().map(|s| s.as_str()).collect()
}

#[test]
fn parse_simple_command() {
    let c = Command::with_prefix("/cmd a b", '/').unwrap();
    assert_eq!(c.prefix, '/');
    assert_eq!(c.name, "cmd");
    assert_eq!(args(&c), vec!["a", "b"]);
}

#[test]
fn parse_missing_prefix() {
    assert!(Command::with_prefix("cmd a b", '/').is_none());
}

#[test]
fn parse_quoted_span_is_one_token() {
    let c = Command::with_prefix("/cmd \"a b\" c", '/').unwrap();
    assert_eq!(c.name, "cmd");
    assert_eq!(args(&c), vec!["a b", "c"]);
}

#[test]
fn parse_prefix_alone_is_no_command() {
    assert!(Command::with_prefix("/", '/').is_none());
    assert!(Command::with_prefix("/   ", '/').is_none());
    assert!(Command::with_prefix("/\"\"", '/').is_none());
}

#[test]
fn parse_collapses_spaces() {
    let c = Command::with_prefix("/cmd   a", '/').unwrap();
    assert_eq!(c.name, "cmd");
    assert_eq!(args(&c), vec!["a"]);
}

#[test]
fn parse_empty_text() {
    assert!(Command::with_prefix("", '/').is_none());
}

#[test]
fn parse_unbalanced_quote_keeps_rest() {
    let c = Command::with_prefix("/say \"hello world", '/').unwrap();
    assert_eq!(c.name, "say");
    assert_eq!(args(&c), vec!["hello world"]);
}

#[test]
fn parse_quotes_inside_a_token_are_dropped() {
    let c = Command::with_prefix("/x a\"b c\"d \"\" e", '/').unwrap();
    assert_eq!(args(&c), vec!["ab cd", "e"]);
}

#[test]
fn parse_only_space_separates() {
    let c = Command::with_prefix("/x a\tb", '/').unwrap();
    assert_eq!(args(&c), vec!["a\tb"]);
}

#[test]
fn parse_non_ascii() {
    let c = Command::with_prefix("§héllo wörld", '§').unwrap();
    assert_eq!(c.prefix, '§');
    assert_eq!(c.name, "héllo");
    assert_eq!(args(&c), vec!["wörld"]);
}

#[test]
fn parse_any_uses_first_character() {
    let allowed = ['!', '/'];
    let c = Command::with_prefixes("!cmd", &allowed).unwrap();
    assert_eq!(c.prefix, '!');
    assert_eq!(c.name, "cmd");
    assert!(c.args.is_empty());
    assert!(Command::with_prefixes("#cmd", &allowed).is_none());
    assert!(Command::with_prefixes("", &allowed).is_none());
    assert!(Command::with_prefixes(" /cmd", &allowed).is_none());
    assert!(Command::with_prefixes("!", &allowed).is_none());
}

#[test]
fn permission_names() {
    assert_eq!(parse_permission("user").unwrap().bits(), 1);
    assert_eq!(parse_permission("ADMIN").unwrap().bits(), 2);
    assert_eq!(parse_permission("  Owner ").unwrap().bits(), 4);
    assert_eq!(parse_permission("user|admin").unwrap().bits(), 3);
    assert_eq!(parse_permission("user | owner |admin").unwrap().bits(), 7);
}

#[test]
fn permission_empty_is_an_error() {
    assert_eq!(parse_permission(""), Err(ParseError::EmptyPermission));
    assert_eq!(parse_permission("   "), Err(ParseError::EmptyPermission));
}

#[test]
fn permission_unknown_word() {
    assert_eq!(
        parse_permission("user|guest|root"),
        Err(ParseError::UnknownPermission("GUEST".to_string()))
    );
    assert_eq!(
        parse_permission("user|"),
        Err(ParseError::UnknownPermission(String::new()))
    );
}

#[test]
fn user_ids() {
    assert_eq!(parse_uid("42"), Ok(42));
    assert_eq!(parse_uid("+7"), Ok(7));
    assert_eq!(parse_uid("18446744073709551615"), Ok(u64::MAX));
    assert_eq!(
        parse_uid("18446744073709551616"),
        Err(ParseError::InvalidUserId("18446744073709551616".to_string()))
    );
    assert_eq!(parse_uid("-1"), Err(ParseError::InvalidUserId("-1".to_string())));
    assert_eq!(parse_uid("+"), Err(ParseError::InvalidUserId("+".to_string())));
    assert_eq!(parse_uid(""), Err(ParseError::InvalidUserId(String::new())));
    assert_eq!(parse_uid(" 1"), Err(ParseError::InvalidUserId(" 1".to_string())));
}

#[test]
fn user_id_and_permission() {
    let (uid, perm) = parse_uid_perm("  42   admin|user ").unwrap();
    assert_eq!(uid, 42);
    assert_eq!(perm.bits(), 3);
    assert_eq!(
        parse_uid_perm("42"),
        Err(ParseError::InvalidEntry("42".to_string()))
    );
    assert_eq!(
        parse_uid_perm("1 2 3"),
        Err(ParseError::InvalidEntry("1 2 3".to_string()))
    );
    assert_eq!(
        parse_uid_perm("x admin"),
        Err(ParseError::InvalidUserId("x".to_string()))
    );
    assert_eq!(
        parse_uid_perm("5 boss"),
        Err(ParseError::UnknownPermission("BOSS".to_string()))
    );
}

#[test]
fn permission_map_argument() {
    let m = parse_perm_arg("9 owner").unwrap();
    assert_eq!(m.len(), 1);
    assert_eq!(m.get(9).map(|p| p.bits()), Some(4));
    assert!(parse_perm_arg("9").is_err());
}

#[test]
fn versions() {
    let v = Version::from_str("1.22.333").unwrap();
    assert_eq!((v.major, v.minor, v.patch), (1, 22, 333));
    assert_eq!(Version::from_str("1.2"), Err(VersionError::PartCount));
    assert_eq!(Version::from_str("1.2.3.4"), Err(VersionError::PartCount));
    assert_eq!(Version::from_str("a.2.3"), Err(VersionError::Major));
    assert_eq!(Version::from_str("1..3"), Err(VersionError::Minor));
    assert_eq!(Version::from_str("1.2.x"), Err(VersionError::Patch));
}

#[test]
fn permission_masks_from_bits() {
    assert_eq!(Permission::from_bits_truncate(0xff).bits(), 7);
    assert_eq!(Permission::from_bits_truncate(8).bits(), 0);
}

#[test]
fn upper_cased_role_names() {
    use_upper();
}

fn use_upper() {
    let names = |v: &[&str]| v.iter().map(|s| s.to_string()).collect::<Vec<String>>();
    assert_eq!(bot_core::parsers::mask_of_upper(&names(&[" USER", "ADMIN "])).unwrap().bits(), 3);
    assert_eq!(bot_core::parsers::mask_of_upper(&names(&[])).unwrap().bits(), 0);
    assert_eq!(
        bot_core::parsers::mask_of_upper(&names(&["OWNER", "user"])),
        Err(ParseError::UnknownPermission("user".to_string()))
    );
    assert_eq!(parse_permission(" user|Admin ").unwrap().bits(), 3);
}
