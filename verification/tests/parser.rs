use kvstore::Command;

#[test]
fn parses_get() {
    match Command::from_str("GET foo") {
        Command::Get(k) => assert_eq!(k, "foo"),
        _ => panic!("expected GET"),
    }
}

#[test]
fn parses_set() {
    match Command::from_str("SET foo bar") {
        Command::Put(k, v) => {
            assert_eq!(k, "foo");
            assert_eq!(v, "bar");
        }
        _ => panic!("expected SET"),
    }
}

#[test]
fn parses_del() {
    match Command::from_str("DEL foo") {
        Command::Del(k) => assert_eq!(k, "foo"),
        _ => panic!("expected DEL"),
    }
}

#[test]
fn parses_exists() {
    match Command::from_str("EXISTS foo") {
        Command::Exists(k) => assert_eq!(k, "foo"),
        _ => panic!("expected EXISTS"),
    }
}

#[test]
fn parses_ping() {
    assert!(matches!(Command::from_str("PING"), Command::Ping));
}

#[test]
fn trims_terminator_and_extra_whitespace() {
    match Command::from_str("  GET \t foo\r\n") {
        Command::Get(k) => assert_eq!(k, "foo"),
        _ => panic!("expected GET"),
    }
}

#[test]
fn empty_line_is_unknown() {
    assert!(matches!(Command::from_str(""), Command::Unknown(_)));
}

#[test]
fn blank_line_is_unknown() {
    assert!(matches!(Command::from_str(" \t \r\n"), Command::Unknown(_)));
}

#[test]
fn unknown_verb_is_unknown() {
    assert!(matches!(Command::from_str("FOO"), Command::Unknown(_)));
    assert!(matches!(Command::from_str("FOO bar"), Command::Unknown(_)));
}

#[test]
fn verbs_are_case_sensitive() {
    assert!(matches!(Command::from_str("get foo"), Command::Unknown(_)));
    assert!(matches!(Command::from_str("Ping"), Command::Unknown(_)));
}

#[test]
fn wrong_arity_is_unknown() {
    assert!(matches!(Command::from_str("GET"), Command::Unknown(_)));
    assert!(matches!(Command::from_str("GET a b"), Command::Unknown(_)));
    assert!(matches!(Command::from_str("SET a"), Command::Unknown(_)));
    assert!(matches!(Command::from_str("SET a b c"), Command::Unknown(_)));
    assert!(matches!(Command::from_str("DEL"), Command::Unknown(_)));
    assert!(matches!(Command::from_str("EXISTS a b"), Command::Unknown(_)));
    assert!(matches!(Command::from_str("PING now"), Command::Unknown(_)));
}

#[test]
fn unknown_carries_original_line() {
    match Command::from_str("FOO bar\n") {
        Command::Unknown(line) => assert_eq!(line, "FOO bar\n"),
        _ => panic!("expected Unknown"),
    }
}

#[test]
fn values_with_spaces_are_not_representable() {
    // A value is exactly one whitespace-delimited token; more tokens make
    // the line unrecognized rather than a SET of a spaced value.
    assert!(matches!(Command::from_str("SET k a b"), Command::Unknown(_)));
}

#[test]
fn non_ascii_tokens_parse() {
    match Command::from_str("SET clé välúe") {
        Command::Put(k, v) => {
            assert_eq!(k, "clé");
            assert_eq!(v, "välúe");
        }
        _ => panic!("expected SET"),
    }
}
