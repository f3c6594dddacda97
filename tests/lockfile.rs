use irelia::lockfile::{parse_lock_file, LOCK_FILE_NAME};
use irelia::Error;

#[test]
fn parses_port_and_token() {
    let (port, token) = parse_lock_file("LeagueClient:1234:2999:abcDEF123:https").unwrap();
    assert_eq!(port, "2999");
    assert_eq!(token, "abcDEF123");
}

#[test]
fn two_fields_lack_the_port() {
    assert_eq!(parse_lock_file("LeagueClient:1234"), Err(Error::PortNotFound));
}

#[test]
fn three_fields_lack_the_token() {
    assert_eq!(parse_lock_file("LeagueClient:1234:2999"), Err(Error::AuthTokenNotFound));
}

#[test]
fn empty_file_lacks_the_port() {
    assert_eq!(parse_lock_file(""), Err(Error::PortNotFound));
}

#[test]
fn four_fields_are_enough() {
    let (port, token) = parse_lock_file("a:1:80:t").unwrap();
    assert_eq!(port, "80");
    assert_eq!(token, "t");
}

#[test]
fn empty_fields_are_kept() {
    let (port, token) = parse_lock_file("::::").unwrap();
    assert_eq!(port, "");
    assert_eq!(token, "");
}

#[test]
fn trailing_fields_are_ignored() {
    let (port, token) = parse_lock_file("x:1:443:tok:https:extra\n").unwrap();
    assert_eq!(port, "443");
    assert_eq!(token, "tok");
}

#[test]
fn lock_file_name() {
    assert_eq!(LOCK_FILE_NAME, "lockfile");
}
