use gif_service::text::{parse_seconds, replace_escapes, wait_message};

#[test]
fn replace_single_escape() {
    let out = replace_escapes(&b"hello%20world".to_vec());
    assert_eq!(out, b"hello world".to_vec());
}

#[test]
fn replace_without_escape_is_identity() {
    let out = replace_escapes(&b"hello".to_vec());
    assert_eq!(out, b"hello".to_vec());
    let out = replace_escapes(&b"a%2".to_vec());
    assert_eq!(out, b"a%2".to_vec());
    let out = replace_escapes(&b"".to_vec());
    assert_eq!(out, b"".to_vec());
}

#[test]
fn replace_multiple_and_adjacent_escapes() {
    let out = replace_escapes(&b"%20%20".to_vec());
    assert_eq!(out, b"  ".to_vec());
    let out = replace_escapes(&b"%2020".to_vec());
    assert_eq!(out, b" 20".to_vec());
    let out = replace_escapes(&b"a%20b%20c".to_vec());
    assert_eq!(out, b"a b c".to_vec());
}

#[test]
fn wait_message_exact() {
    assert_eq!(wait_message(5), b"I waited 5 seconds!".to_vec());
    assert_eq!(wait_message(0), b"I waited 0 seconds!".to_vec());
    assert_eq!(wait_message(255), b"I waited 255 seconds!".to_vec());
    assert_eq!(wait_message(10), b"I waited 10 seconds!".to_vec());
}

#[test]
fn seconds_parse() {
    assert_eq!(parse_seconds(&b"42".to_vec()), Some(42));
    assert_eq!(parse_seconds(&b"0".to_vec()), Some(0));
    assert_eq!(parse_seconds(&b"255".to_vec()), Some(255));
    assert_eq!(parse_seconds(&b"00042".to_vec()), Some(42));
    assert_eq!(parse_seconds(&b"256".to_vec()), None);
    assert_eq!(parse_seconds(&b"99999999999999999999".to_vec()), None);
    assert_eq!(parse_seconds(&b"".to_vec()), None);
    assert_eq!(parse_seconds(&b"4x2".to_vec()), None);
    assert_eq!(parse_seconds(&b"+5".to_vec()), None);
}
