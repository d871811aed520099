//! Unit tests for the JSON parser and encoder.

use todo_service::json_encode::{encode_todo, encode_todos};
use todo_service::json_parse::parse_create;
use todo_service::todo::Todo;

fn parse(s: &str) -> Option<Vec<u8>> {
    parse_create(s.as_bytes())
}

#[test]
fn plain_title_parses() {
    assert_eq!(parse("{\"title\":\"buy milk\"}"), Some(b"buy milk".to_vec()));
}

#[test]
fn whitespace_around_everything_is_allowed() {
    assert_eq!(
        parse(" \t\r\n { \"title\" : \"x\" } \n"),
        Some(b"x".to_vec())
    );
}

#[test]
fn unknown_members_are_skipped() {
    assert_eq!(
        parse("{\"done\":false,\"title\":\"x\",\"n\":-1.5e+10,\"a\":[1,\"s\",null,{\"k\":{}}]}"),
        Some(b"x".to_vec())
    );
}

#[test]
fn escapes_are_decoded() {
    assert_eq!(
        parse("{\"title\":\"a\\\"b\\\\c\\/d\\n\\t\\r\\b\\f\"}"),
        Some(b"a\"b\\c/d\n\t\r\x08\x0c".to_vec())
    );
}

#[test]
fn unicode_escapes_become_utf8() {
    assert_eq!(
        parse("{\"title\":\"\\u0041\\u00e9\\u20ac\"}"),
        Some(vec![0x41, 0xC3, 0xA9, 0xE2, 0x82, 0xAC])
    );
}

#[test]
fn surrogate_pairs_are_combined() {
    assert_eq!(
        parse("{\"title\":\"\\uD83D\\uDE00\"}"),
        Some(vec![0xF0, 0x9F, 0x98, 0x80])
    );
}

#[test]
fn escaped_key_still_names_title() {
    assert_eq!(parse("{\"ti\\u0074le\":\"x\"}"), Some(b"x".to_vec()));
}

#[test]
fn malformed_bodies_are_rejected() {
    assert_eq!(parse(""), None);
    assert_eq!(parse("{"), None);
    assert_eq!(parse("{}"), None);
    assert_eq!(parse("[1]"), None);
    assert_eq!(parse("\"title\""), None);
    assert_eq!(parse("{\"title\":\"a\"} x"), None);
    assert_eq!(parse("{\"title\":\"a\",}"), None);
    assert_eq!(parse("{\"title\":\"a\" \"b\":1}"), None);
    assert_eq!(parse("{\"title\":\"unterminated}"), None);
    assert_eq!(parse("{\"title\":\"bad\\x\"}"), None);
    assert_eq!(parse("{\"title\":\"\\uD83D\"}"), None);
    assert_eq!(parse("{\"title\":\"\\uDE00\"}"), None);
    assert_eq!(parse("{\"title\":\"a\",\"title\":\"b\"}"), None);
    assert_eq!(parse("{\"n\":01,\"title\":\"a\"}"), None);
    assert_eq!(parse("{\"n\":1.,\"title\":\"a\"}"), None);
    assert_eq!(parse("{\"n\":+1,\"title\":\"a\"}"), None);
    assert_eq!(parse("{\"title\":\"a\""), None);
    let control = vec![b'{', b'"', b't', b'i', b't', b'l', b'e', b'"', b':', b'"', 0x01, b'"', b'}'];
    assert_eq!(parse_create(&control), None);
}

#[test]
fn number_forms_in_skipped_members() {
    assert_eq!(parse("{\"n\":0,\"title\":\"a\"}"), Some(b"a".to_vec()));
    assert_eq!(parse("{\"n\":-0.25,\"title\":\"a\"}"), Some(b"a".to_vec()));
    assert_eq!(parse("{\"n\":12e-4,\"title\":\"a\"}"), Some(b"a".to_vec()));
    assert_eq!(parse("{\"n\":3E8,\"title\":\"a\"}"), Some(b"a".to_vec()));
}

#[test]
fn encode_escapes_and_layout_are_exact() {
    let t = Todo {
        id: b"abc-1".to_vec(),
        title: b"he\"llo\\ \n".to_vec(),
        completed: false,
    };
    assert_eq!(
        encode_todo(&t),
        b"{\"id\":\"abc-1\",\"title\":\"he\\\"llo\\\\ \\n\",\"completed\":false}".to_vec()
    );
}

#[test]
fn encode_control_bytes_as_hex_escapes() {
    let t = Todo { id: b"i".to_vec(), title: vec![0x01, 0x1F], completed: true };
    assert_eq!(
        encode_todo(&t),
        b"{\"id\":\"i\",\"title\":\"\\u0001\\u001f\",\"completed\":true}".to_vec()
    );
}

#[test]
fn encode_list_joins_with_commas() {
    let a = Todo { id: b"1".to_vec(), title: b"a".to_vec(), completed: false };
    let b = Todo { id: b"2".to_vec(), title: b"b".to_vec(), completed: false };
    let items = vec![a, b];
    assert_eq!(
        encode_todos(&items),
        b"[{\"id\":\"1\",\"title\":\"a\",\"completed\":false},{\"id\":\"2\",\"title\":\"b\",\"completed\":false}]".to_vec()
    );
}

#[test]
fn parse_then_encode_round_trips_the_title_text() {
    let title = parse("{\"title\":\"caf\\u00e9 \\\"x\\\"\"}").unwrap();
    let t = Todo { id: b"id".to_vec(), title, completed: false };
    let enc = encode_todo(&t);
    let enc_str = String::from_utf8(enc).unwrap();
    assert!(enc_str.contains("caf\u{e9} \\\"x\\\""));
}
