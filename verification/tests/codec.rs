use automerge_doc::error::Error;
use automerge_doc::ident::{get_heads, ChangeHash, ObjectId};
use automerge_doc::pathtext::{parse_index, render_index, split_text};

#[test]
fn change_hash_round_trip() {
    let text = "00112233445566778899aabbccddeeff00112233445566778899aabbccddeeff";
    let hash = ChangeHash::parse(text).unwrap();
    assert_eq!(hash.bytes[0], 0x00);
    assert_eq!(hash.bytes[1], 0x11);
    assert_eq!(hash.bytes[31], 0xff);
    assert_eq!(hash.to_hex(), text);
}

#[test]
fn change_hash_accepts_upper_case() {
    let hash = ChangeHash::parse(
        "00112233445566778899AABBCCDDEEFF00112233445566778899aabbccddeeff",
    )
    .unwrap();
    assert_eq!(hash.bytes[10], 0xaa);
    assert_eq!(
        hash.to_hex(),
        "00112233445566778899aabbccddeeff00112233445566778899aabbccddeeff"
    );
}

#[test]
fn change_hash_wrong_length_is_malformed() {
    assert_eq!(ChangeHash::parse("0011"), Err(Error::MalformedIdentifier));
    assert_eq!(ChangeHash::parse(""), Err(Error::MalformedIdentifier));
}

#[test]
fn change_hash_bad_hex_is_malformed() {
    let text = "zz112233445566778899aabbccddeeff00112233445566778899aabbccddeeff";
    assert_eq!(ChangeHash::parse(text), Err(Error::MalformedIdentifier));
    assert_eq!(ChangeHash::parse("abc"), Err(Error::MalformedIdentifier));
}

#[test]
fn heads_absent_are_empty() {
    assert_eq!(get_heads(None), Ok(vec![]));
    assert_eq!(get_heads(Some(vec![])), Ok(vec![]));
}

#[test]
fn heads_are_parsed_in_order() {
    let a = "00".repeat(32);
    let b = "ff".repeat(32);
    let heads = get_heads(Some(vec![a.clone(), b.clone()])).unwrap();
    assert_eq!(heads.len(), 2);
    assert_eq!(heads[0].to_hex(), a);
    assert_eq!(heads[1].to_hex(), b);
}

#[test]
fn heads_with_one_bad_hash_are_malformed() {
    let a = "00".repeat(32);
    assert_eq!(
        get_heads(Some(vec![a, "nope".to_string()])),
        Err(Error::MalformedIdentifier)
    );
}

#[test]
fn root_identifier_is_one_zero_byte() {
    let root = ObjectId::root();
    assert!(root.is_root());
    assert_eq!(root.to_bytes(), vec![0u8]);
    assert_eq!(root.to_hex(), "00");
}

#[test]
fn object_id_round_trip() {
    let root = ObjectId::parse("00").unwrap();
    assert!(root.is_root());
    assert_eq!(root.duplicate().to_hex(), "00");
}

#[test]
fn object_id_bad_input_is_malformed() {
    assert!(matches!(ObjectId::parse("0"), Err(Error::MalformedIdentifier)));
    assert!(matches!(ObjectId::parse("xyz"), Err(Error::MalformedIdentifier)));
    assert!(matches!(ObjectId::parse(""), Err(Error::MalformedIdentifier)));
    // version nibble other than zero
    assert!(matches!(ObjectId::parse("01"), Err(Error::MalformedIdentifier)));
    // unknown type nibble
    assert!(matches!(ObjectId::parse("20"), Err(Error::MalformedIdentifier)));
}

#[test]
fn path_components() {
    assert_eq!(split_text(""), vec![""]);
    assert_eq!(split_text("/"), vec!["", ""]);
    assert_eq!(split_text("/a/b"), vec!["", "a", "b"]);
    assert_eq!(split_text("1@ab/x/"), vec!["1@ab", "x", ""]);
    assert_eq!(split_text("a//b"), vec!["a", "", "b"]);
    assert_eq!(split_text("/ключ/é"), vec!["", "ключ", "é"]);
}

#[test]
fn positions_are_decimal() {
    assert_eq!(parse_index("0"), Some(0));
    assert_eq!(parse_index("42"), Some(42));
    assert_eq!(parse_index("+7"), Some(7));
    assert_eq!(parse_index("007"), Some(7));
    assert_eq!(parse_index("4294967295"), Some(u32::MAX));
    assert_eq!(parse_index("4294967296"), None);
    assert_eq!(parse_index("99999999999999999999999"), None);
    assert_eq!(parse_index(""), None);
    assert_eq!(parse_index("+"), None);
    assert_eq!(parse_index("-1"), None);
    assert_eq!(parse_index("1a"), None);
    assert_eq!(parse_index(" 1"), None);
}

#[test]
fn positions_render_and_read_back() {
    assert_eq!(render_index(0), "0");
    assert_eq!(render_index(7), "7");
    assert_eq!(render_index(10), "10");
    assert_eq!(render_index(1203), "1203");
    assert_eq!(render_index(4294967295), "4294967295");
    assert_eq!(render_index(u64::MAX), "18446744073709551615");
    for n in [0u32, 1, 9, 10, 99, 100, 65535, u32::MAX] {
        assert_eq!(parse_index(&render_index(u64::from(n))), Some(n));
    }
}
