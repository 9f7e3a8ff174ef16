//! Texts, hashes, JSON and ordered collections.
use scanner_core::hash::{content_hash, domain_hash, sha256_hex, StreamHash};
use scanner_core::json::JsonWriter;
use scanner_core::ordered::{is_before, TextIndex, TextMap, TextSet};
use scanner_core::text::{
    byte_len, char_count, find_word, hex_bytes, is_sha256, is_within, read_u64, take_chars,
    text_eq, to_chars, u64_text,
};

#[test]
fn hashes_are_sha256() {
    let abc = "ba7816bf8f01cfea414140de5dae2223b00361a396177a9cb410ff61f20015ad";
    assert_eq!(sha256_hex(b"abc"), abc);
    assert_eq!(content_hash("abc"), abc);
    assert_eq!(domain_hash(b"a", b"bc"), abc);
    let mut stream = StreamHash::new();
    stream.feed(b"ab");
    stream.feed(b"c");
    assert_eq!(stream.finish(), abc);
}

#[test]
fn json_is_escaped() {
    let mut writer = JsonWriter::new();
    writer.raw("[");
    writer.text("a\"b\\c\n\u{1}é");
    writer.raw(",");
    writer.number(u64::MAX);
    writer.raw(",");
    writer.boolean(true);
    writer.raw("]");
    let json = writer.finish();
    assert_eq!(
        json,
        "[\"a\\\"b\\\\c\\n\\u0001é\",18446744073709551615,true]"
    );
    let value: serde_json::Value = serde_json::from_str(&json).unwrap();
    assert_eq!(value[0], "a\"b\\c\n\u{1}é");
}

#[test]
fn texts_are_measured_in_characters_and_bytes() {
    assert_eq!(char_count("né"), 2);
    assert_eq!(byte_len("né"), 3);
    assert_eq!(take_chars("né!", 2), "né");
    assert_eq!(take_chars("né", 9), "né");
    assert!(is_within("né", 2));
    assert!(!is_within("né", 1));
    assert!(!is_within("", 1));
    assert!(text_eq("né", "né"));
    assert!(!text_eq("né", "ne"));
    assert_eq!(
        find_word(&to_chars("a:size=b:size=c"), &to_chars(":size="), 0),
        Some(1)
    );
    assert_eq!(find_word(&to_chars("abc"), &to_chars("x"), 0), None);
}

#[test]
fn numbers_are_decimal() {
    assert_eq!(u64_text(0), "0");
    assert_eq!(u64_text(u64::MAX), "18446744073709551615");
    let read = |text: &str| {
        let chars = to_chars(text);
        let end = chars.len();
        read_u64(&chars, 0, end)
    };
    assert_eq!(read("18446744073709551615"), Some(u64::MAX));
    assert_eq!(read("18446744073709551616"), None);
    assert_eq!(read("007"), Some(7));
    assert_eq!(read(""), None);
    assert_eq!(read("1x"), None);
}

#[test]
fn bytes_are_hexadecimal() {
    assert_eq!(hex_bytes(&[0, 15, 171, 255]), "000fabff");
    assert!(is_sha256(&"a0".repeat(32)));
    assert!(!is_sha256(&"A0".repeat(32)));
    assert!(!is_sha256(&"a".repeat(63)));
}

#[test]
fn texts_are_ordered_like_strings() {
    let texts = ["", "a", "a\0", "ab", "b", "é", "漢"];
    for left in texts {
        for right in texts {
            assert_eq!(is_before(left, right), left < right, "{left:?} {right:?}");
        }
    }
}

#[test]
fn maps_and_sets_keep_one_entry_per_text() {
    let mut map = TextMap::new();
    for (key, value) in [("b", 1), ("a", 2), ("c", 3), ("b", 4)] {
        map.insert(key.to_string(), value);
    }
    assert_eq!(map.len(), 3);
    assert_eq!(map.get("b"), Some(&4));
    assert_eq!(map.get("d"), None);
    assert!(map.contains("c"));

    let mut set = TextSet::new();
    set.insert("x".to_string());
    set.insert("x".to_string());
    assert_eq!(set.len(), 1);
    assert!(set.contains("x") && !set.contains("y"));

    let mut index = TextIndex::new();
    assert!(index.add_at("first", 0));
    assert!(index.add_at("second", 1));
    assert_eq!(index.get("second"), Some(1));
    assert!(!index.add_at("first", 2));
}
