use oxidize::bytes::{c_string, decode, decode_lossy, encodes};
use oxidize::json::{array_of, list_to_json, string_to_json};

/// The escaping rule, written out once more.
fn expected_json(text: &str) -> String {
    let mut json = String::from("\"");
    for c in text.chars() {
        match c {
            '"' => json.push_str("\\\""),
            '\\' => json.push_str("\\\\"),
            '\u{8}' => json.push_str("\\b"),
            '\t' => json.push_str("\\t"),
            '\n' => json.push_str("\\n"),
            '\u{c}' => json.push_str("\\f"),
            '\r' => json.push_str("\\r"),
            c if (c as u32) < 0x20 => json.push_str(&format!("\\u{:04x}", c as u32)),
            c => json.push(c),
        }
    }
    json.push('"');
    json
}

#[test]
fn every_character_is_escaped_as_stated() {
    for n in 0..=0x10ffff_u32 {
        if let Some(c) = char::from_u32(n) {
            let text = format!("a{c}b");
            assert_eq!(string_to_json(&text), expected_json(&text), "{n:x}");
        }
    }
}

#[test]
fn strings_are_quoted() {
    assert_eq!(string_to_json(""), "\"\"");
    assert_eq!(string_to_json("C:\\plugins\\\"My\".cs"), "\"C:\\\\plugins\\\\\\\"My\\\".cs\"");
    assert_eq!(string_to_json("\0"), "\"\\u0000\"");
    assert_eq!(string_to_json("\u{7f}é"), "\"\u{7f}é\"");
}

#[test]
fn lists_agree_with_serde_json() {
    for list in [vec![], vec!["a".to_string()], vec!["a".to_string(), "\"\n".to_string(), String::new()]] {
        assert_eq!(list_to_json(&list), serde_json::to_string(&list).unwrap());
    }
}

#[test]
fn arrays_take_their_items_as_they_are() {
    assert_eq!(array_of(&vec![]), "[]");
    assert_eq!(array_of(&vec!["1".to_string(), "{}".to_string()]), "[1,{}]");
}

#[test]
fn json_strings_are_read_back() {
    for text in ["", "plain", "\"quoted\"", "\u{1}\u{1f}\u{8}\u{c}", "日本\\"] {
        let back: String = serde_json::from_str(&string_to_json(text)).unwrap();
        assert_eq!(back, text);
    }
}

#[test]
fn decoding_accepts_just_utf8() {
    assert_eq!(decode("grüße".as_bytes()), Ok("grüße".to_string()));
    assert_eq!(decode(b""), Ok(String::new()));
    for bytes in [&b"\xff"[..], b"a\xc3", b"\xed\xa0\x80", b"ok\x80"] {
        let expected = std::str::from_utf8(bytes).unwrap_err().to_string();
        assert_eq!(decode(bytes), Err(expected));
    }
}

#[test]
fn lossy_decoding_puts_in_replacements() {
    assert_eq!(decode_lossy("8.0 ü".as_bytes()), "8.0 ü");
    assert_eq!(decode_lossy(b"8\xff0"), "8\u{fffd}0");
}

#[test]
fn c_strings_end_in_their_only_zero() {
    assert_eq!(c_string("aü"), vec![b'a', 0xc3, 0xbc, 0]);
    assert_eq!(c_string(""), vec![0]);
}

#[test]
fn encodings_are_told_apart() {
    assert!(encodes("dll".as_bytes(), "dll"));
    assert!(!encodes(b"dl", "dll"));
    assert!(!encodes(b"dlx", "dll"));
}
