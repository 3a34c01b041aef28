use fe::{fnv1a64_hex, json_escape};

#[test]
fn json_escape_handles_control_characters() {
    assert_eq!(json_escape("a\nb\x01c"), "a\\nb\\u0001c");
}

#[test]
fn fnv_hash_is_stable_for_cache_keys() {
    assert_eq!(fnv1a64_hex(b"fe"), "08985f07b541dd74");
}

#[test]
fn json_escape_handles_path_text() {
    assert_eq!(json_escape(r#"a\b"c"#), r#"a\\b\"c"#);
}

#[test]
fn fnv_hash_of_nothing_is_the_offset_basis() {
    assert_eq!(fnv1a64_hex(b""), "cbf29ce484222325");
    assert_eq!(fnv1a64_hex(b"a"), "af63dc4c8601ec8c");
}

#[test]
fn fnv_keys_are_sixteen_lowercase_hex_digits() {
    for input in [&b""[..], b"fe", b"v=3\nargv=search\0alpha\0", &[0xff; 40]] {
        let key = fnv1a64_hex(input);
        assert_eq!(key.len(), 16);
        assert!(key.chars().all(|c| c.is_ascii_digit() || ('a'..='f').contains(&c)));
    }
}

#[test]
fn json_escape_covers_every_short_escape() {
    assert_eq!(json_escape("\r\t\"\\"), "\\r\\t\\\"\\\\");
    assert_eq!(json_escape("\x00\x1f\x7f"), "\\u0000\\u001f\x7f");
    assert_eq!(json_escape("héllo ✓"), "héllo ✓");
    assert_eq!(json_escape(""), "");
}

#[test]
fn json_escape_output_has_no_control_characters() {
    let all_controls: String = (0u8..0x20).map(|b| b as char).collect();
    let escaped = json_escape(&all_controls);
    assert!(escaped.chars().all(|c| (c as u32) >= 0x20));
    assert_eq!(escaped.matches("\\u").count(), 32 - 3);
}
