use rustsmb_server::helpers::strings::{
    decode_utf16le, extract_share_name, has_prefix, join_path, parse_utf16_string, put_utf16,
    utf16_len,
};

#[test]
fn test_parse_utf16_string_basic() {
    // "test" in UTF-16LE
    let bytes = [b't', 0, b'e', 0, b's', 0, b't', 0];
    let result = parse_utf16_string(&bytes);
    assert_eq!(result, "test", "Basic ASCII string");
}

#[test]
fn test_parse_utf16_string_with_null() {
    // "hi" with null terminator and garbage after
    let bytes = [b'h', 0, b'i', 0, 0, 0, b'x', 0, b'y', 0];
    let result = parse_utf16_string(&bytes);
    assert_eq!(result, "hi", "Should stop at null terminator");
}

#[test]
fn test_parse_utf16_string_empty() {
    // Empty string
    let bytes: [u8; 0] = [];
    let result = parse_utf16_string(&bytes);
    assert_eq!(result, "", "Empty input should return empty string");
}

#[test]
fn test_parse_utf16_string_unicode() {
    // "日" (Japanese "day") in UTF-16LE: 0x65E5
    let bytes = [0xE5, 0x65];
    let result = parse_utf16_string(&bytes);
    assert_eq!(result, "日", "Unicode character should parse correctly");
}

#[test]
fn test_extract_share_name_basic() {
    assert_eq!(extract_share_name(r"\\server\share"), "share");
    assert_eq!(extract_share_name(r"\\server\share\path"), "share");
    assert_eq!(extract_share_name(r"\\server\share\path\file"), "share");
}

#[test]
fn test_extract_share_name_no_server() {
    // Edge case: just share name
    assert_eq!(extract_share_name("share"), "share");
}

#[test]
fn test_decode_utf16le_basic() {
    // "test" in UTF-16LE
    let bytes = [b't', 0, b'e', 0, b's', 0, b't', 0];
    let result = decode_utf16le(&bytes);
    assert_eq!(result, "test");
}

#[test]
fn test_decode_utf16le_with_null() {
    // Unlike parse_utf16_string, decode_utf16le doesn't stop at null
    let bytes = [b'h', 0, b'i', 0, 0, 0];
    let result = decode_utf16le(&bytes);
    assert_eq!(result, "hi\0");
}

#[test]
fn utf16_round_trip() {
    for text in ["", "report.txt", "日本", "\u{1F600} ok"] {
        let mut buf = vec![7u8];
        let n = put_utf16(&mut buf, text);
        assert_eq!(n, buf.len() - 1);
        assert_eq!(n, utf16_len(text));
        assert_eq!(decode_utf16le(&buf[1..]), text);
    }
    assert_eq!(utf16_len("\u{1F600}"), 4);
}

#[test]
fn unpaired_surrogate_is_replaced() {
    assert_eq!(parse_utf16_string(&[0x00, 0xD8, b'a', 0]), "\u{FFFD}a");
}

#[test]
fn odd_byte_at_the_end_is_ignored() {
    assert_eq!(parse_utf16_string(&[b'a', 0, b'b']), "a");
    assert_eq!(decode_utf16le(&[b'a', 0, b'b']), "a");
}

#[test]
fn share_name_of_empty_path_is_empty() {
    assert_eq!(extract_share_name(""), "");
    assert_eq!(extract_share_name(r"\\server"), "server");
}

#[test]
fn prefixes_and_joined_paths() {
    assert!(has_prefix("IPC$", "IPC"));
    assert!(!has_prefix("IP", "IPC"));
    assert!(has_prefix("anything", ""));
    assert_eq!(join_path("dir", "file"), "dir/file");
}
