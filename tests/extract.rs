use usb_enumeration::common::ParseError;
use usb_enumeration::extract::{
    extract_serial_number, extract_vid_pid, get_pid_or_vid, string_from_buf_u16,
    string_from_buf_u8, units_from_bytes, vid_pid_from_uppercase,
};
use usb_enumeration::text::{last_segment, parse_u8, text_before_nul};

fn utf16_bytes(s: &str) -> Vec<u8> {
    let mut out = Vec::new();
    for u in s.encode_utf16() {
        out.push((u & 0xFF) as u8);
        out.push((u >> 8) as u8);
    }
    out
}

fn padded_bytes(s: &str, total: usize) -> Vec<u8> {
    let mut out = utf16_bytes(s);
    out.resize(total, 0);
    out
}

#[test]
fn hex_id_without_prefix() {
    assert_eq!(get_pid_or_vid("05AC"), Ok(0x05AC));
    assert_eq!(get_pid_or_vid("c52b"), Ok(0xC52B));
    assert_eq!(get_pid_or_vid("0"), Ok(0));
}

#[test]
fn hex_id_with_prefix() {
    assert_eq!(get_pid_or_vid("0x05ac"), Ok(0x05AC));
    assert_eq!(get_pid_or_vid("0xFFFF"), Ok(0xFFFF));
    assert_eq!(get_pid_or_vid("0x0000ffff"), Ok(0xFFFF));
}

#[test]
fn hex_id_out_of_range_fails() {
    assert_eq!(get_pid_or_vid("10000"), Err(ParseError));
    assert_eq!(get_pid_or_vid("0x1FFFF"), Err(ParseError));
}

#[test]
fn hex_id_with_bad_characters_fails() {
    assert_eq!(get_pid_or_vid(""), Err(ParseError));
    assert_eq!(get_pid_or_vid("0x"), Err(ParseError));
    assert_eq!(get_pid_or_vid("12g4"), Err(ParseError));
    assert_eq!(get_pid_or_vid("0X12"), Err(ParseError));
    assert_eq!(get_pid_or_vid("+12"), Err(ParseError));
    assert_eq!(get_pid_or_vid(" 12"), Err(ParseError));
}

#[test]
fn vid_pid_from_composite_id() {
    assert_eq!(
        vid_pid_from_uppercase("USB\\VID_046D&PID_C52B&REV_1201"),
        Ok((0x046D, 0xC52B))
    );
    assert_eq!(vid_pid_from_uppercase("PID_0001 VID_0002"), Ok((0x0002, 0x0001)));
}

#[test]
fn vid_pid_missing_marker_fails() {
    assert_eq!(vid_pid_from_uppercase("USB\\VID_046D"), Err(ParseError));
    assert_eq!(vid_pid_from_uppercase("USB\\PID_046D"), Err(ParseError));
    assert_eq!(vid_pid_from_uppercase(""), Err(ParseError));
}

#[test]
fn vid_pid_short_or_bad_digits_fail() {
    assert_eq!(vid_pid_from_uppercase("VID_12&PID_3456"), Err(ParseError));
    assert_eq!(vid_pid_from_uppercase("VID_1234&PID_34"), Err(ParseError));
    assert_eq!(vid_pid_from_uppercase("VID_12G4&PID_3456"), Err(ParseError));
}

#[test]
fn vid_pid_first_marker_counts() {
    assert_eq!(vid_pid_from_uppercase("VID_XXXX VID_1234 PID_5678"), Err(ParseError));
}

#[test]
fn extract_vid_pid_from_buffer() {
    let buf = padded_bytes("USB\\VID_05AC&PID_12A8&REV_0100", 1000);
    assert_eq!(extract_vid_pid(buf), Ok((0x05AC, 0x12A8)));
}

#[test]
fn extract_vid_pid_is_case_insensitive() {
    let buf = padded_bytes("usb\\vid_05ac&pid_12a8", 1000);
    assert_eq!(extract_vid_pid(buf), Ok((0x05AC, 0x12A8)));
    let buf = padded_bytes("Usb\\Vid_05aC&Pid_12A8", 1000);
    assert_eq!(extract_vid_pid(buf), Ok((0x05AC, 0x12A8)));
}

#[test]
fn extract_vid_pid_missing_marker_fails() {
    let buf = padded_bytes("USB\\ROOT_HUB30", 1000);
    assert_eq!(extract_vid_pid(buf), Err(ParseError));
}

#[test]
fn extract_vid_pid_ignores_text_after_nul() {
    let mut buf = utf16_bytes("USB\\VID_05AC");
    buf.extend(utf16_bytes("\0&PID_12A8"));
    assert_eq!(extract_vid_pid(buf), Err(ParseError));
}

#[test]
fn decoding_truncates_at_first_nul() {
    let buf: Vec<u16> = vec![0x41, 0x42, 0x43, 0, 0, 0, 0];
    assert_eq!(string_from_buf_u16(buf), "ABC");
    let buf: Vec<u16> = vec![0x41, 0, 0x42, 0x43];
    assert_eq!(string_from_buf_u16(buf), "A");
}

#[test]
fn decoding_clean_input_is_unchanged() {
    let text = "Logitech USB Receiver \u{00e9}\u{1F600}";
    let buf: Vec<u16> = text.encode_utf16().collect();
    assert_eq!(string_from_buf_u16(buf), text);
    assert_eq!(string_from_buf_u8(utf16_bytes(text)), text);
}

#[test]
fn decoding_empty_and_all_nul() {
    assert_eq!(string_from_buf_u16(Vec::new()), "");
    assert_eq!(string_from_buf_u16(vec![0; 1000]), "");
    assert_eq!(string_from_buf_u8(vec![0; 1000]), "");
}

#[test]
fn decoding_replaces_unpaired_surrogate() {
    let buf: Vec<u16> = vec![0x41, 0xD800, 0x42, 0];
    assert_eq!(string_from_buf_u16(buf), "A\u{FFFD}B");
}

#[test]
fn decoding_bytes_is_little_endian() {
    let buf: Vec<u8> = vec![0x41, 0x00, 0x42, 0x00, 0x43, 0x00, 0x00, 0x00, 0x00, 0x00];
    assert_eq!(string_from_buf_u8(buf), "ABC");
    assert_eq!(units_from_bytes(&vec![0x34, 0x12, 0x78, 0x56, 0x9A]), vec![0x1234, 0x5678]);
}

#[test]
fn serial_number_after_last_backslash() {
    let mut buf: Vec<u16> = "USB\\VID_05AC&PID_12A8\\000A27001E4C0D".encode_utf16().collect();
    buf.resize(1000, 0);
    assert_eq!(extract_serial_number(buf), Some("000A27001E4C0D".to_string()));
}

#[test]
fn serial_number_without_backslash_is_whole_id() {
    let buf: Vec<u16> = "ROOT_HUB".encode_utf16().collect();
    assert_eq!(extract_serial_number(buf), Some("ROOT_HUB".to_string()));
    let buf: Vec<u16> = "A\\B\\".encode_utf16().collect();
    assert_eq!(extract_serial_number(buf), Some(String::new()));
}

#[test]
fn text_helpers() {
    assert_eq!(text_before_nul("AB\0CD"), "AB");
    assert_eq!(text_before_nul("ABCD"), "ABCD");
    assert_eq!(last_segment("a\\b\\c"), "c");
    assert_eq!(last_segment("abc"), "abc");
}

#[test]
fn decimal_byte_parsing() {
    assert_eq!(parse_u8("9"), Some(9));
    assert_eq!(parse_u8("09"), Some(9));
    assert_eq!(parse_u8("+255"), Some(255));
    assert_eq!(parse_u8("256"), None);
    assert_eq!(parse_u8("ef"), None);
    assert_eq!(parse_u8(""), None);
    assert_eq!(parse_u8("+"), None);
    assert_eq!(parse_u8("-1"), None);
}

#[test]
fn decoding_padded_clean_bytes_gives_text() {
    let text = "Apple Keyboard";
    assert_eq!(string_from_buf_u8(padded_bytes(text, 1000)), text);
    assert_eq!(string_from_buf_u8(padded_bytes(text, 2 * text.len())), text);
}

#[test]
fn every_id_spelling_parses_back() {
    for v in [0u16, 1, 0x0F, 0x10, 0x5AC, 0x05AC, 0xC52B, 0xFFFF] {
        assert_eq!(get_pid_or_vid(&format!("{:x}", v)), Ok(v));
        assert_eq!(get_pid_or_vid(&format!("{:04X}", v)), Ok(v));
        assert_eq!(get_pid_or_vid(&format!("0x{:04x}", v)), Ok(v));
        assert_eq!(get_pid_or_vid(&format!("0x{:X}", v)), Ok(v));
    }
}
