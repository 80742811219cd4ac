use debugbunny::encode::{base64_pad, hex_lower, i32_to_dec, push_json_string, u64_to_dec};

fn s(v: Vec<u8>) -> String {
    String::from_utf8(v).unwrap()
}

fn json_string(input: &[u8]) -> String {
    let mut out: Vec<u8> = Vec::new();
    push_json_string(&mut out, &input.to_vec());
    s(out)
}

#[test]
fn hex_is_lowercase_two_digits_per_byte() {
    assert_eq!(s(hex_lower(&vec![])), "");
    assert_eq!(s(hex_lower(&vec![0x00, 0x0f, 0x10, 0xab, 0xff])), "000f10abff");
}

#[test]
fn base64_known_vectors() {
    assert_eq!(s(base64_pad(&b"".to_vec())), "");
    assert_eq!(s(base64_pad(&b"f".to_vec())), "Zg==");
    assert_eq!(s(base64_pad(&b"fo".to_vec())), "Zm8=");
    assert_eq!(s(base64_pad(&b"foo".to_vec())), "Zm9v");
    assert_eq!(s(base64_pad(&b"foob".to_vec())), "Zm9vYg==");
    assert_eq!(s(base64_pad(&b"fooba".to_vec())), "Zm9vYmE=");
    assert_eq!(s(base64_pad(&b"foobar".to_vec())), "Zm9vYmFy");
    assert_eq!(s(base64_pad(&vec![0xfb, 0xff, 0xfe])), "+//+");
}

#[test]
fn decimal_rendering() {
    assert_eq!(s(u64_to_dec(0)), "0");
    assert_eq!(s(u64_to_dec(7)), "7");
    assert_eq!(s(u64_to_dec(1234567890123)), "1234567890123");
    assert_eq!(s(u64_to_dec(u64::MAX)), "18446744073709551615");
    assert_eq!(s(i32_to_dec(0)), "0");
    assert_eq!(s(i32_to_dec(-1)), "-1");
    assert_eq!(s(i32_to_dec(i32::MIN)), "-2147483648");
    assert_eq!(s(i32_to_dec(i32::MAX)), "2147483647");
}

#[test]
fn json_strings_match_an_independent_encoder() {
    for case in [
        "plain",
        "with \"quotes\" and \\backslash\\",
        "control\u{1}chars\u{1f}",
        "tab\tnewline\nreturn\rbackspace\u{8}formfeed\u{c}",
        "",
        "ünïcode ✓",
    ] {
        let expected = serde_json::to_string(case).unwrap();
        assert_eq!(json_string(case.as_bytes()), expected, "case {:?}", case);
    }
}
