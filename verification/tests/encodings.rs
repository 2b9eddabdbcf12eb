use get_data_url::base64url;
use get_data_url::DataUrl;
use get_data_url::percent;

fn base64_of(data: &[u8]) -> String {
    let text = DataUrl::new(String::new(), data.to_vec(), true).to_string();
    text.strip_prefix("data:;base64,").unwrap().to_string()
}

fn percent_of(data: &[u8]) -> String {
    let text = DataUrl::new(String::new(), data.to_vec(), false).to_string();
    text.strip_prefix("data:,").unwrap().to_string()
}

#[test]
fn base64_of_the_standard_test_vectors() {
    assert_eq!(base64_of(b""), "");
    assert_eq!(base64_of(b"f"), "Zg");
    assert_eq!(base64_of(b"fo"), "Zm8");
    assert_eq!(base64_of(b"foo"), "Zm9v");
    assert_eq!(base64_of(b"foob"), "Zm9vYg");
    assert_eq!(base64_of(b"fooba"), "Zm9vYmE");
    assert_eq!(base64_of(b"foobar"), "Zm9vYmFy");
}

#[test]
fn base64_uses_the_url_safe_symbols() {
    assert_eq!(base64_of(&[0xfb, 0xff]), "-_8");
    assert_eq!(base64_of(&[0xff, 0xff, 0xff]), "____");
    assert_eq!(base64_of(&[0xf8]), "-A");
    assert_eq!(base64_of(&[0xfb, 0xef, 0xbe]), "----");
}

#[test]
fn base64_writes_no_padding() {
    assert_eq!(base64_of(&[0]), "AA");
    assert_eq!(base64_of(&[0, 0]), "AAA");
    assert_eq!(base64_of(&[0, 0, 0]), "AAAA");
    assert_eq!(base64_of(&[0, 0, 0, 0]), "AAAAAA");
}

#[test]
fn base64_symbols_in_order() {
    let mut data = Vec::new();
    for group in 0..16u32 {
        let bits = (4 * group) << 18 | (4 * group + 1) << 12 | (4 * group + 2) << 6 | (4 * group + 3);
        data.push((bits >> 16) as u8);
        data.push((bits >> 8) as u8);
        data.push(bits as u8);
    }
    assert_eq!(
        base64_of(&data),
        "ABCDEFGHIJKLMNOPQRSTUVWXYZabcdefghijklmnopqrstuvwxyz0123456789-_"
    );
}

#[test]
fn base64_length_bound_is_exact() {
    assert!(base64url::encoded_len_at_most(0, 0));
    assert!(!base64url::encoded_len_at_most(1, 1));
    assert!(base64url::encoded_len_at_most(1, 2));
    assert!(!base64url::encoded_len_at_most(2, 2));
    assert!(base64url::encoded_len_at_most(2, 3));
    assert!(!base64url::encoded_len_at_most(3, 3));
    assert!(base64url::encoded_len_at_most(3, 4));
    assert!(base64url::encoded_len_at_most(4, 6));
    assert!(!base64url::encoded_len_at_most(4, 5));
    assert!(base64url::encoded_len_at_most(300, 400));
    assert!(!base64url::encoded_len_at_most(300, 399));
    assert!(!base64url::encoded_len_at_most(usize::MAX, usize::MAX));
    assert!(base64url::encoded_len_at_most(usize::MAX / 4 * 3, usize::MAX));
    assert!(!base64url::encoded_len_at_most(usize::MAX / 4 * 3 + 3, usize::MAX));
}

#[test]
fn percent_leaves_letters_and_digits_alone() {
    let plain = "ABCDEFGHIJKLMNOPQRSTUVWXYZabcdefghijklmnopqrstuvwxyz0123456789";
    assert_eq!(percent_of(plain.as_bytes()), plain);
}

#[test]
fn percent_escapes_what_rfc_2397_would_leave_alone() {
    assert_eq!(percent_of(b" "), "%20");
    assert_eq!(percent_of(b"-"), "%2D");
    assert_eq!(percent_of(b"_"), "%5F");
    assert_eq!(percent_of(b"."), "%2E");
    assert_eq!(percent_of(b"~"), "%7E");
    assert_eq!(percent_of(b"a-b_c.d~e f"), "a%2Db%5Fc%2Ed%7Ee%20f");
}

#[test]
fn percent_escapes_in_upper_case_hexadecimal() {
    assert_eq!(percent_of(&[0x00]), "%00");
    assert_eq!(percent_of(&[0x0a]), "%0A");
    assert_eq!(percent_of(&[0x2f, 0x3a, 0x40, 0x5b, 0x60, 0x7b]), "%2F%3A%40%5B%60%7B");
    assert_eq!(percent_of(&[0x7f, 0x80, 0xab, 0xff]), "%7F%80%AB%FF");
    assert_eq!(percent_of(b"%"), "%25");
    assert_eq!(percent_of(b","), "%2C");
}

#[test]
fn percent_escapes_each_byte_of_a_longer_character() {
    assert_eq!(percent_of("\u{e9}".as_bytes()), "%C3%A9");
    assert_eq!(percent_of("\u{20ac}".as_bytes()), "%E2%82%AC");
}

#[test]
fn percent_of_every_byte_value() {
    for b in 0..=255u8 {
        let expected = if b.is_ascii_alphanumeric() {
            (b as char).to_string()
        } else {
            format!("%{:02X}", b)
        };
        assert_eq!(percent_of(&[b]), expected);
    }
}

#[test]
fn percent_length_bound_is_exact() {
    assert!(percent::encoded_len_at_most(b"", 0));
    assert!(percent::encoded_len_at_most(b"abc", 3));
    assert!(!percent::encoded_len_at_most(b"abc", 2));
    assert!(percent::encoded_len_at_most(b"a c", 5));
    assert!(!percent::encoded_len_at_most(b"a c", 4));
    assert!(!percent::encoded_len_at_most(b" ", 0));
    assert!(!percent::encoded_len_at_most(b" ", 2));
    assert!(percent::encoded_len_at_most(b" ", 3));
    assert!(percent::encoded_len_at_most(b"Hello, World!", 19));
    assert!(!percent::encoded_len_at_most(b"Hello, World!", 18));
    assert!(percent::encoded_len_at_most(b"Hello, World!", usize::MAX));
}
