use reqwest_wasm_ext::basic_auth_header;

#[test]
fn username_alone_ends_in_a_colon() {
    assert_eq!(basic_auth_header("foo", None), b"Basic Zm9vOg==".to_vec());
}

#[test]
fn username_and_password_are_joined_by_a_colon() {
    assert_eq!(basic_auth_header("foo", Some("bar")), b"Basic Zm9vOmJhcg==".to_vec());
}

#[test]
fn empty_username_leaves_the_colon() {
    assert_eq!(basic_auth_header("", None), b"Basic Og==".to_vec());
}

#[test]
fn empty_password_is_the_same_as_none() {
    assert_eq!(basic_auth_header("foo", Some("")), basic_auth_header("foo", None));
    assert_eq!(basic_auth_header("foo", Some("")), b"Basic Zm9vOg==".to_vec());
}

#[test]
fn well_known_credentials() {
    assert_eq!(
        basic_auth_header("Aladdin", Some("open sesame")),
        b"Basic QWxhZGRpbjpvcGVuIHNlc2FtZQ==".to_vec()
    );
}

#[test]
fn padding_follows_the_length() {
    assert_eq!(basic_auth_header("a", None), b"Basic YTo=".to_vec());
    assert_eq!(basic_auth_header("ab", None), b"Basic YWI6".to_vec());
    assert_eq!(basic_auth_header("abc", None), b"Basic YWJjOg==".to_vec());
}

#[test]
fn text_is_encoded_as_utf8() {
    assert_eq!(
        basic_auth_header("jos\u{e9}", Some("p\u{e4}ss")),
        b"Basic am9zw6k6cMOkc3M=".to_vec()
    );
}

#[test]
fn colon_in_the_password_is_kept() {
    assert_eq!(
        basic_auth_header("user", Some("pa:ss")),
        b"Basic dXNlcjpwYTpzcw==".to_vec()
    );
}

#[test]
fn pieces_are_encoded_as_one_stream() {
    // "a" and "b" on their own would each be padded.
    assert_eq!(basic_auth_header("a", Some("b")), b"Basic YTpi".to_vec());
}

#[test]
fn long_credentials_cross_the_encoder_buffer() {
    let username = "x".repeat(2999);
    let mut expected = b"Basic ".to_vec();
    for _ in 0..999 {
        expected.extend_from_slice(b"eHh4");
    }
    expected.extend_from_slice(b"eHg6");
    assert_eq!(basic_auth_header(&username, None), expected);

    let password = "y".repeat(3000);
    for _ in 0..1000 {
        expected.extend_from_slice(b"eXl5");
    }
    assert_eq!(basic_auth_header(&username, Some(&password)), expected);
}

#[test]
fn value_starts_with_the_scheme() {
    for (username, password) in [("", None), ("foo", Some("bar")), ("\u{1f980}", Some("\t"))] {
        let value = basic_auth_header(username, password);
        assert_eq!(&value[..6], b"Basic ");
        assert!(value.len() > 6);
    }
}

#[test]
fn value_is_fit_for_a_header() {
    for (username, password) in [
        ("", None),
        ("foo", Some("bar")),
        ("line\nbreak", Some("\u{0}\u{7f}")),
        ("\u{1f980}", Some("\t")),
    ] {
        let value = basic_auth_header(username, password);
        assert!(value.iter().all(|&byte| byte >= 32 && byte != 127));
        assert!(value[6..]
            .iter()
            .all(|&byte| byte.is_ascii_alphanumeric() || byte == b'+' || byte == b'/' || byte == b'='));
        assert_eq!((value.len() - 6) % 4, 0);
    }
}

#[test]
fn length_and_padding_follow_the_credentials() {
    for user_len in 0..40usize {
        for pass_len in [None, Some(0usize), Some(1), Some(2), Some(3), Some(17)] {
            let username = "u".repeat(user_len);
            let password = pass_len.map(|len| "p".repeat(len));
            let value = basic_auth_header(&username, password.as_deref());
            let plain = user_len + 1 + pass_len.unwrap_or(0);
            let padding = (3 - plain % 3) % 3;

            assert_eq!(value.len(), 6 + 4 * ((plain + 2) / 3));
            assert_eq!(&value[..6], b"Basic ");
            let text = &value[6..];
            assert!(text[..text.len() - padding]
                .iter()
                .all(|&byte| byte.is_ascii_alphanumeric() || byte == b'+' || byte == b'/'));
            assert!(text[text.len() - padding..].iter().all(|&byte| byte == b'='));
        }
    }
}

#[test]
fn plus_and_slash_come_out_of_the_standard_alphabet() {
    let mut plain = String::new();
    for byte in [
        0x41u8, 0x42, 0x43, 0x7e, 0x7f, 0x3f, 0x3e, 0x00, 0x10, 0x7b, 0x7d, 0x2f, 0x2b,
    ] {
        plain.push(char::from(byte));
    }
    let value = basic_auth_header(&plain, Some("\u{3ff}\u{7ff}>>>???"));
    assert_eq!(
        value,
        b"Basic QUJDfn8/PgAQe30vKzrPv9+/Pj4+Pz8/".to_vec()
    );
}
