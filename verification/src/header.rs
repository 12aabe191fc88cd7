//! The value of a Basic `Authorization` header.

use crate::encoding::{
    base64_standard, encoded_len, encoder_input, feed, finish, is_alphabet_byte, is_base64_byte,
    padding_len, start, PADDING,
};
use vstd::prelude::*;
use vstd::utf8::encode_utf8;

verus! {

/// The colon that parts the user name from the password.
pub const COLON: u8 = 0x3a;

/// The scheme word and the space after it: `Basic `.
pub open spec fn scheme() -> Seq<u8> {
    seq![0x42u8, 0x61u8, 0x73u8, 0x69u8, 0x63u8, 0x20u8]
}

/// What is encoded: the user name, a colon, and the password if there is one,
/// each as UTF-8.
pub open spec fn credentials(username: Seq<char>, password: Option<Seq<char>>) -> Seq<u8> {
    encode_utf8(username) + seq![COLON] + match password {
        Some(password) => encode_utf8(password),
        None => Seq::<u8>::empty(),
    }
}

/// The header value for a user name and an optional password.
pub open spec fn header_value(username: Seq<char>, password: Option<Seq<char>>) -> Seq<u8> {
    scheme() + base64_standard(credentials(username, password))
}

/// Whether a header value may hold `byte`: anything but a control character
/// other than the tab.
pub open spec fn is_value_byte(byte: u8) -> bool {
    byte >= 32 && byte != 127 || byte == 9
}

/// Whether `value` can stand in a header as it is.
pub open spec fn is_field_value(value: Seq<u8>) -> bool {
    forall|i: int| 0 <= i < value.len() ==> is_value_byte(#[trigger] value[i])
}

/// The text of an optional string slice.
pub open spec fn text_of(password: Option<&str>) -> Option<Seq<char>> {
    match password {
        Some(password) => Some(password@),
        None => None,
    }
}

/// Whether `value` has the shape of the header value for credentials of
/// `len` bytes: the scheme, then base64 text of the length that `len` asks
/// for, with the padding at its end and nowhere else.
pub open spec fn is_basic_value(value: Seq<u8>, len: nat) -> bool {
    &&& value.len() == 6 + encoded_len(len)
    &&& value.take(6) == scheme()
    &&& forall|i: int|
        6 <= i < value.len() - padding_len(len) ==> is_alphabet_byte(#[trigger] value[i])
    &&& forall|i: int|
        value.len() - padding_len(len) <= i < value.len() ==> #[trigger] value[i] == PADDING
}

/// Builds the header value: `Basic `, then the base64 text of the
/// credentials, which are streamed through the encoder piece by piece.
pub fn basic_auth_header(username: &str, password: Option<&str>) -> (value: Vec<u8>)
    ensures
        value@ == header_value(username@, text_of(password)),
        is_basic_value(value@, credentials(username@, text_of(password)).len()),
        forall|i: int| 6 <= i < value@.len() ==> is_base64_byte(#[trigger] value@[i]),
        value@.len() > 6,
        is_field_value(value@),
{
    let sink: Vec<u8> = vec![0x42u8, 0x61u8, 0x73u8, 0x69u8, 0x63u8, 0x20u8];
    assert(sink@ == scheme());
    let mut encoder = start(sink);
    feed(&mut encoder, username.as_bytes());
    let colon: [u8; 1] = [COLON];
    feed(&mut encoder, colon.as_slice());
    if let Some(password) = password {
        feed(&mut encoder, password.as_bytes());
    }
    assert(encoder_input(encoder) =~= credentials(username@, text_of(password)));
    let value = finish(encoder);
    proof {
        let len = credentials(username@, text_of(password)).len();
        assert(value@.take(6) =~= scheme());
        assert forall|i: int| 6 <= i < value@.len() implies value@[i] == value@.skip(6)[i - 6] by {}
        basic_value_bytes(value@, len);
    }
    value
}

/// A value of that shape is longer than the scheme where there is anything
/// to encode, holds behind the scheme nothing but base64 signs, and can
/// stand in a header as it is.
pub proof fn basic_value_bytes(value: Seq<u8>, len: nat)
    requires
        is_basic_value(value, len),
    ensures
        len > 0 ==> value.len() > 6,
        forall|i: int| 6 <= i < value.len() ==> is_base64_byte(#[trigger] value[i]),
        is_field_value(value),
{
    assert forall|i: int| 0 <= i < value.len() implies is_value_byte(#[trigger] value[i]) by {
        if i < 6 {
            assert(value[i] == value.take(6)[i]);
        }
    }
}

/// The credentials are as long as the user name and the password together,
/// and one byte more for the colon.
pub proof fn credentials_len(username: Seq<char>, password: Option<Seq<char>>)
    ensures
        credentials(username, password).len() == encode_utf8(username).len() + 1 + match password {
            Some(password) => encode_utf8(password).len(),
            None => 0,
        },
{
}

/// Without a password the credentials are the user name and a colon, and
/// nothing after it.
pub proof fn lone_username_ends_in_colon(username: Seq<char>)
    ensures
        credentials(username, None) == encode_utf8(username).push(COLON),
        header_value(username, None) == scheme() + base64_standard(
            encode_utf8(username).push(COLON),
        ),
{
    assert(credentials(username, None) =~= encode_utf8(username).push(COLON));
}

/// A password follows the colon as it is: the credentials with it are those
/// without it, then the password.
pub proof fn password_follows_colon(username: Seq<char>, password: Seq<char>)
    ensures
        credentials(username, Some(password)) == credentials(username, None) + encode_utf8(
            password,
        ),
{
    assert(credentials(username, Some(password)) =~= credentials(username, None) + encode_utf8(
        password,
    ));
}

} // verus!
