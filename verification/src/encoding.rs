//! The streaming base64 encoder that turns credentials into header text.

use base64::write::EncoderWriter;
use std::io::Write;
use vstd::prelude::*;

verus! {

/// A `base64::write::EncoderWriter` around a byte buffer that it owns.
#[verifier::external_body]
pub struct Encoder {
    writer: EncoderWriter<Vec<u8>>,
}

/// The standard-alphabet, padded base64 text that a finished encoder has
/// produced for `input`.
pub uninterp spec fn base64_standard(input: Seq<u8>) -> Seq<u8>;

/// What the encoder's buffer held when the encoder was put around it.
pub uninterp spec fn encoder_sink(encoder: Encoder) -> Seq<u8>;

/// The bytes written into the encoder so far.
pub uninterp spec fn encoder_input(encoder: Encoder) -> Seq<u8>;

/// The sign that fills up the last group of the text: `=`.
pub const PADDING: u8 = 0x3d;

/// Whether `byte` is of the standard alphabet: a letter, a digit, `+` or `/`.
pub open spec fn is_alphabet_byte(byte: u8) -> bool {
    ||| 0x41 <= byte <= 0x5a
    ||| 0x61 <= byte <= 0x7a
    ||| 0x30 <= byte <= 0x39
    ||| byte == 0x2b
    ||| byte == 0x2f
}

/// Whether `byte` can occur in base64 text: in the alphabet, or the padding.
pub open spec fn is_base64_byte(byte: u8) -> bool {
    is_alphabet_byte(byte) || byte == PADDING
}

/// The length of the text for `len` bytes: four signs for every three bytes,
/// a group that was begun counted whole.
pub open spec fn encoded_len(len: nat) -> nat {
    4 * ((len + 2) / 3)
}

/// How many padding signs end the text for `len` bytes.
pub open spec fn padding_len(len: nat) -> nat {
    ((3 - len % 3) % 3) as nat
}

/// Whether `text` has the shape of the base64 text for `len` bytes: its
/// length, the alphabet up to the padding, and the padding at its end.
pub open spec fn is_base64_of_len(text: Seq<u8>, len: nat) -> bool {
    &&& text.len() == encoded_len(len)
    &&& forall|i: int|
        0 <= i < text.len() - padding_len(len) ==> is_alphabet_byte(#[trigger] text[i])
    &&& forall|i: int|
        text.len() - padding_len(len) <= i < text.len() ==> #[trigger] text[i] == PADDING
}

/// `base64::write::EncoderWriter::new` with the standard configuration: the
/// encoder starts with nothing written, around the buffer as given.
#[verifier::external_body]
pub(crate) fn start(sink: Vec<u8>) -> (encoder: Encoder)
    ensures
        encoder_sink(encoder) == sink@,
        encoder_input(encoder) == Seq::<u8>::empty(),
{
    Encoder { writer: EncoderWriter::new(sink, base64::STANDARD) }
}

/// `write_all` on the encoder: `bytes` follow what was written before, and
/// the buffer underneath stays the one the encoder was started with. A `Vec`
/// takes every write, so the encoder reports no error.
#[verifier::external_body]
pub(crate) fn feed(encoder: &mut Encoder, bytes: &[u8])
    ensures
        encoder_sink(*final(encoder)) == encoder_sink(*old(encoder)),
        encoder_input(*final(encoder)) == encoder_input(*old(encoder)) + bytes@,
{
    encoder.writer.write_all(bytes).unwrap()
}

/// `base64::write::EncoderWriter::finish`: hands the buffer back, holding
/// what it held at the start followed by the base64 text of everything
/// written. For every three bytes written the text has four signs of the
/// standard alphabet; a last group of one or two bytes is filled up to four
/// signs with `=`.
#[verifier::external_body]
pub(crate) fn finish(encoder: Encoder) -> (sink: Vec<u8>)
    ensures
        sink@ == encoder_sink(encoder) + base64_standard(encoder_input(encoder)),
        is_base64_of_len(
            sink@.skip(encoder_sink(encoder).len() as int),
            encoder_input(encoder).len(),
        ),
{
    let mut writer = encoder.writer;
    writer.finish().unwrap()
}

} // verus!
