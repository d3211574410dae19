use vstd::prelude::*;
use vstd::string::StringSliceAdditionalSpecFns;
use vstd::utf8::{decode_utf8, valid_utf8};

verus! {

/// The value of an ASCII hexadecimal digit (either case), if the byte is one.
pub open spec fn hex_digit_value(b: u8) -> Option<u8> {
    if 0x30 <= b <= 0x39 {
        Some((b - 0x30) as u8)
    } else if 0x61 <= b <= 0x66 {
        Some((b - 0x61 + 10) as u8)
    } else if 0x41 <= b <= 0x46 {
        Some((b - 0x41 + 10) as u8)
    } else {
        None
    }
}

/// Percent-decoding: each `%` followed by two hexadecimal digits stands
/// for the byte that the digits give; every other byte, a `%` without two
/// digits after it too, stands for itself.
pub open spec fn percent_decoded(s: Seq<u8>) -> Seq<u8>
    decreases s.len(),
{
    if s.len() == 0 {
        seq![]
    } else if s[0] == 0x25 && s.len() >= 3 && hex_digit_value(s[1]) is Some && hex_digit_value(
        s[2],
    ) is Some {
        seq![(hex_digit_value(s[1]).unwrap() * 16 + hex_digit_value(s[2]).unwrap()) as u8]
            + percent_decoded(s.subrange(3, s.len() as int))
    } else {
        seq![s[0]] + percent_decoded(s.subrange(1, s.len() as int))
    }
}

/// The characters that lossy UTF-8 decoding gives for `bytes`: each
/// ill-formed sequence becomes the replacement character U+FFFD.
pub uninterp spec fn utf8_lossy(bytes: Seq<u8>) -> Seq<char>;

/// `percent_encoding::percent_decode`, collected: the bytes that the input
/// stands for under percent-decoding, as that crate documents and
/// implements it (a `%` is decoded only when two hexadecimal digits
/// follow it).
#[verifier::external_body]
fn percent_decode_bytes(input: &[u8]) -> (r: Vec<u8>)
    ensures
        r@ == percent_decoded(input@),
{
    percent_encoding::percent_decode(input).collect()
}

/// `String::from_utf8_lossy`, owned: named by `utf8_lossy`; for
/// well-formed UTF-8 it is the plain decoding, as the documentation says.
/// What it gives for ill-formed input is left to the name.
#[verifier::external_body]
fn utf8_lossy_string(bytes: &[u8]) -> (r: String)
    ensures
        r@ == utf8_lossy(bytes@),
        valid_utf8(bytes@) ==> r@ == decode_utf8(bytes@),
{
    String::from_utf8_lossy(bytes).into_owned()
}

/// Decodes a revision given as a percent-encoded path segment of a request
/// (an ancestry query names its two commits so): percent-decoding, then
/// lossy UTF-8 decoding.
pub fn decode_revision(raw: &str) -> (r: String)
    ensures
        r@ == utf8_lossy(percent_decoded(raw.spec_bytes())),
        valid_utf8(percent_decoded(raw.spec_bytes())) ==> r@ == decode_utf8(
            percent_decoded(raw.spec_bytes()),
        ),
{
    let bytes = percent_decode_bytes(raw.as_bytes());
    utf8_lossy_string(bytes.as_slice())
}

} // verus!
