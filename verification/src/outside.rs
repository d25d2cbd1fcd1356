//! Calls into outside crates. Each item says what is taken on trust of the function it calls.
use vstd::prelude::*;
use vstd::utf8::encode_utf8;

verus! {

/// The upper-case hexadecimal digit of `d`, for `d` below sixteen.
pub open spec fn hex_upper(d: int) -> char {
    if d < 10 {
        (0x30 + d) as char
    } else {
        (0x41 + d - 10) as char
    }
}

/// The bytes that percent-encoding leaves as they are: ASCII letters and digits and `-`,
/// `_`, `.`, `~`.
pub open spec fn unreserved(b: u8) -> bool {
    ||| 0x30 <= b <= 0x39
    ||| 0x41 <= b <= 0x5a
    ||| 0x61 <= b <= 0x7a
    ||| b == 0x2d
    ||| b == 0x5f
    ||| b == 0x2e
    ||| b == 0x7e
}

/// The percent-encoding of one byte.
pub open spec fn percent_byte(b: u8) -> Seq<char> {
    if unreserved(b) {
        seq![b as char]
    } else {
        seq!['%', hex_upper(b as int / 16), hex_upper(b as int % 16)]
    }
}

/// The percent-encoding of a row of bytes.
pub open spec fn percent_encoded(bytes: Seq<u8>) -> Seq<char>
    decreases bytes.len(),
{
    if bytes.len() == 0 {
        Seq::empty()
    } else {
        percent_encoded(bytes.drop_last()) + percent_byte(bytes.last())
    }
}

/// `urlencoding::encode`: every byte of the UTF-8 form of `text` is percent-encoded, but
/// for ASCII letters and digits and `-`, `_`, `.`, `~`.
#[verifier::external_body]
pub(crate) fn percent_encode(text: &str) -> (s: String)
    ensures
        s@ == percent_encoded(encode_utf8(text@)),
{
    urlencoding::encode(text).into_owned()
}

/// The bytes that may stand in a header value: the tab, and all from the blank up but for
/// `DEL`.
pub open spec fn header_byte(b: u8) -> bool {
    (b >= 32 && b != 127) || b == 9
}

/// `HeaderValue::from_str` of the `http` crate, as `axum` hands it on: `text` becomes a
/// header value, with its UTF-8 bytes, exactly if each of these bytes may stand in one.
#[verifier::external_body]
pub(crate) fn header_value(text: &str) -> (r: Option<Vec<u8>>)
    ensures
        r is Some <==> forall|i: int|
            0 <= i < encode_utf8(text@).len() ==> header_byte(#[trigger] encode_utf8(text@)[i]),
        r matches Some(bytes) ==> bytes@ == encode_utf8(text@),
{
    axum::http::HeaderValue::from_str(text).ok().map(|v| v.as_bytes().to_vec())
}

/// Thirty-two lower-case hexadecimal digits, with the marks of a random UUID: `4` as the
/// thirteenth and one of `8`, `9`, `a`, `b` as the seventeenth.
pub open spec fn is_token(s: Seq<char>) -> bool {
    &&& s.len() == 32
    &&& forall|i: int|
        0 <= i < s.len() ==> ('0' <= #[trigger] s[i] && s[i] <= '9') || ('a' <= s[i] && s[i] <= 'f')
    &&& s[12] == '4'
    &&& s[16] == '8' || s[16] == '9' || s[16] == 'a' || s[16] == 'b'
}

/// `uuid::Uuid::new_v4` in its `simple` form: thirty-two lower-case hexadecimal digits
/// with the version and the variant in their places. The other digits are a matter of
/// chance, so nothing more is claimed. The call panics if the
/// operating system has no random bytes to give.
#[verifier::external_body]
pub(crate) fn random_token() -> (s: String)
    ensures
        is_token(s@),
{
    uuid::Uuid::new_v4().simple().to_string()
}

} // verus!
