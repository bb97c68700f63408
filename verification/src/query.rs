//! The `application/x-www-form-urlencoded` text of a list of (name, value)
//! pairs: what stands behind the `?` of a search request.

use crate::params::pairs_view;
use vstd::prelude::*;
use vstd::utf8::encode_utf8;

verus! {

/// Bytes that the form encoding leaves as they are: ASCII letters and digits
/// and `*`, `-`, `.`, `_`.
pub open spec fn is_unreserved(b: u8) -> bool {
    ||| b == 0x2A
    ||| b == 0x2D
    ||| b == 0x2E
    ||| b == 0x5F
    ||| (0x30 <= b && b <= 0x39)
    ||| (0x41 <= b && b <= 0x5A)
    ||| (0x61 <= b && b <= 0x7A)
}

/// The upper-case hexadecimal digit for `n < 16`.
pub open spec fn hex_upper(n: nat) -> char {
    if n < 10 {
        (48 + n) as char
    } else {
        (55 + n) as char
    }
}

/// The form encoding of one byte: itself where unreserved, `+` for a blank,
/// else `%` and two upper-case hexadecimal digits.
pub open spec fn form_byte(b: u8) -> Seq<char> {
    if is_unreserved(b) {
        seq![b as char]
    } else if b == 0x20 {
        seq!['+']
    } else {
        seq!['%', hex_upper((b / 16) as nat), hex_upper((b % 16) as nat)]
    }
}

/// The form encoding of a run of bytes: that of each byte, in order.
pub open spec fn form_bytes(bytes: Seq<u8>) -> Seq<char>
    decreases bytes.len(),
{
    if bytes.len() == 0 {
        Seq::empty()
    } else {
        form_bytes(bytes.drop_last()) + form_byte(bytes.last())
    }
}

/// The form encoding of a text: that of its UTF-8 bytes.
pub open spec fn form_text(text: Seq<char>) -> Seq<char> {
    form_bytes(encode_utf8(text))
}

/// One pair in a query string: encoded name, `=`, encoded value.
pub open spec fn form_pair(pair: (Seq<char>, Seq<char>)) -> Seq<char> {
    form_text(pair.0).push('=') + form_text(pair.1)
}

/// The pairs in order, each as [`form_pair`] gives it, with `&` between them.
pub open spec fn form_urlencoded(pairs: Seq<(Seq<char>, Seq<char>)>) -> Seq<char>
    decreases pairs.len(),
{
    if pairs.len() == 0 {
        Seq::empty()
    } else if pairs.len() == 1 {
        form_pair(pairs[0])
    } else {
        form_urlencoded(pairs.drop_last()).push('&') + form_pair(pairs.last())
    }
}

/// Calls `url::form_urlencoded::Serializer` on an empty target: `extend_pairs`
/// with `pairs`, then `finish`. The contract claims that the serializer writes
/// `&` before every pair but the first, then the name, `=` and the value, both
/// passed byte by byte through its `byte_serialize`, which [`form_byte`] restates.
#[verifier::external_body]
pub(crate) fn form_urlencode(pairs: &Vec<(String, String)>) -> (out: String)
    ensures
        out@ == form_urlencoded(pairs_view(pairs@)),
{
    url::form_urlencoded::Serializer::new(String::new()).extend_pairs(pairs).finish()
}

} // verus!
