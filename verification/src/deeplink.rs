//! Deep links into the chat application: the address that opens a chat with
//! a phone number and a prepared message.

use vstd::prelude::*;
use vstd::string::StringExecFns;
use vstd::utf8::encode_utf8;
use crate::text::chars_of;

verus! {

/// An ASCII decimal digit.
pub open spec fn is_digit(c: char) -> bool {
    '0' <= c && c <= '9'
}

/// The decimal digits of `s`, in order.
pub open spec fn digits_of(s: Seq<char>) -> Seq<char> {
    s.filter(|c: char| is_digit(c))
}

/// A byte that stays as it is in a percent-encoded text: an ASCII letter or
/// digit, `-`, `.`, `_` or `~`.
pub open spec fn is_unreserved(b: u8) -> bool {
    (0x30 <= b && b <= 0x39) || (0x41 <= b && b <= 0x5a) || (0x61 <= b && b <= 0x7a) || b == 0x2d
        || b == 0x2e || b == 0x5f || b == 0x7e
}

/// The upper-case hexadecimal digit for a value below 16.
pub open spec fn hex_upper(d: u8) -> char {
    if d < 10 {
        (0x30 + d) as char
    } else {
        (0x41 + d - 10) as char
    }
}

/// One byte, percent-encoded.
pub open spec fn percent_encoded_byte(b: u8) -> Seq<char> {
    if is_unreserved(b) {
        seq![b as char]
    } else {
        seq!['%', hex_upper(b / 16), hex_upper(b % 16)]
    }
}

/// A sequence of bytes, percent-encoded byte by byte.
pub open spec fn percent_encoded(bytes: Seq<u8>) -> Seq<char>
    decreases bytes.len(),
{
    if bytes.len() == 0 {
        Seq::empty()
    } else {
        percent_encoded_byte(bytes.first()) + percent_encoded(bytes.drop_first())
    }
}

/// The deep link for a phone number and a message that is encoded already.
pub open spec fn link_spec(phone: Seq<char>, encoded: Seq<char>) -> Seq<char> {
    "whatsapp://send?phone="@ + phone + "&text="@ + encoded
}

/// `urlencoding::encode`, made into an owned string: the UTF-8 bytes of
/// `text`, each percent-encoded unless it is an ASCII letter or digit, `-`,
/// `.`, `_` or `~`, with upper-case hexadecimal digits.
#[verifier::external_body]
pub(crate) fn encode_text(text: &str) -> (encoded: String)
    ensures
        encoded@ == percent_encoded(encode_utf8(text@)),
{
    urlencoding::encode(text).into_owned()
}

/// The decimal digits of a phone number: everything else, a leading `+`
/// too, is dropped.
pub fn phone_digits(phone: &str) -> (digits: String)
    ensures
        digits@ == digits_of(phone@),
{
    let chars = chars_of(phone);
    let mut digits = String::new();
    let mut i: usize = 0;
    proof {
        reveal(Seq::filter);
        assert(chars@.take(0) == Seq::<char>::empty());
    }
    while i < chars.len()
        invariant
            i <= chars@.len(),
            digits@ == digits_of(chars@.take(i as int)),
        decreases chars@.len() - i,
    {
        let c = chars[i];
        proof {
            reveal(Seq::filter);
            assert(chars@.take(i + 1).drop_last() == chars@.take(i as int));
        }
        if '0' <= c && c <= '9' {
            digits.push(c);
        }
        i += 1;
    }
    proof {
        assert(chars@.take(i as int) == chars@);
    }
    digits
}

/// The deep link for a phone number and a message that is encoded already.
pub fn link_from_parts(phone: &str, encoded: &str) -> (link: String)
    ensures
        link@ == link_spec(phone@, encoded@),
{
    let mut link = "whatsapp://send?phone=".to_string();
    link.append(phone);
    link.append("&text=");
    link.append(encoded);
    link
}

/// The deep link that opens a chat with `phone`, reduced to its digits, and
/// `message`, percent-encoded.
pub fn deeplink(phone: &str, message: &str) -> (link: String)
    ensures
        link@ == link_spec(digits_of(phone@), percent_encoded(encode_utf8(message@))),
{
    let digits = phone_digits(phone);
    let encoded = encode_text(message);
    link_from_parts(digits.as_str(), encoded.as_str())
}

/// The deep link that opens a chat with `phone`, taken as it is, and
/// `message`, percent-encoded.
pub fn deeplink_verbatim(phone: &str, message: &str) -> (link: String)
    ensures
        link@ == link_spec(phone@, percent_encoded(encode_utf8(message@))),
{
    let encoded = encode_text(message);
    link_from_parts(phone, encoded.as_str())
}

} // verus!
