//! Filling `{name}` templates (through `strfmt`) and percent-encoding text
//! for addresses (through `urlencoding`).

use vstd::prelude::*;

verus! {

/// `strfmt::FmtError`, carried opaque.
#[verifier::external_type_specification]
#[verifier::external_body]
pub struct ExFmtError(strfmt::FmtError);

/// A template that `strfmt` could not fill, with the error it gave.
#[derive(Debug, PartialEq)]
pub enum TemplateError {
    Invalid(strfmt::FmtError),
}

/// What `strfmt::strfmt` gives for `template` with the single variable `key`
/// set to `value`: `None` where it fails.
pub uninterp spec fn format_template(template: Seq<char>, key: Seq<char>, value: Seq<char>) -> Option<
    Seq<char>,
>;

/// Calls `strfmt::strfmt` with a map that sets `key` to `value`. Claimed:
/// it succeeds exactly where `format_template` is `Some`, with that text;
/// nothing is said of the error.
#[verifier::external_body]
pub fn fill_template(template: &str, key: &str, value: &str) -> (r: Result<String, strfmt::FmtError>)
    ensures
        match r {
            Ok(s) => format_template(template@, key@, value@) == Some(s@),
            Err(_) => format_template(template@, key@, value@) is None,
        },
{
    let mut vars = std::collections::HashMap::new();
    vars.insert(key.to_string(), value.to_string());
    strfmt::strfmt(template, &vars)
}

/// Whether the byte `b` stays as it is in a percent-encoding: an ASCII
/// letter or digit, or one of `-`, `.`, `_`, `~`.
pub open spec fn url_safe(b: u8) -> bool {
    ||| 0x30 <= b <= 0x39
    ||| 0x41 <= b <= 0x5A
    ||| 0x61 <= b <= 0x7A
    ||| b == 0x2D
    ||| b == 0x2E
    ||| b == 0x5F
    ||| b == 0x7E
}

/// The upper-case hexadecimal digit of `d`, below 16.
pub open spec fn hex_digit(d: u8) -> char {
    if d < 10 {
        (0x30 + d) as char
    } else {
        (0x41 + d - 10) as char
    }
}

/// The percent-encoding of `bytes`: each safe byte as itself, every other as
/// `%` and its two upper-case hexadecimal digits.
pub open spec fn percent_encode(bytes: Seq<u8>) -> Seq<char>
    decreases bytes.len(),
{
    if bytes.len() == 0 {
        Seq::empty()
    } else {
        let b = bytes.last();
        percent_encode(bytes.drop_last()) + if url_safe(b) {
            seq![b as char]
        } else {
            seq!['%', hex_digit(b / 16), hex_digit(b % 16)]
        }
    }
}

/// Calls `urlencoding::encode`. Claimed, as its source shows: the result is
/// the percent-encoding of the text's UTF-8 bytes.
#[verifier::external_body]
pub fn url_encode(s: &str) -> (r: String)
    ensures
        r@ == percent_encode(vstd::utf8::encode_utf8(s@)),
{
    urlencoding::encode(s).into_owned()
}

} // verus!
