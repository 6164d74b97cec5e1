//! What this library takes on trust: the contracts of the functions of `std`
//! and of other crates that its verified code calls. None of them is proved
//! here; each says what the called function is documented to do.

use vstd::prelude::*;

verus! {

/// The upper-case hexadecimal digit of a value below sixteen.
pub open spec fn hex_digit(value: int) -> char
    recommends
        0 <= value < 16,
{
    if value < 10 {
        ('0' as int + value) as char
    } else {
        ('A' as int + value - 10) as char
    }
}

/// The escape of a byte: a percent sign and the two upper-case hexadecimal
/// digits of the byte, the high one first.
pub open spec fn escape_of(byte: u8) -> Seq<char> {
    seq!['%', hex_digit(byte as int / 16), hex_digit(byte as int % 16)]
}

/// `percent_encoding::percent_encode_byte` returns the escape of the byte,
/// whatever the byte is: three characters of a fixed table.
pub assume_specification[ percent_encoding::percent_encode_byte ](byte: u8) -> (text: &'static str)
    ensures
        text@ == escape_of(byte),
;

/// The number of terminal columns that a text takes, as
/// `unicode_width::UnicodeWidthStr::width` counts them.
pub uninterp spec fn display_width(text: Seq<char>) -> usize;

/// `UnicodeWidthStr::width` of a string slice: a number that depends on the
/// characters of the text alone.
#[verifier::external_body]
pub(crate) fn width_of(text: &str) -> (width: usize)
    ensures
        width == display_width(text@),
{
    unicode_width::UnicodeWidthStr::width(text)
}

/// The text that `chrono` writes for the UTC time that lies `seconds` after
/// the Unix epoch, or `None` where `chrono` has no such time.
pub uninterp spec fn utc_display(seconds: i64) -> Option<Seq<char>>;

/// `chrono::DateTime::from_timestamp`, which gives no time for a number of
/// seconds out of its range, and the `Display` of the time it gives: both
/// depend on the number of seconds alone.
#[verifier::external_body]
pub(crate) fn utc_text(seconds: i64) -> (text: Option<String>)
    ensures
        match text {
            Some(written) => utc_display(seconds) == Some(written@),
            None => utc_display(seconds).is_none(),
        },
{
    match chrono::DateTime::from_timestamp(seconds, 0) {
        Some(time) => Some(time.to_string()),
        None => None,
    }
}

/// `String::push` appends the character to the end of the string.
pub assume_specification[ String::push ](text: &mut String, ch: char)
    ensures
        final(text)@ == old(text)@.push(ch),
;

/// `String::pop` removes the last character and returns it, or returns `None`
/// and leaves the string as it is when it is empty.
pub assume_specification[ String::pop ](text: &mut String) -> (last: Option<char>)
    ensures
        old(text)@.len() == 0 ==> last.is_none() && final(text)@ == old(text)@,
        old(text)@.len() > 0 ==> last == Some(old(text)@.last())
            && final(text)@ == old(text)@.drop_last(),
;

} // verus!
