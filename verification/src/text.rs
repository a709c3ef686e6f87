use vstd::prelude::*;
use vstd::string::*;

verus! {

/// `String::push` of the standard library is believed to append the given character to the
/// end of the string, and to change nothing else.
pub assume_specification[ String::push ](s: &mut String, c: char)
    ensures
        final(s)@ == old(s)@.push(c),
;

/// The character of a decimal digit.
pub open spec fn digit_char(d: int) -> char {
    ('0' as int + d) as char
}

/// A number in decimal notation, without leading zeros.
pub open spec fn decimal(n: nat) -> Seq<char>
    decreases n,
{
    if n < 10 {
        seq![digit_char(n as int)]
    } else {
        decimal(n / 10).push(digit_char((n % 10) as int))
    }
}

/// Writes a number in decimal notation.
pub fn decimal_string(n: u32) -> (r: String)
    ensures
        r@ == decimal(n as nat),
    decreases n,
{
    let last: u8 = 48u8 + (n % 10) as u8;
    let mut r = if n < 10 {
        String::new()
    } else {
        decimal_string(n / 10)
    };
    r.push(last as char);
    assert(r@ =~= decimal(n as nat));
    r
}

/// What `String::from_utf8_lossy` of the standard library makes of some bytes: the text that they
/// encode, with a replacement character in place of what is not UTF-8.
pub uninterp spec fn lossy_text(bytes: Seq<u8>) -> Seq<char>;

/// Calls `String::from_utf8_lossy` of the standard library. It is believed to depend on the bytes
/// alone and, where they are valid UTF-8, to give the text that they encode. Which replacement
/// characters it puts in elsewhere is left unsaid.
#[verifier::external_body]
pub(crate) fn text_from_bytes(bytes: &Vec<u8>) -> (r: String)
    ensures
        r@ == lossy_text(bytes@),
        vstd::utf8::valid_utf8(bytes@) ==> r@ == vstd::utf8::decode_utf8(bytes@),
{
    String::from_utf8_lossy(bytes).into_owned()
}

/// What the `Debug` form of a string looks like: the string in quotes, with escapes.
pub uninterp spec fn quoted(s: Seq<char>) -> Seq<char>;

/// Calls the standard library's `Debug` for `String`, by way of `format!`. It is believed to depend
/// on the string alone. Which characters it escapes, and how, is left unsaid.
#[verifier::external_body]
pub(crate) fn quoted_string(s: &String) -> (r: String)
    ensures
        r@ == quoted(s@),
{
    format!("{:?}", s)
}

} // verus!
