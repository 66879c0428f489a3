//! Numbers as text.

use vstd::prelude::*;

verus! {

/// The character of one decimal digit.
pub open spec fn digit_char(d: int) -> char {
    seq!['0', '1', '2', '3', '4', '5', '6', '7', '8', '9'][d]
}

/// A natural number in decimal, without leading zeros.
pub open spec fn decimal_text(n: nat) -> Seq<char>
    decreases n,
{
    if n < 10 {
        seq![digit_char(n as int)]
    } else {
        decimal_text(n / 10).push(digit_char((n % 10) as int))
    }
}

/// The text that `bytesize` prints for a number of bytes.
pub uninterp spec fn byte_size_text(bytes: int) -> Seq<char>;

/// Calls `u64::to_string`. Trusted: the result is the number in decimal.
#[verifier::external_body]
pub(crate) fn decimal_string(n: u64) -> (r: String)
    ensures
        r@ == decimal_text(n as nat),
{
    n.to_string()
}

/// Calls `bytesize::ByteSize::to_string`. Trusted: the result is the text
/// named `byte_size_text`, a function of the number alone.
#[verifier::external_body]
pub(crate) fn byte_size_string(bytes: u64) -> (r: String)
    ensures
        r@ == byte_size_text(bytes as int),
{
    bytesize::ByteSize(bytes).to_string()
}

} // verus!
