//! Decimal numbers in text.

use vstd::prelude::*;

verus! {

/// The character of a decimal digit.
pub open spec fn digit(d: nat) -> char {
    (48 + d) as char
}

/// The decimal notation of `n`, without leading zeros.
pub open spec fn decimal(n: nat) -> Seq<char>
    decreases n,
{
    if n < 10 {
        seq![digit(n)]
    } else {
        decimal(n / 10).push(digit(n % 10))
    }
}

/// Calls std's formatting of a `u64` (`{}` in `format!`), and claims that it
/// gives the decimal notation of the number.
#[verifier::external_body]
pub(crate) fn decimal_text(n: u64) -> (text: String)
    ensures
        text@ == decimal(n as nat),
{
    format!("{}", n)
}

/// `prefix` followed by the decimal notation of `n`.
pub fn with_number(prefix: &str, n: u64) -> (text: String)
    ensures
        text@ == prefix@ + decimal(n as nat),
{
    prefix.to_owned().concat(decimal_text(n).as_str())
}

/// The number that a row of decimal digits denotes.
pub open spec fn denoted(digits: Seq<char>) -> nat
    decreases digits.len(),
{
    if digits.len() == 0 {
        0
    } else {
        (10 * denoted(digits.drop_last()) + (digits.last() as int - '0' as int)) as nat
    }
}

/// The decimal notation of a number denotes that number, consists of decimal digits,
/// and starts with a zero only where the number is zero.
pub proof fn decimals_denote_their_number(n: nat)
    ensures
        denoted(decimal(n)) == n,
        decimal(n).len() > 0,
        forall|i: int| 0 <= i < decimal(n).len() ==> '0' <= #[trigger] decimal(n)[i] <= '9',
        n > 0 ==> decimal(n)[0] != '0',
        n == 0 ==> decimal(n).len() == 1,
    decreases n,
{
    reveal_with_fuel(denoted, 2);
    if n >= 10 {
        decimals_denote_their_number(n / 10);
        assert(decimal(n).drop_last() =~= decimal(n / 10));
    } else {
        assert(decimal(n).drop_last() =~= Seq::empty());
    }
}

} // verus!
