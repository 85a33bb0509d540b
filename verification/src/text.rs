//! Text building blocks shared by the renderers: decimal numbers and joined
//! lists.

use vstd::prelude::*;
use vstd::string::StringExecFns;
use itertools::Itertools;

verus! {

/// The character of the decimal digit `d`.
pub open spec fn digit(d: nat) -> char
    recommends
        d < 10,
{
    (0x30 + d) as char
}

/// The decimal digits of `n`, without leading zeros.
pub open spec fn digits(n: nat) -> Seq<char>
    decreases n,
{
    if n < 10 {
        seq![digit(n)]
    } else {
        digits(n / 10).push(digit(n % 10))
    }
}

/// The decimal text of `n`: its digits, after a `-` where it is negative.
pub open spec fn decimal(n: int) -> Seq<char> {
    if n < 0 {
        seq!['-'] + digits((-n) as nat)
    } else {
        digits(n as nat)
    }
}

/// The texts of `parts` one after the other, with `separator` between each
/// two neighbours.
pub open spec fn joined(parts: Seq<Seq<char>>, separator: Seq<char>) -> Seq<char>
    decreases parts.len(),
{
    if parts.len() == 0 {
        Seq::empty()
    } else if parts.len() == 1 {
        parts[0]
    } else {
        joined(parts.drop_last(), separator) + separator + parts.last()
    }
}

/// The texts that the strings hold, in order.
pub open spec fn texts_of(strings: Seq<String>) -> Seq<Seq<char>> {
    strings.map_values(|s: String| s@)
}

/// The text of one decimal digit.
fn digit_text(d: u8) -> (text: &'static str)
    requires
        d < 10,
    ensures
        text@ == seq![digit(d as nat)],
{
    proof {
        reveal_strlit("0");
        reveal_strlit("1");
        reveal_strlit("2");
        reveal_strlit("3");
        reveal_strlit("4");
        reveal_strlit("5");
        reveal_strlit("6");
        reveal_strlit("7");
        reveal_strlit("8");
        reveal_strlit("9");
    }
    let text = match d {
        0 => "0",
        1 => "1",
        2 => "2",
        3 => "3",
        4 => "4",
        5 => "5",
        6 => "6",
        7 => "7",
        8 => "8",
        _ => "9",
    };
    assert(text@ =~= seq![digit(d as nat)]);
    text
}

/// The decimal digits of a number.
fn digits_text(n: u128) -> (text: String)
    ensures
        text@ == digits(n as nat),
    decreases n,
{
    if n < 10 {
        String::from_str(digit_text(n as u8))
    } else {
        digits_text(n / 10).concat(digit_text((n % 10) as u8))
    }
}

/// The decimal text of an integer.
pub(crate) fn decimal_text(n: i128) -> (text: String)
    ensures
        text@ == decimal(n as int),
{
    if n < 0 {
        let magnitude = (-(n + 1)) as u128 + 1;
        proof {
            reveal_strlit("-");
        }
        let text = String::from_str("-").concat(digits_text(magnitude).as_str());
        assert(text@ =~= seq!['-'] + digits((-n) as nat));
        text
    } else {
        digits_text(n as u128)
    }
}

/// Calls `itertools::Itertools::join` on the strings.
///
/// Trusted: the result is the first string, followed for every further
/// string by the separator and that string; the empty text for no strings.
#[verifier::external_body]
pub(crate) fn join(parts: &Vec<String>, separator: &str) -> (text: String)
    ensures
        text@ == joined(texts_of(parts@), separator@),
{
    parts.iter().join(separator)
}

} // verus!
