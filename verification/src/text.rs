//! Text that the library builds: decimal numbers, excerpts, addresses.
use vstd::prelude::*;

verus! {

/// The characters of each string.
pub open spec fn views(texts: Seq<String>) -> Seq<Seq<char>> {
    Seq::new(texts.len(), |i: int| texts[i]@)
}

/// The character of a decimal digit.
pub open spec fn digit_char(digit: nat) -> char {
    if digit == 0 { '0' }
    else if digit == 1 { '1' }
    else if digit == 2 { '2' }
    else if digit == 3 { '3' }
    else if digit == 4 { '4' }
    else if digit == 5 { '5' }
    else if digit == 6 { '6' }
    else if digit == 7 { '7' }
    else if digit == 8 { '8' }
    else { '9' }
}

/// A number in decimal, without leading zeros.
pub open spec fn decimal(n: nat) -> Seq<char>
    decreases n,
{
    if n < 10 {
        seq![digit_char(n)]
    } else {
        decimal(n / 10).push(digit_char(n % 10))
    }
}

/// The first `limit` characters, or all of them where there are fewer.
pub open spec fn leading(text: Seq<char>, limit: nat) -> Seq<char> {
    if text.len() <= limit {
        text
    } else {
        text.take(limit as int)
    }
}

/// The text without the slashes at its end.
pub open spec fn without_trailing_slashes(text: Seq<char>) -> Seq<char>
    decreases text.len(),
{
    if text.len() > 0 && text.last() == '/' {
        without_trailing_slashes(text.drop_last())
    } else {
        text
    }
}

/// The digit as a one-character string.
fn digit_str(digit: usize) -> (r: &'static str)
    requires
        digit < 10,
    ensures
        r@ == seq![digit_char(digit as nat)],
{
    proof {
        reveal_strlit("0");
        reveal_strlit("1");
        reveal_strlit("2");
        reveal_strlit("3");
        reveal_strlit("4");
        reveal_strlit("5");
        reveal_strlit("6");
        reveal_strlit("7");
        reveal_strlit("8");
        reveal_strlit("9");
    }
    match digit {
        0 => "0",
        1 => "1",
        2 => "2",
        3 => "3",
        4 => "4",
        5 => "5",
        6 => "6",
        7 => "7",
        8 => "8",
        _ => "9",
    }
}

/// Writes a number in decimal.
pub fn decimal_string(n: usize) -> (r: String)
    ensures
        r@ == decimal(n as nat),
    decreases n,
{
    if n < 10 {
        digit_str(n).to_owned()
    } else {
        decimal_string(n / 10).concat(digit_str(n % 10))
    }
}

/// Cuts a text to its first `limit` characters.
pub fn excerpt(text: &str, limit: usize) -> (r: String)
    ensures
        r@ == leading(text@, limit as nat),
{
    let len: usize = text.unicode_len();
    if len <= limit {
        text.to_owned()
    } else {
        text.substring_char(0, limit).to_owned()
    }
}

/// Drops the slashes at the end of a text.
pub fn trim_slashes(text: &str) -> (r: String)
    ensures
        r@ == without_trailing_slashes(text@),
{
    let mut len: usize = text.unicode_len();
    proof {
        assert(text@.take(len as int) =~= text@);
    }
    while len > 0 && text.get_char(len - 1) == '/'
        invariant
            len <= text@.len(),
            without_trailing_slashes(text@.take(len as int)) == without_trailing_slashes(text@),
        ensures
            len <= text@.len(),
            len == 0 || text@[len - 1] != '/',
            without_trailing_slashes(text@.take(len as int)) == without_trailing_slashes(text@),
        decreases len,
    {
        proof {
            assert(text@.take(len as int).drop_last() =~= text@.take(len - 1));
        }
        len = len - 1;
    }
    text.substring_char(0, len).to_owned()
}

} // verus!
