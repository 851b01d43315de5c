//! What the texts that the library builds are, said of their characters.
use vstd::prelude::*;

#[allow(unused_imports)]
use crate::text::{decimal, leading, views, without_trailing_slashes};

verus! {

/// The number that a row of decimal digits denotes.
pub open spec fn denoted(digits: Seq<char>) -> int
    decreases digits.len(),
{
    if digits.len() == 0 {
        0
    } else {
        10 * denoted(digits.drop_last()) + (digits.last() as int - '0' as int)
    }
}

/// A decimal number consists of digits, denotes its number, and has no zero in front unless it is
/// zero.
pub proof fn law_decimals_denote_their_number(n: nat)
    ensures
        denoted(decimal(n)) == n,
        decimal(n).len() > 0,
        forall|i: int|
            0 <= i < decimal(n).len() ==> '0' as int <= (#[trigger] decimal(n)[i]) as int
                <= '9' as int,
        n > 0 ==> decimal(n)[0] != '0',
        n == 0 ==> decimal(n) == seq!['0'],
    decreases n,
{
    reveal_with_fuel(denoted, 2);
    if n < 10 {
        assert(decimal(n).drop_last() =~= Seq::empty());
        assert(decimal(n).last() as int == '0' as int + n);
    } else {
        let front = decimal(n / 10);
        law_decimals_denote_their_number(n / 10);
        assert(decimal(n).drop_last() =~= front);
        assert(decimal(n).last() as int == '0' as int + n % 10);
        assert(decimal(n)[0] == front[0]);
        assert forall|i: int| 0 <= i < decimal(n).len() implies '0' as int <= (
        #[trigger] decimal(n)[i]) as int <= '9' as int by {
            if i < front.len() {
                assert(decimal(n)[i] == front[i]);
            }
        }
    }
}

/// An excerpt is as long as the text and the limit allow, and has the characters that the text
/// begins with.
pub proof fn law_excerpts_begin_their_text(text: Seq<char>, limit: nat)
    ensures
        text.len() <= limit ==> leading(text, limit).len() == text.len(),
        text.len() > limit ==> leading(text, limit).len() == limit,
        forall|i: int| 0 <= i < leading(text, limit).len() ==> leading(text, limit)[i] == text[i],
{
}

/// Trimming takes slashes from the end of a text, nothing else, and leaves none there.
pub proof fn law_trimming_takes_all_trailing_slashes(text: Seq<char>)
    ensures
        without_trailing_slashes(text).len() <= text.len(),
        forall|i: int|
            0 <= i < without_trailing_slashes(text).len() ==> without_trailing_slashes(text)[i]
                == text[i],
        forall|i: int|
            without_trailing_slashes(text).len() <= i < text.len() ==> #[trigger] text[i] == '/',
        without_trailing_slashes(text).len() > 0 ==> without_trailing_slashes(text)[
            without_trailing_slashes(text).len() - 1
        ] != '/',
    decreases text.len(),
{
    if text.len() > 0 && text.last() == '/' {
        law_trimming_takes_all_trailing_slashes(text.drop_last());
        assert forall|i: int|
            without_trailing_slashes(text).len() <= i < text.len() implies #[trigger] text[i]
            == '/' by {
            if i < text.len() - 1 {
                assert(text.drop_last()[i] == '/');
            }
        }
        assert forall|i: int| 0 <= i < without_trailing_slashes(text).len() implies
            without_trailing_slashes(text)[i] == text[i] by {
            assert(text.drop_last()[i] == text[i]);
        }
    }
}

/// The view of a list of strings has the characters of every string, in order.
pub proof fn law_views_keep_every_text(texts: Seq<String>)
    ensures
        views(texts).len() == texts.len(),
        forall|i: int| 0 <= i < texts.len() ==> #[trigger] views(texts)[i] == texts[i]@,
{
}

} // verus!
