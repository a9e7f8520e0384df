//! Text that is shown to people: numbers in decimal and strings in debug notation.

use vstd::prelude::*;

verus! {

/// A verification code.
pub type CodeType = u16;

/// The texts of a list of strings.
pub open spec fn texts(strings: Seq<String>) -> Seq<Seq<char>> {
    strings.map_values(|string: String| string@)
}

/// The character of a decimal digit.
pub open spec fn digit(d: nat) -> char {
    (48 + d) as char
}

/// `n` in decimal, without leading zeros.
pub open spec fn decimal(n: nat) -> Seq<char>
    decreases n,
{
    if n < 10 {
        seq![digit(n)]
    } else {
        decimal(n / 10).push(digit(n % 10))
    }
}

/// `c` is one of the characters from `0` to `9`.
pub open spec fn is_digit(c: char) -> bool {
    '0' <= c <= '9'
}

/// What [`format!`] with `{:?}` makes of a string.
pub uninterp spec fn debug_of_str(text: Seq<char>) -> Seq<char>;

/// `text` in debug notation.
///
/// Calls the `Debug` impl of `str` in std, whose result is a function of the text alone and is
/// given a name here; nothing is claimed of the escapes that it chooses.
#[verifier::external_body]
pub(crate) fn debug_str(text: &str) -> (result: String)
    ensures
        result@ == debug_of_str(text@),
{
    format!("{:?}", text)
}

/// A decimal number has a digit at each place, and a 16-bit one at most five places.
pub proof fn lemma_decimal_digits(n: nat)
    ensures
        decimal(n).len() >= 1,
        forall|i: int| 0 <= i < decimal(n).len() ==> is_digit(#[trigger] decimal(n)[i]),
        n < 10 ==> decimal(n).len() == 1,
        n < 100 ==> decimal(n).len() <= 2,
        n < 1000 ==> decimal(n).len() <= 3,
        n < 10000 ==> decimal(n).len() <= 4,
        n < 100000 ==> decimal(n).len() <= 5,
    decreases n,
{
    if n >= 10 {
        lemma_decimal_digits(n / 10);
    }
}

/// Two numbers that read alike in decimal are the same number.
pub proof fn law_decimal_is_injective(m: nat, n: nat)
    requires
        decimal(m) == decimal(n),
    ensures
        m == n,
    decreases m,
{
    lemma_decimal_digits(m);
    lemma_decimal_digits(n);
    assert(decimal(m).last() == digit(m % 10));
    assert(decimal(n).last() == digit(n % 10));
    assert(m % 10 == n % 10);
    if m >= 10 && n >= 10 {
        assert(decimal(m).drop_last() =~= decimal(m / 10));
        assert(decimal(n).drop_last() =~= decimal(n / 10));
        law_decimal_is_injective(m / 10, n / 10);
    } else if m >= 10 {
        lemma_decimal_digits(m / 10);
    } else if n >= 10 {
        lemma_decimal_digits(n / 10);
    }
}

/// A number in decimal, read in base ten from left to right, is the number. It has only digits, and
/// no leading zero but that of zero itself.
pub proof fn law_decimal_reads_back(n: nat)
    ensures
        decimal(n).fold_left(
            0int,
            |value: int, c: char| 10 * value + (c as int - '0' as int),
        ) == n,
        forall|i: int| 0 <= i < decimal(n).len() ==> '0' <= #[trigger] decimal(n)[i] <= '9',
        decimal(n).len() > 0,
        decimal(n)[0] == '0' ==> n == 0 && decimal(n).len() == 1,
    decreases n,
{
    let read = |value: int, c: char| 10 * value + (c as int - '0' as int);
    lemma_decimal_digits(n);
    if n < 10 {
        assert(decimal(n).drop_last() =~= Seq::<char>::empty());
        assert(decimal(n).drop_last().fold_left(0int, read) == 0);
    } else {
        law_decimal_reads_back(n / 10);
        assert(decimal(n).drop_last() =~= decimal(n / 10));
        assert(decimal(n)[0] == decimal(n / 10)[0]);
    }
}

/// The texts of a list are those of its strings, one by one.
pub proof fn law_texts_are_of_the_strings(strings: Seq<String>)
    ensures
        texts(strings).len() == strings.len(),
        forall|i: int| 0 <= i < strings.len() ==> #[trigger] texts(strings)[i] == strings[i]@,
{
}

/// The text of one digit.
fn digit_text(d: u16) -> (result: &'static str)
    requires
        d < 10,
    ensures
        result@ == seq![digit(d as nat)],
{
    proof {
        reveal_strlit("0");
        reveal_strlit("1");
        reveal_strlit("2");
        reveal_strlit("3");
        reveal_strlit("4");
        reveal_strlit("5");
        reveal_strlit("6");
        reveal_strlit("7");
        reveal_strlit("8");
        reveal_strlit("9");
    }
    if d == 0 {
        "0"
    } else if d == 1 {
        "1"
    } else if d == 2 {
        "2"
    } else if d == 3 {
        "3"
    } else if d == 4 {
        "4"
    } else if d == 5 {
        "5"
    } else if d == 6 {
        "6"
    } else if d == 7 {
        "7"
    } else if d == 8 {
        "8"
    } else {
        "9"
    }
}

/// A code in decimal, as it stands in a mail.
pub fn code_text(code: CodeType) -> (result: String)
    ensures
        result@ == decimal(code as nat),
        result@.fold_left(
            0int,
            |value: int, c: char| 10 * value + (c as int - '0' as int),
        ) == code,
    decreases code,
{
    proof {
        law_decimal_reads_back(code as nat);
    }
    if code < 10 {
        digit_text(code).to_owned()
    } else {
        let mut result = code_text(code / 10);
        result.append(digit_text(code % 10));
        result
    }
}

} // verus!
