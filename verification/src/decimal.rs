//! Decimal notation for counts.
use vstd::prelude::*;

verus! {

/// The character that writes the digit `d`, for `d` below ten.
pub open spec fn digit_char(d: u64) -> char {
    if d == 0 {
        '0'
    } else if d == 1 {
        '1'
    } else if d == 2 {
        '2'
    } else if d == 3 {
        '3'
    } else if d == 4 {
        '4'
    } else if d == 5 {
        '5'
    } else if d == 6 {
        '6'
    } else if d == 7 {
        '7'
    } else if d == 8 {
        '8'
    } else {
        '9'
    }
}

/// Whether `c` is one of the ten decimal digits.
pub open spec fn is_digit(c: char) -> bool {
    '0' <= c && c <= '9'
}

/// The number a digit character stands for.
pub open spec fn digit_value(c: char) -> nat {
    (c as int - '0' as int) as nat
}

/// `n` in decimal notation: most significant digit first, no sign, no
/// padding, and a single `0` for zero.
pub open spec fn decimal_text(n: u64) -> Seq<char>
    decreases n,
{
    if n < 10 {
        seq![digit_char(n)]
    } else {
        decimal_text(n / 10).push(digit_char(n % 10))
    }
}

/// The number that a run of digits denotes, read most significant digit
/// first.
pub open spec fn decimal_value(text: Seq<char>) -> nat
    decreases text.len(),
{
    if text.len() == 0 {
        0
    } else {
        10 * decimal_value(text.drop_last()) + digit_value(text.last())
    }
}

/// The character for one decimal digit.
pub fn digit(d: u64) -> (c: char)
    requires
        d < 10,
    ensures
        c == digit_char(d),
        is_digit(c),
        digit_value(c) == d,
{
    match d {
        0 => '0',
        1 => '1',
        2 => '2',
        3 => '3',
        4 => '4',
        5 => '5',
        6 => '6',
        7 => '7',
        8 => '8',
        _ => '9',
    }
}

/// Appends `n` in decimal notation to `out`.
pub fn append_decimal(out: &mut String, n: u64)
    ensures
        final(out)@ == old(out)@ + decimal_text(n),
    decreases n,
{
    if n >= 10 {
        append_decimal(out, n / 10);
    }
    out.push(digit(n % 10));
}

/// Decimal notation is never empty and holds digits only.
pub proof fn lemma_decimal_text_digits(n: u64)
    ensures
        decimal_text(n).len() >= 1,
        forall|i: int| 0 <= i < decimal_text(n).len() ==> is_digit(#[trigger] decimal_text(n)[i]),
    decreases n,
{
    if n >= 10 {
        lemma_decimal_text_digits(n / 10);
    }
}

/// Each digit character stands for the digit it was chosen for.
pub proof fn lemma_digit_char(d: u64)
    requires
        d < 10,
    ensures
        is_digit(digit_char(d)),
        digit_value(digit_char(d)) == d,
{
}

/// Reading decimal notation back gives the number it was written from.
pub proof fn lemma_decimal_value(n: u64)
    ensures
        decimal_value(decimal_text(n)) == n,
    decreases n,
{
    let text = decimal_text(n);
    lemma_digit_char(n % 10);
    if n >= 10 {
        lemma_decimal_value(n / 10);
        assert(text.drop_last() == decimal_text(n / 10));
        assert(text.last() == digit_char(n % 10));
    } else {
        assert(text.drop_last() == Seq::<char>::empty());
        assert(text.last() == digit_char(n));
        assert(decimal_value(text.drop_last()) == 0);
    }
}

/// Different numbers are written differently.
pub proof fn lemma_decimal_text_injective(a: u64, b: u64)
    requires
        decimal_text(a) == decimal_text(b),
    ensures
        a == b,
{
    lemma_decimal_value(a);
    lemma_decimal_value(b);
}

/// Whether `text` is the decimal notation of `n`: digits only, at least
/// one, no zero in front of another digit, and `n` for value.
pub open spec fn is_decimal_of(text: Seq<char>, n: u64) -> bool {
    &&& text.len() >= 1
    &&& forall|i: int| 0 <= i < text.len() ==> is_digit(#[trigger] text[i])
    &&& text.len() > 1 ==> text[0] != '0'
    &&& decimal_value(text) == n
}

/// Digits that do not start with a zero denote at least one.
proof fn lemma_decimal_value_positive(text: Seq<char>)
    requires
        text.len() >= 1,
        forall|i: int| 0 <= i < text.len() ==> is_digit(#[trigger] text[i]),
        text[0] != '0',
    ensures
        decimal_value(text) >= 1,
    decreases text.len(),
{
    let front = text.drop_last();
    if front.len() > 0 {
        assert(front[0] == text[0]);
        assert forall|i: int| 0 <= i < front.len() implies is_digit(#[trigger] front[i]) by {
            assert(front[i] == text[i]);
        }
        lemma_decimal_value_positive(front);
    } else {
        assert(text.last() == text[0]);
        assert(is_digit(text[0]));
    }
}

/// What `decimal_text` writes is the decimal notation of the number.
pub proof fn lemma_decimal_text_is_decimal(n: u64)
    ensures
        is_decimal_of(decimal_text(n), n),
    decreases n,
{
    lemma_decimal_text_digits(n);
    lemma_decimal_value(n);
    if n >= 10 {
        lemma_decimal_text_is_decimal(n / 10);
        lemma_decimal_value(n / 10);
        let front = decimal_text(n / 10);
        assert(decimal_text(n)[0] == front[0]);
        if front.len() == 1 {
            assert(front.drop_last() == Seq::<char>::empty());
            assert(decimal_value(front.drop_last()) == 0);
            assert(front.last() == front[0]);
        }
    }
}

/// A number has one decimal notation, and `decimal_text` writes it.
pub proof fn lemma_decimal_unique(text: Seq<char>, n: u64)
    requires
        is_decimal_of(text, n),
    ensures
        text == decimal_text(n),
    decreases text.len(),
{
    let front = text.drop_last();
    let last = text.last();
    assert(is_digit(last));
    assert(digit_char(digit_value(last) as u64) == last);
    assert(text == front.push(last));
    if front.len() == 0 {
        assert(decimal_value(front) == 0);
    } else {
        assert(front[0] == text[0]);
        assert forall|i: int| 0 <= i < front.len() implies is_digit(#[trigger] front[i]) by {
            assert(front[i] == text[i]);
        }
        lemma_decimal_value_positive(front);
        lemma_decimal_unique(front, (n / 10) as u64);
    }
}

} // verus!
