//! Numbers as the report writes them: unsigned counts and decimal values.

use vstd::prelude::*;
use vstd::slice::slice_subrange;

verus! {

/// Whether `c` is a decimal digit.
pub open spec fn digit(c: char) -> bool {
    '0' <= c <= '9'
}

/// Whether `c` is a plus or a minus sign.
pub open spec fn sign(c: char) -> bool {
    c == '+' || c == '-'
}

/// Whether `text` holds decimal digits and nothing else.
pub open spec fn all_digits(text: Seq<char>) -> bool {
    forall|i: int| 0 <= i < text.len() ==> digit(#[trigger] text[i])
}

/// The number that a decimal digit stands for.
pub open spec fn digit_value(c: char) -> nat {
    (c as int - '0' as int) as nat
}

/// The number that a run of decimal digits writes, the empty run writing zero.
pub open spec fn decimal_value(digits: Seq<char>) -> nat
    decreases digits.len(),
{
    if digits.len() == 0 {
        0
    } else {
        10 * decimal_value(digits.drop_last()) + digit_value(digits.last())
    }
}

/// The digits of a token that writes a count: the token itself, or what
/// follows its leading plus sign.
pub open spec fn count_digits(token: Seq<char>) -> Seq<char> {
    if token.len() > 0 && token[0] == '+' {
        token.skip(1)
    } else {
        token
    }
}

/// The count that `token` writes: one or more decimal digits, after an
/// optional plus sign, whose value fits the machine's word. Any other token
/// writes none.
pub open spec fn count_of(token: Seq<char>) -> Option<usize> {
    let digits = count_digits(token);
    if digits.len() > 0 && all_digits(digits) && decimal_value(digits) <= usize::MAX {
        Some(decimal_value(digits) as usize)
    } else {
        None
    }
}

/// A run of digits is worth at least as much as any run it starts with.
proof fn lemma_decimal_value_grows(digits: Seq<char>, k: int)
    requires
        0 <= k <= digits.len(),
    ensures
        decimal_value(digits.take(k)) <= decimal_value(digits),
    decreases digits.len() - k,
{
    if k == digits.len() {
        assert(digits.take(k) == digits);
    } else {
        lemma_decimal_value_grows(digits, k + 1);
        assert(digits.take(k + 1).drop_last() == digits.take(k));
    }
}

/// Reads the count that `token` writes.
pub fn parse_count(token: &[char]) -> (r: Option<usize>)
    ensures
        r == count_of(token@),
{
    let n = token.len();
    let first: usize = if n > 0 && token[0] == '+' {
        1
    } else {
        0
    };
    if first == n {
        return None;
    }
    let ghost digits = count_digits(token@);
    let mut value: usize = 0;
    let mut i: usize = first;
    while i < n
        invariant
            first <= i <= n,
            n == token.len(),
            digits == count_digits(token@),
            digits == token@.skip(first as int),
            all_digits(digits.take(i - first)),
            value == decimal_value(digits.take(i - first)),
        decreases n - i,
    {
        let c = token[i];
        let ghost k = i - first;
        proof {
            assert(digits[k] == c);
            assert(digits.take(k + 1).drop_last() == digits.take(k));
            assert(digits.take(k + 1).last() == c);
        }
        if !('0' <= c && c <= '9') {
            assert(!digit(digits[k]));
            return None;
        }
        let d: usize = (c as u32 - '0' as u32) as usize;
        proof {
            assert(d == digit_value(c));
            assert(decimal_value(digits.take(k + 1)) == 10 * value + d);
            lemma_decimal_value_grows(digits, k + 1);
        }
        let tens = match value.checked_mul(10) {
            Some(t) => t,
            None => {
                return None;
            },
        };
        value = match tens.checked_add(d) {
            Some(v) => v,
            None => {
                return None;
            },
        };
        i = i + 1;
    }
    proof {
        assert(digits.take(i - first) == digits);
    }
    Some(value)
}

/// The lower-case form of a capital letter of the basic Latin alphabet; any
/// other character is its own.
pub open spec fn lower_case(c: char) -> char {
    if 'A' <= c <= 'Z' {
        ((c as u8) + 32) as char
    } else {
        c
    }
}

/// Whether `text` spells the lower-case `word`, in capitals, small letters or
/// a mixture of them.
pub open spec fn spells(text: Seq<char>, word: Seq<char>) -> bool {
    &&& text.len() == word.len()
    &&& forall|i: int| 0 <= i < text.len() ==> lower_case(#[trigger] text[i]) == word[i]
}

/// Whether `text` names one of the values that no digits write: an infinity or
/// the value that is not a number.
pub open spec fn special_value(text: Seq<char>) -> bool {
    spells(text, "inf"@) || spells(text, "infinity"@) || spells(text, "nan"@)
}

/// Where the run of decimal digits ends that starts at `from` in `text`.
pub open spec fn digits_end(text: Seq<char>, from: int) -> int
    decreases text.len() - from,
{
    if 0 <= from < text.len() && digit(text[from]) {
        digits_end(text, from + 1)
    } else {
        from
    }
}

/// Whether `text` is an exponent: the letter e, small or capital, then an
/// optional sign, then one or more digits.
pub open spec fn exponent(text: Seq<char>) -> bool {
    &&& text.len() >= 2
    &&& text[0] == 'e' || text[0] == 'E'
    &&& {
        let digits = if sign(text[1]) {
            text.skip(2)
        } else {
            text.skip(1)
        };
        digits.len() > 0 && all_digits(digits)
    }
}

/// Whether `text` is a decimal number: digits, a point at most once before,
/// among or after them, at least one digit in all, and at the end optionally
/// an exponent.
pub open spec fn decimal_number(text: Seq<char>) -> bool {
    let whole = digits_end(text, 0);
    let fraction = if whole < text.len() && text[whole] == '.' {
        whole + 1
    } else {
        whole
    };
    let end = digits_end(text, fraction);
    &&& whole + (end - fraction) > 0
    &&& end == text.len() || exponent(text.skip(end))
}

/// What is left of a token without its leading sign, if it has one.
pub open spec fn unsigned_part(token: Seq<char>) -> Seq<char> {
    if token.len() > 0 && sign(token[0]) {
        token.skip(1)
    } else {
        token
    }
}

/// Whether `token` writes a floating-point value: an optional sign before a
/// decimal number or the name of a special value.
pub open spec fn float_literal(token: Seq<char>) -> bool {
    let body = unsigned_part(token);
    special_value(body) || decimal_number(body)
}

/// Tells whether `text` spells `word`, whatever the case of its letters.
fn is_spelling_of(text: &[char], word: &str) -> (r: bool)
    ensures
        r == spells(text@, word@),
{
    let n = word.unicode_len();
    if text.len() != n {
        return false;
    }
    let mut i: usize = 0;
    while i < n
        invariant
            i <= n,
            n == word@.len(),
            n == text@.len(),
            forall|j: int| 0 <= j < i ==> lower_case(#[trigger] text@[j]) == word@[j],
        decreases n - i,
    {
        let c = text[i];
        let lower = if 'A' <= c && c <= 'Z' {
            ((c as u8) + 32) as char
        } else {
            c
        };
        if lower != word.get_char(i) {
            assert(lower_case(text@[i as int]) != word@[i as int]);
            return false;
        }
        i = i + 1;
    }
    true
}

/// Finds the end of the run of digits that starts at `from`.
fn digits_until(text: &[char], from: usize) -> (end: usize)
    requires
        from <= text.len(),
    ensures
        end == digits_end(text@, from as int),
        from <= end <= text.len(),
        all_digits(text@.subrange(from as int, end as int)),
        end < text.len() ==> !digit(text@[end as int]),
{
    let mut end: usize = from;
    while end < text.len() && '0' <= text[end] && text[end] <= '9'
        invariant
            from <= end <= text.len(),
            digits_end(text@, from as int) == digits_end(text@, end as int),
            all_digits(text@.subrange(from as int, end as int)),
        decreases text.len() - end,
    {
        end = end + 1;
    }
    end
}

/// Tells whether `text` is an exponent.
fn is_exponent(text: &[char]) -> (r: bool)
    ensures
        r == exponent(text@),
{
    let n = text.len();
    if n < 2 || !(text[0] == 'e' || text[0] == 'E') {
        return false;
    }
    let first: usize = if text[1] == '+' || text[1] == '-' {
        2
    } else {
        1
    };
    let end = digits_until(text, first);
    proof {
        let digits = text@.skip(first as int);
        if end == n {
            assert(digits == text@.subrange(first as int, end as int));
        } else {
            assert(!digit(digits[end - first]));
        }
    }
    first < n && end == n
}

/// Tells whether `text` is a decimal number.
fn is_decimal_number(text: &[char]) -> (r: bool)
    ensures
        r == decimal_number(text@),
{
    let n = text.len();
    let whole = digits_until(text, 0);
    let fraction: usize = if whole < n && text[whole] == '.' {
        whole + 1
    } else {
        whole
    };
    let end = digits_until(text, fraction);
    if whole + (end - fraction) == 0 {
        return false;
    }
    if end == n {
        return true;
    }
    let tail = slice_subrange(text, end, n);
    proof {
        assert(tail@ == text@.skip(end as int));
    }
    is_exponent(tail)
}

/// Tells whether `token` writes a floating-point value.
pub fn is_float_literal(token: &[char]) -> (r: bool)
    ensures
        r == float_literal(token@),
{
    let n = token.len();
    let first: usize = if n > 0 && (token[0] == '+' || token[0] == '-') {
        1
    } else {
        0
    };
    let body = slice_subrange(token, first, n);
    proof {
        assert(body@ == unsigned_part(token@));
    }
    is_spelling_of(body, "inf") || is_spelling_of(body, "infinity") || is_spelling_of(body, "nan")
        || is_decimal_number(body)
}

/// The character that writes the digit `d`.
pub open spec fn digit_char(d: nat) -> char {
    ('0' as nat + d) as char
}

/// The decimal digits that write `n`, without leading zeros.
pub open spec fn decimal_digits(n: nat) -> Seq<char>
    decreases n,
{
    if n < 10 {
        seq![digit_char(n)]
    } else {
        decimal_digits(n / 10).push(digit_char(n % 10))
    }
}

/// The text of one decimal digit.
fn digit_text(d: usize) -> (r: &'static str)
    requires
        d < 10,
    ensures
        r@ == seq![digit_char(d as nat)],
{
    proof {
        reveal_strlit("0");
        reveal_strlit("1");
        reveal_strlit("2");
        reveal_strlit("3");
        reveal_strlit("4");
        reveal_strlit("5");
        reveal_strlit("6");
        reveal_strlit("7");
        reveal_strlit("8");
        reveal_strlit("9");
    }
    let r = match d {
        0 => "0",
        1 => "1",
        2 => "2",
        3 => "3",
        4 => "4",
        5 => "5",
        6 => "6",
        7 => "7",
        8 => "8",
        _ => "9",
    };
    assert(r@ =~= seq![digit_char(d as nat)]);
    r
}

/// Writes `n` in decimal digits at the end of `text`.
pub fn append_count(text: &mut String, n: usize)
    ensures
        final(text)@ == old(text)@ + decimal_digits(n as nat),
    decreases n,
{
    if n >= 10 {
        append_count(text, n / 10);
    }
    text.append(digit_text(n % 10));
    proof {
        assert(final(text)@ =~= old(text)@ + decimal_digits(n as nat));
    }
}

} // verus!
