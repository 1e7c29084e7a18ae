//! The textual form of a version: decimal digits, dot-delimited fields,
//! and the verified helpers that read and write them.
//!
//! The spec model is small: [`digits_value`] gives the number a digit
//! string denotes, [`digits_of`] gives the digit string of a number,
//! [`dot_from`] gives the position of the next `.` in a string, and
//! [`parse_part`] says which [`VersionPart`] a single dot-delimited field
//! denotes.

use vstd::prelude::*;

use crate::VersionPart;

verus! {

/// Whether `c` is a decimal digit.
pub open spec fn is_digit(c: char) -> bool {
    digit_value(c) >= 0
}

/// The value of a decimal digit, or `-1` for any other character.
pub open spec fn digit_value(c: char) -> int {
    if c == '0' {
        0
    } else if c == '1' {
        1
    } else if c == '2' {
        2
    } else if c == '3' {
        3
    } else if c == '4' {
        4
    } else if c == '5' {
        5
    } else if c == '6' {
        6
    } else if c == '7' {
        7
    } else if c == '8' {
        8
    } else if c == '9' {
        9
    } else {
        -1
    }
}

/// The decimal digit for a value `d` with `0 <= d <= 9`.
pub open spec fn digit_char(d: int) -> char {
    if d == 0 {
        '0'
    } else if d == 1 {
        '1'
    } else if d == 2 {
        '2'
    } else if d == 3 {
        '3'
    } else if d == 4 {
        '4'
    } else if d == 5 {
        '5'
    } else if d == 6 {
        '6'
    } else if d == 7 {
        '7'
    } else if d == 8 {
        '8'
    } else {
        '9'
    }
}

/// Whether every character of `s` is a decimal digit.
pub open spec fn is_digit_seq(s: Seq<char>) -> bool {
    forall|i: int| 0 <= i < s.len() ==> is_digit(s[i])
}

/// The number that the digit string `s` denotes, read most significant
/// digit first; meaningful only when `s` is all digits.
pub open spec fn digits_value(s: Seq<char>) -> int
    decreases s.len(),
{
    if s.len() == 0 {
        0
    } else {
        digits_value(s.drop_last()) * 10 + digit_value(s.last())
    }
}

/// The decimal digit string of `n`, without a sign and without leading
/// zeros (a single `0` for zero).
pub open spec fn digits_of(n: int) -> Seq<char>
    recommends
        n >= 0,
    decreases n,
{
    if n < 10 {
        seq![digit_char(n)]
    } else {
        digits_of(n / 10).push(digit_char(n % 10))
    }
}

/// The position of the first `.` in `s` at or after `i`, or `s.len()`
/// where there is none.
pub open spec fn dot_from(s: Seq<char>, i: int) -> int
    recommends
        0 <= i <= s.len(),
    decreases s.len() - i,
{
    if i < 0 || i >= s.len() {
        s.len() as int
    } else if s[i] == '.' {
        i
    } else {
        dot_from(s, i + 1)
    }
}

/// The component that the dot-delimited field `s` denotes: a number where
/// `s` is one or more digits whose value fits in `usize`, and a wildcard
/// otherwise (empty field, any non-digit character, or a value too large).
pub open spec fn parse_part(s: Seq<char>) -> VersionPart {
    if s.len() > 0 && is_digit_seq(s) && digits_value(s) <= usize::MAX {
        VersionPart::Num(digits_value(s) as usize)
    } else {
        VersionPart::Wildcard
    }
}

/// The textual form of one component: the decimal digits of a number, or
/// a single `*` for a wildcard.
pub open spec fn part_chars(p: VersionPart) -> Seq<char> {
    match p {
        VersionPart::Num(n) => digits_of(n as int),
        VersionPart::Wildcard => seq!['*'],
    }
}

/// A digit string denotes a non-negative number.
pub proof fn lemma_digits_value_nonneg(s: Seq<char>)
    requires
        is_digit_seq(s),
    ensures
        digits_value(s) >= 0,
    decreases s.len(),
{
    if s.len() > 0 {
        assert(is_digit_seq(s.drop_last()));
        lemma_digits_value_nonneg(s.drop_last());
    }
}

/// The digit string of a number is non-empty and all digits.
pub proof fn lemma_digits_of_digits(n: int)
    requires
        n >= 0,
    ensures
        digits_of(n).len() >= 1,
        is_digit_seq(digits_of(n)),
    decreases n,
{
    if n >= 10 {
        lemma_digits_of_digits(n / 10);
        let t = digits_of(n / 10);
        let c = digit_char(n % 10);
        assert(forall|i: int| 0 <= i < t.push(c).len() ==> is_digit(#[trigger] t.push(c)[i]));
    }
}

/// Reading the digit string of a number back gives the number: the two
/// directions of the decimal notation are inverse to one another.
pub proof fn lemma_digits_of_value(n: int)
    requires
        n >= 0,
    ensures
        digits_value(digits_of(n)) == n,
    decreases n,
{
    if n < 10 {
        let s = digits_of(n);
        assert(s =~= seq![digit_char(n)]);
        assert(s.drop_last() =~= Seq::<char>::empty());
        assert(digits_value(s.drop_last()) == 0);
        assert(s.last() == digit_char(n));
        assert(digit_value(digit_char(n)) == n);
    } else {
        lemma_digits_of_value(n / 10);
        let t = digits_of(n / 10);
        let c = digit_char(n % 10);
        assert(t.push(c).drop_last() =~= t);
        assert(t.push(c).last() == c);
        assert(digit_value(c) == n % 10);
        assert(digits_value(t.push(c)) == (n / 10) * 10 + n % 10);
        assert(n / 10 * 10 + n % 10 == n) by (nonlinear_arith);
    }
}

/// `dot_from` finds exactly the dot that is there: where no character of
/// `s` in `[i, j)` is a `.` and `j` is the length of `s` or the position
/// of a `.`, the first dot at or after `i` is at `j`.
pub proof fn lemma_dot_from_found(s: Seq<char>, i: int, j: int)
    requires
        0 <= i <= j <= s.len(),
        forall|k: int| i <= k < j ==> s[k] != '.',
        j == s.len() || s[j] == '.',
    ensures
        dot_from(s, i) == j,
    decreases j - i,
{
    if i < j {
        lemma_dot_from_found(s, i + 1, j);
    }
}

/// The value that a decimal digit character denotes, or nothing for any
/// other character.
pub(crate) fn digit_of(c: char) -> (r: Option<usize>)
    ensures
        r == (if is_digit(c) {
            Some(digit_value(c) as usize)
        } else {
            None::<usize>
        }),
{
    if c == '0' {
        Some(0)
    } else if c == '1' {
        Some(1)
    } else if c == '2' {
        Some(2)
    } else if c == '3' {
        Some(3)
    } else if c == '4' {
        Some(4)
    } else if c == '5' {
        Some(5)
    } else if c == '6' {
        Some(6)
    } else if c == '7' {
        Some(7)
    } else if c == '8' {
        Some(8)
    } else if c == '9' {
        Some(9)
    } else {
        None
    }
}

/// The position of the first `.` in `s` at or after `from`, or the length
/// of `s` where there is none.
pub(crate) fn find_dot(s: &str, from: usize) -> (r: usize)
    requires
        from <= s@.len(),
    ensures
        r == dot_from(s@, from as int),
        from <= r <= s@.len(),
        r < s@.len() ==> s@[r as int] == '.',
{
    let len = s.unicode_len();
    let mut i = from;
    while i < len
        invariant
            from <= i <= len,
            len == s@.len(),
            dot_from(s@, from as int) == dot_from(s@, i as int),
        decreases len - i,
    {
        let c = s.get_char(i);
        if c == '.' {
            return i;
        }
        i = i + 1;
    }
    i
}

/// The component that the field `s[start .. end]` denotes, as
/// [`parse_part`] describes it.
pub(crate) fn parse_component(s: &str, start: usize, end: usize) -> (r: VersionPart)
    requires
        start <= end <= s@.len(),
    ensures
        r == parse_part(s@.subrange(start as int, end as int)),
{
    let ghost whole = s@.subrange(start as int, end as int);
    let mut i = start;
    let mut val: usize = 0;
    let mut all_digits = true;
    let mut overflow = false;
    while i < end
        invariant
            start <= i <= end <= s@.len(),
            all_digits == is_digit_seq(s@.subrange(start as int, i as int)),
            all_digits && !overflow ==> val == digits_value(
                s@.subrange(start as int, i as int),
            ),
            all_digits && overflow ==> digits_value(s@.subrange(start as int, i as int))
                > usize::MAX,
        decreases end - i,
    {
        let ghost pre = s@.subrange(start as int, i as int);
        let c = s.get_char(i);
        proof {
            assert(s@.subrange(start as int, i + 1) =~= pre.push(c));
            assert(pre.push(c).drop_last() =~= pre);
        }
        match digit_of(c) {
            Some(d) => {
                if !overflow {
                    proof {
                        if all_digits {
                            lemma_digits_value_nonneg(pre);
                        }
                    }
                    match val.checked_mul(10) {
                        Some(v10) => match v10.checked_add(d) {
                            Some(v) => {
                                val = v;
                            },
                            None => {
                                overflow = true;
                            },
                        },
                        None => {
                            overflow = true;
                        },
                    }
                }
            },
            None => {
                all_digits = false;
                proof {
                    assert(!is_digit(pre.push(c)[pre.len() as int]));
                }
            },
        }
        i = i + 1;
    }
    if end > start && all_digits && !overflow {
        VersionPart::Num(val)
    } else {
        VersionPart::Wildcard
    }
}

/// The one-character string for a decimal digit value.
fn digit_str(d: usize) -> (r: &'static str)
    requires
        d < 10,
    ensures
        r@ == seq![digit_char(d as int)],
{
    let r: &'static str = if d == 0 {
        "0"
    } else if d == 1 {
        "1"
    } else if d == 2 {
        "2"
    } else if d == 3 {
        "3"
    } else if d == 4 {
        "4"
    } else if d == 5 {
        "5"
    } else if d == 6 {
        "6"
    } else if d == 7 {
        "7"
    } else if d == 8 {
        "8"
    } else {
        "9"
    };
    proof {
        reveal_strlit("0");
        reveal_strlit("1");
        reveal_strlit("2");
        reveal_strlit("3");
        reveal_strlit("4");
        reveal_strlit("5");
        reveal_strlit("6");
        reveal_strlit("7");
        reveal_strlit("8");
        reveal_strlit("9");
        assert(r@ =~= seq![digit_char(d as int)]);
    }
    r
}

/// Appends the decimal digit string of `n` to `out`.
pub(crate) fn push_digits(out: &mut String, n: usize)
    ensures
        final(out)@ == old(out)@ + digits_of(n as int),
    decreases n,
{
    if n >= 10 {
        push_digits(out, n / 10);
    }
    let d = n % 10;
    out.append(digit_str(d));
    proof {
        if n < 10 {
            assert(old(out)@ + seq![digit_char(n as int)] =~= old(out)@ + digits_of(n as int));
        } else {
            assert(n as int % 10 == d);
            assert((old(out)@ + digits_of(n as int / 10)) + seq![digit_char(d as int)] =~= old(
                out,
            )@ + digits_of(n as int));
        }
    }
}

/// Appends the textual form of one component to `out`: the decimal digits
/// of a number, or a single `*` for a wildcard.
pub(crate) fn push_part(out: &mut String, p: &VersionPart)
    ensures
        final(out)@ == old(out)@ + part_chars(*p),
{
    match p {
        VersionPart::Num(n) => {
            push_digits(out, *n);
        },
        VersionPart::Wildcard => {
            out.append("*");
            proof {
                reveal_strlit("*");
                assert(old(out)@ + "*"@ =~= old(out)@ + part_chars(*p));
            }
        },
    }
}

} // verus!
