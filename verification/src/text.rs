//! Verified decimal text handling: the string-to-number coercion the wire
//! format demands, and its inverse for building wire records.

use vstd::prelude::*;

verus! {

/// The character for a single decimal digit value.
pub open spec fn digit_char(d: int) -> char {
    if d == 0 {
        '0'
    } else if d == 1 {
        '1'
    } else if d == 2 {
        '2'
    } else if d == 3 {
        '3'
    } else if d == 4 {
        '4'
    } else if d == 5 {
        '5'
    } else if d == 6 {
        '6'
    } else if d == 7 {
        '7'
    } else if d == 8 {
        '8'
    } else {
        '9'
    }
}

/// The decimal digit value of a character, when it is a digit.
pub open spec fn char_digit(c: char) -> int {
    c as int - 48
}

/// Whether a character is a decimal digit.
pub open spec fn is_digit(c: char) -> bool {
    48 <= c as int <= 57
}

/// Whether a character sequence consists of decimal digits only.
pub open spec fn all_digits(s: Seq<char>) -> bool {
    forall|i: int| 0 <= i < s.len() ==> is_digit(#[trigger] s[i])
}

/// The number a digit sequence denotes, most significant digit first.
pub open spec fn digits_value(s: Seq<char>) -> int
    decreases s.len(),
{
    if s.len() == 0 {
        0
    } else {
        digits_value(s.drop_last()) * 10 + char_digit(s.last())
    }
}

/// The canonical decimal digit sequence of a nonnegative number: no sign,
/// and no leading zero except for zero itself.
pub open spec fn decimal_chars(n: int) -> Seq<char>
    decreases n,
{
    if n <= 0 {
        seq![digit_char(0)]
    } else if n < 10 {
        seq![digit_char(n)]
    } else {
        decimal_chars(n / 10).push(digit_char(n % 10))
    }
}

/// Whether a character sequence is a well-formed decimal numeral for a
/// value that fits in a `u64`: nonempty, digits only (leading zeros
/// allowed), value at most `u64::MAX`.
pub open spec fn is_u64_numeral(s: Seq<char>) -> bool {
    s.len() > 0 && all_digits(s) && digits_value(s) <= u64::MAX
}

/// A longer digit string never denotes a smaller number: appending digits
/// cannot shrink the value below any bound it already exceeds.
proof fn lemma_digits_value_monotone_prefix(s: Seq<char>, n: int)
    requires
        0 <= n <= s.len(),
        all_digits(s),
    ensures
        digits_value(s) >= digits_value(s.take(n)),
    decreases s.len() - n,
{
    if n == s.len() {
        assert(s.take(n) =~= s);
    } else {
        lemma_digits_value_monotone_prefix(s, n + 1);
        let t = s.take(n + 1);
        assert(t.drop_last() =~= s.take(n));
        assert(is_digit(s[n]));
        assert(digits_value(t) == digits_value(s.take(n)) * 10 + char_digit(s[n]));
        lemma_digits_value_nonneg(s.take(n));
    }
}

/// A digit sequence denotes a nonnegative number.
proof fn lemma_digits_value_nonneg(s: Seq<char>)
    requires
        all_digits(s),
    ensures
        digits_value(s) >= 0,
    decreases s.len(),
{
    if s.len() > 0 {
        assert(all_digits(s.drop_last())) by {
            assert(forall|i: int| 0 <= i < s.len() - 1 ==> s.drop_last()[i] == #[trigger] s[i]);
        }
        lemma_digits_value_nonneg(s.drop_last());
    }
}

/// Parses a decimal numeral into a `u64`.
///
/// Returns the denoted value exactly when the text is nonempty, holds
/// digits only, and the value fits; anything else is rejected.
pub fn parse_u64(s: &str) -> (r: Option<u64>)
    ensures
        is_u64_numeral(s@) ==> r == Some(digits_value(s@) as u64),
        !is_u64_numeral(s@) ==> r.is_none(),
{
    let n = s.unicode_len();
    if n == 0 {
        return None;
    }
    let mut acc: u64 = 0;
    let mut i: usize = 0;
    while i < n
        invariant
            n == s@.len(),
            0 < n,
            0 <= i <= n,
            all_digits(s@.take(i as int)),
            acc == digits_value(s@.take(i as int)),
        decreases n - i,
    {
        let c = s.get_char(i);
        let cu = c as u32;
        if !(48 <= cu && cu <= 57) {
            assert(!is_digit(s@[i as int]));
            assert(!all_digits(s@)) by {
                assert(s@[i as int] == s@[i as int]);
            }
            return None;
        }
        let d: u64 = (cu - 48) as u64;
        assert(is_digit(s@[i as int]) && d == char_digit(s@[i as int]));
        if acc > (u64::MAX - d) / 10 {
            proof {
                let t = s@.take(i as int + 1);
                assert(t.drop_last() =~= s@.take(i as int));
                assert(digits_value(t) == acc * 10 + d > u64::MAX);
                if all_digits(s@) {
                    lemma_digits_value_monotone_prefix(s@, i as int + 1);
                    assert(digits_value(s@) > u64::MAX);
                }
            }
            return None;
        }
        assert(acc * 10 + d <= u64::MAX) by (nonlinear_arith)
            requires
                acc <= (u64::MAX - d) / 10,
                d <= 9,
        {}
        acc = acc * 10 + d;
        proof {
            let t = s@.take(i as int + 1);
            assert(t.drop_last() =~= s@.take(i as int));
            assert(t.last() == s@[i as int]);
            assert(all_digits(t));
            assert(acc == digits_value(t));
        }
        i = i + 1;
    }
    proof {
        assert(s@.take(n as int) =~= s@);
    }
    Some(acc)
}

/// Renders a `u64` as its canonical decimal numeral.
pub fn u64_to_string(v: u64) -> (r: String)
    ensures
        r@ == decimal_chars(v as int),
{
    let mut digits: Vec<u8> = Vec::new();
    let mut n: u64 = v;
    if n == 0 {
        let mut out = String::new();
        append_digit(&mut out, 0);
        proof {
            assert(decimal_chars(0) =~= seq![digit_char(0)]);
            assert(out@ =~= seq![digit_char(0)]);
        }
        return out;
    }
    while n > 0
        invariant
            0 <= n,
            v > 0,
            n > 0 ==> decimal_chars(v as int) =~= decimal_chars(n as int) + rev_digit_chars(
                digits@,
            ),
            n == 0 ==> decimal_chars(v as int) =~= rev_digit_chars(digits@),
            forall|i: int| 0 <= i < digits@.len() ==> 0 <= #[trigger] digits@[i] < 10,
        decreases n,
    {
        let d: u8 = (n % 10) as u8;
        proof {
            let old_digits = digits@;
            let nd = digits@.push(d);
            assert(nd.drop_last() =~= old_digits);
            assert(nd.last() == d);
            assert(rev_digit_chars(nd) == seq![digit_char(d as int)] + rev_digit_chars(
                old_digits,
            ));
            if n / 10 > 0 {
                assert(decimal_chars(n as int) == decimal_chars(n as int / 10).push(
                    digit_char(n as int % 10),
                ));
                assert(decimal_chars(n as int) + rev_digit_chars(old_digits) =~= decimal_chars(
                    (n / 10) as int,
                ) + rev_digit_chars(nd));
            } else {
                assert(n < 10);
                assert(decimal_chars(n as int) =~= seq![digit_char(n as int)]);
                assert(decimal_chars(n as int) + rev_digit_chars(old_digits) =~= rev_digit_chars(
                    nd,
                ));
            }
        }
        digits.push(d);
        n = n / 10;
    }
    let mut out = String::new();
    let ghost all: Seq<u8> = digits@;
    let mut i: usize = digits.len();
    proof {
        assert(all.subrange(i as int, all.len() as int) =~= Seq::<u8>::empty());
    }
    while i > 0
        invariant
            0 <= i <= all.len(),
            all == digits@,
            forall|j: int| 0 <= j < all.len() ==> 0 <= #[trigger] all[j] < 10,
            out@ == rev_digit_chars(all.subrange(i as int, all.len() as int)),
        decreases i,
    {
        i = i - 1;
        let d = digits[i];
        proof {
            let tail = all.subrange(i as int, all.len() as int);
            let old_tail = all.subrange(i as int + 1, all.len() as int);
            assert(tail.drop_first() =~= old_tail);
            assert(tail.first() == d);
            lemma_rev_digit_chars_drop_first(tail);
            assert(rev_digit_chars(tail) == rev_digit_chars(old_tail) + seq![
                digit_char(d as int),
            ]);
            assert(out@.push(digit_char(d as int)) =~= rev_digit_chars(tail));
        }
        append_digit(&mut out, d);
    }
    proof {
        assert(all.subrange(0, all.len() as int) =~= all);
    }
    out
}

/// Reversing a digit stack emits its first element last.
proof fn lemma_rev_digit_chars_drop_first(s: Seq<u8>)
    requires
        s.len() > 0,
    ensures
        rev_digit_chars(s) == rev_digit_chars(s.drop_first()) + seq![
            digit_char(s.first() as int),
        ],
    decreases s.len(),
{
    if s.len() == 1 {
        assert(s.drop_last() =~= Seq::<u8>::empty());
        assert(s.drop_first() =~= Seq::<u8>::empty());
        assert(rev_digit_chars(s) =~= rev_digit_chars(s.drop_first()) + seq![
            digit_char(s.first() as int),
        ]);
    } else {
        lemma_rev_digit_chars_drop_first(s.drop_last());
        assert(s.drop_last().drop_first() =~= s.drop_first().drop_last());
        assert(s.drop_last().first() == s.first());
        assert(s.drop_first().last() == s.last());
        assert(rev_digit_chars(s) == seq![digit_char(s.last() as int)] + rev_digit_chars(
            s.drop_last(),
        ));
        assert(rev_digit_chars(s.drop_first()) == seq![digit_char(s.last() as int)]
            + rev_digit_chars(s.drop_first().drop_last()));
        assert(rev_digit_chars(s) =~= rev_digit_chars(s.drop_first()) + seq![
            digit_char(s.first() as int),
        ]);
    }
}

/// The characters of a reversed digit stack, least significant first in
/// the stack, most significant first in the result.
pub open spec fn rev_digit_chars(digits: Seq<u8>) -> Seq<char>
    decreases digits.len(),
{
    if digits.len() == 0 {
        Seq::empty()
    } else {
        seq![digit_char(digits.last() as int)] + rev_digit_chars(digits.drop_last())
    }
}

/// Appends one decimal digit character to a string under construction.
fn append_digit(out: &mut String, d: u8)
    requires
        d < 10,
    ensures
        final(out)@ == old(out)@.push(digit_char(d as int)),
{
    proof {
        reveal_strlit("0");
        reveal_strlit("1");
        reveal_strlit("2");
        reveal_strlit("3");
        reveal_strlit("4");
        reveal_strlit("5");
        reveal_strlit("6");
        reveal_strlit("7");
        reveal_strlit("8");
        reveal_strlit("9");
    }
    match d {
        0 => out.append("0"),
        1 => out.append("1"),
        2 => out.append("2"),
        3 => out.append("3"),
        4 => out.append("4"),
        5 => out.append("5"),
        6 => out.append("6"),
        7 => out.append("7"),
        8 => out.append("8"),
        _ => out.append("9"),
    }
    proof {
        assert(final(out)@ =~= old(out)@.push(digit_char(d as int)));
    }
}

/// The canonical numeral of a value parses back to that value: rendering
/// and parsing are inverse on `u64`.
pub proof fn lemma_decimal_roundtrip(n: int)
    requires
        0 <= n <= u64::MAX,
    ensures
        is_u64_numeral(decimal_chars(n)),
        digits_value(decimal_chars(n)) == n,
    decreases n,
{
    if n < 10 {
        let s = decimal_chars(n);
        assert(s.len() == 1);
        assert(s.drop_last() =~= Seq::<char>::empty());
        assert(digits_value(Seq::<char>::empty()) == 0);
        assert(digits_value(s) == digits_value(s.drop_last()) * 10 + char_digit(s.last()));
    } else {
        lemma_decimal_roundtrip(n / 10);
        let s = decimal_chars(n);
        assert(s.drop_last() =~= decimal_chars(n / 10));
        assert(digits_value(s) == digits_value(decimal_chars(n / 10)) * 10 + char_digit(
            digit_char(n % 10),
        ));
        assert(char_digit(digit_char(n % 10)) == n % 10);
        assert(all_digits(s)) by {
            assert(forall|i: int|
                0 <= i < s.len() - 1 ==> s[i] == #[trigger] decimal_chars(n / 10)[i]);
        }
    }
}

} // verus!
