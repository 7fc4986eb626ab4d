//! Decimal integer literals: what they denote, how they are read, and how an
//! integer is written back.
//!
//! A literal is an optional sign followed by one or more ASCII digits, with
//! nothing else around it. A signed literal may start with `+` or `-`, an
//! unsigned one only with `+`. A literal whose value does not fit the target
//! type denotes nothing.

use vstd::prelude::*;
use vstd::slice::slice_subrange;

verus! {

/// Whether `c` is one of `0` to `9`.
pub open spec fn is_digit(c: char) -> bool {
    '0' <= c <= '9'
}

/// Whether `s` holds digits only.
pub open spec fn all_digits(s: Seq<char>) -> bool {
    forall|i: int| 0 <= i < s.len() ==> is_digit(#[trigger] s[i])
}

/// The value of the digit `c`.
pub open spec fn digit_value(c: char) -> int {
    c as int - 48
}

/// The number that the digits `s` denote in base ten; 0 for no digits.
pub open spec fn digits_value(s: Seq<char>) -> int
    decreases s.len(),
{
    if s.len() == 0 {
        0
    } else {
        10 * digits_value(s.drop_last()) + digit_value(s.last())
    }
}

/// Whether the literal `s` starts with a sign that is accepted.
pub open spec fn has_sign(s: Seq<char>, signed: bool) -> bool {
    s.len() > 0 && (s[0] == '+' || (signed && s[0] == '-'))
}

/// The digits of the literal `s`: what follows its sign.
pub open spec fn literal_digits(s: Seq<char>, signed: bool) -> Seq<char> {
    if has_sign(s, signed) {
        s.drop_first()
    } else {
        s
    }
}

/// The integer that the literal `s` denotes, if it is well formed.
pub open spec fn literal_value(s: Seq<char>, signed: bool) -> Option<int> {
    let digits = literal_digits(s, signed);
    if digits.len() > 0 && all_digits(digits) {
        if signed && s[0] == '-' {
            Some(-digits_value(digits))
        } else {
            Some(digits_value(digits))
        }
    } else {
        None
    }
}

/// The `i32` that `s` denotes: a signed literal with a value in range.
pub open spec fn i32_of(s: Seq<char>) -> Option<i32> {
    match literal_value(s, true) {
        Some(v) => if i32::MIN <= v <= i32::MAX {
            Some(v as i32)
        } else {
            None
        },
        None => None,
    }
}

/// The `u32` that `s` denotes: an unsigned literal with a value in range.
pub open spec fn u32_of(s: Seq<char>) -> Option<u32> {
    match literal_value(s, false) {
        Some(v) => if 0 <= v <= u32::MAX {
            Some(v as u32)
        } else {
            None
        },
        None => None,
    }
}

/// The `u8` that `s` denotes: an unsigned literal with a value in range.
pub open spec fn u8_of(s: Seq<char>) -> Option<u8> {
    match literal_value(s, false) {
        Some(v) => if 0 <= v <= u8::MAX {
            Some(v as u8)
        } else {
            None
        },
        None => None,
    }
}

/// The character for the digit `d`.
pub open spec fn digit_char(d: int) -> char {
    (d + 48) as char
}

/// The digits of `n` in base ten, without leading zeros.
pub open spec fn digits_of(n: nat) -> Seq<char>
    decreases n,
{
    if n < 10 {
        seq![digit_char(n as int)]
    } else {
        digits_of(n / 10).push(digit_char((n % 10) as int))
    }
}

/// The shortest literal for `v`: a `-` for a negative value, then the digits
/// of its magnitude.
pub open spec fn decimal_text(v: int) -> Seq<char> {
    if v < 0 {
        seq!['-'] + digits_of((-v) as nat)
    } else {
        digits_of(v as nat)
    }
}

/// Digits denote a number that is not negative.
pub proof fn lemma_digits_value_bounds(s: Seq<char>)
    requires
        all_digits(s),
    ensures
        digits_value(s) >= 0,
    decreases s.len(),
{
    if s.len() > 0 {
        lemma_digits_value_bounds(s.drop_last());
        assert(is_digit(s[s.len() - 1]));
    }
}

/// A prefix of a digit string denotes no more than the whole string.
pub proof fn lemma_prefix_value(s: Seq<char>, k: int)
    requires
        all_digits(s),
        0 <= k <= s.len(),
    ensures
        all_digits(s.take(k)),
        0 <= digits_value(s.take(k)) <= digits_value(s),
    decreases s.len() - k,
{
    if k == s.len() {
        assert(s.take(k) =~= s);
        lemma_digits_value_bounds(s);
    } else {
        let shorter = s.drop_last();
        assert(shorter.take(k) =~= s.take(k));
        lemma_prefix_value(shorter, k);
        assert(is_digit(s[s.len() - 1]));
    }
}

/// Writing a number down and reading the digits again gives the number.
pub proof fn lemma_digits_of(n: nat)
    ensures
        digits_of(n).len() > 0,
        all_digits(digits_of(n)),
        digits_value(digits_of(n)) == n,
    decreases n,
{
    if n < 10 {
        let s = digits_of(n);
        assert(s.drop_last() =~= Seq::<char>::empty());
        assert(digits_value(s.drop_last()) == 0);
    } else {
        lemma_digits_of(n / 10);
        let head = digits_of(n / 10);
        let s = digits_of(n);
        assert(s.drop_last() =~= head);
    }
}

/// A well-formed literal is not empty, starts with a sign or a digit and
/// ends with a digit.
pub proof fn lemma_literal_shape(s: Seq<char>, signed: bool)
    requires
        literal_value(s, signed) is Some,
    ensures
        s.len() > 0,
        is_digit(s.first()) || s.first() == '+' || s.first() == '-',
        is_digit(s.last()),
{
    let digits = literal_digits(s, signed);
    assert(is_digit(digits[digits.len() - 1]));
    assert(is_digit(digits[0]));
}

/// The shortest literal for an `i32` denotes that number.
pub proof fn lemma_decimal_text(v: i32)
    ensures
        i32_of(decimal_text(v as int)) == Some(v),
{
    let s = decimal_text(v as int);
    if v < 0 {
        let magnitude = (-v) as nat;
        lemma_digits_of(magnitude);
        assert(s.drop_first() =~= digits_of(magnitude));
        assert(s[0] == '-');
    } else {
        lemma_digits_of(v as nat);
        assert(is_digit(s[0]));
    }
}

/// Reads the digits `cs` as a number of at most `limit`.
fn parse_magnitude(cs: &[char], limit: u64) -> (r: Option<u64>)
    requires
        limit <= 0xFFFF_FFFF_FFFF,
    ensures
        match r {
            Some(m) => cs@.len() > 0 && all_digits(cs@) && m == digits_value(cs@) && m <= limit,
            None => !(cs@.len() > 0 && all_digits(cs@) && digits_value(cs@) <= limit),
        },
{
    if cs.len() == 0 {
        return None;
    }
    let mut acc: u64 = 0;
    let mut i: usize = 0;
    assert(cs@.take(0) =~= Seq::<char>::empty());
    while i < cs.len()
        invariant
            i <= cs.len(),
            limit <= 0xFFFF_FFFF_FFFF,
            all_digits(cs@.take(i as int)),
            acc == digits_value(cs@.take(i as int)),
            acc <= limit,
        decreases cs.len() - i,
    {
        let c = cs[i];
        if !(c >= '0' && c <= '9') {
            assert(!is_digit(cs@[i as int]));
            return None;
        }
        let d: u64 = (c as u64) - 48;
        let next: u64 = acc * 10 + d;
        proof {
            let longer = cs@.take(i as int + 1);
            assert(longer.drop_last() =~= cs@.take(i as int));
            assert(longer.last() == c);
            assert(digits_value(longer) == next);
            assert(all_digits(longer)) by {
                assert forall|j: int| 0 <= j < longer.len() implies is_digit(
                    #[trigger] longer[j],
                ) by {
                    if j < i {
                        assert(longer[j] == cs@.take(i as int)[j]);
                    }
                }
            }
            if all_digits(cs@) {
                lemma_prefix_value(cs@, i as int + 1);
            }
        }
        if next > limit {
            return None;
        }
        acc = next;
        i += 1;
    }
    assert(cs@.take(i as int) =~= cs@);
    Some(acc)
}

/// Reads `cs` as an `i32`.
pub fn parse_i32(cs: &[char]) -> (r: Option<i32>)
    ensures
        r == i32_of(cs@),
{
    if cs.len() == 0 {
        return None;
    }
    let negative = cs[0] == '-';
    let digits = if negative || cs[0] == '+' {
        assert(cs@.drop_first() =~= cs@.subrange(1, cs@.len() as int));
        slice_subrange(cs, 1, cs.len())
    } else {
        cs
    };
    let limit: u64 = if negative {
        2147483648
    } else {
        2147483647
    };
    match parse_magnitude(digits, limit) {
        Some(m) => {
            if negative {
                let v: i64 = 0 - (m as i64);
                Some(v as i32)
            } else {
                Some(m as i32)
            }
        },
        None => None,
    }
}

/// Reads the unsigned literal `cs` as a number of at most `limit`.
fn parse_unsigned(cs: &[char], limit: u64) -> (r: Option<u64>)
    requires
        limit <= 0xFFFF_FFFF_FFFF,
    ensures
        match r {
            Some(m) => literal_value(cs@, false) == Some(m as int) && m <= limit,
            None => literal_value(cs@, false) matches Some(v) ==> v > limit,
        },
{
    if cs.len() == 0 {
        return None;
    }
    let digits = if cs[0] == '+' {
        assert(cs@.drop_first() =~= cs@.subrange(1, cs@.len() as int));
        slice_subrange(cs, 1, cs.len())
    } else {
        cs
    };
    proof {
        if all_digits(digits@) {
            lemma_digits_value_bounds(digits@);
        }
    }
    parse_magnitude(digits, limit)
}

/// Reads `cs` as a `u32`.
pub fn parse_u32(cs: &[char]) -> (r: Option<u32>)
    ensures
        r == u32_of(cs@),
{
    match parse_unsigned(cs, 0xFFFF_FFFF) {
        Some(m) => Some(m as u32),
        None => None,
    }
}

/// Reads `cs` as a `u8`.
pub fn parse_u8(cs: &[char]) -> (r: Option<u8>)
    ensures
        r == u8_of(cs@),
{
    match parse_unsigned(cs, 0xFF) {
        Some(m) => Some(m as u8),
        None => None,
    }
}

/// Appends the digits of `n` to `out`.
fn push_digits(out: &mut Vec<char>, n: u32)
    ensures
        final(out)@ == old(out)@ + digits_of(n as nat),
    decreases n,
{
    if n >= 10 {
        push_digits(out, n / 10);
    }
    let d: u8 = (n % 10) as u8;
    out.push((d + 48) as char);
    proof {
        if n >= 10 {
            assert(final(out)@ =~= old(out)@ + digits_of(n as nat));
        } else {
            assert(final(out)@ =~= old(out)@ + digits_of(n as nat));
        }
    }
}

/// Appends the shortest literal for `v` to `out`.
pub fn push_decimal(out: &mut Vec<char>, v: i32)
    ensures
        final(out)@ == old(out)@ + decimal_text(v as int),
{
    if v < 0 {
        out.push('-');
        let magnitude: u32 = (0 - (v as i64)) as u32;
        push_digits(out, magnitude);
        assert(final(out)@ =~= old(out)@ + decimal_text(v as int));
    } else {
        push_digits(out, v as u32);
    }
}

} // verus!
