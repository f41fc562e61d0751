//! Small text utilities shared by the key labels, the layout parser and the
//! channel serializer: decimal notation of unsigned integers, in both
//! directions.

use vstd::prelude::*;

verus! {

/// Appends one character to a string.
///
/// Relies on std's `String::push`: it appends the given `char` to the end of
/// the string.
#[verifier::external_body]
pub fn push_char(s: &mut String, c: char)
    ensures
        final(s)@ == old(s)@.push(c),
{
    s.push(c);
}

/// The decimal digit character for a value in `0 ..= 9`.
pub open spec fn digit_char(d: int) -> char {
    if d == 0 {
        '0'
    } else if d == 1 {
        '1'
    } else if d == 2 {
        '2'
    } else if d == 3 {
        '3'
    } else if d == 4 {
        '4'
    } else if d == 5 {
        '5'
    } else if d == 6 {
        '6'
    } else if d == 7 {
        '7'
    } else if d == 8 {
        '8'
    } else {
        '9'
    }
}

/// The decimal notation of a non-negative integer, most significant digit
/// first, without sign or leading zeros (`0` itself is the single digit `0`).
pub open spec fn dec_spec(n: int) -> Seq<char>
    recommends
        n >= 0,
    decreases n,
{
    if n < 10 {
        seq![digit_char(n)]
    } else {
        dec_spec(n / 10).push(digit_char(n % 10))
    }
}

fn digit_to_char(d: usize) -> (c: char)
    requires
        d < 10,
    ensures
        c == digit_char(d as int),
{
    match d {
        0 => '0',
        1 => '1',
        2 => '2',
        3 => '3',
        4 => '4',
        5 => '5',
        6 => '6',
        7 => '7',
        8 => '8',
        _ => '9',
    }
}

/// Renders `n` in decimal notation.
pub fn usize_to_string(n: usize) -> (s: String)
    ensures
        s@ == dec_spec(n as int),
{
    let mut digits: Vec<char> = Vec::new();
    let mut m: usize = n;
    proof {
        assert(dec_spec(n as int) =~= dec_spec(m as int) + digits@.reverse());
    }
    while m >= 10
        invariant
            dec_spec(n as int) == dec_spec(m as int) + digits@.reverse(),
        decreases m,
    {
        let d: usize = m % 10;
        let c = digit_to_char(d);
        proof {
            assert(digits@.push(c).reverse() =~= seq![c] + digits@.reverse());
            assert(dec_spec((m / 10) as int) + digits@.push(c).reverse() =~= (dec_spec(
                (m / 10) as int,
            ).push(c)) + digits@.reverse());
        }
        digits.push(c);
        m = m / 10;
    }
    let mut s = String::new();
    push_char(&mut s, digit_to_char(m));
    proof {
        assert(s@ =~= dec_spec(m as int));
    }
    let mut k: usize = 0;
    let total: usize = digits.len();
    while k < total
        invariant
            total == digits@.len(),
            k <= total,
            dec_spec(n as int) == dec_spec(m as int) + digits@.reverse(),
            s@ == dec_spec(m as int) + digits@.reverse().take(k as int),
        decreases total - k,
    {
        let c = digits[total - 1 - k];
        proof {
            assert(digits@.reverse()[k as int] == c);
            assert(digits@.reverse().take(k as int + 1) =~= digits@.reverse().take(k as int).push(
                c,
            ));
        }
        push_char(&mut s, c);
        k += 1;
    }
    proof {
        assert(digits@.reverse().take(total as int) =~= digits@.reverse());
    }
    s
}

/// Compares two strings character by character.
pub fn str_eq(a: &str, b: &str) -> (r: bool)
    ensures
        r == (a@ == b@),
{
    let a_len = a.unicode_len();
    let b_len = b.unicode_len();
    if a_len != b_len {
        return false;
    }
    let mut i: usize = 0;
    while i < a_len
        invariant
            a_len == a@.len() == b@.len(),
            i <= a_len,
            forall|j: int| 0 <= j < i ==> a@[j] == b@[j],
        decreases a_len - i,
    {
        if a.get_char(i) != b.get_char(i) {
            return false;
        }
        i += 1;
    }
    proof {
        assert(a@ =~= b@);
    }
    true
}

/// Whether `p` is a prefix of `s`.
pub open spec fn starts_with(s: Seq<char>, p: Seq<char>) -> bool {
    s.len() >= p.len() && s.subrange(0, p.len() as int) == p
}

/// Prefix test, character by character.
pub fn str_starts_with(s: &str, p: &str) -> (r: bool)
    ensures
        r == starts_with(s@, p@),
{
    let s_len = s.unicode_len();
    let p_len = p.unicode_len();
    if s_len < p_len {
        return false;
    }
    let mut i: usize = 0;
    while i < p_len
        invariant
            p_len == p@.len() <= s@.len() == s_len,
            i <= p_len,
            forall|j: int| 0 <= j < i ==> s@[j] == p@[j],
        decreases p_len - i,
    {
        if s.get_char(i) != p.get_char(i) {
            proof {
                assert(s@.subrange(0, p@.len() as int)[i as int] == s@[i as int]);
            }
            return false;
        }
        i += 1;
    }
    proof {
        assert(s@.subrange(0, p@.len() as int) =~= p@);
    }
    true
}

/// Whether `c` is a decimal digit character.
pub open spec fn is_digit_char(c: char) -> bool {
    48 <= c as int <= 57
}

/// The numeric value of a decimal digit character.
pub open spec fn digit_val(c: char) -> int {
    c as int - 48
}

/// Whether every character of `s` is a decimal digit.
pub open spec fn all_digits(s: Seq<char>) -> bool {
    forall|i: int| 0 <= i < s.len() ==> is_digit_char(s[i])
}

/// The value of a digit sequence read as a decimal number.
pub open spec fn dec_value(s: Seq<char>) -> int
    decreases s.len(),
{
    if s.len() == 0 {
        0
    } else {
        dec_value(s.drop_last()) * 10 + digit_val(s.last())
    }
}

proof fn lemma_dec_value_nonneg(s: Seq<char>)
    requires
        all_digits(s),
    ensures
        dec_value(s) >= 0,
    decreases s.len(),
{
    if s.len() > 0 {
        lemma_dec_value_nonneg(s.drop_last());
    }
}

proof fn lemma_dec_value_prefix_le(s: Seq<char>, k: int)
    requires
        all_digits(s),
        0 <= k <= s.len(),
    ensures
        dec_value(s.take(k)) <= dec_value(s),
    decreases s.len() - k,
{
    if k < s.len() {
        assert(all_digits(s.take(k))) by {
            assert(forall|i: int|
                0 <= i < k ==> s.take(k)[i] == s[i] && is_digit_char(#[trigger] s[i]));
        }
        lemma_dec_value_nonneg(s.take(k));
        assert(s.take(k + 1).drop_last() =~= s.take(k));
        assert(dec_value(s.take(k + 1)) == dec_value(s.take(k)) * 10 + digit_val(s[k]));
        lemma_dec_value_prefix_le(s, k + 1);
    } else {
        assert(s.take(k) =~= s);
    }
}

/// Parses a non-empty all-digit string as a decimal number; `None` when the
/// string is empty, holds a non-digit, or names a value above `usize::MAX`.
pub fn parse_decimal(s: &str) -> (r: Option<usize>)
    ensures
        r is Some <==> s@.len() > 0 && all_digits(s@) && dec_value(s@) <= usize::MAX as int,
        r is Some ==> r->0 as int == dec_value(s@),
{
    let len = s.unicode_len();
    if len == 0 {
        return None;
    }
    let mut val: usize = 0;
    let mut i: usize = 0;
    while i < len
        invariant
            0 < len == s@.len(),
            i <= len,
            all_digits(s@.take(i as int)),
            val as int == dec_value(s@.take(i as int)),
        decreases len - i,
    {
        let c = s.get_char(i);
        let u = c as u32;
        if !(48 <= u && u <= 57) {
            assert(!is_digit_char(s@[i as int]));
            return None;
        }
        let d = (u - 48) as usize;
        proof {
            assert(s@.take(i as int + 1).drop_last() =~= s@.take(i as int));
            assert(all_digits(s@.take(i as int + 1))) by {
                assert(forall|j: int|
                    0 <= j < i as int + 1 ==> s@.take(i as int + 1)[j] == s@.take(i as int).push(
                        s@[i as int],
                    )[j]);
            }
        }
        let overflowed: bool = match val.checked_mul(10) {
            Some(v10) => {
                match v10.checked_add(d) {
                    Some(v) => {
                        val = v;
                        false
                    },
                    None => true,
                }
            },
            None => true,
        };
        if overflowed {
            proof {
                if all_digits(s@) {
                    assert(s@.take(i as int + 1) =~= s@.take(i as int).push(s@[i as int]));
                    assert(dec_value(s@.take(i as int + 1)) > usize::MAX as int);
                    lemma_dec_value_prefix_le(s@, i as int + 1);
                }
            }
            return None;
        }
        i += 1;
    }
    proof {
        assert(s@.take(len as int) =~= s@);
    }
    Some(val)
}

} // verus!
