//! Verified character and string helpers: conversions between `&str`,
//! `Vec<char>` and `String`, ASCII case folding, and exact decimal
//! parsing and printing.

use vstd::prelude::*;
use vstd::string::StrSliceExecFns;

verus! {

/// Relies on `Iterator::collect` for `String`: the collected string holds
/// exactly the characters of the vector, in order.
#[verifier::external_body]
pub fn string_from_chars(v: &Vec<char>) -> (s: String)
    ensures
        s@ == v@,
{
    v.iter().collect()
}

/// The characters of a string slice, as a vector.
pub fn chars_of(s: &str) -> (v: Vec<char>)
    ensures
        v@ == s@,
{
    let n = s.unicode_len();
    let mut v: Vec<char> = Vec::new();
    let mut i: usize = 0;
    while i < n
        invariant
            i <= n,
            n == s@.len(),
            v@ == s@.subrange(0, i as int),
        decreases n - i,
    {
        v.push(s.get_char(i));
        i = i + 1;
        proof {
            assert(v@ =~= s@.subrange(0, i as int));
        }
    }
    proof {
        assert(v@ =~= s@);
    }
    v
}

/// A copy of `v[from..to]`.
pub fn subvec(v: &Vec<char>, from: usize, to: usize) -> (r: Vec<char>)
    requires
        from <= to <= v@.len(),
    ensures
        r@ == v@.subrange(from as int, to as int),
{
    let mut r: Vec<char> = Vec::new();
    let mut i: usize = from;
    while i < to
        invariant
            from <= i <= to <= v@.len(),
            r@ == v@.subrange(from as int, i as int),
        decreases to - i,
    {
        r.push(v[i]);
        i = i + 1;
        proof {
            assert(r@ =~= v@.subrange(from as int, i as int));
        }
    }
    r
}

/// Character-wise equality of two vectors.
pub fn chars_eq(a: &Vec<char>, b: &Vec<char>) -> (r: bool)
    ensures
        r == (a@ == b@),
{
    if a.len() != b.len() {
        return false;
    }
    let n = a.len();
    let mut i: usize = 0;
    while i < n
        invariant
            i <= n,
            n == a@.len() == b@.len(),
            forall|k: int| 0 <= k < i ==> a@[k] == b@[k],
        decreases n - i,
    {
        if a[i] != b[i] {
            return false;
        }
        i = i + 1;
    }
    proof {
        assert(a@ =~= b@);
    }
    true
}

/// Character-wise equality of two string slices.
pub fn str_eq(a: &str, b: &str) -> (r: bool)
    ensures
        r == (a@ == b@),
{
    let na = a.unicode_len();
    let nb = b.unicode_len();
    if na != nb {
        return false;
    }
    let mut i: usize = 0;
    while i < na
        invariant
            i <= na,
            na == a@.len() == b@.len(),
            forall|k: int| 0 <= k < i ==> a@[k] == b@[k],
        decreases na - i,
    {
        if a.get_char(i) != b.get_char(i) {
            return false;
        }
        i = i + 1;
    }
    proof {
        assert(a@ =~= b@);
    }
    true
}

/// ASCII lower-casing of a single character; anything outside `A..=Z`
/// is kept as it is.
pub open spec fn lower_char(c: char) -> char {
    if 65 <= c as u32 <= 90 {
        (((c as u32) + 32) as u8) as char
    } else {
        c
    }
}

pub open spec fn lower_seq(s: Seq<char>) -> Seq<char> {
    s.map_values(|c: char| lower_char(c))
}

pub fn lower_char_x(c: char) -> (r: char)
    ensures
        r == lower_char(c),
{
    let u = c as u32;
    if 65 <= u && u <= 90 {
        ((u + 32) as u8) as char
    } else {
        c
    }
}

/// Whether `s`, ASCII-lower-cased, equals `t`.
pub fn eq_ci(s: &Vec<char>, t: &str) -> (r: bool)
    ensures
        r == (lower_seq(s@) == t@),
{
    let n = s.len();
    let nt = t.unicode_len();
    if n != nt {
        return false;
    }
    let mut i: usize = 0;
    while i < n
        invariant
            i <= n,
            n == s@.len() == t@.len(),
            forall|k: int| 0 <= k < i ==> lower_char(s@[k]) == t@[k],
        decreases n - i,
    {
        if lower_char_x(s[i]) != t.get_char(i) {
            return false;
        }
        i = i + 1;
    }
    proof {
        assert(lower_seq(s@) =~= t@);
    }
    true
}

/// Whether `s`, ASCII-lower-cased, ends with `suffix`.
pub open spec fn ends_with_ci_spec(s: Seq<char>, suffix: Seq<char>) -> bool {
    suffix.len() <= s.len() && lower_seq(s).skip(s.len() - suffix.len()) == suffix
}

pub fn ends_with_ci(s: &Vec<char>, suffix: &str) -> (r: bool)
    ensures
        r == ends_with_ci_spec(s@, suffix@),
{
    let n = s.len();
    let m = suffix.unicode_len();
    if m > n {
        return false;
    }
    let base = n - m;
    let mut i: usize = 0;
    while i < m
        invariant
            i <= m,
            base == n - m,
            m <= n,
            n == s@.len(),
            m == suffix@.len(),
            forall|k: int| 0 <= k < i ==> lower_char(s@[base + k]) == suffix@[k],
        decreases m - i,
    {
        if lower_char_x(s[base + i]) != suffix.get_char(i) {
            proof {
                assert(lower_seq(s@).skip(s@.len() - suffix@.len())[i as int]
                    == lower_char(s@[base + i]));
            }
            return false;
        }
        i = i + 1;
    }
    proof {
        assert(lower_seq(s@).skip(s@.len() - suffix@.len()) =~= suffix@);
    }
    true
}

/// Decimal digit characters.
pub open spec fn is_dec_digit(c: char) -> bool {
    48 <= c as u32 <= 57
}

pub open spec fn digit_val(c: char) -> int {
    c as u32 - 48
}

pub open spec fn all_dec_digits(s: Seq<char>) -> bool {
    forall|k: int| 0 <= k < s.len() ==> is_dec_digit(#[trigger] s[k])
}

/// The value of a non-empty digit string, most significant digit first.
pub open spec fn digits_val(s: Seq<char>) -> int
    decreases s.len(),
{
    if s.len() == 0 {
        0
    } else {
        digits_val(s.drop_last()) * 10 + digit_val(s.last())
    }
}

/// The decimal rendering of a non-negative integer, without sign and
/// without leading zeroes (a single `0` for zero).
pub open spec fn dec_str(n: int) -> Seq<char>
    decreases n,
{
    if n < 10 {
        seq![((48 + n) as u8) as char]
    } else {
        dec_str(n / 10).push(((48 + n % 10) as u8) as char)
    }
}

fn push_dec(n: u64, v: &mut Vec<char>)
    ensures
        final(v)@ == old(v)@ + dec_str(n as int),
    decreases n,
{
    if n < 10 {
        v.push(((48 + n) as u8) as char);
    } else {
        push_dec(n / 10, v);
        v.push(((48 + n % 10) as u8) as char);
        proof {
            assert(v@ =~= old(v)@ + dec_str(n as int));
        }
    }
}

/// Decimal rendering of a `u64`.
pub fn u64_to_string(n: u64) -> (s: String)
    ensures
        s@ == dec_str(n as int),
{
    let mut v: Vec<char> = Vec::new();
    push_dec(n, &mut v);
    string_from_chars(&v)
}

/// Decimal rendering of an `i64`, with a leading `-` when negative.
pub open spec fn dec_str_signed(n: int) -> Seq<char> {
    if n < 0 {
        seq!['-'] + dec_str(-n)
    } else {
        dec_str(n)
    }
}

pub fn i64_to_string(n: i64) -> (s: String)
    ensures
        s@ == dec_str_signed(n as int),
{
    let mut v: Vec<char> = Vec::new();
    if n < 0 {
        v.push('-');
        let mag: u64 = (-(n as i128)) as u64;
        push_dec(mag, &mut v);
    } else {
        push_dec(n as u64, &mut v);
    }
    string_from_chars(&v)
}

/// What `str::parse::<i64>` accepts: an optional sign followed by one or
/// more decimal digits, with the value in range for `i64`.
pub open spec fn int_token_digits(s: Seq<char>) -> Option<(bool, Seq<char>)> {
    if s.len() > 0 && (s[0] == '+' || s[0] == '-') {
        let rest = s.skip(1);
        if rest.len() > 0 && all_dec_digits(rest) {
            Some((s[0] == '-', rest))
        } else {
            None
        }
    } else if s.len() > 0 && all_dec_digits(s) {
        Some((false, s))
    } else {
        None
    }
}

pub open spec fn parse_i64_spec(s: Seq<char>) -> Option<i64> {
    match int_token_digits(s) {
        None => None,
        Some((neg, d)) => {
            let v = if neg {
                -digits_val(d)
            } else {
                digits_val(d)
            };
            if i64::MIN <= v <= i64::MAX {
                Some(v as i64)
            } else {
                None
            }
        },
    }
}

pub proof fn lemma_digits_val_nonneg(s: Seq<char>)
    requires
        all_dec_digits(s),
    ensures
        digits_val(s) >= 0,
    decreases s.len(),
{
    if s.len() > 0 {
        assert(all_dec_digits(s.drop_last()));
        lemma_digits_val_nonneg(s.drop_last());
    }
}

proof fn lemma_digits_val_grows(s: Seq<char>, b: int)
    requires
        all_dec_digits(s),
        s.len() > 0,
        digits_val(s.drop_last()) > b,
        b >= 0,
    ensures
        digits_val(s) > b,
{
    lemma_digits_val_nonneg(s.drop_last());
}

/// Exact model of `str::parse::<i64>` on the characters of the token.
pub fn parse_i64(v: &Vec<char>) -> (r: Option<i64>)
    ensures
        r == parse_i64_spec(v@),
{
    let n = v.len();
    if n == 0 {
        return None;
    }
    let (neg, start): (bool, usize) = if v[0] == '-' {
        (true, 1)
    } else if v[0] == '+' {
        (false, 1)
    } else {
        (false, 0)
    };
    if start == 1 && n == 1 {
        return None;
    }
    let ghost digits: Seq<char> = v@.skip(start as int);
    let cap: u64 = 9223372036854775808u64;
    let mut acc: u64 = 0;
    let mut ovf: bool = false;
    let mut i: usize = start;
    while i < n
        invariant
            start <= i <= n,
            n == v@.len(),
            start < n,
            start == 0 || start == 1,
            start == 1 ==> v@[0] == '+' || v@[0] == '-',
            start == 0 ==> !(v@[0] == '+' || v@[0] == '-'),
            digits == v@.skip(start as int),
            all_dec_digits(v@.subrange(start as int, i as int)),
            !ovf ==> acc == digits_val(v@.subrange(start as int, i as int)) && acc <= cap,
            ovf ==> digits_val(v@.subrange(start as int, i as int)) > cap,
            cap == 9223372036854775808u64,
        decreases n - i,
    {
        let c = v[i];
        let u = c as u32;
        if !(48 <= u && u <= 57) {
            proof {
                if start == 1 {
                    let rest = v@.skip(1);
                    assert(rest[i - 1] == v@[i as int]);
                    assert(!is_dec_digit(rest[i - 1]));
                    assert(!all_dec_digits(rest));
                } else {
                    assert(!is_dec_digit(v@[i as int]));
                    assert(!all_dec_digits(v@));
                }
                assert(int_token_digits(v@) is None);
                assert(parse_i64_spec(v@) is None);
            }
            return None;
        }
        let d: u64 = (u - 48) as u64;
        proof {
            assert(v@.subrange(start as int, i + 1 as int).drop_last()
                =~= v@.subrange(start as int, i as int));
        }
        if ovf {
            proof {
                lemma_digits_val_grows(
                    v@.subrange(start as int, i + 1 as int),
                    cap as int,
                );
            }
        } else {
            if acc > 922337203685477580u64 {
                ovf = true;
            } else {
                let t = acc * 10 + d;
                if t > cap {
                    ovf = true;
                } else {
                    acc = t;
                }
            }
        }
        i = i + 1;
    }
    proof {
        assert(v@.subrange(start as int, n as int) =~= digits);
        if start == 1 {
            assert(int_token_digits(v@) == Some((v@[0] == '-', digits)));
        } else {
            assert(v@.subrange(0, n as int) =~= v@);
            assert(int_token_digits(v@) == Some((false, v@)));
        }
    }
    if ovf {
        return None;
    }
    if neg {
        if acc > cap {
            return None;
        }
        Some((-(acc as i128)) as i64)
    } else {
        if acc > cap - 1 {
            return None;
        }
        Some(acc as i64)
    }
}

} // verus!
