//! The JSON-like value model for feature attributes, and the exact
//! classification of unquoted KML tokens: integer first, then finite
//! floating-point number, then plain text. A number is kept as its
//! canonical decimal rendering, so the library itself never computes
//! with floating point.

use vstd::prelude::*;
use crate::strutil::{all_dec_digits, parse_i64, parse_i64_spec, string_from_chars};

verus! {

/// A JSON-compatible attribute value. `Num` holds the canonical text of
/// a finite number; `Int` holds an exact 64-bit integer.
#[derive(Debug, Clone)]
pub enum JsonValue {
    Null,
    Int(i64),
    Num(String),
    Str(String),
}

/// Structural equality, with text compared by content.
pub open spec fn jv_eq(a: &JsonValue, b: &JsonValue) -> bool {
    match (a, b) {
        (JsonValue::Null, JsonValue::Null) => true,
        (JsonValue::Int(x), JsonValue::Int(y)) => x == y,
        (JsonValue::Num(x), JsonValue::Num(y)) => x@ == y@,
        (JsonValue::Str(x), JsonValue::Str(y)) => x@ == y@,
        _ => false,
    }
}

impl PartialEq for JsonValue {
    fn eq(&self, other: &JsonValue) -> (r: bool) {
        match (self, other) {
            (JsonValue::Null, JsonValue::Null) => true,
            (JsonValue::Int(x), JsonValue::Int(y)) => x == y,
            (JsonValue::Num(x), JsonValue::Num(y)) => crate::strutil::str_eq(
                x.as_str(),
                y.as_str(),
            ),
            (JsonValue::Str(x), JsonValue::Str(y)) => crate::strutil::str_eq(
                x.as_str(),
                y.as_str(),
            ),
            _ => false,
        }
    }
}

impl vstd::std_specs::cmp::PartialEqSpecImpl for JsonValue {
    open spec fn obeys_eq_spec() -> bool {
        true
    }

    open spec fn eq_spec(&self, other: &JsonValue) -> bool {
        jv_eq(self, other)
    }
}

/// The first index at or after `from` holding `a` or `b`, or the length
/// when there is none.
pub open spec fn find_char(s: Seq<char>, from: int, a: char, b: char) -> int
    decreases s.len() - from,
{
    if from < 0 || from >= s.len() {
        s.len() as int
    } else if s[from] == a || s[from] == b {
        from
    } else {
        find_char(s, from + 1, a, b)
    }
}

pub proof fn lemma_find_char_range(s: Seq<char>, from: int, a: char, b: char)
    requires
        0 <= from <= s.len(),
    ensures
        from <= find_char(s, from, a, b) <= s.len(),
        forall|j: int|
            from <= j < find_char(s, from, a, b) ==> #[trigger] s[j] != a && s[j] != b,
        find_char(s, from, a, b) < s.len() ==> s[find_char(s, from, a, b)] == a || s[find_char(
            s,
            from,
            a,
            b,
        )] == b,
    decreases s.len() - from,
{
    if from < s.len() && !(s[from] == a || s[from] == b) {
        lemma_find_char_range(s, from + 1, a, b);
    }
}

pub fn find_char_x(s: &Vec<char>, from: usize, a: char, b: char) -> (r: usize)
    requires
        from <= s@.len(),
    ensures
        r == find_char(s@, from as int, a, b),
{
    let n = s.len();
    let mut i: usize = from;
    loop
        invariant
            from <= i <= n,
            n == s@.len(),
            find_char(s@, from as int, a, b) == find_char(s@, i as int, a, b),
        ensures
            from <= i <= n,
            find_char(s@, from as int, a, b) == i as int,
        decreases n - i,
    {
        if i < n {
            if s[i] == a || s[i] == b {
                break;
            }
            i = i + 1;
        } else {
            break;
        }
    }
    i
}

fn all_dec_digits_x(s: &Vec<char>, from: usize, to: usize) -> (r: bool)
    requires
        from <= to <= s@.len(),
    ensures
        r == all_dec_digits(s@.subrange(from as int, to as int)),
{
    let mut i: usize = from;
    while i < to
        invariant
            from <= i <= to <= s@.len(),
            forall|j: int|
                from <= j < i ==> crate::strutil::is_dec_digit(#[trigger] s@[j]),
        decreases to - i,
    {
        let u = s[i] as u32;
        if !(48 <= u && u <= 57) {
            proof {
                assert(s@.subrange(from as int, to as int)[i - from] == s@[i as int]);
            }
            return false;
        }
        i = i + 1;
    }
    proof {
        let sub = s@.subrange(from as int, to as int);
        assert forall|j: int| 0 <= j < sub.len() implies crate::strutil::is_dec_digit(
            #[trigger] sub[j],
        ) by {
            assert(sub[j] == s@[from + j]);
        }
    }
    true
}

/// The mantissa of Rust's float grammar: decimal digits with at most
/// one dot, and at least one digit.
pub open spec fn mantissa_ok(s: Seq<char>) -> bool {
    let d = find_char(s, 0, '.', '.');
    if d == s.len() {
        s.len() > 0 && all_dec_digits(s)
    } else {
        let ip = s.take(d);
        let fp = s.skip(d + 1);
        all_dec_digits(ip) && all_dec_digits(fp) && ip.len() + fp.len() > 0 && find_char(
            fp,
            0,
            '.',
            '.',
        ) == fp.len()
    }
}

/// The exponent body: an optional sign, then one or more digits.
pub open spec fn exp_ok(s: Seq<char>) -> bool {
    if s.len() > 0 && (s[0] == '+' || s[0] == '-') {
        s.len() > 1 && all_dec_digits(s.skip(1))
    } else {
        s.len() > 0 && all_dec_digits(s)
    }
}

pub open spec fn float_body_ok(b: Seq<char>) -> bool {
    let e = find_char(b, 0, 'e', 'E');
    if e == b.len() {
        mantissa_ok(b)
    } else {
        mantissa_ok(b.take(e)) && exp_ok(b.skip(e + 1))
    }
}

/// The digit form of Rust's `f64` grammar: an optional sign, a mantissa
/// and an optional exponent. The `inf` and `nan` keywords are left out:
/// they never denote a finite value, so a token carrying them is kept
/// as text, exactly as a non-number token is.
pub open spec fn rust_float_token(s: Seq<char>) -> bool {
    if s.len() > 0 && (s[0] == '+' || s[0] == '-') {
        float_body_ok(s.skip(1))
    } else {
        float_body_ok(s)
    }
}

/// Leading zeroes removed; possibly empty.
pub open spec fn strip_zeros(s: Seq<char>) -> Seq<char>
    decreases s.len(),
{
    if s.len() > 0 && s[0] == '0' {
        strip_zeros(s.skip(1))
    } else {
        s
    }
}

pub open spec fn norm_int_part(ip: Seq<char>) -> Seq<char> {
    let t = strip_zeros(ip);
    if t.len() == 0 {
        seq!['0']
    } else {
        t
    }
}

pub open spec fn norm_mantissa(m: Seq<char>) -> Seq<char> {
    let d = find_char(m, 0, '.', '.');
    if d == m.len() {
        norm_int_part(m)
    } else {
        let ip = m.take(d);
        let fp = m.skip(d + 1);
        if fp.len() == 0 {
            norm_int_part(ip)
        } else {
            norm_int_part(ip) + seq!['.'] + fp
        }
    }
}

/// The token rewritten into JSON's number grammar, preserving its
/// value: the `+` sign dropped, leading zeroes of the integer part
/// removed, an empty integer or fraction part mended, the exponent kept.
pub open spec fn normalize_float(s: Seq<char>) -> Seq<char> {
    let neg = s.len() > 0 && s[0] == '-';
    let b = if s.len() > 0 && (s[0] == '+' || s[0] == '-') {
        s.skip(1)
    } else {
        s
    };
    let e = find_char(b, 0, 'e', 'E');
    let mant = if e == b.len() {
        norm_mantissa(b)
    } else {
        norm_mantissa(b.take(e)) + seq!['e'] + b.skip(e + 1)
    };
    if neg {
        seq!['-'] + mant
    } else {
        mant
    }
}

/// What serde_json makes of a JSON-grammar number token: `Some` of the
/// canonical rendering when the token is in JSON's number grammar and
/// its value is finite in double precision, and `None` otherwise. The
/// result depends on the token alone.
pub uninterp spec fn json_number_text(s: Seq<char>) -> Option<Seq<char>>;

/// Relies on serde_json's `from_str::<Number>`, which accepts a number
/// in JSON's grammar whose value is finite in double precision (an
/// out-of-range value is a parse error, surrounding whitespace is
/// ignored), and on `Number::to_string`, which renders the parsed value
/// canonically.
#[verifier::external_body]
fn json_number_canon(s: &str) -> (r: Option<String>)
    ensures
        match r {
            Some(t) => json_number_text(s@) == Some(t@),
            None => json_number_text(s@) is None,
        },
{
    match serde_json::from_str::<serde_json::Number>(s) {
        Ok(n) => Some(n.to_string()),
        Err(_) => None,
    }
}

/// How an unquoted KML token is classified: an `i64` literal becomes an
/// integer; otherwise a token in the float grammar whose normalized
/// form serde_json accepts becomes that number; anything else is kept
/// as text.
pub open spec fn unquoted_value_rel(tok: Seq<char>, v: JsonValue) -> bool {
    match parse_i64_spec(tok) {
        Some(i) => v == JsonValue::Int(i),
        None => if rust_float_token(tok) {
            match json_number_text(normalize_float(tok)) {
                Some(t) => v matches JsonValue::Num(s) && s@ == t,
                None => v matches JsonValue::Str(s) && s@ == tok,
            }
        } else {
            v matches JsonValue::Str(s) && s@ == tok
        },
    }
}

proof fn lemma_strip_zeros_skip(s: Seq<char>, k: int)
    requires
        0 <= k <= s.len(),
        forall|j: int| 0 <= j < k ==> s[j] == '0',
    ensures
        strip_zeros(s) == strip_zeros(s.skip(k)),
    decreases k,
{
    if k > 0 {
        assert(s[0] == '0');
        lemma_strip_zeros_skip(s.skip(1), k - 1);
        assert(s.skip(1).skip(k - 1) =~= s.skip(k));
    } else {
        assert(s.skip(0) =~= s);
    }
}

/// `out` extended with the characters of `v[from..to]`.
fn push_range(out: &mut Vec<char>, v: &Vec<char>, from: usize, to: usize)
    requires
        from <= to <= v@.len(),
    ensures
        final(out)@ == old(out)@ + v@.subrange(from as int, to as int),
{
    let mut k: usize = from;
    while k < to
        invariant
            from <= k <= to <= v@.len(),
            out@ == old(out)@ + v@.subrange(from as int, k as int),
        decreases to - k,
    {
        out.push(v[k]);
        k = k + 1;
        proof {
            assert(out@ =~= old(out)@ + v@.subrange(from as int, k as int));
        }
    }
}

/// `out` extended with the normalized integer part of `v[from..to]`.
fn push_norm_int_part(out: &mut Vec<char>, v: &Vec<char>, from: usize, to: usize)
    requires
        from <= to <= v@.len(),
    ensures
        final(out)@ == old(out)@ + norm_int_part(v@.subrange(from as int, to as int)),
{
    let ghost ip = v@.subrange(from as int, to as int);
    let mut i: usize = from;
    loop
        invariant
            from <= i <= to <= v@.len(),
            ip == v@.subrange(from as int, to as int),
            forall|j: int| from <= j < i ==> v@[j] == '0',
        ensures
            from <= i <= to,
            forall|j: int| from <= j < i ==> v@[j] == '0',
            i == to || v@[i as int] != '0',
        decreases to - i,
    {
        if i < to {
            if v[i] != '0' {
                break;
            }
            i = i + 1;
        } else {
            break;
        }
    }
    proof {
        assert forall|j: int| 0 <= j < i - from implies ip[j] == '0' by {
            assert(ip[j] == v@[from + j]);
        }
        lemma_strip_zeros_skip(ip, i - from);
        assert(ip.skip(i - from) =~= v@.subrange(i as int, to as int));
        if i < to {
            assert(strip_zeros(v@.subrange(i as int, to as int)) == v@.subrange(
                i as int,
                to as int,
            ));
        }
    }
    if i == to {
        out.push('0');
        proof {
            assert(strip_zeros(ip.skip(i - from)) =~= Seq::<char>::empty());
            assert(final(out)@ =~= old(out)@ + norm_int_part(ip));
        }
    } else {
        push_range(out, v, i, to);
        proof {
            assert(final(out)@ =~= old(out)@ + norm_int_part(ip));
        }
    }
}

/// `find_char` over a bounded range: first `c` in `v[from..to]`, else `to`.
fn find_char_x_bounded(v: &Vec<char>, from: usize, to: usize, c: char) -> (r: usize)
    requires
        from <= to <= v@.len(),
    ensures
        from <= r <= to,
        r - from == find_char(v@.subrange(from as int, to as int), 0, c, c),
{
    let ghost sub = v@.subrange(from as int, to as int);
    let mut i: usize = from;
    loop
        invariant
            from <= i <= to <= v@.len(),
            sub == v@.subrange(from as int, to as int),
            find_char(sub, 0, c, c) == find_char(sub, i - from, c, c),
        ensures
            from <= i <= to,
            find_char(sub, 0, c, c) == i - from,
        decreases to - i,
    {
        if i < to {
            proof {
                assert(sub[i - from] == v@[i as int]);
            }
            if v[i] == c {
                break;
            }
            i = i + 1;
        } else {
            break;
        }
    }
    i
}

proof fn lemma_find_char_skip(s: Seq<char>, start: int, e: int, a: char, b: char)
    requires
        0 <= start <= s.len(),
        e == find_char(s, start, a, b),
    ensures
        find_char(s.skip(start), 0, a, b) == e - start,
{
    lemma_find_char_range(s, start, a, b);
    let sub = s.skip(start);
    lemma_find_char_range(sub, 0, a, b);
    if e - start < sub.len() {
        assert(sub[e - start] == s[e]);
    }
    if find_char(sub, 0, a, b) < e - start {
        let j = find_char(sub, 0, a, b);
        assert(sub[j] == s[start + j]);
        assert(s[start + j] == a || s[start + j] == b);
    }
}

proof fn lemma_no_dot_in_digits(fp: Seq<char>)
    requires
        all_dec_digits(fp),
    ensures
        find_char(fp, 0, '.', '.') == fp.len(),
{
    lemma_find_char_range(fp, 0, '.', '.');
    let j = find_char(fp, 0, '.', '.');
    if j < fp.len() {
        assert(crate::strutil::is_dec_digit(fp[j]));
    }
}

/// Recogniser for `mantissa_ok` on `v[from..to]`.
fn mantissa_ok_x(v: &Vec<char>, from: usize, to: usize) -> (r: bool)
    requires
        from <= to <= v@.len(),
    ensures
        r == mantissa_ok(v@.subrange(from as int, to as int)),
{
    let ghost m = v@.subrange(from as int, to as int);
    let d = find_char_x_bounded(v, from, to, '.');
    if d == to {
        to > from && all_dec_digits_x(v, from, to)
    } else {
        let ip_ok = all_dec_digits_x(v, from, d);
        let fp_ok = all_dec_digits_x(v, d + 1, to);
        let nonempty = d > from || to > d + 1;
        proof {
            assert(m.take(d - from) =~= v@.subrange(from as int, d as int));
            assert(m.skip(d - from + 1) =~= v@.subrange(d + 1 as int, to as int));
            if ip_ok && fp_ok {
                lemma_no_dot_in_digits(m.skip(d - from + 1));
            }
        }
        ip_ok && fp_ok && nonempty
    }
}

/// Recogniser for `exp_ok` on `v[from..to]`.
fn exp_ok_x(v: &Vec<char>, from: usize, to: usize) -> (r: bool)
    requires
        from <= to <= v@.len(),
    ensures
        r == exp_ok(v@.subrange(from as int, to as int)),
{
    let ghost eb = v@.subrange(from as int, to as int);
    if from == to {
        return false;
    }
    proof {
        assert(eb[0] == v@[from as int]);
    }
    let c = v[from];
    if c == '+' || c == '-' {
        let r0 = to > from + 1 && all_dec_digits_x(v, from + 1, to);
        proof {
            assert(eb.skip(1) =~= v@.subrange(from + 1 as int, to as int));
        }
        r0
    } else {
        all_dec_digits_x(v, from, to)
    }
}

/// Recogniser for `float_body_ok` on `v[from..]`.
fn float_body_ok_x(v: &Vec<char>, from: usize) -> (r: bool)
    requires
        from <= v@.len(),
    ensures
        r == float_body_ok(v@.skip(from as int)),
{
    let n = v.len();
    let ghost b = v@.skip(from as int);
    let e = find_char_x(v, from, 'e', 'E');
    proof {
        lemma_find_char_range(v@, from as int, 'e', 'E');
        lemma_find_char_skip(v@, from as int, e as int, 'e', 'E');
    }
    if e == n {
        let r0 = mantissa_ok_x(v, from, n);
        proof {
            assert(v@.subrange(from as int, n as int) =~= b);
        }
        r0
    } else {
        let m_ok = mantissa_ok_x(v, from, e);
        let x_ok = exp_ok_x(v, e + 1, n);
        proof {
            assert(b.take(e - from) =~= v@.subrange(from as int, e as int));
            assert(b.skip(e - from + 1) =~= v@.subrange(e + 1 as int, n as int));
        }
        m_ok && x_ok
    }
}

/// Recogniser for the digit form of the float grammar.
fn rust_float_token_x(v: &Vec<char>) -> (r: bool)
    ensures
        r == rust_float_token(v@),
{
    let n = v.len();
    if n > 0 && (v[0] == '+' || v[0] == '-') {
        float_body_ok_x(v, 1)
    } else {
        let r0 = float_body_ok_x(v, 0);
        proof {
            assert(v@.skip(0) =~= v@);
        }
        r0
    }
}

/// The token rewritten into JSON's number grammar; callers pass a token
/// already known to be in the float grammar, but the rewriting itself
/// is defined for any token.
#[verifier::rlimit(50)]
fn normalize_float_x(v: &Vec<char>) -> (r: Vec<char>)
    ensures
        r@ == normalize_float(v@),
{
    let n = v.len();
    let neg = n > 0 && v[0] == '-';
    let start: usize = if n > 0 && (v[0] == '+' || v[0] == '-') {
        1
    } else {
        0
    };
    let ghost b = v@.skip(start as int);
    let e = find_char_x(v, start, 'e', 'E');
    proof {
        lemma_find_char_range(v@, start as int, 'e', 'E');
        lemma_find_char_skip(v@, start as int, e as int, 'e', 'E');
        if start == 0 {
            assert(b =~= v@);
        }
    }
    let d = find_char_x_bounded(v, start, e, '.');
    let ghost m = v@.subrange(start as int, e as int);
    proof {
        if e == n {
            assert(b =~= m);
        } else {
            assert(b.take(e - start) =~= m);
        }
    }
    let mut out: Vec<char> = Vec::new();
    if neg {
        out.push('-');
    }
    let ghost sign_part = out@;
    if d == e {
        push_norm_int_part(&mut out, v, start, e);
        proof {
            assert(norm_mantissa(m) == norm_int_part(m));
            assert(v@.subrange(start as int, e as int) == m);
        }
    } else {
        push_norm_int_part(&mut out, v, start, d);
        proof {
            assert(m.take(d - start) =~= v@.subrange(start as int, d as int));
            assert(m.skip(d - start + 1) =~= v@.subrange(d + 1 as int, e as int));
        }
        if d + 1 < e {
            out.push('.');
            push_range(&mut out, v, d + 1, e);
            proof {
                assert(out@ =~= sign_part + norm_mantissa(m));
            }
        } else {
            proof {
                assert(m.skip(d - start + 1).len() == 0);
                assert(out@ =~= sign_part + norm_mantissa(m));
            }
        }
    }
    proof {
        assert(out@ == sign_part + norm_mantissa(m));
    }
    let ghost mid = out@;
    if e < n {
        out.push('e');
        push_range(&mut out, v, e + 1, n);
        proof {
            assert(b.skip(e - start + 1) =~= v@.subrange(e + 1 as int, n as int));
            assert(out@ =~= mid + seq!['e'] + v@.subrange(e + 1 as int, n as int));
            assert(out@ =~= sign_part + (norm_mantissa(b.take(e - start)) + seq!['e'] + b.skip(
                e - start + 1,
            )));
            assert(out@ =~= normalize_float(v@));
        }
    } else {
        proof {
            assert(out@ =~= normalize_float(v@));
        }
    }
    out
}

/// The classified value of an unquoted KML token.
pub fn classify_unquoted(tok: &Vec<char>) -> (v: JsonValue)
    ensures
        unquoted_value_rel(tok@, v),
{
    match parse_i64(tok) {
        Some(i) => JsonValue::Int(i),
        None => {
            if rust_float_token_x(tok) {
                let norm = normalize_float_x(tok);
                let ns = string_from_chars(&norm);
                match json_number_canon(ns.as_str()) {
                    Some(t) => JsonValue::Num(t),
                    None => JsonValue::Str(string_from_chars(tok)),
                }
            } else {
                JsonValue::Str(string_from_chars(tok))
            }
        },
    }
}

} // verus!
