//! Coordinate-reference-system normalization: deciding whether a layer
//! needs reprojection to WGS84, recovering an EPSG code from WKT text,
//! and recomputing an axis-aligned extent from transformed corner
//! points. The projection engine itself is outside the library: callers
//! run the transform and hand the resulting coordinates back.

use vstd::prelude::*;
use crate::errors::AppError;
use crate::extent::{Extent, bbox_of_points};
use crate::floatbits::{f_key, f_is_nan, fold_min, fold_max};
use crate::strutil::{chars_of, is_dec_digit, digits_val, parse_i64, subvec, string_from_chars};

verus! {

/// Reprojection to WGS84 is required unless the source authority code
/// is exactly EPSG:4326, or EPSG:4490 (CGCS2000, accepted here as a
/// WGS84 substitute). An undetermined source (`None`) is assumed to be
/// WGS84 already and is left untouched.
pub open spec fn needs_transform_spec(epsg: Option<i64>) -> bool {
    match epsg {
        None => false,
        Some(c) => c != 4326 && c != 4490,
    }
}

pub fn needs_transform(epsg: Option<i64>) -> (r: bool)
    ensures
        r == needs_transform_spec(epsg),
{
    match epsg {
        None => false,
        Some(c) => c != 4326 && c != 4490,
    }
}

/// The WKT definition the normalizer uses for the WGS84 target, chosen
/// over an authority lookup so that a transform can be built without a
/// reference database.
pub fn wgs84_wkt() -> &'static str {
    "GEOGCS[\"WGS 84\",DATUM[\"WGS_1984\",SPHEROID[\"WGS 84\",6378137,298.257223563]],PRIMEM[\"Greenwich\",0],UNIT[\"degree\",0.0174532925199433]]"
}

/// The corrected extent for a layer. When no reprojection is required
/// the source extent passes through unchanged. When it is required, the
/// caller transforms the four corner points and hands the coordinates
/// back in `transformed`; the result is the bounding box of those
/// points. A missing `transformed` where one is required means the
/// transform could not be built or failed, a fatal `InvalidFormat`.
pub fn normalized_extent(
    src: &Extent,
    epsg: Option<i64>,
    transformed: Option<(Vec<u64>, Vec<u64>)>,
) -> (r: Result<Extent, AppError>)
    ensures
        !needs_transform_spec(epsg) ==> r == Ok::<Extent, AppError>(*src),
        needs_transform_spec(epsg) ==> match transformed {
            Some(t) => {
                &&& r is Ok
                &&& r->Ok_0.min_x == fold_min(t.0@)
                &&& r->Ok_0.max_x == fold_max(t.0@)
                &&& r->Ok_0.min_y == fold_min(t.1@)
                &&& r->Ok_0.max_y == fold_max(t.1@)
            },
            None => r is Err && r->Err_0 is InvalidFormat,
        },
{
    if !needs_transform(epsg) {
        return Ok(*src);
    }
    match transformed {
        Some((xs, ys)) => Ok(bbox_of_points(&xs, &ys)),
        None => {
            let msg = chars_of("the coordinate transform to WGS84 could not be applied");
            Err(AppError::InvalidFormat(string_from_chars(&msg)))
        },
    }
}

/// Recomputing the axis-aligned box from transformed corner points can
/// loosen the bound, never tighten it: every corner point the transform
/// hands back (NaN aside) lies inside the extent the normalizer
/// returns, so a box carried to WGS84 and inspected there still covers
/// the image of every corner it was built from.
pub proof fn lemma_transformed_extent_contains(e: Extent, xs: Seq<u64>, ys: Seq<u64>)
    requires
        e.min_x == fold_min(xs),
        e.max_x == fold_max(xs),
        e.min_y == fold_min(ys),
        e.max_y == fold_max(ys),
    ensures
        forall|k: int|
            0 <= k < xs.len() && !f_is_nan(xs[k]) ==> f_key(e.min_x) <= f_key(#[trigger] xs[k])
                && f_key(xs[k]) <= f_key(e.max_x),
        forall|k: int|
            0 <= k < ys.len() && !f_is_nan(ys[k]) ==> f_key(e.min_y) <= f_key(#[trigger] ys[k])
                && f_key(ys[k]) <= f_key(e.max_y),
{
    crate::floatbits::lemma_fold_min_bounds(xs);
    crate::floatbits::lemma_fold_max_bounds(xs);
    crate::floatbits::lemma_fold_min_bounds(ys);
    crate::floatbits::lemma_fold_max_bounds(ys);
}

/// Splitting a list of points into coordinate rows, as the transform
/// utility feeds them to the projection engine.
pub fn split_coords(coords: &Vec<(u64, u64)>) -> (r: (Vec<u64>, Vec<u64>))
    ensures
        r.0@.len() == coords@.len(),
        r.1@.len() == coords@.len(),
        forall|k: int| 0 <= k < coords@.len() ==> r.0@[k] == (#[trigger] coords@[k]).0,
        forall|k: int| 0 <= k < coords@.len() ==> r.1@[k] == (#[trigger] coords@[k]).1,
{
    let mut xs: Vec<u64> = Vec::new();
    let mut ys: Vec<u64> = Vec::new();
    let mut i: usize = 0;
    while i < coords.len()
        invariant
            i <= coords@.len(),
            xs@.len() == i,
            ys@.len() == i,
            forall|k: int| 0 <= k < i ==> xs@[k] == (#[trigger] coords@[k]).0,
            forall|k: int| 0 <= k < i ==> ys@[k] == (#[trigger] coords@[k]).1,
        decreases coords@.len() - i,
    {
        let (x, y) = coords[i];
        xs.push(x);
        ys.push(y);
        i = i + 1;
    }
    (xs, ys)
}

/// Pairing coordinate rows back into points.
pub fn zip_coords(xs: &Vec<u64>, ys: &Vec<u64>) -> (r: Vec<(u64, u64)>)
    requires
        xs@.len() == ys@.len(),
    ensures
        r@.len() == xs@.len(),
        forall|k: int| 0 <= k < xs@.len() ==> #[trigger] r@[k] == (xs@[k], ys@[k]),
{
    let mut r: Vec<(u64, u64)> = Vec::new();
    let mut i: usize = 0;
    while i < xs.len()
        invariant
            i <= xs@.len(),
            xs@.len() == ys@.len(),
            r@.len() == i,
            forall|k: int| 0 <= k < i ==> #[trigger] r@[k] == (xs@[k], ys@[k]),
        decreases xs@.len() - i,
    {
        r.push((xs[i], ys[i]));
        i = i + 1;
    }
    r
}

/// Whether `lit` occurs in `s` starting at index `i`.
pub open spec fn match_lit_at(s: Seq<char>, lit: Seq<char>, i: int) -> bool {
    i + lit.len() <= s.len() && s.subrange(i, i + lit.len()) == lit
}

fn match_lit_at_x(s: &Vec<char>, lit: &Vec<char>, i: usize) -> (r: bool)
    requires
        i <= s@.len(),
    ensures
        r == match_lit_at(s@, lit@, i as int),
{
    let m = lit.len();
    let n = s.len();
    if n - i < m {
        return false;
    }
    let mut k: usize = 0;
    while k < m
        invariant
            k <= m,
            m == lit@.len(),
            n == s@.len(),
            i + m <= n,
            forall|j: int| 0 <= j < k ==> s@[i + j] == lit@[j],
        decreases m - k,
    {
        if s[i + k] != lit[k] {
            proof {
                assert(s@.subrange(i as int, i + lit@.len())[k as int] == s@[i + k]);
            }
            return false;
        }
        k = k + 1;
    }
    proof {
        assert(s@.subrange(i as int, i + lit@.len()) =~= lit@);
    }
    true
}

/// The end of the run of decimal digits starting at `from`.
pub open spec fn digit_run_end(s: Seq<char>, from: int) -> int
    decreases s.len() - from,
{
    if 0 <= from < s.len() && is_dec_digit(s[from]) {
        digit_run_end(s, from + 1)
    } else {
        from
    }
}

proof fn lemma_digit_run_range(s: Seq<char>, from: int)
    requires
        0 <= from <= s.len(),
    ensures
        from <= digit_run_end(s, from) <= s.len(),
        forall|j: int| from <= j < digit_run_end(s, from) ==> is_dec_digit(#[trigger] s[j]),
    decreases s.len() - from,
{
    if from < s.len() && is_dec_digit(s[from]) {
        lemma_digit_run_range(s, from + 1);
    }
}

fn digit_run_end_x(s: &Vec<char>, from: usize) -> (r: usize)
    requires
        from <= s@.len(),
    ensures
        r == digit_run_end(s@, from as int),
{
    let n = s.len();
    let mut i: usize = from;
    loop
        invariant
            from <= i <= n,
            n == s@.len(),
            digit_run_end(s@, from as int) == digit_run_end(s@, i as int),
        ensures
            from <= i <= n,
            digit_run_end(s@, from as int) == i as int,
        decreases n - i,
    {
        if i < n {
            let u = s[i] as u32;
            if 48 <= u && u <= 57 {
                i = i + 1;
            } else {
                break;
            }
        } else {
            break;
        }
    }
    i
}

/// Where a `prefix (digits)+ postfix` pattern matches at position `i`:
/// the digit-run bounds when it does.
pub open spec fn pattern_match_at(
    s: Seq<char>,
    pre: Seq<char>,
    post: Seq<char>,
    i: int,
) -> Option<(int, int)> {
    if match_lit_at(s, pre, i) {
        let d0 = i + pre.len();
        let d1 = digit_run_end(s, d0);
        if d1 > d0 && match_lit_at(s, post, d1) {
            Some((d0, d1))
        } else {
            None
        }
    } else {
        None
    }
}

/// The first position at or after `i` where the pattern matches, with
/// its digit-run bounds.
pub open spec fn find_pattern(
    s: Seq<char>,
    pre: Seq<char>,
    post: Seq<char>,
    i: int,
) -> Option<(int, int)>
    decreases s.len() - i,
{
    if i < 0 || i > s.len() {
        None
    } else if pattern_match_at(s, pre, post, i) is Some {
        pattern_match_at(s, pre, post, i)
    } else if i == s.len() {
        None
    } else {
        find_pattern(s, pre, post, i + 1)
    }
}

/// A found pattern carries its digit-run bounds: in range, non-empty,
/// and exactly the digit run starting at its first index.
proof fn lemma_find_pattern_some(s: Seq<char>, pre: Seq<char>, post: Seq<char>, i: int)
    requires
        0 <= i <= s.len(),
        find_pattern(s, pre, post, i) is Some,
    ensures
        ({
            let (d0, d1) = find_pattern(s, pre, post, i)->Some_0;
            0 <= d0 < d1 <= s.len() && d1 == digit_run_end(s, d0)
        }),
    decreases s.len() - i,
{
    if pattern_match_at(s, pre, post, i) is Some {
        let d0 = i + pre.len();
        lemma_digit_run_range(s, d0);
    } else if i < s.len() {
        lemma_find_pattern_some(s, pre, post, i + 1);
    }
}

fn find_pattern_x(s: &Vec<char>, pre: &Vec<char>, post: &Vec<char>) -> (r: Option<(usize, usize)>)
    ensures
        match r {
            Some((d0, d1)) => find_pattern(s@, pre@, post@, 0) == Some((d0 as int, d1 as int)),
            None => find_pattern(s@, pre@, post@, 0) is None,
        },
{
    let n = s.len();
    let mut i: usize = 0;
    loop
        invariant
            0 <= i <= n,
            n == s@.len(),
            find_pattern(s@, pre@, post@, 0) == find_pattern(s@, pre@, post@, i as int),
        decreases n - i,
    {
        if match_lit_at_x(s, pre, i) {
            let d0 = i + pre.len();
            proof {
                lemma_digit_run_range(s@, d0 as int);
            }
            let d1 = digit_run_end_x(s, d0);
            if d1 > d0 && match_lit_at_x(s, post, d1) {
                return Some((d0, d1));
            }
        }
        if i == n {
            return None;
        }
        i = i + 1;
    }
}

/// The EPSG code a pattern yields: the digit run's value when it fits a
/// 32-bit signed integer.
pub open spec fn pattern_epsg(s: Seq<char>, pre: Seq<char>, post: Seq<char>) -> Option<i32> {
    match find_pattern(s, pre, post, 0) {
        None => None,
        Some((d0, d1)) => {
            let dv = digits_val(s.subrange(d0, d1));
            if dv <= 0x7fff_ffff {
                Some(dv as i32)
            } else {
                None
            }
        },
    }
}

/// The EPSG code recovered from a WKT (or similar) CRS text: the first
/// of the patterns `AUTHORITY["EPSG","N"]`, `EPSG:N`, `EPSG","N` whose
/// first occurrence carries a code in 32-bit range.
pub open spec fn extract_epsg_spec(s: Seq<char>) -> Option<i32> {
    if pattern_epsg(s, "AUTHORITY[\"EPSG\",\""@, "\"]"@) is Some {
        pattern_epsg(s, "AUTHORITY[\"EPSG\",\""@, "\"]"@)
    } else if pattern_epsg(s, "EPSG:"@, ""@) is Some {
        pattern_epsg(s, "EPSG:"@, ""@)
    } else {
        pattern_epsg(s, "EPSG\",\""@, ""@)
    }
}

fn pattern_epsg_x(s: &Vec<char>, pre: &str, post: &str) -> (r: Option<i32>)
    ensures
        r == pattern_epsg(s@, pre@, post@),
{
    let prev = chars_of(pre);
    let postv = chars_of(post);
    match find_pattern_x(s, &prev, &postv) {
        None => None,
        Some((d0, d1)) => {
            proof {
                lemma_find_pattern_some(s@, prev@, postv@, 0);
                lemma_digit_run_range(s@, d0 as int);
            }
            let digits = subvec(s, d0, d1);
            proof {
                assert forall|j: int| 0 <= j < digits@.len() implies is_dec_digit(
                    #[trigger] digits@[j],
                ) by {
                    assert(digits@[j] == s@[d0 + j]);
                }
                crate::strutil::lemma_digits_val_nonneg(digits@);
                assert(digits@.len() > 0);
                assert(is_dec_digit(digits@[0]));
                assert(!(digits@[0] == '+' || digits@[0] == '-'));
            }
            match parse_i64(&digits) {
                Some(v) => {
                    if v <= 0x7fff_ffff {
                        Some(v as i32)
                    } else {
                        None
                    }
                },
                None => None,
            }
        },
    }
}

/// The EPSG code in a WKT CRS definition, where one can be recognised.
pub fn extract_epsg_from_wkt(wkt: &str) -> (r: Option<i32>)
    ensures
        r == extract_epsg_spec(wkt@),
{
    let s = chars_of(wkt);
    let a = pattern_epsg_x(&s, "AUTHORITY[\"EPSG\",\"", "\"]");
    if a.is_some() {
        return a;
    }
    let b = pattern_epsg_x(&s, "EPSG:", "");
    if b.is_some() {
        return b;
    }
    pattern_epsg_x(&s, "EPSG\",\"", "")
}

} // verus!
