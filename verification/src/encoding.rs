//! Encoding resolution: which text encodings to try, in priority order,
//! when opening a vector file. KML and KMZ are committed to UTF-8 by
//! their standard; Shapefiles go by the sibling `.cpg` declaration when
//! one is readable, and otherwise by a GBK-first heuristic suited to
//! legacy files without codepage metadata. The empty string stands for
//! the underlying library's system default.

use vstd::prelude::*;
use crate::strutil::{chars_of, ends_with_ci_spec, ends_with_ci, eq_ci, lower_seq, string_from_chars, subvec};

verus! {

/// The Unicode `White_Space` characters, as `str::trim` sees them.
pub open spec fn is_space(c: char) -> bool {
    let u = c as u32;
    (9 <= u && u <= 13) || u == 32 || u == 133 || u == 160 || u == 0x1680
        || (0x2000 <= u && u <= 0x200A) || u == 0x2028 || u == 0x2029 || u == 0x202F
        || u == 0x205F || u == 0x3000
}

pub fn is_space_x(c: char) -> (r: bool)
    ensures
        r == is_space(c),
{
    let u = c as u32;
    (9 <= u && u <= 13) || u == 32 || u == 133 || u == 160 || u == 0x1680
        || (0x2000 <= u && u <= 0x200A) || u == 0x2028 || u == 0x2029 || u == 0x202F
        || u == 0x205F || u == 0x3000
}

pub open spec fn trim_start_spec(s: Seq<char>) -> Seq<char>
    decreases s.len(),
{
    if s.len() > 0 && is_space(s[0]) {
        trim_start_spec(s.skip(1))
    } else {
        s
    }
}

pub open spec fn trim_end_spec(s: Seq<char>) -> Seq<char>
    decreases s.len(),
{
    if s.len() > 0 && is_space(s.last()) {
        trim_end_spec(s.drop_last())
    } else {
        s
    }
}

/// What `str::trim` returns: the string with leading and trailing
/// whitespace removed.
pub open spec fn trim_spec(s: Seq<char>) -> Seq<char> {
    trim_end_spec(trim_start_spec(s))
}

proof fn lemma_trim_start_skip(s: Seq<char>, k: int)
    requires
        0 <= k <= s.len(),
        forall|j: int| 0 <= j < k ==> is_space(#[trigger] s[j]),
    ensures
        trim_start_spec(s) == trim_start_spec(s.skip(k)),
    decreases k,
{
    if k > 0 {
        assert(is_space(s[0]));
        assert(trim_start_spec(s) == trim_start_spec(s.skip(1)));
        lemma_trim_start_skip(s.skip(1), k - 1);
        assert(s.skip(1).skip(k - 1) =~= s.skip(k));
    } else {
        assert(s.skip(0) =~= s);
    }
}

proof fn lemma_trim_end_take(s: Seq<char>, k: int)
    requires
        0 <= k <= s.len(),
        forall|j: int| k <= j < s.len() ==> is_space(#[trigger] s[j]),
    ensures
        trim_end_spec(s) == trim_end_spec(s.take(k)),
    decreases s.len() - k,
{
    if k < s.len() {
        assert(is_space(s.last()));
        assert(trim_end_spec(s) == trim_end_spec(s.drop_last()));
        assert(s.drop_last() =~= s.take(s.len() - 1));
        let t = s.take(s.len() - 1);
        assert forall|j: int| k <= j < t.len() implies is_space(#[trigger] t[j]) by {
            assert(t[j] == s[j]);
        }
        lemma_trim_end_take(t, k);
        assert(t.take(k) =~= s.take(k));
    } else {
        assert(s.take(k) =~= s);
    }
}

/// `v` with leading and trailing whitespace removed.
pub fn trim_chars(v: &Vec<char>) -> (r: Vec<char>)
    ensures
        r@ == trim_spec(v@),
{
    let n = v.len();
    let mut start: usize = 0;
    while start < n && is_space_x(v[start])
        invariant
            start <= n,
            n == v@.len(),
            forall|j: int| 0 <= j < start ==> is_space(#[trigger] v@[j]),
        decreases n - start,
    {
        start = start + 1;
    }
    proof {
        lemma_trim_start_skip(v@, start as int);
        if start < n {
            assert(!is_space(v@.skip(start as int)[0]));
        }
        assert(trim_start_spec(v@) == v@.skip(start as int));
    }
    let mut end: usize = n;
    while end > start && is_space_x(v[end - 1])
        invariant
            start <= end <= n,
            n == v@.len(),
            forall|j: int| 0 <= j < start ==> is_space(#[trigger] v@[j]),
            forall|j: int| end <= j < n ==> is_space(#[trigger] v@[j]),
        decreases end,
    {
        end = end - 1;
    }
    let ghost tail = v@.skip(start as int);
    proof {
        assert(forall|j: int| end - start <= j < tail.len() ==> is_space(#[trigger] tail[j]));
        lemma_trim_end_take(tail, end - start);
        let kept = tail.take(end - start);
        if end > start {
            assert(kept.last() == v@[end - 1]);
            assert(!is_space(kept.last()));
        }
        assert(trim_end_spec(kept) == kept);
        assert(kept =~= v@.subrange(start as int, end as int));
    }
    subvec(v, start, end)
}

/// Whether the path names a KML or KMZ file, by extension,
/// case-insensitively.
pub open spec fn is_kml_path(path: Seq<char>) -> bool {
    ends_with_ci_spec(path, ".kml"@) || ends_with_ci_spec(path, ".kmz"@)
}

pub fn is_kml_path_x(path: &Vec<char>) -> (r: bool)
    ensures
        r == is_kml_path(path@),
{
    ends_with_ci(path, ".kml") || ends_with_ci(path, ".kmz")
}

/// Whether the path names a file whose opening goes through encoding
/// resolution: Shapefile, KML or KMZ.
pub open spec fn needs_encoding_resolution(path: Seq<char>) -> bool {
    ends_with_ci_spec(path, ".shp"@) || is_kml_path(path)
}

pub fn needs_encoding_resolution_x(path: &Vec<char>) -> (r: bool)
    ensures
        r == needs_encoding_resolution(path@),
{
    ends_with_ci(path, ".shp") || is_kml_path_x(path)
}

/// The candidate list derived from a readable `.cpg` declaration.
pub open spec fn cpg_encoding_order(cpg: Seq<char>) -> Seq<Seq<char>> {
    let t = lower_seq(trim_spec(cpg));
    if t == "utf-8"@ || t == "utf8"@ {
        seq!["UTF-8"@, "GBK"@, ""@]
    } else if t == "gbk"@ || t == "gb2312"@ || t == "gb18030"@ {
        seq!["GBK"@, "UTF-8"@, ""@]
    } else if t == "iso-8859-1"@ || t == "latin1"@ {
        seq!["ISO-8859-1"@, "GBK"@, "UTF-8"@, ""@]
    } else {
        seq!["GBK"@, "UTF-8"@, ""@]
    }
}

/// The candidate list for a Shapefile: from the `.cpg` content when one
/// was readable, and the no-metadata heuristic otherwise.
pub open spec fn shapefile_encoding_order(cpg: Option<Seq<char>>) -> Seq<Seq<char>> {
    match cpg {
        Some(c) => cpg_encoding_order(c),
        None => seq!["GBK"@, "UTF-8"@, ""@],
    }
}

/// The full policy: KML and KMZ are fixed to UTF-8 then default; every
/// other path goes by the Shapefile rules.
pub open spec fn encoding_order(path: Seq<char>, cpg: Option<Seq<char>>) -> Seq<Seq<char>> {
    if is_kml_path(path) {
        seq!["UTF-8"@, ""@]
    } else {
        shapefile_encoding_order(cpg)
    }
}

pub open spec fn opt_str_view(cpg: Option<&str>) -> Option<Seq<char>> {
    match cpg {
        Some(c) => Some(c@),
        None => None,
    }
}

fn push_enc(out: &mut Vec<String>, s: &str)
    ensures
        final(out)@.len() == old(out)@.len() + 1,
        final(out).deep_view() == old(out).deep_view().push(s@),
{
    let v = chars_of(s);
    out.push(string_from_chars(&v));
    proof {
        assert(final(out).deep_view() =~= old(out).deep_view().push(s@));
    }
}

/// The ordered encodings to try for the sibling-`.cpg` rules alone.
/// `cpg` is the content of the sibling `.cpg` file where one could be
/// read, and `None` otherwise.
pub fn detect_shapefile_encoding(cpg: Option<&str>) -> (r: Vec<String>)
    ensures
        r.deep_view() == shapefile_encoding_order(opt_str_view(cpg)),
        r@.len() > 0,
{
    let mut out: Vec<String> = Vec::new();
    match cpg {
        Some(c) => {
            let chars = chars_of(c);
            let t = trim_chars(&chars);
            if eq_ci(&t, "utf-8") || eq_ci(&t, "utf8") {
                push_enc(&mut out, "UTF-8");
                push_enc(&mut out, "GBK");
                push_enc(&mut out, "");
            } else if eq_ci(&t, "gbk") || eq_ci(&t, "gb2312") || eq_ci(&t, "gb18030") {
                push_enc(&mut out, "GBK");
                push_enc(&mut out, "UTF-8");
                push_enc(&mut out, "");
            } else if eq_ci(&t, "iso-8859-1") || eq_ci(&t, "latin1") {
                push_enc(&mut out, "ISO-8859-1");
                push_enc(&mut out, "GBK");
                push_enc(&mut out, "UTF-8");
                push_enc(&mut out, "");
            } else {
                push_enc(&mut out, "GBK");
                push_enc(&mut out, "UTF-8");
                push_enc(&mut out, "");
            }
            proof {
                assert(out.deep_view() =~= cpg_encoding_order(c@));
            }
        },
        None => {
            push_enc(&mut out, "GBK");
            push_enc(&mut out, "UTF-8");
            push_enc(&mut out, "");
            proof {
                assert(out.deep_view() =~= shapefile_encoding_order(None));
            }
        },
    }
    out
}

/// The ordered encodings to try for a file: the non-empty, most-likely-
/// first candidate list of the resolver. `cpg` is the content of the
/// sibling `.cpg` file where one could be read.
pub fn detect_file_encoding(path: &str, cpg: Option<&str>) -> (r: Vec<String>)
    ensures
        r.deep_view() == encoding_order(path@, opt_str_view(cpg)),
        r@.len() > 0,
{
    let pchars = chars_of(path);
    if is_kml_path_x(&pchars) {
        let mut out: Vec<String> = Vec::new();
        push_enc(&mut out, "UTF-8");
        push_enc(&mut out, "");
        proof {
            assert(out.deep_view() =~= encoding_order(path@, opt_str_view(cpg)));
        }
        out
    } else {
        detect_shapefile_encoding(cpg)
    }
}

} // verus!
