//! Parsing of KML `description` blobs. KML sources often pack all the
//! attributes of a feature into one text field as a run of
//! `"key":value` or `"key":"value"` pairs; the scanner recovers them,
//! left to right and non-overlapping, classifying each unquoted value
//! as integer, number or text (see `jsonval`). Parsed pairs are
//! inserted in match order with later keys overwriting earlier ones.

use vstd::prelude::*;
use crate::encoding::{is_space, is_space_x};
use crate::jsonval::{JsonValue, classify_unquoted, find_char, lemma_find_char_range,
    unquoted_value_rel};
use crate::props::{PropMap, fold_insert};
use crate::strutil::{chars_of, string_from_chars, subvec};

verus! {

/// The end of a run of value characters (neither a quote nor
/// whitespace) starting at `from`.
pub open spec fn value_run_end(s: Seq<char>, from: int) -> int
    decreases s.len() - from,
{
    if from < 0 || from >= s.len() {
        s.len() as int
    } else if s[from] == '"' || is_space(s[from]) {
        from
    } else {
        value_run_end(s, from + 1)
    }
}

proof fn lemma_value_run_range(s: Seq<char>, from: int)
    requires
        0 <= from <= s.len(),
    ensures
        from <= value_run_end(s, from) <= s.len(),
    decreases s.len() - from,
{
    if from < s.len() && !(s[from] == '"' || is_space(s[from])) {
        lemma_value_run_range(s, from + 1);
    }
}

fn value_run_end_x(s: &Vec<char>, from: usize) -> (r: usize)
    requires
        from <= s@.len(),
    ensures
        r == value_run_end(s@, from as int),
        from <= r <= s@.len(),
{
    proof {
        lemma_value_run_range(s@, from as int);
    }
    let n = s.len();
    let mut i: usize = from;
    loop
        invariant
            from <= i <= n,
            n == s@.len(),
            value_run_end(s@, from as int) == value_run_end(s@, i as int),
        ensures
            from <= i <= n,
            value_run_end(s@, from as int) == i as int,
        decreases n - i,
    {
        if i < n {
            if s[i] == '"' || is_space_x(s[i]) {
                break;
            }
            i = i + 1;
        } else {
            break;
        }
    }
    i
}

/// One match of the pair pattern at position `i`: the key (at least one
/// non-quote character between quotes, closed by `":`), then either a
/// quoted value (quotes stripped) or a run of non-quote, non-whitespace
/// characters. Yields the key, the raw value, whether it was quoted,
/// and the position where scanning resumes.
pub open spec fn kml_match_at(s: Seq<char>, i: int) -> Option<(Seq<char>, Seq<char>, bool, int)> {
    if !(0 <= i < s.len() && s[i] == '"') {
        None
    } else {
        let j = find_char(s, i + 1, '"', '"');
        if j < s.len() && j > i + 1 && j + 1 < s.len() && s[j + 1] == ':' {
            let v0 = j + 2;
            if v0 < s.len() && s[v0] == '"' {
                let k = find_char(s, v0 + 1, '"', '"');
                if k < s.len() {
                    Some((s.subrange(i + 1, j), s.subrange(v0 + 1, k), true, k + 1))
                } else {
                    None
                }
            } else if v0 < s.len() && !is_space(s[v0]) {
                let m = value_run_end(s, v0);
                Some((s.subrange(i + 1, j), s.subrange(v0, m), false, m))
            } else {
                None
            }
        } else {
            None
        }
    }
}

/// All matches of the pair pattern, scanning left to right from `i` and
/// resuming after each match.
pub open spec fn kml_matches(s: Seq<char>, i: int) -> Seq<(Seq<char>, Seq<char>, bool)>
    decreases s.len() - i,
{
    if !(0 <= i < s.len()) {
        Seq::empty()
    } else {
        match kml_match_at(s, i) {
            Some((key, raw, q, end)) => {
                if i < end <= s.len() {
                    seq![(key, raw, q)] + kml_matches(s, end)
                } else {
                    Seq::empty()
                }
            },
            None => kml_matches(s, i + 1),
        }
    }
}

/// The classified entry a match becomes: a quoted value stays text; an
/// unquoted one is classified as integer, number or text.
pub open spec fn kml_entry_rel(m: (Seq<char>, Seq<char>, bool), e: (String, JsonValue)) -> bool {
    &&& e.0@ == m.0
    &&& if m.2 {
        e.1 matches JsonValue::Str(t) && t@ == m.1
    } else {
        unquoted_value_rel(m.1, e.1)
    }
}

pub open spec fn kml_entries_rel(
    ms: Seq<(Seq<char>, Seq<char>, bool)>,
    es: Seq<(String, JsonValue)>,
) -> bool {
    es.len() == ms.len() && forall|k: int| 0 <= k < ms.len() ==> kml_entry_rel(
        #[trigger] ms[k],
        es[k],
    )
}

fn kml_match_at_x(s: &Vec<char>, i: usize) -> (r: Option<(usize, usize, usize, usize, bool, usize)>)
    requires
        i < s@.len(),
    ensures
        match r {
            Some((ks, ke, vs, ve, quoted, end)) => {
                &&& kml_match_at(s@, i as int) == Some(
                    (
                        s@.subrange(ks as int, ke as int),
                        s@.subrange(vs as int, ve as int),
                        quoted,
                        end as int,
                    ),
                )
                &&& ks <= ke <= s@.len()
                &&& vs <= ve <= s@.len()
                &&& i < end <= s@.len()
            },
            None => kml_match_at(s@, i as int) is None,
        },
{
    let n = s.len();
    if s[i] != '"' {
        return None;
    }
    let j = crate::jsonval::find_char_x(s, i + 1, '"', '"');
    proof {
        lemma_find_char_range(s@, i + 1, '"', '"');
    }
    if !(j < n && j > i + 1 && j + 1 < n && s[j + 1] == ':') {
        return None;
    }
    let v0 = j + 2;
    if v0 < n && s[v0] == '"' {
        let k = crate::jsonval::find_char_x(s, v0 + 1, '"', '"');
        proof {
            lemma_find_char_range(s@, v0 + 1, '"', '"');
        }
        if k < n {
            Some((i + 1, j, v0 + 1, k, true, k + 1))
        } else {
            None
        }
    } else if v0 < n && !is_space_x(s[v0]) {
        let m = value_run_end_x(s, v0);
        proof {
            lemma_value_run_range(s@, v0 + 1);
            assert(value_run_end(s@, v0 as int) == value_run_end(s@, v0 + 1));
        }
        Some((i + 1, j, v0, m, false, m))
    } else {
        None
    }
}

/// Every match of the pair pattern in a KML `description` blob,
/// classified, in match order, duplicate keys not yet folded.
pub fn kml_description_entries(description: &str) -> (r: Vec<(String, JsonValue)>)
    ensures
        kml_entries_rel(kml_matches(description@, 0), r@),
{
    let v = chars_of(description);
    let n = v.len();
    let mut out: Vec<(String, JsonValue)> = Vec::new();
    let ghost mut pm: Seq<(Seq<char>, Seq<char>, bool)> = Seq::empty();
    let mut i: usize = 0;
    proof {
        assert(pm + kml_matches(v@, 0) =~= kml_matches(v@, 0));
    }
    loop
        invariant
            0 <= i <= n,
            n == v@.len(),
            v@ == description@,
            kml_matches(v@, 0) == pm + kml_matches(v@, i as int),
            kml_entries_rel(pm, out@),
        ensures
            kml_matches(v@, 0) == pm + kml_matches(v@, i as int),
            kml_entries_rel(pm, out@),
            i >= n,
        decreases n - i,
    {
        if i >= n {
            break;
        }
        match kml_match_at_x(&v, i) {
            Some((ks, ke, vs, ve, quoted, end)) => {
                let keyv = subvec(&v, ks, ke);
                let key = string_from_chars(&keyv);
                let tok = subvec(&v, vs, ve);
                let value = if quoted {
                    JsonValue::Str(string_from_chars(&tok))
                } else {
                    classify_unquoted(&tok)
                };
                let ghost m = (
                    v@.subrange(ks as int, ke as int),
                    v@.subrange(vs as int, ve as int),
                    quoted,
                );
                proof {
                    assert(kml_matches(v@, i as int) == seq![m] + kml_matches(v@, end as int));
                    assert(kml_entry_rel(m, (key, value)));
                    let pm2 = pm.push(m);
                    assert(pm2.drop_last() =~= pm);
                    assert(pm2 + kml_matches(v@, end as int) =~= pm + kml_matches(v@, i as int));
                }
                let ghost old_out = out@;
                out.push((key, value));
                proof {
                    let pm2 = pm.push(m);
                    assert forall|k: int| 0 <= k < pm2.len() implies kml_entry_rel(
                        #[trigger] pm2[k],
                        out@[k],
                    ) by {
                        if k < pm.len() {
                            assert(pm2[k] == pm[k] && out@[k] == old_out[k]);
                        }
                    }
                    pm = pm2;
                }
                i = end;
            },
            None => {
                proof {
                    assert(kml_matches(v@, i as int) == kml_matches(v@, i + 1));
                }
                i = i + 1;
            },
        }
    }
    proof {
        assert(kml_matches(v@, i as int) =~= Seq::<(Seq<char>, Seq<char>, bool)>::empty());
        assert(pm =~= kml_matches(description@, 0));
    }
    out
}

/// `props` extended by inserting every entry in order, later keys
/// overwriting earlier ones.
pub fn insert_all(props: &mut PropMap, es: Vec<(String, JsonValue)>)
    requires
        old(props).wf(),
    ensures
        final(props).wf(),
        final(props).entries@ == fold_insert(old(props).entries@, es@),
{
    let ghost all = es@;
    // reverse by moving, then insert oldest first by popping
    let mut rev: Vec<(String, JsonValue)> = Vec::new();
    let mut es = es;
    while es.len() > 0
        invariant
            all =~= es@ + rev@.reverse(),
        decreases es@.len(),
    {
        let e = es.pop().unwrap();
        rev.push(e);
        proof {
            assert(all =~= es@ + rev@.reverse());
        }
    }
    proof {
        assert(all =~= rev@.reverse());
    }
    let ghost mut done: int = 0;
    while rev.len() > 0
        invariant
            props.wf(),
            0 <= done <= all.len(),
            rev@.len() == all.len() - done,
            forall|k: int| 0 <= k < rev@.len() ==> #[trigger] rev@[k] == all[all.len() - 1 - k],
            props.entries@ == fold_insert(old(props).entries@, all.take(done)),
        decreases rev@.len(),
    {
        let e = rev.pop().unwrap();
        proof {
            assert(e == all[done]);
        }
        props.insert(e.0, e.1);
        proof {
            done = done + 1;
            assert(all.take(done).drop_last() =~= all.take(done - 1));
            assert(all.take(done).last() == all[done - 1]);
        }
    }
    proof {
        assert(all.take(done) =~= all);
    }
}

/// The properties packed into a KML `description` blob: every match of
/// the pair pattern, classified and inserted left to right, later
/// occurrences of a key overwriting earlier ones.
pub fn parse_kml_description(description: &str) -> (r: PropMap)
    ensures
        r.wf(),
        exists|es: Seq<(String, JsonValue)>|
            kml_entries_rel(kml_matches(description@, 0), es) && r.entries@ == fold_insert(
                Seq::empty(),
                es,
            ),
{
    let entries = kml_description_entries(description);
    let ghost es = entries@;
    let mut props = PropMap::new();
    insert_all(&mut props, entries);
    proof {
        assert(kml_entries_rel(kml_matches(description@, 0), es) && props.entries@ == fold_insert(
            Seq::empty(),
            es,
        ));
    }
    props
}

} // verus!
