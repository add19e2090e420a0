//! Opening a dataset with encoding fallback. The library decides the
//! ordered candidate list; the caller attempts each open (an explicit
//! per-open encoding option, or plain default settings for the empty
//! candidate) and reports which attempts succeeded. The first success
//! wins; exhausting every candidate is one aggregated read error that
//! does not leak which individual attempts failed.

use vstd::prelude::*;
use crate::encoding::{detect_file_encoding, encoding_order, needs_encoding_resolution,
    needs_encoding_resolution_x, opt_str_view};
use crate::errors::AppError;
use crate::strutil::{chars_of, string_from_chars};

verus! {

/// The candidates a dataset open tries, in order: the resolver's list
/// for the extensions that need encoding resolution, and one default
/// open for every other path.
pub open spec fn open_candidates_spec(path: Seq<char>, cpg: Option<Seq<char>>) -> Seq<Seq<char>> {
    if needs_encoding_resolution(path) {
        encoding_order(path, cpg)
    } else {
        seq![""@]
    }
}

pub fn open_candidates(path: &str, cpg: Option<&str>) -> (r: Vec<String>)
    ensures
        r.deep_view() == open_candidates_spec(path@, opt_str_view(cpg)),
        r@.len() > 0,
{
    let pchars = chars_of(path);
    if needs_encoding_resolution_x(&pchars) {
        detect_file_encoding(path, cpg)
    } else {
        let mut out: Vec<String> = Vec::new();
        let e = chars_of("");
        out.push(string_from_chars(&e));
        proof {
            assert(out.deep_view() =~= open_candidates_spec(path@, opt_str_view(cpg)));
        }
        out
    }
}

/// The outcome of the encoding-fallback open: `outcomes[i]` reports
/// whether opening with the `i`-th candidate of the resolver's list
/// succeeded. The result is the first successful candidate's index;
/// when every attempt failed, the one aggregated `FileReadError`.
pub fn open_vector_with_encoding(path: &str, cpg: Option<&str>, outcomes: &Vec<bool>) -> (r: Result<
    usize,
    AppError,
>)
    requires
        outcomes@.len() == encoding_order(path@, opt_str_view(cpg)).len(),
    ensures
        match r {
            Ok(i) => i < outcomes@.len() && outcomes@[i as int] && (forall|j: int|
                0 <= j < i ==> !outcomes@[j]),
            Err(e) => e is FileReadError && (forall|j: int|
                0 <= j < outcomes@.len() ==> !outcomes@[j]),
        },
{
    let n = outcomes.len();
    let mut i: usize = 0;
    while i < n
        invariant
            0 <= i <= n,
            n == outcomes@.len(),
            forall|j: int| 0 <= j < i ==> !outcomes@[j],
        decreases n - i,
    {
        if outcomes[i] {
            return Ok(i);
        }
        i = i + 1;
    }
    let m = chars_of("the file could not be opened: every encoding candidate failed");
    Err(AppError::FileReadError(string_from_chars(&m)))
}

} // verus!
