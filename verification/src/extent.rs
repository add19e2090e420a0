//! Axis-aligned bounding boxes. Coordinates are held as the bit
//! patterns of IEEE 754 doubles (see `floatbits`); after normalization
//! an extent is expressed in WGS84 longitude/latitude, x before y.

use vstd::prelude::*;
use crate::floatbits::{f_key, f_is_nan, fold_min, fold_max, fold_min_x, fold_max_x,
    lemma_fold_min_bounds, lemma_fold_max_bounds};

verus! {

/// A bounding box; each field is the bit pattern of a double.
#[derive(Clone, Copy, Debug, PartialEq, Eq, Structural)]
pub struct Extent {
    pub min_x: u64,
    pub min_y: u64,
    pub max_x: u64,
    pub max_y: u64,
}

/// The four corners of the box, in the order the transform feeds them
/// to the geometry engine: both y rows of (min_x, max_x).
pub fn extent_corners(e: &Extent) -> (r: (Vec<u64>, Vec<u64>))
    ensures
        r.0@ == seq![e.min_x, e.max_x, e.min_x, e.max_x],
        r.1@ == seq![e.min_y, e.min_y, e.max_y, e.max_y],
{
    let mut xs: Vec<u64> = Vec::new();
    xs.push(e.min_x);
    xs.push(e.max_x);
    xs.push(e.min_x);
    xs.push(e.max_x);
    let mut ys: Vec<u64> = Vec::new();
    ys.push(e.min_y);
    ys.push(e.min_y);
    ys.push(e.max_y);
    ys.push(e.max_y);
    proof {
        assert(xs@ =~= seq![e.min_x, e.max_x, e.min_x, e.max_x]);
        assert(ys@ =~= seq![e.min_y, e.min_y, e.max_y, e.max_y]);
    }
    (xs, ys)
}

/// The axis-aligned box spanned by a set of points: minima and maxima
/// over each coordinate, folded as the standard library folds minimum
/// and maximum over doubles. Every non-NaN input point lies inside the
/// returned box.
pub fn bbox_of_points(xs: &Vec<u64>, ys: &Vec<u64>) -> (r: Extent)
    ensures
        r.min_x == fold_min(xs@),
        r.max_x == fold_max(xs@),
        r.min_y == fold_min(ys@),
        r.max_y == fold_max(ys@),
        forall|k: int|
            0 <= k < xs@.len() && !f_is_nan(xs@[k]) ==> f_key(r.min_x) <= f_key(#[trigger] xs@[k])
                && f_key(xs@[k]) <= f_key(r.max_x),
        forall|k: int|
            0 <= k < ys@.len() && !f_is_nan(ys@[k]) ==> f_key(r.min_y) <= f_key(#[trigger] ys@[k])
                && f_key(ys@[k]) <= f_key(r.max_y),
{
    let min_x = fold_min_x(xs);
    let max_x = fold_max_x(xs);
    let min_y = fold_min_x(ys);
    let max_y = fold_max_x(ys);
    proof {
        lemma_fold_min_bounds(xs@);
        lemma_fold_max_bounds(xs@);
        lemma_fold_min_bounds(ys@);
        lemma_fold_max_bounds(ys@);
    }
    Extent { min_x, min_y, max_x, max_y }
}

} // verus!
