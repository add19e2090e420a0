//! Dataset summaries: the single-layer information record, the
//! multi-layer inspector, and the loaded-driver listing. The geometry
//! engine outside the library opens the dataset and reads each layer's
//! raw data (spatial reference, extent, schema, first feature's
//! geometry type) into a `LayerScan`; where a layer needs reprojection
//! the caller also transforms the extent's corner points and hands the
//! coordinates in. The functions here make every decision on that data.

use vstd::prelude::*;
use crate::crs::{needs_transform_spec, needs_transform, normalized_extent};
use crate::errors::AppError;
use crate::extent::Extent;
use crate::floatbits::{fold_min, fold_max};
use crate::strutil::{chars_of, string_from_chars};

verus! {

/// A field of a layer's schema, as the geometry engine reports it.
#[derive(Debug, Clone)]
pub struct FieldSchema {
    pub name: String,
    pub field_type: String,
}

/// A field descriptor in a summary: the alias is never set, fields are
/// not editable and always visible.
#[derive(Debug, Clone)]
pub struct AttributeField {
    pub name: String,
    pub field_type: String,
    pub alias: Option<String>,
    pub editable: bool,
    pub visible: bool,
}

pub open spec fn attribute_field_rel(s: FieldSchema, a: AttributeField) -> bool {
    &&& a.name@ == s.name@
    &&& a.field_type@ == s.field_type@
    &&& a.alias is None
    &&& !a.editable
    &&& a.visible
}

pub open spec fn fields_rel(ss: Seq<FieldSchema>, aa: Seq<AttributeField>) -> bool {
    aa.len() == ss.len() && forall|k: int|
        0 <= k < ss.len() ==> attribute_field_rel(#[trigger] ss[k], aa[k])
}

/// The field descriptors of a schema.
pub fn make_fields(schema: &Vec<FieldSchema>) -> (r: Vec<AttributeField>)
    ensures
        fields_rel(schema@, r@),
{
    let n = schema.len();
    let mut out: Vec<AttributeField> = Vec::new();
    let mut i: usize = 0;
    while i < n
        invariant
            0 <= i <= n,
            n == schema@.len(),
            out@.len() == i,
            forall|k: int| 0 <= k < i ==> attribute_field_rel(#[trigger] schema@[k], out@[k]),
        decreases n - i,
    {
        out.push(
            AttributeField {
                name: schema[i].name.clone(),
                field_type: schema[i].field_type.clone(),
                alias: None,
                editable: false,
                visible: true,
            },
        );
        i = i + 1;
    }
    out
}

/// A layer's spatial reference as read from the source: the authority
/// code where one could be recognised, and the WKT rendering.
#[derive(Debug, Clone)]
pub struct SrsInfo {
    pub epsg: Option<i64>,
    pub wkt: String,
}

/// What the decision logic sees of a spatial reference: the authority
/// code, zero standing for a reference whose code could not be read, and
/// `None` for a layer with no reference at all.
pub open spec fn scan_epsg(srs: Option<SrsInfo>) -> Option<i64> {
    match srs {
        Some(si) => Some(
            match si.epsg {
                Some(c) => c,
                None => 0,
            },
        ),
        None => None,
    }
}

pub fn scan_epsg_x(srs: &Option<SrsInfo>) -> (r: Option<i64>)
    ensures
        r == scan_epsg(*srs),
{
    match srs {
        Some(si) => match si.epsg {
            Some(c) => Some(c),
            None => Some(0),
        },
        None => None,
    }
}

/// The raw data of one layer, as the geometry engine reads it. `extent`
/// is `None` when the extent could not be read; `transformed` carries
/// the corner coordinates after reprojection, where one is needed and
/// succeeded.
#[derive(Debug, Clone)]
pub struct LayerScan {
    pub name: String,
    pub feature_count: usize,
    pub srs: Option<SrsInfo>,
    pub extent: Option<Extent>,
    pub fields: Vec<FieldSchema>,
    pub first_geometry_type: Option<String>,
    pub transformed: Option<(Vec<u64>, Vec<u64>)>,
}

/// The single-layer summary, computed fresh on every request; its
/// extent is WGS84-normalized by the decision rule of `crs`.
#[derive(Debug, Clone)]
pub struct VectorInfo {
    pub path: String,
    pub feature_count: usize,
    pub geometry_type: String,
    pub fields: Vec<AttributeField>,
    pub extent: Extent,
    pub projection: Option<String>,
}

/// How a normalized extent relates to a scan.
pub open spec fn extent_rel(scan: LayerScan, e: Extent) -> bool {
    &&& scan.extent is Some
    &&& if !needs_transform_spec(scan_epsg(scan.srs)) {
        e == scan.extent->Some_0
    } else {
        &&& scan.transformed is Some
        &&& e.min_x == fold_min(scan.transformed->Some_0.0@)
        &&& e.max_x == fold_max(scan.transformed->Some_0.0@)
        &&& e.min_y == fold_min(scan.transformed->Some_0.1@)
        &&& e.max_y == fold_max(scan.transformed->Some_0.1@)
    }
}

pub open spec fn geometry_type_rel(scan: LayerScan, t: Seq<char>) -> bool {
    match scan.first_geometry_type {
        Some(g) => t == g@,
        None => t == "Unknown"@,
    }
}

/// The projection reported for a single layer: its WKT, with an empty
/// rendering standing for none.
pub open spec fn projection_rel(srs: Option<SrsInfo>, p: Option<String>) -> bool {
    match srs {
        Some(si) => if si.wkt@.len() > 0 {
            p matches Some(w) && w@ == si.wkt@
        } else {
            p is None
        },
        None => p is None,
    }
}

fn geometry_type_of(first: &Option<String>) -> (r: String)
    ensures
        match first {
            Some(g) => r@ == g@,
            None => r@ == "Unknown"@,
        },
{
    match first {
        Some(g) => g.clone(),
        None => {
            let v = chars_of("Unknown");
            string_from_chars(&v)
        },
    }
}

/// The summary of a dataset's first layer. An unreadable extent is a
/// `FileReadError`; a needed reprojection whose transform failed (no
/// corner coordinates handed in) is an `InvalidFormat` error; every
/// other scan succeeds.
pub fn read_vector_info(path: &str, scan: LayerScan) -> (r: Result<VectorInfo, AppError>)
    ensures
        match r {
            Ok(info) => {
                &&& info.path@ == path@
                &&& info.feature_count == scan.feature_count
                &&& geometry_type_rel(scan, info.geometry_type@)
                &&& fields_rel(scan.fields@, info.fields@)
                &&& extent_rel(scan, info.extent)
                &&& projection_rel(scan.srs, info.projection)
            },
            Err(e) => {
                ||| scan.extent is None && e is FileReadError
                ||| scan.extent is Some && needs_transform_spec(scan_epsg(scan.srs))
                    && scan.transformed is None && e is InvalidFormat
            },
        },
{
    let ext = match scan.extent {
        Some(e) => e,
        None => {
            let m = chars_of("the layer's extent could not be read");
            return Err(AppError::FileReadError(string_from_chars(&m)));
        },
    };
    let epsg = scan_epsg_x(&scan.srs);
    let extent = match normalized_extent(&ext, epsg, scan.transformed) {
        Ok(e) => e,
        Err(e) => {
            return Err(e);
        },
    };
    let geometry_type = geometry_type_of(&scan.first_geometry_type);
    let fields = make_fields(&scan.fields);
    let projection = match &scan.srs {
        Some(si) => {
            if si.wkt.as_str().is_empty() {
                None
            } else {
                Some(si.wkt.clone())
            }
        },
        None => None,
    };
    let pv = chars_of(path);
    Ok(
        VectorInfo {
            path: string_from_chars(&pv),
            feature_count: scan.feature_count,
            geometry_type,
            fields,
            extent,
            projection,
        },
    )
}

/// One layer's entry in the multi-layer summary.
#[derive(Debug, Clone)]
pub struct LayerInfo {
    pub name: String,
    pub index: usize,
    pub feature_count: usize,
    pub geometry_type: String,
    pub fields: Vec<AttributeField>,
    pub extent: Extent,
}

/// The multi-layer summary: the container's layer count, the layers
/// that could be inspected, and the first layer's projection as the
/// file-level default.
#[derive(Debug, Clone)]
pub struct MultiLayerVectorInfo {
    pub path: String,
    pub layer_count: usize,
    pub layers: Vec<LayerInfo>,
    pub projection: Option<String>,
}

/// Whether a layer takes part in the summary: it could be opened and
/// its extent could be read. One whose extent read failed is skipped,
/// not fatal, so one corrupt sublayer cannot hide the others.
pub open spec fn layer_included(scan: Option<LayerScan>) -> bool {
    scan matches Some(s) && s.extent is Some
}

/// The indices of the included layers, in order, starting at `i`.
pub open spec fn included_idxs(scans: Seq<Option<LayerScan>>, i: int) -> Seq<int>
    decreases scans.len() - i,
{
    if i < 0 || i >= scans.len() {
        Seq::empty()
    } else if layer_included(scans[i]) {
        seq![i] + included_idxs(scans, i + 1)
    } else {
        included_idxs(scans, i + 1)
    }
}

pub open spec fn layer_info_rel(scan: LayerScan, idx: int, li: LayerInfo) -> bool {
    &&& li.name@ == scan.name@
    &&& li.index == idx
    &&& li.feature_count == scan.feature_count
    &&& geometry_type_rel(scan, li.geometry_type@)
    &&& fields_rel(scan.fields@, li.fields@)
    &&& extent_rel(scan, li.extent)
}

/// The file-level projection: the first layer's WKT, when the first
/// layer could be opened and carries a spatial reference.
pub open spec fn file_projection_rel(scans: Seq<Option<LayerScan>>, p: Option<String>) -> bool {
    if scans.len() > 0 && scans[0] is Some && scans[0]->Some_0.srs is Some {
        p matches Some(w) && w@ == scans[0]->Some_0.srs->Some_0.wkt@
    } else {
        p is None
    }
}

/// The multi-layer summary. `scans[i]` is `None` where layer `i` could
/// not be opened; such layers, and those whose extent could not be
/// read, are skipped while `layer_count` still reports them. A needed
/// reprojection whose transform failed is fatal for the whole request.
pub fn read_multi_layer_vector_info(path: &str, scans: Vec<Option<LayerScan>>) -> (r: Result<
    MultiLayerVectorInfo,
    AppError,
>)
    ensures
        ({
            let idxs = included_idxs(scans@, 0);
            match r {
                Ok(m) => {
                    &&& m.path@ == path@
                    &&& m.layer_count == scans@.len()
                    &&& file_projection_rel(scans@, m.projection)
                    &&& m.layers@.len() == idxs.len()
                    &&& forall|k: int|
                        0 <= k < idxs.len() ==> layer_info_rel(
                            scans@[idxs[k]]->Some_0,
                            idxs[k],
                            #[trigger] m.layers@[k],
                        )
                },
                Err(e) => e is InvalidFormat && exists|i: int|
                    0 <= i < scans@.len() && layer_included(#[trigger] scans@[i])
                        && needs_transform_spec(scan_epsg(scans@[i]->Some_0.srs))
                        && scans@[i]->Some_0.transformed is None,
            }
        }),
{
    let n = scans.len();
    let projection = if n > 0 {
        match &scans[0] {
            Some(s0) => match &s0.srs {
                Some(si) => Some(si.wkt.clone()),
                None => None,
            },
            None => None,
        }
    } else {
        None
    };
    let mut layers: Vec<LayerInfo> = Vec::new();
    let mut i: usize = 0;
    let ghost all = scans@;
    while i < n
        invariant
            0 <= i <= n,
            n == all.len(),
            scans@ == all,
            layers@.len() == included_idxs(all, 0).len() - included_idxs(all, i as int).len(),
            included_idxs(all, 0) == included_idxs(all, 0).take(layers@.len() as int)
                + included_idxs(all, i as int),
            forall|k: int|
                0 <= k < layers@.len() ==> layer_info_rel(
                    all[included_idxs(all, 0)[k]]->Some_0,
                    included_idxs(all, 0)[k],
                    #[trigger] layers@[k],
                ),
        decreases n - i,
    {
        let ghost pre = included_idxs(all, i as int);
        match &scans[i] {
            Some(scan) => {
                match &scan.extent {
                    Some(ext) => {
                        let epsg = scan_epsg_x(&scan.srs);
                        let transformed: Option<(Vec<u64>, Vec<u64>)> = match &scan.transformed {
                            Some(t) => Some((t.0.clone(), t.1.clone())),
                            None => None,
                        };
                        let extent = match normalized_extent(ext, epsg, transformed) {
                            Ok(e) => e,
                            Err(e) => {
                                proof {
                                    assert(layer_included(all[i as int]));
                                }
                                return Err(e);
                            },
                        };
                        let li = LayerInfo {
                            name: scan.name.clone(),
                            index: i,
                            feature_count: scan.feature_count,
                            geometry_type: geometry_type_of(&scan.first_geometry_type),
                            fields: make_fields(&scan.fields),
                            extent,
                        };
                        proof {
                            assert(pre == seq![i as int] + included_idxs(all, i + 1));
                            assert(included_idxs(all, 0).take(layers@.len() as int + 1)
                                =~= included_idxs(all, 0).take(layers@.len() as int) + seq![
                                i as int,
                            ]);
                        }
                        layers.push(li);
                    },
                    None => {
                        proof {
                            assert(pre == included_idxs(all, i + 1));
                        }
                    },
                }
            },
            None => {
                proof {
                    assert(pre == included_idxs(all, i + 1));
                }
            },
        }
        i = i + 1;
    }
    proof {
        assert(included_idxs(all, n as int) =~= Seq::<int>::empty());
        assert(included_idxs(all, 0).take(layers@.len() as int) =~= included_idxs(all, 0));
    }
    let pv = chars_of(path);
    Ok(
        MultiLayerVectorInfo {
            path: string_from_chars(&pv),
            layer_count: n,
            layers,
            projection,
        },
    )
}

/// The long names of the loaded format drivers, in registration order:
/// the engine reports one name per driver index, `None` where a driver
/// could not be looked up, and those are skipped.
pub open spec fn driver_names(s: Seq<Option<String>>) -> Seq<Seq<char>>
    decreases s.len(),
{
    if s.len() == 0 {
        Seq::empty()
    } else {
        driver_names(s.drop_last()) + (match s.last() {
            Some(x) => seq![x@],
            None => Seq::<Seq<char>>::empty(),
        })
    }
}

pub fn get_supported_drivers(names: &Vec<Option<String>>) -> (r: Vec<String>)
    ensures
        r.deep_view() == driver_names(names@),
{
    let n = names.len();
    let mut out: Vec<String> = Vec::new();
    let mut i: usize = 0;
    while i < n
        invariant
            0 <= i <= n,
            n == names@.len(),
            out.deep_view() == driver_names(names@.take(i as int)),
        decreases n - i,
    {
        match &names[i] {
            Some(x) => {
                out.push(x.clone());
            },
            None => {},
        }
        i = i + 1;
        proof {
            let t = names@.take(i as int);
            assert(t.drop_last() =~= names@.take(i - 1));
            assert(t.last() == names@[i - 1]);
            match names@[i - 1] {
                Some(x) => {
                    assert(out.deep_view() =~= driver_names(names@.take(i - 1)) + seq![x@]);
                },
                None => {},
            }
        }
    }
    proof {
        assert(names@.take(n as int) =~= names@);
    }
    out
}

} // verus!
