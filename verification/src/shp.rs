//! The direct Shapefile path: summaries and attribute tables built from
//! what a tabular Shapefile/DBF reader hands over — the header's shape
//! type and bounding box, the DBF schema, and each record's field
//! values, already rendered to plain data. File reading stays with the
//! caller; every conversion decision is made here.

use vstd::prelude::*;
use crate::crs::{extract_epsg_spec, extract_epsg_from_wkt};
use crate::strutil::{chars_of, dec_str_signed, i64_to_string, str_eq, string_from_chars};

verus! {

/// One field of the DBF schema.
#[derive(Debug, Clone)]
pub struct FieldInfo {
    pub name: String,
    pub field_type: String,
}

/// The summary of a Shapefile: shape type, feature count, the header's
/// bounding box (four double bit patterns: min x, min y, max x, max y,
/// in the source CRS), the DBF fields, and the `.prj` sidecar's CRS
/// text with the EPSG code recognised in it.
#[derive(Debug, Clone)]
pub struct ShapefileInfo {
    pub filename: String,
    pub geometry_type: String,
    pub feature_count: usize,
    pub bounds: Vec<u64>,
    pub fields: Vec<FieldInfo>,
    pub crs: Option<String>,
    pub epsg_code: Option<i32>,
}

/// The shape types of the Shapefile header, as the reader reports them.
#[derive(Debug, Clone, PartialEq, Eq, Structural)]
pub enum ShapeKind {
    Point,
    PointZ,
    PointM,
    Polyline,
    PolylineZ,
    PolylineM,
    Polygon,
    PolygonZ,
    PolygonM,
    Multipoint,
    MultipointZ,
    MultipointM,
    NullShape,
    Other,
}

/// The GeoJSON-style tag each shape type maps to.
pub open spec fn shape_kind_name(k: ShapeKind) -> Seq<char> {
    match k {
        ShapeKind::Point => "Point"@,
        ShapeKind::PointZ => "PointZ"@,
        ShapeKind::PointM => "PointM"@,
        ShapeKind::Polyline => "LineString"@,
        ShapeKind::PolylineZ => "LineStringZ"@,
        ShapeKind::PolylineM => "LineStringM"@,
        ShapeKind::Polygon => "Polygon"@,
        ShapeKind::PolygonZ => "PolygonZ"@,
        ShapeKind::PolygonM => "PolygonM"@,
        ShapeKind::Multipoint => "MultiPoint"@,
        ShapeKind::MultipointZ => "MultiPointZ"@,
        ShapeKind::MultipointM => "MultiPointM"@,
        ShapeKind::NullShape => "Null"@,
        ShapeKind::Other => "Unknown"@,
    }
}

/// A DBF field value, already rendered to plain data by the reader:
/// numeric and floating values as their decimal text, dates as their
/// rendering, and `Other` for anything the table cannot hold.
#[derive(Debug, Clone)]
pub enum DbfValue {
    Character(Option<String>),
    Numeric(Option<String>),
    Logical(Option<bool>),
    Date(Option<String>),
    Float(Option<String>),
    Integer(i32),
    Other,
}

/// The attribute-table rendering of one DBF value: text kept, a logical
/// as `true`/`false`, numbers as their decimal text, and `NULL` for a
/// missing or unsupported value.
pub open spec fn dbf_string_rel(v: DbfValue, s: Seq<char>) -> bool {
    match v {
        DbfValue::Character(Some(t)) => s == t@,
        DbfValue::Numeric(Some(t)) => s == t@,
        DbfValue::Logical(Some(b)) => s == if b {
            "true"@
        } else {
            "false"@
        },
        DbfValue::Date(Some(t)) => s == t@,
        DbfValue::Float(Some(t)) => s == t@,
        DbfValue::Integer(i) => s == dec_str_signed(i as int),
        _ => s == "NULL"@,
    }
}

/// The attributes of one DBF record: its index in the file, and the
/// rendered field values keyed by field name.
#[derive(Debug, Clone)]
pub struct FeatureAttributes {
    pub id: usize,
    pub properties: Vec<(String, String)>,
}

/// The attribute table of a Shapefile's DBF sidecar.
#[derive(Debug, Clone)]
pub struct AttributeData {
    pub features: Vec<FeatureAttributes>,
}

/// The first index holding `key` in a string-pair list.
pub open spec fn find_skey(e: Seq<(String, String)>, key: Seq<char>, from: int) -> int
    decreases e.len() - from,
{
    if from < 0 || from >= e.len() {
        e.len() as int
    } else if e[from].0@ == key {
        from
    } else {
        find_skey(e, key, from + 1)
    }
}

/// Insertion with unique keys, last write winning in place.
pub open spec fn insert_sentry(
    e: Seq<(String, String)>,
    ent: (String, String),
) -> Seq<(String, String)> {
    let i = find_skey(e, ent.0@, 0);
    if i < e.len() {
        e.update(i, ent)
    } else {
        e.push(ent)
    }
}

pub open spec fn fold_sinsert(es: Seq<(String, String)>) -> Seq<(String, String)>
    decreases es.len(),
{
    if es.len() == 0 {
        Seq::empty()
    } else {
        insert_sentry(fold_sinsert(es.drop_last()), es.last())
    }
}

/// The rendered entries of one record, in field order.
pub open spec fn record_entries_rel(
    rec: Seq<(String, DbfValue)>,
    es: Seq<(String, String)>,
) -> bool {
    es.len() == rec.len() && forall|k: int|
        0 <= k < rec.len() ==> (#[trigger] es[k]).0@ == (#[trigger] rec[k]).0@ && dbf_string_rel(
            rec[k].1,
            es[k].1@,
        )
}

/// How one attribute row relates to its record: the file index kept as
/// the id, and the rendered entries folded by field name.
pub open spec fn row_rel(rec: Vec<(String, DbfValue)>, id: int, fa: FeatureAttributes) -> bool {
    fa.id == id && exists|es: Seq<(String, String)>|
        record_entries_rel(rec@, es) && fa.properties@ == fold_sinsert(es)
}

/// The record indices whose read succeeded, in order.
pub open spec fn readable_idxs(
    records: Seq<Option<Vec<(String, DbfValue)>>>,
    i: int,
) -> Seq<int>
    decreases records.len() - i,
{
    if i < 0 || i >= records.len() {
        Seq::empty()
    } else if records[i] is Some {
        seq![i] + readable_idxs(records, i + 1)
    } else {
        readable_idxs(records, i + 1)
    }
}

/// Handler for the direct Shapefile reading path.
pub struct ShapefileHandler;

fn find_skey_x(e: &Vec<(String, String)>, key: &str) -> (r: usize)
    ensures
        r == find_skey(e@, key@, 0),
        r <= e@.len(),
{
    let n = e.len();
    let mut i: usize = 0;
    loop
        invariant
            0 <= i <= n,
            n == e@.len(),
            find_skey(e@, key@, 0) == find_skey(e@, key@, i as int),
        ensures
            i <= n,
            find_skey(e@, key@, 0) == i as int,
        decreases n - i,
    {
        if i < n {
            if str_eq(e[i].0.as_str(), key) {
                break;
            }
            i = i + 1;
        } else {
            break;
        }
    }
    i
}

fn insert_sentry_x(e: &mut Vec<(String, String)>, key: String, val: String)
    ensures
        final(e)@ == insert_sentry(old(e)@, (key, val)),
{
    let i = find_skey_x(e, key.as_str());
    if i < e.len() {
        e.set(i, (key, val));
    } else {
        e.push((key, val));
    }
}

impl ShapefileHandler {
    /// The GeoJSON-style tag of a header shape type.
    pub fn shape_type_to_string(kind: &ShapeKind) -> (r: String)
        ensures
            r@ == shape_kind_name(*kind),
    {
        let name: &str = match kind {
            ShapeKind::Point => "Point",
            ShapeKind::PointZ => "PointZ",
            ShapeKind::PointM => "PointM",
            ShapeKind::Polyline => "LineString",
            ShapeKind::PolylineZ => "LineStringZ",
            ShapeKind::PolylineM => "LineStringM",
            ShapeKind::Polygon => "Polygon",
            ShapeKind::PolygonZ => "PolygonZ",
            ShapeKind::PolygonM => "PolygonM",
            ShapeKind::Multipoint => "MultiPoint",
            ShapeKind::MultipointZ => "MultiPointZ",
            ShapeKind::MultipointM => "MultiPointM",
            ShapeKind::NullShape => "Null",
            ShapeKind::Other => "Unknown",
        };
        let v = chars_of(name);
        string_from_chars(&v)
    }

    /// The summary record, assembled from what the reader saw: the
    /// `.prj` sidecar's text is kept as the CRS and scanned for an EPSG
    /// code.
    pub fn read_shapefile_info(
        filename: String,
        kind: &ShapeKind,
        feature_count: usize,
        bounds: Vec<u64>,
        fields: Vec<FieldInfo>,
        prj: Option<String>,
    ) -> (r: ShapefileInfo)
        ensures
            r.filename@ == filename@,
            r.geometry_type@ == shape_kind_name(*kind),
            r.feature_count == feature_count,
            r.bounds@ == bounds@,
            r.fields@ == fields@,
            match prj {
                Some(w) => r.crs matches Some(c) && c@ == w@ && r.epsg_code == extract_epsg_spec(
                    w@,
                ),
                None => r.crs is None && r.epsg_code is None,
            },
    {
        let geometry_type = Self::shape_type_to_string(kind);
        let (crs, epsg_code) = match prj {
            Some(w) => {
                let code = extract_epsg_from_wkt(w.as_str());
                (Some(w), code)
            },
            None => (None, None),
        };
        ShapefileInfo { filename, geometry_type, feature_count, bounds, fields, crs, epsg_code }
    }

    /// One record's attribute row: the rendered values, folded by field
    /// name with a later duplicate overwriting an earlier one.
    pub fn record_attributes(id: usize, rec: &Vec<(String, DbfValue)>) -> (r: FeatureAttributes)
        ensures
            row_rel(*rec, id as int, r),
    {
        let n = rec.len();
        let mut properties: Vec<(String, String)> = Vec::new();
        let ghost mut es: Seq<(String, String)> = Seq::empty();
        let mut i: usize = 0;
        while i < n
            invariant
                0 <= i <= n,
                n == rec@.len(),
                record_entries_rel(rec@.take(i as int), es),
                properties@ == fold_sinsert(es),
            decreases n - i,
        {
            let name = rec[i].0.clone();
            let value = Self::dbf_value_to_string(&rec[i].1);
            proof {
                let t2 = rec@.take(i + 1);
                assert(t2.drop_last() =~= rec@.take(i as int));
                assert(t2.last() == rec@[i as int]);
                let es2 = es.push((name, value));
                assert(es2.drop_last() =~= es);
                assert forall|k: int| 0 <= k < t2.len() implies (#[trigger] es2[k]).0@ == (
                #[trigger] t2[k]).0@ && dbf_string_rel(t2[k].1, es2[k].1@) by {
                    if k < i {
                        assert(es2[k] == es[k] && t2[k] == rec@.take(i as int)[k]);
                    }
                }
                es = es2;
            }
            insert_sentry_x(&mut properties, name, value);
            i = i + 1;
        }
        proof {
            assert(rec@.take(n as int) =~= rec@);
        }
        FeatureAttributes { id, properties }
    }

    /// The rendered text of one DBF value.
    pub fn dbf_value_to_string(v: &DbfValue) -> (r: String)
        ensures
            dbf_string_rel(*v, r@),
    {
        match v {
            DbfValue::Character(Some(t)) => t.clone(),
            DbfValue::Numeric(Some(t)) => t.clone(),
            DbfValue::Logical(Some(b)) => {
                if *b {
                    let s = chars_of("true");
                    string_from_chars(&s)
                } else {
                    let s = chars_of("false");
                    string_from_chars(&s)
                }
            },
            DbfValue::Date(Some(t)) => t.clone(),
            DbfValue::Float(Some(t)) => t.clone(),
            DbfValue::Integer(i) => i64_to_string(*i as i64),
            _ => {
                let s = chars_of("NULL");
                string_from_chars(&s)
            },
        }
    }

    /// The attribute table: one row per readable record, keeping each
    /// record's index in the file as its id; an unreadable record is
    /// skipped, not fatal.
    pub fn read_attributes(records: &Vec<Option<Vec<(String, DbfValue)>>>) -> (r: AttributeData)
        ensures
            ({
                let idxs = readable_idxs(records@, 0);
                &&& r.features@.len() == idxs.len()
                &&& forall|k: int|
                    0 <= k < idxs.len() ==> row_rel(
                        records@[idxs[k]]->Some_0,
                        idxs[k],
                        #[trigger] r.features@[k],
                    )
            }),
    {
        let n = records.len();
        let mut features: Vec<FeatureAttributes> = Vec::new();
        let ghost all = records@;
        let mut i: usize = 0;
        while i < n
            invariant
                0 <= i <= n,
                n == all.len(),
                records@ == all,
                features@.len() == readable_idxs(all, 0).len() - readable_idxs(
                    all,
                    i as int,
                ).len(),
                readable_idxs(all, 0) == readable_idxs(all, 0).take(features@.len() as int)
                    + readable_idxs(all, i as int),
                forall|k: int|
                    0 <= k < features@.len() ==> row_rel(
                        all[readable_idxs(all, 0)[k]]->Some_0,
                        readable_idxs(all, 0)[k],
                        #[trigger] features@[k],
                    ),
            decreases n - i,
        {
            let ghost pre = readable_idxs(all, i as int);
            match &records[i] {
                Some(rec) => {
                    let fa = Self::record_attributes(i, rec);
                    proof {
                        assert(pre == seq![i as int] + readable_idxs(all, i + 1));
                        assert(readable_idxs(all, 0).take(features@.len() as int + 1)
                            =~= readable_idxs(all, 0).take(features@.len() as int) + seq![
                            i as int,
                        ]);
                    }
                    features.push(fa);
                },
                None => {
                    proof {
                        assert(pre == readable_idxs(all, i + 1));
                    }
                },
            }
            i = i + 1;
        }
        proof {
            assert(readable_idxs(all, n as int) =~= Seq::<int>::empty());
            assert(readable_idxs(all, 0).take(features@.len() as int) =~= readable_idxs(all, 0));
        }
        AttributeData { features }
    }
}

} // verus!
