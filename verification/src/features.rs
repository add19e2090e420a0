//! Feature and attribute extraction. The geometry engine outside the
//! library reads raw field values and geometry JSON from a layer and
//! hands them in as plain data; the functions here convert field values
//! into the JSON-like model, fold KML `description` attributes into the
//! property map after the raw fields, split geometry JSON into its type
//! tag and coordinates, and apply offset/limit windowing.

use vstd::prelude::*;
use crate::encoding::is_kml_path;
use crate::errors::AppError;
use crate::floatbits::f_is_finite;
use crate::jsonval::JsonValue;
use crate::kml::{kml_description_entries, kml_entries_rel, kml_matches, insert_all};
use crate::props::{PropMap, fold_insert};
use crate::strutil::{chars_of, dec_str, eq_ci, lower_seq, string_from_chars, u64_to_string};

verus! {

/// A field value as the geometry engine hands it over: text, integers
/// of two widths, a double (as its bit pattern beside its decimal
/// rendering), date and time renderings, or nothing.
#[derive(Debug, Clone)]
pub enum RawValue {
    Text(String),
    Int(i32),
    Int64(i64),
    Real { bits: u64, text: String },
    Date(String),
    DateTime(String),
    Missing,
}

#[derive(Debug, Clone)]
pub struct RawField {
    pub name: String,
    pub value: RawValue,
}

/// One feature as read from a layer: its native id where the source has
/// one, the GeoJSON text of its geometry (transformed by the caller
/// when the layer needs reprojection), and its field values in schema
/// order.
#[derive(Debug, Clone)]
pub struct RawFeature {
    pub fid: Option<u64>,
    pub geometry_json: Option<String>,
    pub fields: Vec<RawField>,
}

/// A geometry in the feature model: a GeoJSON type tag and the
/// coordinates as JSON text, `null` when the feature has none.
#[derive(Debug, Clone)]
pub struct Geometry {
    pub geom_type: String,
    pub coordinates: String,
}

/// One converted feature.
#[derive(Debug, Clone)]
pub struct Feature {
    pub id: String,
    pub geometry: Geometry,
    pub properties: PropMap,
}

/// How one field value converts: text, dates and times become strings,
/// integers stay exact, a double becomes its decimal rendering unless
/// it is a NaN or an infinity, which JSON cannot hold and which
/// collapse to null; a missing value is null.
pub open spec fn field_value_rel(v: RawValue, j: JsonValue) -> bool {
    match v {
        RawValue::Text(s) => j matches JsonValue::Str(t) && t@ == s@,
        RawValue::Int(x) => j == JsonValue::Int(x as i64),
        RawValue::Int64(x) => j == JsonValue::Int(x),
        RawValue::Real { bits, text } => if f_is_finite(bits) {
            j matches JsonValue::Num(t) && t@ == text@
        } else {
            j is Null
        },
        RawValue::Date(s) => j matches JsonValue::Str(t) && t@ == s@,
        RawValue::DateTime(s) => j matches JsonValue::Str(t) && t@ == s@,
        RawValue::Missing => j is Null,
    }
}

pub fn field_value_to_json(v: &RawValue) -> (j: JsonValue)
    ensures
        field_value_rel(*v, j),
{
    match v {
        RawValue::Text(s) => JsonValue::Str(s.clone()),
        RawValue::Int(x) => JsonValue::Int(*x as i64),
        RawValue::Int64(x) => JsonValue::Int(*x),
        RawValue::Real { bits, text } => {
            if crate::floatbits::f_is_finite_x(*bits) {
                JsonValue::Num(text.clone())
            } else {
                JsonValue::Null
            }
        },
        RawValue::Date(s) => JsonValue::Str(s.clone()),
        RawValue::DateTime(s) => JsonValue::Str(s.clone()),
        RawValue::Missing => JsonValue::Null,
    }
}

/// The raw fields, each converted, in schema order.
pub open spec fn field_entries_rel(fs: Seq<RawField>, es: Seq<(String, JsonValue)>) -> bool {
    es.len() == fs.len() && forall|k: int|
        0 <= k < fs.len() ==> (#[trigger] es[k]).0@ == (#[trigger] fs[k]).name@ && field_value_rel(
            fs[k].value,
            es[k].1,
        )
}

/// The content of the last text field named `description`
/// (case-insensitively), when the source is KML or KMZ.
pub open spec fn description_of(fs: Seq<RawField>, is_kml: bool) -> Option<Seq<char>>
    decreases fs.len(),
{
    if !is_kml || fs.len() == 0 {
        None
    } else {
        match fs.last().value {
            RawValue::Text(s) => if lower_seq(fs.last().name@) == "description"@ {
                Some(s@)
            } else {
                description_of(fs.drop_last(), is_kml)
            },
            _ => description_of(fs.drop_last(), is_kml),
        }
    }
}

pub open spec fn opt_string_rel(spec_o: Option<Seq<char>>, o: Option<String>) -> bool {
    match o {
        Some(s) => spec_o == Some(s@),
        None => spec_o is None,
    }
}

/// The property map of the raw fields alone, and the KML `description`
/// content where one is present.
pub fn extract_properties(fields: &Vec<RawField>, is_kml: bool) -> (r: (PropMap, Option<String>))
    ensures
        r.0.wf(),
        exists|ef: Seq<(String, JsonValue)>|
            field_entries_rel(fields@, ef) && r.0.entries@ == fold_insert(Seq::empty(), ef),
        opt_string_rel(description_of(fields@, is_kml), r.1),
{
    let n = fields.len();
    let mut props = PropMap::new();
    let ghost mut ef: Seq<(String, JsonValue)> = Seq::empty();
    let mut desc: Option<String> = None;
    let mut i: usize = 0;
    while i < n
        invariant
            0 <= i <= n,
            n == fields@.len(),
            props.wf(),
            field_entries_rel(fields@.take(i as int), ef),
            props.entries@ == fold_insert(Seq::empty(), ef),
            opt_string_rel(description_of(fields@.take(i as int), is_kml), desc),
        decreases n - i,
    {
        let name = fields[i].name.clone();
        let value = field_value_to_json(&fields[i].value);
        if is_kml {
            let namev = chars_of(name.as_str());
            if eq_ci(&namev, "description") {
                match &fields[i].value {
                    RawValue::Text(s) => {
                        desc = Some(s.clone());
                    },
                    _ => {},
                }
            }
        }
        proof {
            let t2 = fields@.take(i + 1);
            assert(t2.drop_last() =~= fields@.take(i as int));
            assert(t2.last() == fields@[i as int]);
            let ef2 = ef.push((name, value));
            assert(ef2.drop_last() =~= ef);
            assert forall|k: int| 0 <= k < t2.len() implies (#[trigger] ef2[k]).0@ == (
            #[trigger] t2[k]).name@ && field_value_rel(t2[k].value, ef2[k].1) by {
                if k < i {
                    assert(ef2[k] == ef[k] && t2[k] == fields@.take(i as int)[k]);
                }
            }
            ef = ef2;
        }
        props.insert(name, value);
        proof {
            assert(props.entries@ =~= fold_insert(Seq::empty(), ef));
        }
        i = i + 1;
    }
    proof {
        assert(fields@.take(n as int) =~= fields@);
    }
    (props, desc)
}

/// Whether serde_json parses the text as JSON; a deterministic
/// function of the text alone.
pub uninterp spec fn json_ok(s: Seq<char>) -> bool;

/// The `type` member of the parsed text, when the text parses to an
/// object holding a string there; a function of the text alone.
pub uninterp spec fn json_geom_type(s: Seq<char>) -> Option<Seq<char>>;

/// The `coordinates` member of the parsed text, rendered back to JSON
/// text, when the text parses to an object holding one; a function of
/// the text alone.
pub uninterp spec fn json_geom_coords(s: Seq<char>) -> Option<Seq<char>>;

/// Relies on serde_json: `from_str` returns `Ok` exactly on valid JSON
/// text, `Value::get` yields an object's member (and nothing on any
/// other value), `Value::as_str` the member's string content, and
/// `Value`'s `to_string` renders a parsed value back to JSON text.
/// Everything returned is a function of the input text.
#[verifier::external_body]
fn split_geometry_json(s: &str) -> (r: Option<(Option<String>, Option<String>)>)
    ensures
        r is Some <==> json_ok(s@),
        match r {
            Some((t, c)) => {
                &&& match t {
                    Some(ts) => json_geom_type(s@) == Some(ts@),
                    None => json_geom_type(s@) is None,
                }
                &&& match c {
                    Some(cs) => json_geom_coords(s@) == Some(cs@),
                    None => json_geom_coords(s@) is None,
                }
            },
            None => true,
        },
{
    match serde_json::from_str::<serde_json::Value>(s) {
        Ok(v) => Some(
            (
                v.get("type").and_then(|x| x.as_str()).map(|t| t.to_owned()),
                v.get("coordinates").map(|x| x.to_string()),
            ),
        ),
        Err(_) => None,
    }
}

/// How a geometry struct relates to the text it was split from: the
/// parsed object's `type` member or `Unknown`, beside its `coordinates`
/// member as JSON text or `null`.
pub open spec fn geometry_text_rel(s: Seq<char>, g: Geometry) -> bool {
    &&& match json_geom_type(s) {
        Some(t) => g.geom_type@ == t,
        None => g.geom_type@ == "Unknown"@,
    }
    &&& match json_geom_coords(s) {
        Some(c) => g.coordinates@ == c,
        None => g.coordinates@ == "null"@,
    }
}

/// Whether a feature's geometry text, where it has one, is valid JSON;
/// a feature without geometry always passes.
pub open spec fn geometry_parses(g: Option<String>) -> bool {
    match g {
        Some(t) => json_ok(t@),
        None => true,
    }
}

/// The geometry struct from an extracted type tag and coordinate text:
/// a missing tag becomes `Unknown`, missing coordinates become `null`.
pub fn assemble_geometry(gtype: Option<String>, coords: Option<String>) -> (g: Geometry)
    ensures
        match gtype {
            Some(t) => g.geom_type@ == t@,
            None => g.geom_type@ == "Unknown"@,
        },
        match coords {
            Some(c) => g.coordinates@ == c@,
            None => g.coordinates@ == "null"@,
        },
{
    let geom_type = match gtype {
        Some(t) => t,
        None => {
            let v = chars_of("Unknown");
            string_from_chars(&v)
        },
    };
    let coordinates = match coords {
        Some(c) => c,
        None => {
            let v = chars_of("null");
            string_from_chars(&v)
        },
    };
    Geometry { geom_type, coordinates }
}

/// The geometry of a feature. A feature without one maps to the `Null`
/// type with `null` coordinates — never an error. One whose geometry
/// text is valid JSON maps to the parsed object's `type` member (or
/// `Unknown`) beside its `coordinates` member as JSON text (or `null`);
/// exactly the unparsable texts are `InvalidFormat` errors.
pub fn geometry_of_json(geom_json: Option<&String>) -> (r: Result<Geometry, AppError>)
    ensures
        match geom_json {
            None => r matches Ok(g) && g.geom_type@ == "Null"@ && g.coordinates@ == "null"@,
            Some(s) => {
                &&& (r is Ok <==> json_ok(s@))
                &&& (r matches Ok(g) ==> geometry_text_rel(s@, g))
                &&& (r is Err ==> r->Err_0 is InvalidFormat)
            },
        },
{
    match geom_json {
        None => {
            let t = chars_of("Null");
            let c = chars_of("null");
            Ok(Geometry { geom_type: string_from_chars(&t), coordinates: string_from_chars(&c) })
        },
        Some(s) => {
            match split_geometry_json(s.as_str()) {
                Some((gtype, coords)) => Ok(assemble_geometry(gtype, coords)),
                None => {
                    let m = chars_of("the geometry text is not valid JSON");
                    Err(AppError::InvalidFormat(string_from_chars(&m)))
                },
            }
        },
    }
}

/// The final property map of a feature: the raw fields in schema order,
/// then — for a KML source whose `description` text is non-empty — the
/// parsed description pairs inserted after them, so parsed keys can
/// overwrite a raw field of the same name.
pub open spec fn props_combined_rel(
    raw: RawFeature,
    is_kml: bool,
    result: Seq<(String, JsonValue)>,
) -> bool {
    exists|ef: Seq<(String, JsonValue)>|
        #![trigger field_entries_rel(raw.fields@, ef)]
        field_entries_rel(raw.fields@, ef) && {
            let base = fold_insert(Seq::empty(), ef);
            match description_of(raw.fields@, is_kml) {
                Some(d) => if d.len() > 0 {
                    exists|ek: Seq<(String, JsonValue)>|
                        kml_entries_rel(kml_matches(d, 0), ek) && result == fold_insert(base, ek)
                } else {
                    result == base
                },
                None => result == base,
            }
        }
}

fn feature_properties(raw: &RawFeature, is_kml: bool) -> (r: PropMap)
    ensures
        r.wf(),
        props_combined_rel(*raw, is_kml, r.entries@),
{
    let (mut props, desc) = extract_properties(&raw.fields, is_kml);
    let ghost ef0 = choose|ef: Seq<(String, JsonValue)>|
        field_entries_rel(raw.fields@, ef) && props.entries@ == fold_insert(Seq::empty(), ef);
    match desc {
        Some(d) => {
            if !d.as_str().is_empty() {
                let entries = kml_description_entries(d.as_str());
                let ghost ek = entries@;
                insert_all(&mut props, entries);
                proof {
                    assert(field_entries_rel(raw.fields@, ef0));
                    assert(kml_entries_rel(kml_matches(d@, 0), ek) && props.entries@ == fold_insert(
                        fold_insert(Seq::empty(), ef0),
                        ek,
                    ));
                }
            }
        },
        None => {},
    }
    props
}

/// How one converted feature relates to the raw one: the id is the
/// native feature id, or the iteration index where the source has none;
/// a missing geometry is the `Null` geometry, and one that is present
/// is split exactly as `geometry_of_json` splits its (already
/// reprojected) text; the properties are the converted fields with the
/// parsed description folded in.
pub open spec fn feature_rel(idx: int, raw: RawFeature, is_kml: bool, f: Feature) -> bool {
    &&& f.id@ == dec_str(
        match raw.fid {
            Some(x) => x as int,
            None => idx,
        },
    )
    &&& match raw.geometry_json {
        None => f.geometry.geom_type@ == "Null"@ && f.geometry.coordinates@ == "null"@,
        Some(t) => json_ok(t@) && geometry_text_rel(t@, f.geometry),
    }
    &&& props_combined_rel(raw, is_kml, f.properties.entries@)
}

/// One feature converted; `idx` is its index in the layer's iteration
/// order. The conversion succeeds exactly when the feature has no
/// geometry or its geometry text is valid JSON.
pub fn build_feature(idx: u64, raw: &RawFeature, is_kml: bool) -> (r: Result<Feature, AppError>)
    ensures
        r is Ok <==> geometry_parses(raw.geometry_json),
        r matches Ok(f) ==> feature_rel(idx as int, *raw, is_kml, f),
        r matches Err(e) ==> e is InvalidFormat,
{
    let geometry = match geometry_of_json(raw.geometry_json.as_ref()) {
        Ok(g) => g,
        Err(e) => {
            return Err(e);
        },
    };
    let properties = feature_properties(raw, is_kml);
    let id = match raw.fid {
        Some(x) => u64_to_string(x),
        None => u64_to_string(idx),
    };
    Ok(Feature { id, geometry, properties })
}

/// The window's first index: `offset`, capped at the feature count.
pub open spec fn page_start(n: int, offset: int) -> int {
    if offset <= n {
        offset
    } else {
        n
    }
}

/// One past the window's last index: `offset + limit`, capped at the
/// feature count; never an error for an over-run window.
pub open spec fn page_end(n: int, offset: int, limit: int) -> int {
    if offset + limit <= n {
        offset + limit
    } else {
        n
    }
}

pub open spec fn opt_or(o: Option<usize>, dflt: int) -> int {
    match o {
        Some(x) => x as int,
        None => dflt,
    }
}

/// The features of a layer, converted, windowed by `offset` and
/// `limit`: feature `offset + k` of the layer stands at position `k`.
/// Callers hand in each feature's geometry text already reprojected
/// where the layer's CRS requires it, so this accessor and
/// `read_vector_features_with_geometry` share one pagination and one
/// transform semantics; a caller that wants attributes only ignores the
/// geometry of the result. The call succeeds exactly when every
/// geometry text inside the window is valid JSON — a feature without
/// geometry never causes an error.
pub fn read_vector_features(
    path: &str,
    raws: &Vec<RawFeature>,
    offset: Option<usize>,
    limit: Option<usize>,
) -> (r: Result<Vec<Feature>, AppError>)
    ensures
        ({
            let n = raws@.len() as int;
            let off = opt_or(offset, 0);
            let lim = opt_or(limit, usize::MAX as int);
            let kml = is_kml_path(path@);
            let start = page_start(n, off);
            let end = page_end(n, off, lim);
            &&& (r is Ok <==> (forall|k: int|
                start <= k < end ==> geometry_parses((#[trigger] raws@[k]).geometry_json)))
            &&& match r {
                Ok(fs) => {
                    &&& fs@.len() == end - start
                    &&& forall|k: int|
                        0 <= k < fs@.len() ==> feature_rel(
                            start + k,
                            raws@[start + k],
                            kml,
                            #[trigger] fs@[k],
                        )
                },
                Err(e) => e is InvalidFormat,
            }
        }),
{
    let pchars = chars_of(path);
    let kml = crate::encoding::is_kml_path_x(&pchars);
    let n = raws.len();
    let off = match offset {
        Some(o) => o,
        None => 0,
    };
    let lim = match limit {
        Some(l) => l,
        None => usize::MAX,
    };
    let start = if off > n {
        n
    } else {
        off
    };
    let end = if lim > n - start {
        n
    } else {
        start + lim
    };
    proof {
        assert(start as int == page_start(n as int, off as int));
        assert(end as int == page_end(n as int, off as int, lim as int));
    }
    let mut out: Vec<Feature> = Vec::new();
    let mut i: usize = start;
    while i < end
        invariant
            start <= i <= end <= n,
            n == raws@.len(),
            off as int == opt_or(offset, 0),
            lim as int == opt_or(limit, usize::MAX as int),
            start as int == page_start(n as int, off as int),
            end as int == page_end(n as int, off as int, lim as int),
            out@.len() == i - start,
            forall|k: int|
                start <= k < i ==> geometry_parses((#[trigger] raws@[k]).geometry_json),
            forall|k: int|
                0 <= k < out@.len() ==> feature_rel(
                    start + k,
                    raws@[start + k],
                    kml,
                    #[trigger] out@[k],
                ),
            kml == is_kml_path(path@),
        decreases end - i,
    {
        match build_feature(i as u64, &raws[i], kml) {
            Ok(f) => {
                out.push(f);
            },
            Err(e) => {
                proof {
                    assert(!geometry_parses(raws@[i as int].geometry_json));
                }
                return Err(e);
            },
        }
        i = i + 1;
    }
    Ok(out)
}

/// The features of a layer with geometry included, for the attribute
/// table: exactly the pagination, conversion and transform semantics of
/// `read_vector_features` — callers hand in geometry text already
/// reprojected where the layer needs it, and the call succeeds exactly
/// when every windowed geometry text is valid JSON.
pub fn read_vector_features_with_geometry(
    path: &str,
    raws: &Vec<RawFeature>,
    offset: Option<usize>,
    limit: Option<usize>,
) -> (r: Result<Vec<Feature>, AppError>)
    ensures
        ({
            let n = raws@.len() as int;
            let off = opt_or(offset, 0);
            let lim = opt_or(limit, usize::MAX as int);
            let kml = is_kml_path(path@);
            let start = page_start(n, off);
            let end = page_end(n, off, lim);
            &&& (r is Ok <==> (forall|k: int|
                start <= k < end ==> geometry_parses((#[trigger] raws@[k]).geometry_json)))
            &&& match r {
                Ok(fs) => {
                    &&& fs@.len() == end - start
                    &&& forall|k: int|
                        0 <= k < fs@.len() ==> feature_rel(
                            start + k,
                            raws@[start + k],
                            kml,
                            #[trigger] fs@[k],
                        )
                },
                Err(e) => e is InvalidFormat,
            }
        }),
{
    read_vector_features(path, raws, offset, limit)
}

/// One feature of a GeoJSON feature collection: the native id or zero,
/// the whole geometry as JSON text (`null` when the feature has none),
/// and the converted properties.
#[derive(Debug, Clone)]
pub struct GeoFeature {
    pub id: u64,
    pub geometry_json: String,
    pub properties: PropMap,
}

pub open spec fn geo_feature_rel(raw: RawFeature, is_kml: bool, g: GeoFeature) -> bool {
    &&& g.id == match raw.fid {
        Some(x) => x,
        None => 0u64,
    }
    &&& match raw.geometry_json {
        Some(t) => json_ok(t@) && g.geometry_json@ == t@,
        None => g.geometry_json@ == "null"@,
    }
    &&& props_combined_rel(raw, is_kml, g.properties.entries@)
}

/// The whole layer as GeoJSON features, in iteration order. The
/// geometry text of each raw feature (reprojected by the caller where
/// the layer needs it) is embedded as read; the call succeeds exactly
/// when every geometry text is valid JSON, and a feature without
/// geometry never causes an error.
pub fn read_vector_as_geojson(path: &str, raws: &Vec<RawFeature>) -> (r: Result<
    Vec<GeoFeature>,
    AppError,
>)
    ensures
        ({
            let kml = is_kml_path(path@);
            &&& (r is Ok <==> (forall|k: int|
                0 <= k < raws@.len() ==> geometry_parses((#[trigger] raws@[k]).geometry_json)))
            &&& match r {
                Ok(fs) => {
                    &&& fs@.len() == raws@.len()
                    &&& forall|k: int|
                        0 <= k < fs@.len() ==> geo_feature_rel(raws@[k], kml, #[trigger] fs@[k])
                },
                Err(e) => e is InvalidFormat,
            }
        }),
{
    let pchars = chars_of(path);
    let kml = crate::encoding::is_kml_path_x(&pchars);
    let n = raws.len();
    let mut out: Vec<GeoFeature> = Vec::new();
    let mut i: usize = 0;
    while i < n
        invariant
            0 <= i <= n,
            n == raws@.len(),
            out@.len() == i,
            forall|k: int|
                0 <= k < i ==> geometry_parses((#[trigger] raws@[k]).geometry_json),
            forall|k: int|
                0 <= k < i ==> geo_feature_rel(raws@[k], kml, #[trigger] out@[k]),
            kml == is_kml_path(path@),
        decreases n - i,
    {
        let geometry_json = match &raws[i].geometry_json {
            Some(t) => {
                // the collection embeds this text as JSON, so it must parse
                match split_geometry_json(t.as_str()) {
                    Some(_) => t.clone(),
                    None => {
                        proof {
                            assert(!geometry_parses(raws@[i as int].geometry_json));
                        }
                        let m = chars_of("the geometry text is not valid JSON");
                        return Err(AppError::InvalidFormat(string_from_chars(&m)));
                    },
                }
            },
            None => {
                let v = chars_of("null");
                string_from_chars(&v)
            },
        };
        let properties = feature_properties(&raws[i], kml);
        let id = match raws[i].fid {
            Some(x) => x,
            None => 0,
        };
        out.push(GeoFeature { id, geometry_json, properties });
        i = i + 1;
    }
    Ok(out)
}

} // verus!

