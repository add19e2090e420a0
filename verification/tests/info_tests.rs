use minigis::extent::Extent;
use minigis::info::{get_supported_drivers, read_multi_layer_vector_info, read_vector_info,
    FieldSchema, LayerScan, SrsInfo};

fn bits(x: f64) -> u64 {
    x.to_bits()
}

fn sample_extent() -> Extent {
    Extent { min_x: bits(1.0), min_y: bits(2.0), max_x: bits(3.0), max_y: bits(4.0) }
}

fn scan(name: &str, epsg: Option<i64>, with_extent: bool) -> LayerScan {
    LayerScan {
        name: name.to_string(),
        feature_count: 7,
        srs: epsg.map(|c| SrsInfo { epsg: Some(c), wkt: format!("EPSG:{}", c) }),
        extent: if with_extent { Some(sample_extent()) } else { None },
        fields: vec![FieldSchema { name: "NAME".to_string(), field_type: "String".to_string() }],
        first_geometry_type: Some("Point".to_string()),
        transformed: None,
    }
}

#[test]
fn single_layer_info_passthrough() {
    let info = read_vector_info("a.shp", scan("layer", Some(4326), true)).unwrap();
    assert_eq!(info.path, "a.shp");
    assert_eq!(info.feature_count, 7);
    assert_eq!(info.geometry_type, "Point");
    assert_eq!(info.extent, sample_extent());
    assert_eq!(info.projection, Some("EPSG:4326".to_string()));
    assert_eq!(info.fields.len(), 1);
    assert_eq!(info.fields[0].name, "NAME");
    assert_eq!(info.fields[0].field_type, "String");
    assert_eq!(info.fields[0].alias, None);
    assert!(!info.fields[0].editable);
    assert!(info.fields[0].visible);
}

#[test]
fn single_layer_no_srs_assumes_wgs84() {
    let info = read_vector_info("a.shp", scan("layer", None, true)).unwrap();
    assert_eq!(info.extent, sample_extent());
    assert_eq!(info.projection, None);
}

#[test]
fn single_layer_unknown_geometry() {
    let mut s = scan("layer", Some(4326), true);
    s.first_geometry_type = None;
    let info = read_vector_info("a.shp", s).unwrap();
    assert_eq!(info.geometry_type, "Unknown");
}

#[test]
fn single_layer_empty_wkt_is_no_projection() {
    let mut s = scan("layer", Some(4326), true);
    s.srs = Some(SrsInfo { epsg: Some(4326), wkt: "".to_string() });
    let info = read_vector_info("a.shp", s).unwrap();
    assert_eq!(info.projection, None);
}

#[test]
fn single_layer_missing_extent_is_read_error() {
    let r = read_vector_info("a.shp", scan("layer", Some(4326), false));
    assert!(r.err().unwrap().is_file_read_error());
}

#[test]
fn single_layer_missing_transform_is_invalid_format() {
    let r = read_vector_info("a.shp", scan("layer", Some(3857), true));
    assert!(r.err().unwrap().is_invalid_format());
}

#[test]
fn single_layer_transform_applies_bbox() {
    let mut s = scan("layer", Some(3857), true);
    s.transformed = Some((
        vec![bits(10.0), bits(20.0), bits(12.0), bits(22.0)],
        vec![bits(5.0), bits(4.0), bits(8.0), bits(9.0)],
    ));
    let info = read_vector_info("a.shp", s).unwrap();
    assert_eq!(f64::from_bits(info.extent.min_x), 10.0);
    assert_eq!(f64::from_bits(info.extent.max_x), 22.0);
    assert_eq!(f64::from_bits(info.extent.min_y), 4.0);
    assert_eq!(f64::from_bits(info.extent.max_y), 9.0);
}

#[test]
fn multi_layer_skips_broken_extent() {
    let scans = vec![
        Some(scan("first", Some(4326), true)),
        Some(scan("broken", Some(4326), false)),
        Some(scan("third", Some(4326), true)),
    ];
    let m = read_multi_layer_vector_info("c.kml", scans).unwrap();
    assert_eq!(m.layer_count, 3);
    assert_eq!(m.layers.len(), 2);
    assert_eq!(m.layers[0].name, "first");
    assert_eq!(m.layers[0].index, 0);
    assert_eq!(m.layers[1].name, "third");
    assert_eq!(m.layers[1].index, 2);
}

#[test]
fn multi_layer_skips_unopenable_layer() {
    let scans = vec![None, Some(scan("only", Some(4326), true))];
    let m = read_multi_layer_vector_info("c.kml", scans).unwrap();
    assert_eq!(m.layer_count, 2);
    assert_eq!(m.layers.len(), 1);
    assert_eq!(m.layers[0].index, 1);
    // the file projection comes from layer 0 only, which is unreadable
    assert_eq!(m.projection, None);
}

#[test]
fn multi_layer_projection_from_first_layer() {
    let scans = vec![
        Some(scan("a", Some(4326), true)),
        Some(scan("b", Some(3857), false)),
    ];
    let m = read_multi_layer_vector_info("c.gpkg", scans).unwrap();
    assert_eq!(m.projection, Some("EPSG:4326".to_string()));
}

#[test]
fn multi_layer_failed_transform_is_fatal() {
    let scans = vec![Some(scan("a", Some(3857), true))];
    let r = read_multi_layer_vector_info("c.gpkg", scans);
    assert!(r.err().unwrap().is_invalid_format());
}

#[test]
fn multi_layer_empty_container() {
    let m = read_multi_layer_vector_info("c.gpkg", vec![]).unwrap();
    assert_eq!(m.layer_count, 0);
    assert_eq!(m.layers.len(), 0);
    assert_eq!(m.projection, None);
}

#[test]
fn drivers_skip_failed_lookups() {
    let names = vec![
        Some("GeoJSON".to_string()),
        None,
        Some("ESRI Shapefile".to_string()),
    ];
    let r = get_supported_drivers(&names);
    assert_eq!(r, vec!["GeoJSON".to_string(), "ESRI Shapefile".to_string()]);
}
