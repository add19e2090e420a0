use minigis::crs::{extract_epsg_from_wkt, needs_transform, normalized_extent, split_coords,
    zip_coords, wgs84_wkt};
use minigis::extent::{bbox_of_points, extent_corners, Extent};

#[test]
fn wgs84_codes_do_not_transform() {
    assert!(!needs_transform(Some(4326)));
    assert!(!needs_transform(Some(4490)));
}

#[test]
fn other_codes_transform() {
    assert!(needs_transform(Some(3857)));
    assert!(needs_transform(Some(2154)));
    assert!(needs_transform(Some(0)));
}

#[test]
fn undetermined_crs_does_not_transform() {
    assert!(!needs_transform(None));
}

#[test]
fn epsg_from_authority_clause() {
    let wkt = "GEOGCS[\"WGS 84\",DATUM[\"WGS_1984\"],AUTHORITY[\"EPSG\",\"4326\"]]";
    assert_eq!(extract_epsg_from_wkt(wkt), Some(4326));
}

#[test]
fn epsg_from_colon_form() {
    assert_eq!(extract_epsg_from_wkt("source: EPSG:3857 web mercator"), Some(3857));
}

#[test]
fn epsg_from_quoted_form() {
    assert_eq!(extract_epsg_from_wkt("...\"EPSG\",\"4490\"..."), Some(4490));
}

#[test]
fn epsg_authority_has_priority() {
    let wkt = "EPSG:9999 then AUTHORITY[\"EPSG\",\"4326\"]";
    assert_eq!(extract_epsg_from_wkt(wkt), Some(4326));
}

#[test]
fn epsg_none_without_pattern() {
    assert_eq!(extract_epsg_from_wkt("LOCAL_CS[\"unnamed\"]"), None);
    assert_eq!(extract_epsg_from_wkt(""), None);
}

#[test]
fn epsg_overflow_falls_through() {
    // the first pattern's digits overflow a 32-bit code; the second matches
    let wkt = "AUTHORITY[\"EPSG\",\"99999999999999999999\"] EPSG:4326";
    assert_eq!(extract_epsg_from_wkt(wkt), Some(4326));
}

#[test]
fn wgs84_wkt_mentions_datum() {
    assert!(wgs84_wkt().contains("WGS_1984"));
}

fn b(x: f64) -> u64 {
    x.to_bits()
}

#[test]
fn extent_passthrough_without_transform() {
    let e = Extent { min_x: b(1.0), min_y: b(2.0), max_x: b(3.0), max_y: b(4.0) };
    let r = normalized_extent(&e, Some(4326), None).unwrap();
    assert_eq!(r, e);
    let r2 = normalized_extent(&e, None, None).unwrap();
    assert_eq!(r2, e);
}

#[test]
fn extent_transform_missing_is_invalid_format() {
    let e = Extent { min_x: b(1.0), min_y: b(2.0), max_x: b(3.0), max_y: b(4.0) };
    let r = normalized_extent(&e, Some(3857), None);
    assert!(r.err().unwrap().is_invalid_format());
}

#[test]
fn extent_transform_recomputes_bbox() {
    let e = Extent { min_x: b(0.0), min_y: b(0.0), max_x: b(10.0), max_y: b(10.0) };
    // a rotated image of the corner points
    let xs = vec![b(2.0), b(-1.0), b(5.0), b(3.5)];
    let ys = vec![b(7.0), b(4.0), b(-2.5), b(9.0)];
    let r = normalized_extent(&e, Some(3857), Some((xs, ys))).unwrap();
    assert_eq!(f64::from_bits(r.min_x), -1.0);
    assert_eq!(f64::from_bits(r.max_x), 5.0);
    assert_eq!(f64::from_bits(r.min_y), -2.5);
    assert_eq!(f64::from_bits(r.max_y), 9.0);
}

#[test]
fn corners_in_transform_order() {
    let e = Extent { min_x: b(1.0), min_y: b(2.0), max_x: b(3.0), max_y: b(4.0) };
    let (xs, ys) = extent_corners(&e);
    assert_eq!(xs, vec![b(1.0), b(3.0), b(1.0), b(3.0)]);
    assert_eq!(ys, vec![b(2.0), b(2.0), b(4.0), b(4.0)]);
}

#[test]
fn bbox_skips_nan_like_float_min() {
    let xs = vec![b(f64::NAN), b(5.0), b(2.0)];
    let ys = vec![b(1.0), b(f64::NAN), b(3.0)];
    let r = bbox_of_points(&xs, &ys);
    assert_eq!(f64::from_bits(r.min_x), 2.0);
    assert_eq!(f64::from_bits(r.max_x), 5.0);
    assert_eq!(f64::from_bits(r.min_y), 1.0);
    assert_eq!(f64::from_bits(r.max_y), 3.0);
}

#[test]
fn bbox_of_no_points_is_inverted_infinite() {
    let r = bbox_of_points(&vec![], &vec![]);
    assert_eq!(f64::from_bits(r.min_x), f64::INFINITY);
    assert_eq!(f64::from_bits(r.max_x), f64::NEG_INFINITY);
}

#[test]
fn bbox_orders_negative_values() {
    let xs = vec![b(-0.5), b(-3.25), b(1.5)];
    let r = bbox_of_points(&xs, &xs);
    assert_eq!(f64::from_bits(r.min_x), -3.25);
    assert_eq!(f64::from_bits(r.max_x), 1.5);
}

#[test]
fn split_and_zip_round_trip() {
    let pts = vec![(b(1.0), b(2.0)), (b(3.0), b(4.0))];
    let (xs, ys) = split_coords(&pts);
    assert_eq!(xs, vec![b(1.0), b(3.0)]);
    assert_eq!(ys, vec![b(2.0), b(4.0)]);
    assert_eq!(zip_coords(&xs, &ys), pts);
}
