use minigis::shp::{AttributeData, DbfValue, FieldInfo, ShapeKind, ShapefileHandler};
use minigis::strutil::{i64_to_string, parse_i64, u64_to_string};

#[test]
fn shape_type_names() {
    assert_eq!(ShapefileHandler::shape_type_to_string(&ShapeKind::Point), "Point");
    assert_eq!(ShapefileHandler::shape_type_to_string(&ShapeKind::Polyline), "LineString");
    assert_eq!(ShapefileHandler::shape_type_to_string(&ShapeKind::PolygonZ), "PolygonZ");
    assert_eq!(ShapefileHandler::shape_type_to_string(&ShapeKind::Multipoint), "MultiPoint");
    assert_eq!(ShapefileHandler::shape_type_to_string(&ShapeKind::NullShape), "Null");
    assert_eq!(ShapefileHandler::shape_type_to_string(&ShapeKind::Other), "Unknown");
}

#[test]
fn shapefile_info_recognises_epsg() {
    let prj = "PROJCS[\"x\",AUTHORITY[\"EPSG\",\"3857\"]]".to_string();
    let info = ShapefileHandler::read_shapefile_info(
        "rivers.shp".to_string(),
        &ShapeKind::Polygon,
        12,
        vec![0, 0, 0, 0],
        vec![FieldInfo { name: "NAME".to_string(), field_type: "Character".to_string() }],
        Some(prj.clone()),
    );
    assert_eq!(info.filename, "rivers.shp");
    assert_eq!(info.geometry_type, "Polygon");
    assert_eq!(info.feature_count, 12);
    assert_eq!(info.crs, Some(prj));
    assert_eq!(info.epsg_code, Some(3857));
}

#[test]
fn shapefile_info_without_prj() {
    let info = ShapefileHandler::read_shapefile_info(
        "a.shp".to_string(),
        &ShapeKind::Point,
        0,
        vec![],
        vec![],
        None,
    );
    assert_eq!(info.crs, None);
    assert_eq!(info.epsg_code, None);
}

#[test]
fn dbf_values_render() {
    assert_eq!(
        ShapefileHandler::dbf_value_to_string(&DbfValue::Character(Some("text".to_string()))),
        "text"
    );
    assert_eq!(
        ShapefileHandler::dbf_value_to_string(&DbfValue::Numeric(Some("3.25".to_string()))),
        "3.25"
    );
    assert_eq!(ShapefileHandler::dbf_value_to_string(&DbfValue::Logical(Some(true))), "true");
    assert_eq!(ShapefileHandler::dbf_value_to_string(&DbfValue::Logical(Some(false))), "false");
    assert_eq!(ShapefileHandler::dbf_value_to_string(&DbfValue::Integer(-12)), "-12");
    assert_eq!(ShapefileHandler::dbf_value_to_string(&DbfValue::Character(None)), "NULL");
    assert_eq!(ShapefileHandler::dbf_value_to_string(&DbfValue::Other), "NULL");
}

#[test]
fn attribute_rows_skip_unreadable_records_but_keep_ids() {
    let rec = |v: i32| {
        Some(vec![("N".to_string(), DbfValue::Integer(v))])
    };
    let records = vec![rec(1), None, rec(3)];
    let AttributeData { features } = ShapefileHandler::read_attributes(&records);
    assert_eq!(features.len(), 2);
    assert_eq!(features[0].id, 0);
    assert_eq!(features[0].properties, vec![("N".to_string(), "1".to_string())]);
    assert_eq!(features[1].id, 2);
    assert_eq!(features[1].properties, vec![("N".to_string(), "3".to_string())]);
}

#[test]
fn duplicate_field_names_last_write_wins() {
    let rec = vec![
        ("A".to_string(), DbfValue::Integer(1)),
        ("B".to_string(), DbfValue::Integer(2)),
        ("A".to_string(), DbfValue::Integer(3)),
    ];
    let fa = ShapefileHandler::record_attributes(5, &rec);
    assert_eq!(fa.id, 5);
    assert_eq!(
        fa.properties,
        vec![("A".to_string(), "3".to_string()), ("B".to_string(), "2".to_string())]
    );
}

#[test]
fn decimal_rendering_round_trips() {
    assert_eq!(u64_to_string(0), "0");
    assert_eq!(u64_to_string(90210), "90210");
    assert_eq!(i64_to_string(-7), "-7");
    assert_eq!(i64_to_string(i64::MIN), "-9223372036854775808");
}

#[test]
fn integer_parsing_matches_std() {
    for s in ["0", "42", "-42", "+7", "007", "9223372036854775807",
        "-9223372036854775808", "9223372036854775808", "abc", "", "+", "1.5", "--4"] {
        let chars: Vec<char> = s.chars().collect();
        assert_eq!(parse_i64(&chars), s.parse::<i64>().ok(), "token {:?}", s);
    }
}
