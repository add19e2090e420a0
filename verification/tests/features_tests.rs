use minigis::features::{build_feature, field_value_to_json, geometry_of_json,
    read_vector_as_geojson, read_vector_features, read_vector_features_with_geometry, RawFeature,
    RawField, RawValue};
use minigis::jsonval::JsonValue;

fn plain_feature(i: u64) -> RawFeature {
    RawFeature {
        fid: None,
        geometry_json: None,
        fields: vec![RawField { name: "N".to_string(), value: RawValue::Int64(i as i64) }],
    }
}

#[test]
fn pagination_window() {
    let raws: Vec<RawFeature> = (0..10).map(plain_feature).collect();
    let fs = read_vector_features("a.shp", &raws, Some(3), Some(4)).unwrap();
    let ids: Vec<String> = fs.iter().map(|f| f.id.clone()).collect();
    assert_eq!(ids, vec!["3", "4", "5", "6"]);
}

#[test]
fn pagination_overrun_is_clamped() {
    let raws: Vec<RawFeature> = (0..10).map(plain_feature).collect();
    let fs = read_vector_features("a.shp", &raws, Some(8), Some(10)).unwrap();
    let ids: Vec<String> = fs.iter().map(|f| f.id.clone()).collect();
    assert_eq!(ids, vec!["8", "9"]);
}

#[test]
fn pagination_defaults_take_all() {
    let raws: Vec<RawFeature> = (0..4).map(plain_feature).collect();
    let fs = read_vector_features("a.shp", &raws, None, None).unwrap();
    assert_eq!(fs.len(), 4);
    let fs2 = read_vector_features_with_geometry("a.shp", &raws, None, None).unwrap();
    assert_eq!(fs2.len(), 4);
}

#[test]
fn pagination_offset_beyond_end_is_empty() {
    let raws: Vec<RawFeature> = (0..3).map(plain_feature).collect();
    let fs = read_vector_features("a.shp", &raws, Some(7), Some(2)).unwrap();
    assert_eq!(fs.len(), 0);
}

#[test]
fn native_id_wins_over_index() {
    let mut raw = plain_feature(0);
    raw.fid = Some(42);
    let fs = read_vector_features("a.shp", &vec![raw], None, None).unwrap();
    assert_eq!(fs[0].id, "42");
}

#[test]
fn null_geometry_serializes_as_null() {
    let g = geometry_of_json(None).unwrap();
    assert_eq!(g.geom_type, "Null");
    assert_eq!(g.coordinates, "null");
}

#[test]
fn geometry_split_into_type_and_coordinates() {
    let text = "{\"type\":\"Point\",\"coordinates\":[1.5,2.5]}".to_string();
    let g = geometry_of_json(Some(&text)).unwrap();
    assert_eq!(g.geom_type, "Point");
    assert_eq!(g.coordinates, "[1.5,2.5]");
}

#[test]
fn geometry_without_type_is_unknown() {
    let text = "{\"coordinates\":[]}".to_string();
    let g = geometry_of_json(Some(&text)).unwrap();
    assert_eq!(g.geom_type, "Unknown");
    assert_eq!(g.coordinates, "[]");
}

#[test]
fn geometry_bad_json_is_invalid_format() {
    let text = "{not json".to_string();
    let r = geometry_of_json(Some(&text));
    assert!(r.err().unwrap().is_invalid_format());
}

#[test]
fn field_values_convert_exactly() {
    assert_eq!(
        field_value_to_json(&RawValue::Text("x".to_string())),
        JsonValue::Str("x".to_string())
    );
    assert_eq!(field_value_to_json(&RawValue::Int(7)), JsonValue::Int(7));
    assert_eq!(field_value_to_json(&RawValue::Int64(-9)), JsonValue::Int(-9));
    assert_eq!(
        field_value_to_json(&RawValue::Real { bits: 2.5f64.to_bits(), text: "2.5".to_string() }),
        JsonValue::Num("2.5".to_string())
    );
    assert_eq!(field_value_to_json(&RawValue::Missing), JsonValue::Null);
    assert_eq!(
        field_value_to_json(&RawValue::Date("2024-01-02".to_string())),
        JsonValue::Str("2024-01-02".to_string())
    );
}

#[test]
fn nan_and_infinity_collapse_to_null() {
    for v in [f64::NAN, f64::INFINITY, f64::NEG_INFINITY] {
        let j = field_value_to_json(&RawValue::Real { bits: v.to_bits(), text: "x".to_string() });
        assert_eq!(j, JsonValue::Null);
    }
}

#[test]
fn description_merges_after_fields_for_kml() {
    let raw = RawFeature {
        fid: None,
        geometry_json: None,
        fields: vec![
            RawField { name: "NAME".to_string(), value: RawValue::Text("old".to_string()) },
            RawField {
                name: "description".to_string(),
                value: RawValue::Text("\"NAME\":\"new\" \"LEN\":2".to_string()),
            },
        ],
    };
    let f = build_feature(0, &raw, true).unwrap();
    // the parsed key overwrote the raw field of the same name
    assert_eq!(f.properties.get("NAME"), Some(&JsonValue::Str("new".to_string())));
    assert_eq!(f.properties.get("LEN"), Some(&JsonValue::Int(2)));
    // the description field itself is still a property
    match f.properties.get("description") {
        Some(JsonValue::Str(_)) => {},
        other => panic!("expected the raw description, got {:?}", other),
    }
}

#[test]
fn description_is_ignored_for_non_kml() {
    let raw = RawFeature {
        fid: None,
        geometry_json: None,
        fields: vec![RawField {
            name: "description".to_string(),
            value: RawValue::Text("\"LEN\":2".to_string()),
        }],
    };
    let f = build_feature(0, &raw, false).unwrap();
    assert_eq!(f.properties.get("LEN"), None);
    assert_eq!(
        f.properties.get("description"),
        Some(&JsonValue::Str("\"LEN\":2".to_string()))
    );
}

#[test]
fn kml_path_triggers_description_parsing() {
    let raw = RawFeature {
        fid: None,
        geometry_json: None,
        fields: vec![RawField {
            name: "Description".to_string(),
            value: RawValue::Text("\"LEN\":2".to_string()),
        }],
    };
    let fs = read_vector_features("x.kmz", &vec![raw], None, None).unwrap();
    assert_eq!(fs[0].properties.get("LEN"), Some(&JsonValue::Int(2)));
}

#[test]
fn geojson_features_keep_geometry_text() {
    let raw = RawFeature {
        fid: Some(5),
        geometry_json: Some("{\"type\":\"Point\",\"coordinates\":[0.0,1.0]}".to_string()),
        fields: vec![],
    };
    let none = RawFeature { fid: None, geometry_json: None, fields: vec![] };
    let fs = read_vector_as_geojson("a.gpkg", &vec![raw, none]).unwrap();
    assert_eq!(fs.len(), 2);
    assert_eq!(fs[0].id, 5);
    assert_eq!(fs[0].geometry_json, "{\"type\":\"Point\",\"coordinates\":[0.0,1.0]}");
    assert_eq!(fs[1].id, 0);
    assert_eq!(fs[1].geometry_json, "null");
}

#[test]
fn null_geometries_never_cause_an_error() {
    // a whole layer of geometry-less features converts without error
    let raws: Vec<RawFeature> = (0..3).map(plain_feature).collect();
    let fs = read_vector_features("a.shp", &raws, None, None).unwrap();
    assert_eq!(fs.len(), 3);
    for f in &fs {
        assert_eq!(f.geometry.geom_type, "Null");
        assert_eq!(f.geometry.coordinates, "null");
    }
    let gs = read_vector_as_geojson("a.shp", &raws).unwrap();
    assert_eq!(gs.len(), 3);
    for g in &gs {
        assert_eq!(g.geometry_json, "null");
    }
}

#[test]
fn bad_geometry_in_window_is_invalid_format() {
    let mut bad = plain_feature(0);
    bad.geometry_json = Some("{broken".to_string());
    let raws = vec![bad, plain_feature(1), plain_feature(2)];
    let r = read_vector_features("a.shp", &raws, None, None);
    assert!(r.err().unwrap().is_invalid_format());
    let r2 = read_vector_features_with_geometry("a.shp", &raws, Some(0), Some(1));
    assert!(r2.err().unwrap().is_invalid_format());
}

#[test]
fn bad_geometry_outside_window_is_skipped() {
    let mut bad = plain_feature(0);
    bad.geometry_json = Some("{broken".to_string());
    let raws = vec![bad, plain_feature(1), plain_feature(2)];
    // the window starts past the broken feature, so nothing fails
    let fs = read_vector_features("a.shp", &raws, Some(1), Some(2)).unwrap();
    let ids: Vec<String> = fs.iter().map(|f| f.id.clone()).collect();
    assert_eq!(ids, vec!["1", "2"]);
}

#[test]
fn accessor_splits_geometry_like_geometry_of_json() {
    let mut raw = plain_feature(0);
    raw.geometry_json = Some("{\"type\":\"LineString\",\"coordinates\":[[0.0,0.0],[1.0,1.0]]}".to_string());
    let fs = read_vector_features_with_geometry("a.shp", &vec![raw], None, None).unwrap();
    assert_eq!(fs[0].geometry.geom_type, "LineString");
    assert_eq!(fs[0].geometry.coordinates, "[[0.0,0.0],[1.0,1.0]]");
}

#[test]
fn geojson_bad_geometry_is_invalid_format() {
    let raw = RawFeature {
        fid: None,
        geometry_json: Some("oops".to_string()),
        fields: vec![],
    };
    let r = read_vector_as_geojson("a.gpkg", &vec![raw]);
    assert!(r.err().unwrap().is_invalid_format());
}
