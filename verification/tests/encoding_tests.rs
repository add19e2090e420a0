use minigis::encoding::{detect_file_encoding, detect_shapefile_encoding};

fn names(v: Vec<String>) -> Vec<String> {
    v
}

#[test]
fn cpg_utf8_order() {
    let r = names(detect_file_encoding("rivers.shp", Some("UTF-8")));
    assert_eq!(r, vec!["UTF-8".to_string(), "GBK".to_string(), "".to_string()]);
}

#[test]
fn cpg_utf8_spelling_variant() {
    let r = detect_file_encoding("rivers.shp", Some("utf8\n"));
    assert_eq!(r, vec!["UTF-8".to_string(), "GBK".to_string(), "".to_string()]);
}

#[test]
fn no_cpg_heuristic_order() {
    let r = detect_file_encoding("rivers.shp", None);
    assert_eq!(r, vec!["GBK".to_string(), "UTF-8".to_string(), "".to_string()]);
}

#[test]
fn kml_fixed_order() {
    let r = detect_file_encoding("places.kml", None);
    assert_eq!(r, vec!["UTF-8".to_string(), "".to_string()]);
}

#[test]
fn kml_ignores_cpg() {
    let r = detect_file_encoding("places.KML", Some("GBK"));
    assert_eq!(r, vec!["UTF-8".to_string(), "".to_string()]);
}

#[test]
fn kmz_fixed_order() {
    let r = detect_file_encoding("archive.kmz", Some("ISO-8859-1"));
    assert_eq!(r, vec!["UTF-8".to_string(), "".to_string()]);
}

#[test]
fn cpg_gbk_family() {
    for decl in ["GBK", "gb2312", "GB18030", " gbk "] {
        let r = detect_shapefile_encoding(Some(decl));
        assert_eq!(r, vec!["GBK".to_string(), "UTF-8".to_string(), "".to_string()]);
    }
}

#[test]
fn cpg_latin1_family() {
    for decl in ["ISO-8859-1", "latin1"] {
        let r = detect_shapefile_encoding(Some(decl));
        assert_eq!(
            r,
            vec![
                "ISO-8859-1".to_string(),
                "GBK".to_string(),
                "UTF-8".to_string(),
                "".to_string()
            ]
        );
    }
}

#[test]
fn cpg_unrecognized_falls_back() {
    let r = detect_shapefile_encoding(Some("BIG5"));
    assert_eq!(r, vec!["GBK".to_string(), "UTF-8".to_string(), "".to_string()]);
}

#[test]
fn shapefile_case_insensitive_extension() {
    let r = detect_file_encoding("UPPER.SHP", None);
    assert_eq!(r, vec!["GBK".to_string(), "UTF-8".to_string(), "".to_string()]);
}
