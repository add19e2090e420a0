use minigis::bootstrap::{check_gdal_health, choose_data_dir};
use minigis::export::{export_args, first_existing, plan_export, resolve_format, tool_dirs};
use minigis::opener::{open_candidates, open_vector_with_encoding};

#[test]
fn unsupported_format_is_rejected_up_front() {
    let r = plan_export("in.shp", "out.tif", "TIFF", None);
    assert!(r.err().unwrap().is_invalid_format());
}

#[test]
fn format_tokens_map_to_drivers() {
    assert_eq!(resolve_format("KML").unwrap(), "KML");
    assert_eq!(resolve_format("kmz").unwrap(), "LIBKML");
    assert_eq!(resolve_format("GeoJSON").unwrap(), "GeoJSON");
    assert_eq!(resolve_format("Shapefile").unwrap(), "ESRI Shapefile");
    assert_eq!(resolve_format("SHP").unwrap(), "ESRI Shapefile");
    assert_eq!(resolve_format("gpkg").unwrap(), "GPKG");
    assert!(resolve_format("").is_err());
    assert!(resolve_format("geo json").is_err());
}

#[test]
fn args_without_layer() {
    let args = export_args(&"GeoJSON".to_string(), "out.json", "in.shp", None);
    assert_eq!(
        args,
        vec![
            "-f".to_string(),
            "GeoJSON".to_string(),
            "out.json".to_string(),
            "in.shp".to_string()
        ]
    );
}

#[test]
fn args_with_layer_appended_last() {
    let name = "roads".to_string();
    let args = plan_export("in.kml", "out.gpkg", "GPKG", Some(&name)).unwrap();
    assert_eq!(
        args,
        vec![
            "-f".to_string(),
            "GPKG".to_string(),
            "out.gpkg".to_string(),
            "in.kml".to_string(),
            "roads".to_string()
        ]
    );
}

#[test]
fn tool_search_order() {
    let app = "C:\\app".to_string();
    let dirs = tool_dirs(
        Some(&app),
        '\\',
        &vec!["C:\\bin".to_string(), "D:\\tools".to_string()],
    );
    assert_eq!(
        dirs,
        vec![
            "C:\\app".to_string(),
            "C:\\app\\gdal-tools".to_string(),
            "C:\\bin".to_string(),
            "D:\\tools".to_string()
        ]
    );
}

#[test]
fn tool_search_without_app_dir() {
    let dirs = tool_dirs(None, '/', &vec!["/usr/bin".to_string()]);
    assert_eq!(dirs, vec!["/usr/bin".to_string()]);
}

#[test]
fn first_existing_location_wins() {
    assert_eq!(first_existing(&vec![false, true, true]), Some(1));
    assert_eq!(first_existing(&vec![false, false]), None);
    assert_eq!(first_existing(&vec![]), None);
}

#[test]
fn open_candidates_for_plain_extension() {
    let c = open_candidates("data.gpkg", None);
    assert_eq!(c, vec!["".to_string()]);
}

#[test]
fn open_candidates_for_shapefile() {
    let c = open_candidates("data.shp", None);
    assert_eq!(c, vec!["GBK".to_string(), "UTF-8".to_string(), "".to_string()]);
}

#[test]
fn open_uses_first_successful_encoding() {
    let r = open_vector_with_encoding("data.shp", None, &vec![false, true, true]);
    assert_eq!(r.unwrap(), 1);
}

#[test]
fn open_exhausting_candidates_is_one_read_error() {
    let r = open_vector_with_encoding("data.shp", None, &vec![false, false, false]);
    assert!(r.err().unwrap().is_file_read_error());
}

#[test]
fn data_dir_choice() {
    let (d, ok) = choose_data_dir("pack".to_string(), true, "dev".to_string(), true);
    assert_eq!((d.as_str(), ok), ("pack", true));
    let (d, ok) = choose_data_dir("pack".to_string(), false, "dev".to_string(), true);
    assert_eq!((d.as_str(), ok), ("dev", true));
    let (d, ok) = choose_data_dir("pack".to_string(), false, "dev".to_string(), false);
    assert_eq!((d.as_str(), ok), ("pack", false));
}

#[test]
fn health_needs_at_least_one_driver() {
    assert!(check_gdal_health(0).is_err());
    assert!(check_gdal_health(120).is_ok());
}
