//! Export planning. An export shells out to an external command-line
//! conversion tool; the library resolves the requested format token
//! against the fixed allow-list, rejecting anything else before any
//! external work happens, builds the tool's argument list, computes the
//! locations where the tool may live, and picks the first location that
//! exists. Spawning the process, deleting a stale output file and
//! probing the filesystem are the caller's work.

use vstd::prelude::*;
use crate::errors::AppError;
use crate::strutil::{chars_of, eq_ci, lower_seq, string_from_chars};

verus! {

/// The driver name a format token resolves to: the fixed, exhaustive
/// allow-list, case-insensitively; every other token is rejected.
pub open spec fn format_driver(f: Seq<char>) -> Option<Seq<char>> {
    let t = lower_seq(f);
    if t == "kml"@ {
        Some("KML"@)
    } else if t == "kmz"@ {
        Some("LIBKML"@)
    } else if t == "geojson"@ {
        Some("GeoJSON"@)
    } else if t == "shapefile"@ || t == "shp"@ {
        Some("ESRI Shapefile"@)
    } else if t == "gpkg"@ {
        Some("GPKG"@)
    } else {
        None
    }
}

fn mk(s: &str) -> (r: String)
    ensures
        r@ == s@,
{
    let v = chars_of(s);
    string_from_chars(&v)
}

/// The driver for a requested format token; an unsupported token is an
/// `InvalidFormat` error, raised before any external process is spawned
/// or the output path is touched.
pub fn resolve_format(format: &str) -> (r: Result<String, AppError>)
    ensures
        match r {
            Ok(d) => format_driver(format@) == Some(d@),
            Err(e) => format_driver(format@) is None && e is InvalidFormat,
        },
{
    let f = chars_of(format);
    if eq_ci(&f, "kml") {
        Ok(mk("KML"))
    } else if eq_ci(&f, "kmz") {
        Ok(mk("LIBKML"))
    } else if eq_ci(&f, "geojson") {
        Ok(mk("GeoJSON"))
    } else if eq_ci(&f, "shapefile") || eq_ci(&f, "shp") {
        Ok(mk("ESRI Shapefile"))
    } else if eq_ci(&f, "gpkg") {
        Ok(mk("GPKG"))
    } else {
        Err(AppError::InvalidFormat(mk("the export format is not supported")))
    }
}

/// The conversion tool's argument list: the target-format flag, the
/// output path, the input path, and — when the export is restricted to
/// one layer — that layer's name as a final positional argument.
pub open spec fn export_args_spec(
    driver: Seq<char>,
    output_path: Seq<char>,
    input_path: Seq<char>,
    layer_name: Option<Seq<char>>,
) -> Seq<Seq<char>> {
    seq!["-f"@, driver, output_path, input_path] + (match layer_name {
        Some(n) => seq![n],
        None => Seq::<Seq<char>>::empty(),
    })
}

pub open spec fn opt_string_view(o: Option<&String>) -> Option<Seq<char>> {
    match o {
        Some(s) => Some(s@),
        None => None,
    }
}

pub fn export_args(
    driver: &String,
    output_path: &str,
    input_path: &str,
    layer_name: Option<&String>,
) -> (r: Vec<String>)
    ensures
        r.deep_view() == export_args_spec(
            driver@,
            output_path@,
            input_path@,
            opt_string_view(layer_name),
        ),
{
    let mut out: Vec<String> = Vec::new();
    out.push(mk("-f"));
    out.push(driver.clone());
    let ov = chars_of(output_path);
    out.push(string_from_chars(&ov));
    let iv = chars_of(input_path);
    out.push(string_from_chars(&iv));
    match layer_name {
        Some(n) => {
            out.push(n.clone());
            proof {
                assert(out.deep_view() =~= export_args_spec(
                    driver@,
                    output_path@,
                    input_path@,
                    opt_string_view(layer_name),
                ));
            }
        },
        None => {
            proof {
                assert(out.deep_view() =~= export_args_spec(
                    driver@,
                    output_path@,
                    input_path@,
                    opt_string_view(layer_name),
                ));
            }
        },
    }
    out
}

/// The whole export decision in one step: the tool's argument list for
/// a supported format, and the fixed `InvalidFormat` rejection for any
/// other token, before any external work.
pub fn plan_export(
    input_path: &str,
    output_path: &str,
    format: &str,
    layer_name: Option<&String>,
) -> (r: Result<Vec<String>, AppError>)
    ensures
        match r {
            Ok(args) => format_driver(format@) matches Some(d) && args.deep_view()
                == export_args_spec(d, output_path@, input_path@, opt_string_view(layer_name)),
            Err(e) => format_driver(format@) is None && e is InvalidFormat,
        },
{
    let driver = match resolve_format(format) {
        Ok(d) => d,
        Err(e) => {
            return Err(e);
        },
    };
    Ok(export_args(&driver, output_path, input_path, layer_name))
}

/// The directories searched for the conversion tool, in order: the
/// application's own directory, its tools subdirectory, then every
/// directory of the search path, joined with the platform's separator.
pub open spec fn tool_dirs_spec(
    app_dir: Option<Seq<char>>,
    sep: char,
    path_dirs: Seq<Seq<char>>,
) -> Seq<Seq<char>> {
    (match app_dir {
        Some(d) => seq![d, d + seq![sep] + "gdal-tools"@],
        None => Seq::<Seq<char>>::empty(),
    }) + path_dirs
}

pub fn tool_dirs(app_dir: Option<&String>, sep: char, path_dirs: &Vec<String>) -> (r: Vec<String>)
    ensures
        r.deep_view() == tool_dirs_spec(
            opt_string_view(app_dir),
            sep,
            path_dirs.deep_view(),
        ),
{
    let mut out: Vec<String> = Vec::new();
    match app_dir {
        Some(d) => {
            out.push(d.clone());
            let mut sub = chars_of(d.as_str());
            sub.push(sep);
            let tail = chars_of("gdal-tools");
            let mut k: usize = 0;
            while k < tail.len()
                invariant
                    0 <= k <= tail@.len(),
                    tail@ == "gdal-tools"@,
                    sub@ == d@ + seq![sep] + tail@.take(k as int),
                decreases tail@.len() - k,
            {
                sub.push(tail[k]);
                k = k + 1;
                proof {
                    assert(sub@ =~= d@ + seq![sep] + tail@.take(k as int));
                }
            }
            proof {
                assert(tail@.take(tail@.len() as int) =~= tail@);
            }
            out.push(string_from_chars(&sub));
        },
        None => {},
    }
    let n = path_dirs.len();
    let ghost base = out.deep_view();
    let mut i: usize = 0;
    proof {
        assert(out.deep_view() =~= base + path_dirs.deep_view().take(0));
    }
    while i < n
        invariant
            0 <= i <= n,
            n == path_dirs@.len(),
            out.deep_view() == base + path_dirs.deep_view().take(i as int),
        decreases n - i,
    {
        let ghost prev = out.deep_view();
        out.push(path_dirs[i].clone());
        i = i + 1;
        proof {
            let dv = path_dirs.deep_view();
            let lhs = out.deep_view();
            let rhs = base + dv.take(i as int);
            assert(lhs.len() == prev.len() + 1);
            assert forall|t: int| 0 <= t < lhs.len() implies lhs[t] == rhs[t] by {
                if t < prev.len() {
                    assert(lhs[t] == prev[t]);
                    assert(prev[t] == (base + dv.take(i - 1))[t]);
                } else {
                    assert(lhs[t] == path_dirs@[i - 1]@);
                    assert(rhs[t] == dv[i - 1]);
                }
            }
            assert(lhs =~= rhs);
        }
    }
    proof {
        assert(path_dirs.deep_view().take(n as int) =~~= path_dirs.deep_view());
        assert(out.deep_view() =~~= tool_dirs_spec(
            opt_string_view(app_dir),
            sep,
            path_dirs.deep_view(),
        ));
    }
    out
}

/// First match wins: the index of the first candidate location that
/// exists, or nothing when the tool is nowhere to be found.
pub fn first_existing(exists: &Vec<bool>) -> (r: Option<usize>)
    ensures
        match r {
            Some(i) => i < exists@.len() && exists@[i as int] && (forall|j: int|
                0 <= j < i ==> !exists@[j]),
            None => forall|j: int| 0 <= j < exists@.len() ==> !exists@[j],
        },
{
    let n = exists.len();
    let mut i: usize = 0;
    while i < n
        invariant
            0 <= i <= n,
            n == exists@.len(),
            forall|j: int| 0 <= j < i ==> !exists@[j],
        decreases n - i,
    {
        if exists[i] {
            return Some(i);
        }
        i = i + 1;
    }
    None
}

} // verus!
