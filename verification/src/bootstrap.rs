//! Runtime bootstrap decisions: which data directory the geometry
//! engine should be pointed at, and whether its driver registry looks
//! healthy. Reading the filesystem and setting environment variables is
//! the caller's work; the choices are made here.

use vstd::prelude::*;
use crate::strutil::{chars_of, string_from_chars};

verus! {

/// The data directory to use: the packaged one beside the application
/// when it exists, the development fallback when only that exists, and
/// otherwise the packaged path again, flagged as not found.
pub fn choose_data_dir(
    packaged: String,
    packaged_exists: bool,
    fallback: String,
    fallback_exists: bool,
) -> (r: (String, bool))
    ensures
        packaged_exists ==> r.0@ == packaged@ && r.1,
        !packaged_exists && fallback_exists ==> r.0@ == fallback@ && r.1,
        !packaged_exists && !fallback_exists ==> r.0@ == packaged@ && !r.1,
{
    if packaged_exists {
        (packaged, true)
    } else if fallback_exists {
        (fallback, true)
    } else {
        (packaged, false)
    }
}

/// The health verdict on the engine's driver registry: an empty
/// registry means the runtime data could not be found and nothing will
/// load, anything else passes.
pub fn check_gdal_health(driver_count: usize) -> (r: Result<(), String>)
    ensures
        r is Ok <==> driver_count > 0,
{
    if driver_count == 0 {
        let m = chars_of("no format drivers are loaded; check the runtime data directory");
        Err(string_from_chars(&m))
    } else {
        Ok(())
    }
}

} // verus!
