//! Startup selection: which mapping file to load, and in which format.
//! Reading and parsing the file itself is a boundary concern; the engine
//! receives the already-materialized entries.

use vstd::prelude::*;

verus! {

/// The format of the startup mapping file.
#[derive(Debug, PartialEq, Eq, Structural, Clone, Copy)]
pub enum MapFormat {
    Json,
    Yaml,
}

/// Pick the mapping file from the two optional flags; the JSON flag wins
/// when both are given. At least one flag must be present: with neither,
/// the program refuses to start instead of calling this.
pub fn parse_args(json_path: Option<String>, yaml_path: Option<String>) -> (r: (
    String,
    MapFormat,
))
    requires
        json_path is Some || yaml_path is Some,
    ensures
        match json_path {
            Some(p) => r.0 == p && r.1 == MapFormat::Json,
            None => yaml_path matches Some(p) && r.0 == p && r.1 == MapFormat::Yaml,
        },
{
    match json_path {
        Some(p) => (p, MapFormat::Json),
        None => match yaml_path {
            Some(p) => (p, MapFormat::Yaml),
            None => vstd::pervasive::unreached(),
        },
    }
}

} // verus!
