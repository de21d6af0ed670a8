use vstd::prelude::*;

use crate::json::{json_main, json_parse_err, json_get_str, parse_json_text};

verus! {

/// A transient structured view of a package manifest, exposing only the
/// entry-file (`main`) field that the engine consumes.
pub struct PackageJson {
    pub main: Option<String>,
}

impl PackageJson {
    /// Parse raw manifest text. Pure: no filesystem access. On a parse
    /// failure the error carries the parser's own description, suitable
    /// for direct surfacing.
    pub fn parse(text: &str) -> (r: Result<PackageJson, String>)
        ensures
            r is Ok <==> json_parse_err(text@) is None,
            r matches Ok(pkg) ==> pkg.main.deep_view() == json_main(text@),
            r matches Err(m) ==> json_parse_err(text@) == Some(m@),
    {
        match parse_json_text(text) {
            Ok(v) => Ok(PackageJson { main: json_get_str(&v, "main") }),
            Err(m) => Err(m),
        }
    }
}

} // verus!
