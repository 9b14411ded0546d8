//! The acceptance rule between a mod's declared compatible version and the
//! version of the update a title has installed locally.

use vstd::prelude::*;
use crate::text::str_eq;

verus! {

/// A declared mod version is accepted for a title exactly when one of these
/// holds, checked in order by [`version_matches`]:
/// the declared version equals the installed one; the declared version is
/// the wildcard sentinel `x.x.x`; or no update is installed and the declared
/// version is one of the base-game labels `1.0` and `1.0.0`.
pub open spec fn version_accepted(installed: Option<Seq<char>>, declared: Seq<char>) -> bool {
    installed == Some(declared) || declared == "x.x.x"@ || (installed is None && (declared
        == "1.0"@ || declared == "1.0.0"@))
}

/// Decides whether a mod declaring `declared` fits a title whose installed
/// update version is `installed` (`None`: base game only, no update).
pub fn version_matches(installed: &Option<String>, declared: &str) -> (r: bool)
    ensures
        r == version_accepted(installed.deep_view(), declared@),
{
    match installed {
        Some(v) => {
            if str_eq(v.as_str(), declared) {
                return true;
            }
        },
        None => {},
    }
    if str_eq(declared, "x.x.x") {
        return true;
    }
    if installed.is_none() && (str_eq(declared, "1.0") || str_eq(declared, "1.0.0")) {
        return true;
    }
    false
}

} // verus!
