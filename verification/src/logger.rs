//! Chooses the diagnostic verbosity.

use vstd::prelude::*;

verus! {

/// The default diagnostic level for a verbosity count: `info` without `-v`,
/// `debug` with one, `trace` with more.
pub fn default_level(verbosity: u8) -> (level: &'static str)
    ensures
        verbosity == 0 ==> level@ == "info"@,
        verbosity == 1 ==> level@ == "debug"@,
        verbosity >= 2 ==> level@ == "trace"@,
{
    if verbosity == 0 {
        "info"
    } else if verbosity == 1 {
        "debug"
    } else {
        "trace"
    }
}

} // verus!
