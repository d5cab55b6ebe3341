//! How much the command line logs.

use vstd::prelude::*;

verus! {

/// The log level for `-v` counts and `--quiet`: quiet wins, then none is
/// `warn`, one `info`, two `debug`, and more `trace`.
pub open spec fn spec_log_level(verbose: u8, quiet: bool) -> Seq<char> {
    if quiet {
        "error"@
    } else if verbose == 0 {
        "warn"@
    } else if verbose == 1 {
        "info"@
    } else if verbose == 2 {
        "debug"@
    } else {
        "trace"@
    }
}

pub fn log_level(verbose: u8, quiet: bool) -> (r: &'static str)
    ensures
        r@ == spec_log_level(verbose, quiet),
{
    if quiet {
        "error"
    } else if verbose == 0 {
        "warn"
    } else if verbose == 1 {
        "info"
    } else if verbose == 2 {
        "debug"
    } else {
        "trace"
    }
}

} // verus!
