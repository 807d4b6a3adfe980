//! Platform bootstrap: what to tell the user before the hook starts.
//!
//! On permission-gated platforms the shell asks the OS whether
//! input-monitoring permission has been granted and passes the answer here;
//! the decision is a remediation notice exactly when permission is missing.
//! The hook is attempted either way (graceful degradation: without permission
//! it simply observes no events), so nothing else is decided.

use vstd::prelude::*;

verus! {

/// Remediation advice shown when input-monitoring permission is missing.
pub const INPUT_MONITORING_NOTICE: &'static str =
    "macOS input monitoring permission is missing. Please enable this app in Privacy & Security -> Input Monitoring.";

/// Decide the bootstrap diagnostic from the platform's answer to the
/// permission query: the remediation notice exactly when permission is
/// missing, nothing otherwise.
pub fn platform(has_input: bool) -> (notice: Option<&'static str>)
    ensures
        notice is Some <==> !has_input,
        !has_input ==> notice == Some(INPUT_MONITORING_NOTICE),
{
    if has_input {
        None
    } else {
        Some(INPUT_MONITORING_NOTICE)
    }
}

} // verus!
