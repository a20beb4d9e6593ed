//! Foreground resolution on this platform.
use vstd::prelude::*;

use crate::capture::foreground::{
    opt_view, unknown_system_name, ForegroundApplication, ForegroundError,
};

verus! {

/// Resolves the foreground application. Without a native window system the
/// foreground is always the unknown/system application.
pub fn resolve_foreground_application() -> (r: Result<ForegroundApplication, ForegroundError>)
    ensures
        r matches Ok(f) && f.identity.executable_name@ == unknown_system_name() && opt_view(
            f.display_label,
        ) == Some("Unknown/System"@),
{
    Ok(ForegroundApplication::unknown())
}

} // verus!
