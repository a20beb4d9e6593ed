use vstd::prelude::*;

verus! {

/// Why the displays could not be listed.
#[derive(Debug, Clone, Copy, PartialEq, Eq, Structural)]
pub enum DisplayError {
    Unavailable,
}

impl DisplayError {
    /// The user-facing explanation.
    pub fn message(&self) -> (m: &'static str)
        ensures
            m@ == "display enumeration unavailable on this platform"@,
    {
        "display enumeration unavailable on this platform"
    }
}

} // verus!
