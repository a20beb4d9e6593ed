use vstd::prelude::*;

verus! {

/// Why the tray icon could not be set up; the explanation.
#[derive(Debug, Clone)]
pub struct TrayInitError(pub String);

impl TrayInitError {
    /// The explanation.
    pub fn message(&self) -> (m: &str)
        ensures
            m@ == self.0@,
    {
        self.0.as_str()
    }
}

} // verus!
