//! Deterministic synthetic control streams used by tests and diagnostics.
use vstd::prelude::*;

use crate::text::{decimal, push_decimal, push_str, string_of};

verus! {

#[derive(Debug, Clone, PartialEq, Eq)]
pub enum SyntheticControl {
    ApplicationSwitch(String),
    TopologyChange(&'static str),
    Pause,
    Resume,
}

/// The name of the `i`th synthetic application: seven names in rotation.
pub open spec fn synthetic_app_name(i: nat) -> Seq<char> {
    "synthetic-"@ + decimal(i % 7) + ".exe"@
}

/// `count` application switches cycling through seven executables.
pub fn frequent_application_switches(count: usize) -> (v: Vec<SyntheticControl>)
    ensures
        v@.len() == count,
        forall|i: int| 0 <= i < count ==> (#[trigger] v@[i] matches SyntheticControl::ApplicationSwitch(n) && n@ == synthetic_app_name(i as nat)),
{
    let mut v: Vec<SyntheticControl> = Vec::new();
    let mut i: usize = 0;
    while i < count
        invariant
            i <= count,
            v@.len() == i,
            forall|j: int| 0 <= j < i ==> (#[trigger] v@[j] matches SyntheticControl::ApplicationSwitch(n) && n@ == synthetic_app_name(j as nat)),
        decreases count - i,
    {
        let mut name: Vec<char> = Vec::new();
        push_str(&mut name, "synthetic-");
        push_decimal(&mut name, (i % 7) as u64);
        push_str(&mut name, ".exe");
        v.push(SyntheticControl::ApplicationSwitch(string_of(name.as_slice())));
        i = i + 1;
    }
    v
}

/// The display changes a long session goes through, in order.
pub fn display_topology_changes() -> (v: Vec<SyntheticControl>)
    ensures
        v@.len() == 5,
        v@[0] matches SyntheticControl::TopologyChange(s) && s@ == "monitor-added-left"@,
        v@[1] matches SyntheticControl::TopologyChange(s) && s@ == "resolution-change"@,
        v@[2] matches SyntheticControl::TopologyChange(s) && s@ == "rotation"@,
        v@[3] matches SyntheticControl::TopologyChange(s) && s@ == "origin-shift"@,
        v@[4] matches SyntheticControl::TopologyChange(s) && s@ == "monitor-removed"@,
{
    let mut v: Vec<SyntheticControl> = Vec::new();
    v.push(SyntheticControl::TopologyChange("monitor-added-left"));
    v.push(SyntheticControl::TopologyChange("resolution-change"));
    v.push(SyntheticControl::TopologyChange("rotation"));
    v.push(SyntheticControl::TopologyChange("origin-shift"));
    v.push(SyntheticControl::TopologyChange("monitor-removed"));
    v
}

/// A pause followed by a resume.
pub fn pause_and_resume() -> (v: [SyntheticControl; 2])
    ensures
        v[0] == SyntheticControl::Pause,
        v[1] == SyntheticControl::Resume,
{
    [SyntheticControl::Pause, SyntheticControl::Resume]
}

} // verus!
