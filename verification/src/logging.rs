//! Where the log file lives.
use vstd::prelude::*;

use crate::text::{path_join, path_parent, spec_path_join, spec_path_parent};

verus! {

pub const LOG_FILE_NAME: &'static str = "MultiMouseCanvas.log";

#[derive(Debug)]
pub struct LoggingStatus {
    pub writer_initialized: bool,
    pub subscriber_installed: bool,
    pub expected_path: String,
    pub warning: Option<String>,
}

/// The log path for an executable: `logs/MultiMouseCanvas.log` next to it
/// (relative to the working directory when the path has no parent).
pub fn log_path_for_executable(executable: &str) -> (p: String)
    ensures
        p@ == spec_path_join(
            spec_path_join(
                match spec_path_parent(executable@) {
                    Some(d) => d,
                    None => Seq::empty(),
                },
                "logs"@,
            ),
            "MultiMouseCanvas.log"@,
        ),
{
    let parent = match path_parent(executable) {
        Some(d) => d,
        None => String::new(),
    };
    let logs = path_join(parent.as_str(), "logs");
    path_join(logs.as_str(), LOG_FILE_NAME)
}

} // verus!
