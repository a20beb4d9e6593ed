use vstd::prelude::*;

use crate::app_colors::registry::{default_palette, ApplicationColorMode, ApplicationColorRegistry};
use crate::clock::unix_time_now;
use crate::session::statistics::SessionStatistics;
use crate::settings::model::RgbaColor;

verus! {

#[derive(Debug, Clone, Copy, PartialEq, Eq, Structural)]
pub enum ExportFormat {
    Png,
    WebP,
}

#[derive(Debug, Clone, Copy, PartialEq, Eq, Structural)]
pub enum ExportScale {
    Full,
    SeventyFive,
    Fifty,
    TwentyFive,
}

#[derive(Debug, Clone, PartialEq)]
pub enum ExportBackground {
    Solid(RgbaColor),
    Transparent,
}

#[derive(Debug, Clone, Default, PartialEq, Eq, Structural)]
pub struct InformationPanels {
    pub application_legend: bool,
    pub session_times: bool,
    pub recording_duration: bool,
    pub total_distance: bool,
    pub dwell_count: bool,
    pub monitor_outlines: bool,
    pub monitor_labels: bool,
}

impl InformationPanels {
    pub open spec fn enabled_spec(&self) -> bool {
        self.application_legend || self.session_times || self.recording_duration
            || self.total_distance || self.dwell_count
    }

    /// Whether any panel that needs the information strip is on (monitor
    /// outlines and labels are drawn on the artwork itself).
    pub fn enabled(&self) -> (r: bool)
        ensures
            r == self.enabled_spec(),
    {
        self.application_legend || self.session_times || self.recording_duration
            || self.total_distance || self.dwell_count
    }
}

/// The information strip is there exactly when one of its five panels is on:
/// the application legend, the session times, the recording duration, the
/// total distance or the dwell count; each of them alone brings it, and the
/// monitor outlines and labels, drawn on the artwork, never do.
pub proof fn lemma_strip_panels_enable_the_strip(p: InformationPanels)
    ensures
        p.application_legend ==> p.enabled_spec(),
        p.session_times ==> p.enabled_spec(),
        p.recording_duration ==> p.enabled_spec(),
        p.total_distance ==> p.enabled_spec(),
        p.dwell_count ==> p.enabled_spec(),
        !p.application_legend && !p.session_times && !p.recording_duration && !p.total_distance && !p.dwell_count
            ==> !p.enabled_spec(),
{
}

/// What an export is asked to produce. Times are seconds since the Unix epoch.
#[derive(Debug)]
pub struct ExportOptions {
    pub destination: Option<String>,
    pub default_directory: String,
    pub timestamp: u64,
    pub format: ExportFormat,
    pub scale: ExportScale,
    pub background: ExportBackground,
    pub panels: InformationPanels,
    pub statistics: SessionStatistics,
    pub application_colors: ApplicationColorRegistry,
    pub started_at: Option<u64>,
    pub ended_at: Option<u64>,
}

impl ExportOptions {
    /// A full-size transparent PNG into `dir`, stamped with the current time,
    /// with no panels, no counts and the default colour rules.
    pub fn basic(dir: String) -> (o: Self)
        ensures
            o.destination is None,
            o.default_directory@ == dir@,
            o.format == ExportFormat::Png,
            o.scale == ExportScale::Full,
            o.background == ExportBackground::Transparent,
            o.panels == (InformationPanels {
                application_legend: false,
                session_times: false,
                recording_duration: false,
                total_distance: false,
                dwell_count: false,
                monitor_outlines: false,
                monitor_labels: false,
            }),
            o.statistics == (SessionStatistics { samples_recorded: 0, movements_recorded: 0, dwell_events: 0 }),
            o.application_colors@.mode == ApplicationColorMode::ApplicationSpecific,
            o.application_colors@.fixed_global_color == (RgbaColor { r: 0, g: 120, b: 215, a: 255 }),
            o.application_colors@.palette == default_palette(),
            o.application_colors@.rules.len() == 0,
            o.application_colors@.key_owners.len() == 0,
            o.application_colors@.entries.len() == 0,
            o.started_at is None,
            o.ended_at is None,
    {
        ExportOptions {
            destination: None,
            default_directory: dir,
            timestamp: unix_time_now(),
            format: ExportFormat::Png,
            scale: ExportScale::Full,
            background: ExportBackground::Transparent,
            panels: InformationPanels {
                application_legend: false,
                session_times: false,
                recording_duration: false,
                total_distance: false,
                dwell_count: false,
                monitor_outlines: false,
                monitor_labels: false,
            },
            statistics: SessionStatistics { samples_recorded: 0, movements_recorded: 0, dwell_events: 0 },
            application_colors: ApplicationColorRegistry::default(),
            started_at: None,
            ended_at: None,
        }
    }
}

} // verus!
