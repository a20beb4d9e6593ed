use multi_mouse_canvas::capture::foreground::{normalize_executable_name, normalize_executable_path, ApplicationIdentity};
use multi_mouse_canvas::capture::sampler::sampling_interval_from_ms;
use multi_mouse_canvas::export::image_export::{
    base_filename, collision_safe_path, sanitize_filename_component, ExportBackground, ExportOptions,
};
use multi_mouse_canvas::export::model::{ExportOptions as ModelOptions, ExportFormat, ExportScale, InformationPanels};
use multi_mouse_canvas::export::overlays::panel_height;
use multi_mouse_canvas::logging::log_path_for_executable;
use multi_mouse_canvas::text::{is_whitespace, lex_le_chars};

#[test]
fn executable_path_name_normalization_prevents_duplicate_casing() {
    let a = ApplicationIdentity::new(1, "APP.EXE", Some("C:\\Program Files\\App\\APP.EXE".into()), None, true);
    let b = ApplicationIdentity::new(2, "app.exe", Some("c:/program files/app/app.exe".into()), None, true);
    assert_eq!(a.stable_key().to_ascii_lowercase(), b.stable_key().to_ascii_lowercase());
    assert_eq!(normalize_executable_name("C:/X/APP.EXE", true).to_ascii_lowercase(), "app.exe");
}

#[test]
fn case_is_folded_only_where_names_ignore_case() {
    let a = ApplicationIdentity::new(1, "APP.EXE", Some("C:\\Program Files\\App\\APP.EXE".into()), None, true);
    let b = ApplicationIdentity::new(2, "app.exe", Some("c:/program files/app/app.exe".into()), None, true);
    assert_eq!(a.stable_key(), "c:/program files/app/app.exe");
    assert_eq!(a.stable_key(), b.stable_key());
    assert_eq!(a.executable_name, "app.exe");
    assert_eq!(normalize_executable_path(" C:\\A\\B.EXE ", true), "c:/a/b.exe");
    assert_eq!(normalize_executable_path("C:\\A\\B.EXE", false), "C:/A/B.EXE");
    assert_eq!(normalize_executable_name("Tool", false), "Tool");
    assert_eq!(normalize_executable_name("unknown/system", true), "unknown/system");
}

#[test]
fn identities_are_trimmed_and_slashed() {
    assert_eq!(normalize_executable_path("  C:\\A\\b.exe ", false), "C:/A/b.exe");
    let a = ApplicationIdentity::new(3, " /usr/bin/tool ", None, Some("   ".into()), false);
    assert_eq!(a.executable_name, "tool");
    assert_eq!(a.window_class, None);
    assert_eq!(a.stable_key(), "tool");
    let u = ApplicationIdentity::unknown();
    assert_eq!(u.executable_name, "unknown/system");
    assert_eq!(u.window_class, Some("system".to_string()));
}

fn opts(dir: &str) -> ExportOptions {
    ExportOptions {
        destination: None,
        default_directory: dir.to_string(),
        session_name: Some("My Session:/1".into()),
        timestamp: 42,
        custom_size: None,
        background: ExportBackground::Transparent,
    }
}

#[test]
fn timestamp_session_name_filename_sanitization() {
    let o = opts("x");
    assert_eq!(sanitize_filename_component(" A:/B*C? "), "A_B_C");
    assert_eq!(base_filename(&o), "My_Session_1_42");
}

#[test]
fn collision_safe_filename_generation() {
    let d = tempfile::tempdir().unwrap();
    let _existing = tempfile::Builder::new()
        .prefix("a")
        .suffix(".png")
        .rand_bytes(0)
        .tempfile_in(d.path())
        .unwrap();
    let dir = d.path().to_str().unwrap();
    let p = collision_safe_path(dir, "a", "png");
    assert_eq!(std::path::Path::new(&p).file_name().unwrap(), "a-1.png");
    assert_eq!(
        std::path::Path::new(&collision_safe_path(dir, "b", "png")).file_name().unwrap(),
        "b.png"
    );
}

#[test]
fn unnamed_sessions_are_named_by_time() {
    let mut o = opts("x");
    o.session_name = None;
    assert_eq!(base_filename(&o), "session_42");
    o.session_name = Some("***".into());
    assert_eq!(base_filename(&o), "session_42");
}

#[test]
fn path_is_executable_relative() {
    assert_eq!(log_path_for_executable("/opt/mmc/app"), "/opt/mmc/logs/MultiMouseCanvas.log");
}

#[test]
fn sampling_interval_is_at_least_one_millisecond() {
    assert_eq!(sampling_interval_from_ms(0), 1);
    assert_eq!(sampling_interval_from_ms(8), 8);
}

#[test]
fn panel_height_scales_with_the_export() {
    let none = InformationPanels::default();
    assert_eq!(panel_height(&none, ExportScale::Full), 0);
    let some = InformationPanels { dwell_count: true, ..Default::default() };
    assert!(some.enabled());
    assert_eq!(panel_height(&some, ExportScale::Full), 96);
    assert_eq!(panel_height(&some, ExportScale::TwentyFive), 24);
    let outlines = InformationPanels { monitor_outlines: true, ..Default::default() };
    assert!(!outlines.enabled());
}

#[test]
fn basic_export_options_are_a_transparent_full_png() {
    let o = ModelOptions::basic("/tmp/out".to_string());
    assert_eq!(o.default_directory, "/tmp/out");
    assert_eq!(o.format, ExportFormat::Png);
    assert_eq!(o.scale, ExportScale::Full);
    assert!(o.destination.is_none() && o.started_at.is_none());
    assert_eq!(o.application_colors.palette.len(), 6);
}

#[test]
fn whitespace_agrees_with_char_is_whitespace_everywhere() {
    for n in 0u32..=0x10FFFF {
        if let Some(c) = char::from_u32(n) {
            assert_eq!(is_whitespace(c), c.is_whitespace(), "{n:#x}");
        }
    }
}

#[test]
fn character_order_agrees_with_string_order() {
    let words = ["", "a", "ab", "b", "B", "é", "z", "aa", "a\u{10000}", "a\u{ffff}"];
    for x in words {
        for y in words {
            let xs: Vec<char> = x.chars().collect();
            let ys: Vec<char> = y.chars().collect();
            assert_eq!(lex_le_chars(&xs, &ys), x <= y, "{x:?} {y:?}");
        }
    }
}

use multi_mouse_canvas::export::image_export::first_free_candidate;

#[test]
fn the_first_candidate_reported_free_is_chosen() {
    assert_eq!(first_free_candidate(&[]), None);
    assert_eq!(first_free_candidate(&[true, true]), None);
    assert_eq!(first_free_candidate(&[false]), Some(0));
    assert_eq!(first_free_candidate(&[true, true, false, false]), Some(2));
}

#[test]
fn sanitizing_twice_changes_nothing() {
    for text in ["  My: Session / 2024 ", "__a..b__", "Ünïcode-x_y", "", "???"] {
        let once = sanitize_filename_component(text);
        assert_eq!(sanitize_filename_component(&once), once);
        assert!(once.chars().all(|c| c.is_ascii_alphanumeric() || c == '-' || c == '_'));
        assert!(!once.starts_with('_') && !once.ends_with('_'));
    }
    assert_eq!(sanitize_filename_component("  My: Session / 2024 "), "My_Session_2024");
}
