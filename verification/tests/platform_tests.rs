use std::collections::BTreeSet;

use multi_mouse_canvas::platform::display::DisplayError;
use multi_mouse_canvas::platform::display_identity::{DisplayIdentity, IdentityQuality};
use multi_mouse_canvas::platform::monitor_identification::{
    assign_friendly_numbers, inset_rect, terminal_display_number, visible_display_name, MonitorEntry, PixelRect,
};
use multi_mouse_canvas::platform::open_path::{open_export_location, OpenPathError};

#[test]
fn device_path_survives_gdi_rename() {
    let mut a = DisplayIdentity::gdi_fallback("DISPLAY1");
    a.monitor_device_path = Some("MONITOR#ABC".into());
    a.rebuild_stable_key();
    let mut b = a.clone();
    b.gdi_source_name = "DISPLAY9".into();
    b.rebuild_stable_key();
    assert_eq!(a.stable_key, b.stable_key);
}

#[test]
fn gdi_fallback_key_names_the_source() {
    let d = DisplayIdentity::gdi_fallback("DISPLAY3");
    assert_eq!(d.stable_key, "gdi:DISPLAY3");
    assert_eq!(d.quality, IdentityQuality::GdiFallback);
}

#[test]
fn suffix_parsing() {
    assert_eq!(terminal_display_number(r"\\.\DISPLAY1"), Some(1));
    assert_eq!(terminal_display_number("DISPLAY12"), Some(12));
    for n in ["", "DISPLAY", "THING1", "DISPLAY1x", "DISPLAY42949672960"] {
        assert_eq!(terminal_display_number(n), None);
    }
}

fn r(l: i32, t: i32, w: i32, h: i32) -> PixelRect {
    PixelRect { left: l, top: t, right: l + w, bottom: t + h }
}

#[test]
fn numbering_is_stable_and_resolves_duplicates() {
    let a: Vec<MonitorEntry> = vec![
        ("b".into(), "DISPLAY2".into(), r(-10, 0, 10, 10)),
        ("a".into(), "DISPLAY2".into(), r(-10, 0, 10, 10)),
        ("c".into(), "virtual".into(), r(0, -20, 10, 10)),
    ];
    let mut b = a.clone();
    b.reverse();
    assert_eq!(assign_friendly_numbers(a), assign_friendly_numbers(b.clone()));
    let out = assign_friendly_numbers(b);
    assert_eq!(out.iter().map(|m| m.number).collect::<BTreeSet<_>>().len(), 3);
    assert_eq!(out[0].stable_id, "c");
}

#[test]
fn numbers_go_to_the_named_monitor_first() {
    let out = assign_friendly_numbers(vec![
        ("x".into(), "DISPLAY2".into(), r(0, 0, 10, 10)),
        ("y".into(), "other".into(), r(10, 0, 10, 10)),
    ]);
    assert_eq!((out[0].stable_id.as_str(), out[0].number), ("x", 2));
    assert_eq!((out[1].stable_id.as_str(), out[1].number), ("y", 1));
}

#[test]
fn rectangles_preserve_layout_and_never_invert() {
    for rect in [
        r(-1920, 0, 1920, 1080),
        r(0, -1080, 1920, 1080),
        r(0, 0, 1080, 1920),
        r(0, 0, 5120, 1440),
        r(i32::MAX - 1, i32::MIN, 1, 1),
    ] {
        let x = inset_rect(&rect, 16);
        assert!(x.right > x.left && x.bottom > x.top);
    }
}

#[test]
fn inset_is_the_requested_margin_when_it_fits() {
    let x = inset_rect(&r(0, 0, 100, 100), 16);
    assert_eq!(x, PixelRect { left: 16, top: 16, right: 84, bottom: 84 });
}

#[test]
fn visible_names_prefer_the_number() {
    assert_eq!(visible_display_name(r"\\.\DISPLAY2", 9), "DISPLAY2");
    assert_eq!(visible_display_name("virtual", 3), "DISPLAY3");
}

#[test]
fn open_path_without_a_file_manager() {
    assert_eq!(open_export_location("/", false), Err(OpenPathError::MissingParent));
    assert_eq!(open_export_location("/tmp/a.png", false), Err(OpenPathError::Unsupported));
    assert_eq!(
        OpenPathError::Io("denied".into()).message(),
        "failed to open export location: denied"
    );
    assert_eq!(DisplayError::Unavailable.message(), "display enumeration unavailable on this platform");
}

use multi_mouse_canvas::platform::monitor_identification::{MonitorDescriptor, NativeWindowBackend, Session};

#[derive(Default)]
struct Fake {
    next: u8,
    destroyed: Vec<u8>,
    fail_at: Option<u8>,
}

impl NativeWindowBackend for Fake {
    type Handle = u8;
    fn create(&mut self, _: &MonitorDescriptor) -> Result<u8, String> {
        self.next += 1;
        if self.fail_at == Some(self.next) {
            Err("create".into())
        } else {
            Ok(self.next)
        }
    }
    fn destroy(&mut self, h: u8) -> Result<(), String> {
        self.destroyed.push(h);
        Ok(())
    }
}

fn d(id: &str) -> MonitorDescriptor {
    MonitorDescriptor { stable_id: id.into(), windows_name: "DISPLAY1".into(), number: 1, rect: r(0, 0, 10, 10) }
}

const SECOND: u64 = 1_000_000_000;

#[test]
fn expiration_repeated_show_close_and_shutdown_policy() {
    let start = 7 * SECOND;
    let mut s = Session::new(Fake::default());
    assert_eq!(s.show(&[d("a")], start), Ok(1));
    assert!(s.tick(start + 4 * SECOND).is_empty());
    assert_eq!(s.show(&[d("b"), d("c")], start + 4 * SECOND), Ok(2));
    assert_eq!(s.backend.destroyed, vec![1]);
    s.tick(start + 8 * SECOND);
    assert_eq!(s.handle_count(), 2);
    s.tick(start + 9 * SECOND);
    assert_eq!(s.handle_count(), 0);
    assert!(s.close().is_empty());
    assert!(s.close().is_empty());
}

#[test]
fn partial_creation_is_cleaned_up() {
    let mut s = Session::new(Fake { fail_at: Some(2), ..Default::default() });
    assert!(s.show(&[d("a"), d("b")], 0).is_err());
    assert_eq!(s.backend.destroyed, vec![1]);
    assert_eq!(s.handle_count(), 0);
}

struct Stubborn;

impl NativeWindowBackend for Stubborn {
    type Handle = u8;
    fn create(&mut self, _: &MonitorDescriptor) -> Result<u8, String> {
        Ok(1)
    }
    fn destroy(&mut self, _: u8) -> Result<(), String> {
        Err("busy".into())
    }
}

#[test]
fn close_errors_are_reported_after_replacing() {
    let mut s = Session::new(Stubborn);
    assert_eq!(s.show(&[d("a")], 0), Ok(1));
    assert_eq!(s.show(&[d("a")], 0), Err("overlays replaced after cleanup errors: busy".to_string()));
    assert_eq!(s.handle_count(), 1);
    assert_eq!(s.close(), vec!["busy".to_string()]);
}

use multi_mouse_canvas::platform::monitor_identification::{Command, Status};
use multi_mouse_canvas::session::shutdown::Received;

#[test]
fn worker_turns_report_show_expiry_and_shutdown() {
    let mut s = Session::new(Fake::default());
    let turn = s.handle(Received::Message(Command::Show(vec![d("a")])), 0, SECOND);
    assert!(turn.running);
    assert_eq!(turn.statuses.len(), 1);
    assert!(matches!(turn.statuses[0], Status::Shown { generation: 1, expires_at } if expires_at == 5 * SECOND));
    assert!(turn.statuses[0].keeps_pending());

    let idle = s.handle(Received::Empty, 2 * SECOND, 2 * SECOND);
    assert!(idle.running && idle.statuses.is_empty());
    assert_eq!(s.handle_count(), 1);

    let expired = s.handle(Received::Empty, 5 * SECOND, 5 * SECOND);
    assert_eq!(expired.statuses.len(), 1);
    assert!(matches!(expired.statuses[0], Status::Closed));
    assert!(!expired.statuses[0].keeps_pending());
    assert_eq!(s.handle_count(), 0);

    let closed = s.handle(Received::Message(Command::Close), 6 * SECOND, 6 * SECOND);
    assert_eq!(closed.statuses.len(), 1);
    assert!(matches!(closed.statuses[0], Status::Closed));

    let stop = s.handle(Received::Message(Command::Shutdown), 7 * SECOND, 7 * SECOND);
    assert!(!stop.running && stop.statuses.is_empty());
    let gone = s.handle(Received::Disconnected, 8 * SECOND, 8 * SECOND);
    assert!(!gone.running);
}

#[test]
fn worker_turn_reports_close_errors_before_closed() {
    let mut s = Session::new(Stubborn);
    let shown = s.handle(Received::Message(Command::Show(vec![d("a")])), 0, 0);
    assert!(matches!(shown.statuses[0], Status::Shown { generation: 1, .. }));
    let closed = s.handle(Received::Message(Command::Close), 0, 0);
    assert_eq!(closed.statuses.len(), 2);
    assert!(matches!(&closed.statuses[0], Status::Error(e) if e == "busy"));
    assert!(matches!(closed.statuses[1], Status::Closed));
    let failed = s.handle(Received::Message(Command::Show(vec![d("a")])), 0, 0);
    assert!(matches!(failed.statuses[0], Status::Shown { generation: 2, .. }));
}

#[test]
fn cleanup_errors_are_joined_in_order() {
    let mut s = Session::new(Stubborn);
    assert_eq!(s.show(&[d("a"), d("b")], 0), Ok(1));
    assert_eq!(
        s.show(&[d("a")], 0),
        Err("overlays replaced after cleanup errors: busy; busy".to_string())
    );
}


#[test]
fn explorer_selects_the_file_and_falls_back_to_its_folder() {
    let launch = open_export_location("/exports/art.png", true).unwrap();
    assert_eq!(launch.select_argument, "/select,/exports/art.png");
    assert_eq!(launch.folder, "/exports");
    assert_eq!(open_export_location("/", true), Err(OpenPathError::MissingParent));
}

use multi_mouse_canvas::platform::display_identity::{monitor_with_label, AdapterLuid, DisplayOrientation, PathReport, TargetReport};

#[test]
fn a_path_report_upgrades_the_identity() {
    let labels = vec![None, Some("\\\\.\\DISPLAY2".to_string()), Some("\\\\.\\DISPLAY1".to_string())];
    assert_eq!(monitor_with_label(&labels, "\\\\.\\DISPLAY1"), Some(2));
    assert_eq!(monitor_with_label(&labels, "\\\\.\\DISPLAY7"), None);
    let mut d = DisplayIdentity::gdi_fallback("\\\\.\\DISPLAY1");
    let report = PathReport {
        adapter: AdapterLuid { high: 0, low: 42 },
        source_id: 1,
        target_id: 7,
        gdi_name: "\\\\.\\DISPLAY1".into(),
        rotation: 2,
        target: Some(TargetReport {
            monitor_device_path: "MONITOR#ABC".into(),
            friendly_name: String::new(),
            edid_manufacturer_id: 0,
            edid_product_code: 9,
        }),
    };
    assert_eq!(d.merge_path_report(&report), DisplayOrientation::Portrait);
    assert_eq!(d.target_id, Some(7));
    assert_eq!(d.target_friendly_name, None);
    assert_eq!(d.edid_manufacturer_id, None);
    assert_eq!(d.edid_product_code, Some(9));
    let mut e = DisplayIdentity::gdi_fallback("\\\\.\\DISPLAY1");
    e.monitor_device_path = Some("MONITOR#ABC".into());
    e.rebuild_stable_key();
    assert_eq!(d.stable_key, e.stable_key);
    let mut without_target = DisplayIdentity::gdi_fallback("x");
    let plain = PathReport { target: None, rotation: 1, ..report };
    assert_eq!(without_target.merge_path_report(&plain), DisplayOrientation::Landscape);
    assert_eq!(without_target.monitor_device_path, None);
    assert_ne!(without_target.stable_key, "gdi:x");
}
