use multi_mouse_canvas::canvas::coordinates::TileCoordinate;
use multi_mouse_canvas::canvas::preview_state::{PreviewFrame, PreviewState};
use multi_mouse_canvas::canvas::tiles::SparseTileStore;
use multi_mouse_canvas::session::controller::DiscontinuityReason;
use multi_mouse_canvas::session::engine::{
    decide_transition, CommandEffect, ControlCommand, EngineControl, EngineMessage, ExportDecision,
    ExportRejection,
};
use multi_mouse_canvas::session::error::EngineError;
use multi_mouse_canvas::session::events::{
    FullStateRequestId, TransitionKind, TransitionRejection, TransitionRequestId, TransitionResult,
};
use multi_mouse_canvas::session::model::RecordingStatus;
use multi_mouse_canvas::session::publish::{has_changes, mark_sent, should_publish, tile_deltas};
use multi_mouse_canvas::session::recovery::{
    autosave_path, detect_incomplete, legacy_status, tile_filename, LegacyFile, RecoveryStatus,
};
use multi_mouse_canvas::session::snapshot::{sorted_revisions, EngineActivity, SnapshotDeduper, SnapshotKey};
use multi_mouse_canvas::session::statistics::SessionStatistics;

fn id(n: u64) -> TransitionRequestId {
    TransitionRequestId::from_raw(n)
}

#[test]
fn a_new_engine_is_stopped_in_generation_one_and_owes_a_full_snapshot() {
    let e = EngineControl::new();
    assert_eq!(e.status, RecordingStatus::Stopped);
    assert_eq!(e.generation, 1);
    assert!(e.full_snapshot && e.ui_visible && !e.shutting_down);
}

#[test]
fn start_pause_resume_finish_clear_walk_the_lifecycle() {
    let mut e = EngineControl::new();
    let s = e.apply(ControlCommand::Start { id: id(1), effective_topology_empty: false, session_begins: true });
    assert_eq!(e.status, RecordingStatus::Recording);
    assert_eq!(e.generation, 2);
    let ack = s.acknowledgment.unwrap();
    assert_eq!(ack.request_id, id(1));
    assert_eq!(ack.kind, TransitionKind::Start);
    assert_eq!(ack.status, RecordingStatus::Recording);
    assert_eq!(ack.result, TransitionResult::Success);
    assert_eq!(s.message, Some(EngineMessage::RecordingStarted));
    assert!(s.work.begin_session && s.work.start_sampler && s.work.reset_statistics);
    assert_eq!(s.effect, CommandEffect::PublishImmediately);

    let s = e.apply(ControlCommand::Pause { id: id(2) });
    assert_eq!(e.status, RecordingStatus::Paused);
    assert!(s.work.drain_samples && s.work.stop_sampler);
    assert_eq!(s.work.flush, Some(DiscontinuityReason::PauseResume));

    e.apply(ControlCommand::Resume { id: id(3) });
    assert_eq!(e.status, RecordingStatus::Recording);
    assert!(e.force_discontinuity);

    let s = e.apply(ControlCommand::Finish { id: id(4) });
    assert_eq!(e.status, RecordingStatus::Finished);
    assert!(s.work.clear_overlays);

    let s = e.apply(ControlCommand::Clear { id: id(5) });
    assert_eq!(e.status, RecordingStatus::Stopped);
    assert_eq!(e.generation, 3);
    assert!(s.work.clear_canvas && e.full_snapshot);
}

#[test]
fn wrong_state_requests_are_refused_with_the_current_status() {
    let mut e = EngineControl::new();
    let s = e.apply(ControlCommand::Pause { id: id(7) });
    let ack = s.acknowledgment.unwrap();
    assert_eq!(ack.status, RecordingStatus::Stopped);
    assert_eq!(
        ack.result,
        TransitionResult::Rejected(TransitionRejection::WrongCurrentState { current: RecordingStatus::Stopped })
    );
    assert_eq!(e.status, RecordingStatus::Stopped);
    let s = e.apply(ControlCommand::Start { id: id(8), effective_topology_empty: true, session_begins: true });
    assert_eq!(
        s.acknowledgment.unwrap().result,
        TransitionResult::Rejected(TransitionRejection::EmptyEffectiveTopology)
    );
    let s = e.apply(ControlCommand::Start { id: id(9), effective_topology_empty: false, session_begins: false });
    assert_eq!(
        s.acknowledgment.unwrap().result,
        TransitionResult::Rejected(TransitionRejection::EmptyEffectiveTopology)
    );
    assert_eq!(e.generation, 1);
}

#[test]
fn shutdown_refuses_everything_but_snapshots_and_shutdown() {
    let mut e = EngineControl::new();
    let s = e.apply(ControlCommand::PrepareShutdown { recovery_required: false, tiles_empty: true });
    assert_eq!(s.effect, CommandEffect::TerminateAfterPublish);
    assert!(!s.work.save_recovery);
    assert!(e.shutting_down);
    let s = e.apply(ControlCommand::Start { id: id(1), effective_topology_empty: false, session_begins: true });
    assert_eq!(s.message, Some(EngineMessage::ShutdownRejected));
    assert_eq!(
        s.acknowledgment.unwrap().result,
        TransitionResult::Rejected(TransitionRejection::ShutdownInProgress)
    );
    assert_eq!(e.status, RecordingStatus::Stopped);
    let s = e.apply(ControlCommand::SetUiVisibility { visible: false });
    assert!(s.acknowledgment.is_none());
    assert!(e.ui_visible);
    let s = e.apply(ControlCommand::RequireFullState { id: FullStateRequestId::from_raw(4) });
    assert_eq!(s.effect, CommandEffect::PublishImmediately);
    assert_eq!(e.full_state_request_id, Some(FullStateRequestId::from_raw(4)));
    assert_eq!(EngineMessage::ShutdownRejected.text(), "Command rejected: engine shutdown is in progress.");
}

#[test]
fn shutdown_saves_recovery_when_anything_could_be_lost() {
    let mut e = EngineControl::new();
    e.apply(ControlCommand::Start { id: id(1), effective_topology_empty: false, session_begins: true });
    let s = e.apply(ControlCommand::PrepareShutdown { recovery_required: false, tiles_empty: true });
    assert!(s.work.save_recovery);
    let mut e = EngineControl::new();
    let s = e.apply(ControlCommand::PrepareShutdown { recovery_required: false, tiles_empty: false });
    assert!(s.work.save_recovery);
    let s = EngineControl::new().apply(ControlCommand::ForceShutdown);
    assert_eq!(s.effect, CommandEffect::TerminateAfterPublish);
}

#[test]
fn export_requests_are_decided_by_activity_format_and_state() {
    let mut e = EngineControl::new();
    let s = e.apply(ControlCommand::RequestExport { png: true, bounds_empty: false });
    assert_eq!(s.export, Some(ExportDecision::Rejected(ExportRejection::NotExportable)));
    e.apply(ControlCommand::Start { id: id(1), effective_topology_empty: false, session_begins: true });
    let s = e.apply(ControlCommand::RequestExport { png: false, bounds_empty: false });
    assert_eq!(s.export, Some(ExportDecision::Rejected(ExportRejection::UnsupportedFormat)));
    let s = e.apply(ControlCommand::RequestExport { png: true, bounds_empty: true });
    assert_eq!(s.export, Some(ExportDecision::Rejected(ExportRejection::NotExportable)));
    let s = e.apply(ControlCommand::RequestExport { png: true, bounds_empty: false });
    assert_eq!(s.export, Some(ExportDecision::Prepare));
    assert!(e.export_in_progress);
    let s = e.apply(ControlCommand::RequestExport { png: true, bounds_empty: false });
    assert_eq!(s.export, Some(ExportDecision::Rejected(ExportRejection::ConcurrentExport)));
}

#[test]
fn topology_refresh_and_settings_updates() {
    let mut e = EngineControl::new();
    e.full_snapshot = false;
    let s = e.apply(ControlCommand::RefreshTopology { available: false, effective_changed: true, detected_changed: true });
    assert_eq!(s.message, Some(EngineMessage::TopologyRetained));
    assert!(!e.full_snapshot);
    let s = e.apply(ControlCommand::RefreshTopology { available: true, effective_changed: true, detected_changed: false });
    assert_eq!(s.work.flush, Some(DiscontinuityReason::DisplayConfigurationChanged));
    assert!(s.work.clear_deduper && e.full_snapshot && e.force_discontinuity);
    e.apply(ControlCommand::Start { id: id(1), effective_topology_empty: false, session_begins: true });
    let s = e.apply(ControlCommand::UpdateRecordingParameters { sampling_interval_changed: true });
    assert!(s.work.start_sampler && s.work.apply_settings);
    assert_eq!(s.effect, CommandEffect::Continue);
    let g = e.generation;
    e.apply(ControlCommand::RestoreStoppedSession);
    assert_eq!(e.status, RecordingStatus::Stopped);
    assert_eq!(e.generation, g + 1);
}

#[test]
fn lifecycle_decisions_match_the_table() {
    assert_eq!(
        decide_transition(RecordingStatus::Stopped, TransitionKind::Start, false, false),
        Ok(RecordingStatus::Recording)
    );
    assert_eq!(
        decide_transition(RecordingStatus::Recording, TransitionKind::Clear, false, false),
        Err(TransitionRejection::WrongCurrentState { current: RecordingStatus::Recording })
    );
    assert_eq!(
        decide_transition(RecordingStatus::Paused, TransitionKind::Finish, true, false),
        Err(TransitionRejection::ShutdownInProgress)
    );
}

#[test]
fn publishing_follows_the_cadence() {
    let ms = 1_000_000u64;
    assert!(should_publish(RecordingStatus::Stopped, true, true, false, Some(0), 0));
    assert!(!should_publish(RecordingStatus::Stopped, true, false, false, None, 0));
    assert!(should_publish(RecordingStatus::Stopped, true, false, true, None, 0));
    assert!(!should_publish(RecordingStatus::Stopped, true, false, true, Some(0), 10_000 * ms));
    assert!(!should_publish(RecordingStatus::Recording, true, false, true, Some(0), 99 * ms));
    assert!(should_publish(RecordingStatus::Recording, true, false, true, Some(0), 100 * ms));
    assert!(!should_publish(RecordingStatus::Recording, false, false, true, Some(0), 999 * ms));
    assert!(should_publish(RecordingStatus::Recording, false, false, true, Some(0), 1000 * ms));
    assert!(!should_publish(RecordingStatus::Recording, true, false, true, Some(500), 0));
}

#[test]
fn tile_deltas_send_changed_tiles_then_removals() {
    let mut store = SparseTileStore::default();
    store.put_pixel(0, 0, [1, 1, 1, 255], |_d, c| c);
    store.put_pixel(300, 0, [2, 2, 2, 255], |_d, c| c);
    let a = TileCoordinate { x: 0, y: 0 };
    let b = TileCoordinate { x: 1, y: 0 };
    let gone = TileCoordinate { x: -5, y: 2 };
    let sent = vec![(a, 1u64)];
    let ds = tile_deltas(&store, &sent, &vec![gone], false, 7);
    assert_eq!(ds.len(), 2);
    assert_eq!((ds[0].coordinate, ds[0].revision, ds[0].removed, ds[0].generation), (b, 1, false, 7));
    assert_eq!((ds[0].width, ds[0].height, ds[0].rgba.len()), (256, 256, 256 * 256 * 4));
    assert_eq!((ds[1].coordinate, ds[1].removed, ds[1].rgba.len()), (gone, true, 0));
    let full = tile_deltas(&store, &sent, &vec![], true, 7);
    assert_eq!(full.len(), 2);
    assert!(has_changes(&store, &sent, &vec![], false));
    let mut sent = sent;
    mark_sent(&mut sent, &store);
    assert_eq!(sent, vec![(a, 1), (b, 1)]);
    assert!(!has_changes(&store, &sent, &vec![], false));
    assert!(has_changes(&store, &sent, &vec![], true));
    assert!(tile_deltas(&store, &sent, &vec![], false, 7).is_empty());
}

#[test]
fn a_full_snapshot_mirrors_the_engine_in_the_preview() {
    let mut store = SparseTileStore::default();
    store.put_pixel(-1, -1, [3, 3, 3, 255], |_d, c| c);
    store.put_pixel(600, 10, [4, 4, 4, 255], |_d, c| c);
    let mut preview = PreviewState::new();
    let frame = PreviewFrame {
        generation: 2,
        sequence: 1,
        full_tile_snapshot: true,
        tile_deltas: tile_deltas(&store, &vec![], &vec![], true, 2),
        statistics: SessionStatistics::default(),
    };
    preview.apply_snapshot(&frame).unwrap();
    let shown: Vec<(TileCoordinate, u64, Vec<u8>)> =
        preview.tiles().iter().map(|(c, t)| (*c, t.revision, t.pixels.clone())).collect();
    let engine: Vec<(TileCoordinate, u64, Vec<u8>)> =
        store.tiles.iter().map(|(c, t)| (*c, t.revision, t.pixels.clone())).collect();
    assert_eq!(shown, engine);
    assert_eq!(preview.tile_size(), store.tile_size);
}

fn key(generation: u64, revisions: &Vec<(TileCoordinate, u64, bool)>) -> SnapshotKey {
    SnapshotKey::new(RecordingStatus::Recording, generation, revisions, 0, false, 1, 2, 0, EngineActivity::default(), 0, 0)
}

#[test]
fn the_same_state_is_not_published_twice_in_a_row() {
    let a = TileCoordinate { x: 1, y: 0 };
    let b = TileCoordinate { x: 0, y: 5 };
    let mut d = SnapshotDeduper::new();
    assert!(d.should_send_key(key(1, &vec![(a, 1, false), (b, 1, false)])));
    assert!(!d.should_send_key(key(1, &vec![(b, 1, false), (a, 1, false)])));
    assert!(d.should_send_key(key(2, &vec![(a, 1, false), (b, 1, false)])));
    d.clear();
    assert!(d.should_send_key(key(2, &vec![(a, 1, false), (b, 1, false)])));
}

#[test]
fn revisions_sort_stably_by_column_then_row() {
    let c = |x, y| TileCoordinate { x, y };
    let v = vec![(c(1, 0), 1, false), (c(0, 5), 2, false), (c(0, -1), 3, false), (c(1, 0), 4, true)];
    assert_eq!(
        sorted_revisions(&v),
        vec![(c(0, -1), 3, false), (c(0, 5), 2, false), (c(1, 0), 1, false), (c(1, 0), 4, true)]
    );
}

#[test]
fn recovery_names_and_legacy_status() {
    assert_eq!(tile_filename(TileCoordinate { x: -3, y: 12 }), "-3_12.png");
    assert_eq!(autosave_path("/tmp/r"), "/tmp/r/autosave.recovery.json");
    assert_eq!(legacy_status("/tmp/r", LegacyFile::Missing), RecoveryStatus::NoRecovery);
    assert_eq!(
        legacy_status("/tmp/r", LegacyFile::Readable),
        RecoveryStatus::Legacy("/tmp/r/autosave.recovery.json".into())
    );
    assert_eq!(
        legacy_status("/tmp/r", LegacyFile::Unreadable("bad json".into())),
        RecoveryStatus::Malformed(
            "/tmp/r/autosave.recovery.json".into(),
            "Legacy recovery is malformed or unsupported: bad json".into()
        )
    );
    assert_eq!(detect_incomplete("/x", Some(false)), RecoveryStatus::Incomplete("/x".into()));
    assert_eq!(detect_incomplete("/x", Some(true)), RecoveryStatus::NoRecovery);
    assert_eq!(detect_incomplete("/x", None), RecoveryStatus::NoRecovery);
}

#[test]
fn engine_errors_explain_themselves() {
    assert_eq!(EngineError::Export("disk full".into()).message(), "export failed: disk full");
    assert!(EngineError::Sampler("x".into()).requires_recording_stop());
    assert!(!EngineError::Export("x".into()).requires_recording_stop());
    assert_eq!(
        TransitionRejection::EmptyEffectiveTopology.message(),
        "Select at least one display before starting recording."
    );
}

#[test]
fn statistics_reset_to_zero() {
    let mut s = SessionStatistics { samples_recorded: 3, movements_recorded: 2, dwell_events: 1 };
    s.reset();
    assert_eq!(s, SessionStatistics::default());
}

use multi_mouse_canvas::canvas::tiles::Tile;
use multi_mouse_canvas::session::engine::{queue_refusal, submit_route, SubmitError};
use multi_mouse_canvas::session::events::CommandPriority;
use multi_mouse_canvas::session::recovery::{mark_committed, parse_tile_filename, restored_status};

#[test]
fn tile_file_names_read_back() {
    let c = |x, y| TileCoordinate { x, y };
    assert_eq!(parse_tile_filename(&tile_filename(c(3, 12))), Some(c(3, 12)));
    assert_eq!(parse_tile_filename("checkpoint-12-99-4_5.png"), Some(c(4, 5)));
    assert_eq!(parse_tile_filename("+7_0.png"), Some(c(7, 0)));
    assert_eq!(parse_tile_filename("2147483647_0.png"), Some(c(i32::MAX, 0)));
    assert_eq!(parse_tile_filename("2147483648_0.png"), None);
    assert_eq!(parse_tile_filename("4_5.jpg"), None);
    assert_eq!(parse_tile_filename("45.png"), None);
    assert_eq!(parse_tile_filename("_5.png"), None);
    assert_eq!(parse_tile_filename("4_5x.png"), None);
    // A negative column loses its sign: the `-` is read as a prefix's end.
    assert_eq!(parse_tile_filename(&tile_filename(c(-3, 12))), Some(c(3, 12)));
    assert_eq!(parse_tile_filename(&tile_filename(c(3, -12))), None);
}

#[test]
fn a_commit_clears_the_mark_of_the_exact_revision_only() {
    let mut store = SparseTileStore::default();
    store.put_pixel(0, 0, [1, 1, 1, 255], |_d, c| c);
    store.put_pixel(0, 0, [2, 1, 1, 255], |_d, c| c);
    store.put_pixel(400, 0, [1, 1, 1, 255], |_d, c| c);
    let a = TileCoordinate { x: 0, y: 0 };
    let b = TileCoordinate { x: 1, y: 0 };
    mark_committed(&mut store, a, 1);
    assert!(store.tiles.iter().all(|(_, t): &(TileCoordinate, Tile)| t.recovery_dirty));
    mark_committed(&mut store, a, 2);
    let dirty: Vec<(TileCoordinate, bool)> = store.tiles.iter().map(|(c, t)| (*c, t.recovery_dirty)).collect();
    assert_eq!(dirty, vec![(a, false), (b, true)]);
    assert_eq!(snapshot_dirty_tiles_len(&store), 1);
}

fn snapshot_dirty_tiles_len(store: &SparseTileStore) -> usize {
    multi_mouse_canvas::session::recovery::snapshot_dirty_tiles(store).len()
}

#[test]
fn a_completed_stopped_session_resumes_finished() {
    assert_eq!(restored_status(true, RecordingStatus::Stopped), RecordingStatus::Finished);
    assert_eq!(restored_status(false, RecordingStatus::Stopped), RecordingStatus::Stopped);
    assert_eq!(restored_status(true, RecordingStatus::Paused), RecordingStatus::Paused);
}

#[test]
fn commands_go_to_the_queue_of_their_priority() {
    assert!(ControlCommand::Pause { id: id(1) }.is_high_priority());
    assert!(ControlCommand::RefreshTopology { available: true, effective_changed: false, detected_changed: false }
        .is_high_priority());
    assert_eq!(ControlCommand::RequestSnapshot.priority(), CommandPriority::Normal);
    assert_eq!(submit_route(false, ControlCommand::Resume { id: id(2) }), Ok(CommandPriority::Normal));
    assert_eq!(submit_route(true, ControlCommand::RequestSnapshot), Err(SubmitError::ShuttingDown));
    assert_eq!(submit_route(true, ControlCommand::ForceShutdown), Ok(CommandPriority::High));
    assert_eq!(queue_refusal(true), SubmitError::QueueFull);
    assert_eq!(queue_refusal(false), SubmitError::Disconnected);
}

use multi_mouse_canvas::session::shutdown::{
    classify_poll, Received, ShutdownPoll, ShutdownProgress, ShutdownResult, ShutdownTicket,
};

#[test]
fn shutdown_ticket_reports_progress_and_result() {
    let (ptx, prx) = std::sync::mpsc::channel();
    let (rtx, rrx) = std::sync::mpsc::channel();
    let ticket = ShutdownTicket::new(prx, rrx);
    assert_eq!(ticket.poll_result(), ShutdownPoll::Pending);
    assert_eq!(ticket.latest_progress(), None);
    ptx.send(ShutdownProgress::StoppingSampler).unwrap();
    ptx.send(ShutdownProgress::SavingRecovery).unwrap();
    assert_eq!(ticket.latest_progress(), Some(ShutdownProgress::SavingRecovery));
    ptx.send(ShutdownProgress::JoiningEngine).unwrap();
    assert_eq!(ticket.try_progress(), Some(ShutdownProgress::JoiningEngine));
    rtx.send(ShutdownResult::RecoverySavedAndWorkersStopped).unwrap();
    assert_eq!(ticket.poll_result(), ShutdownPoll::Finished(ShutdownResult::RecoverySavedAndWorkersStopped));
    drop(rtx);
    assert_eq!(ticket.poll_result(), ShutdownPoll::Disconnected);
    assert!(ticket.try_result().is_err());
}

#[test]
fn channel_outcomes_map_to_the_three_poll_states() {
    assert_eq!(classify_poll(Received::Empty), ShutdownPoll::Pending);
    assert_eq!(classify_poll(Received::Disconnected), ShutdownPoll::Disconnected);
    assert_eq!(
        classify_poll(Received::Message(ShutdownResult::NoRecoveryRequiredAndWorkersStopped)),
        ShutdownPoll::Finished(ShutdownResult::NoRecoveryRequiredAndWorkersStopped)
    );
    assert!(!ShutdownResult::WorkerShutdownFailed { error: "x".into(), previous_recovery_valid: true }.workers_stopped());
}

use multi_mouse_canvas::session::engine::{
    foreground_check_due, record_foreground_failure, sample_admission, ExportCompletion, SampleAdmission,
};

#[test]
fn foreground_is_checked_at_most_every_quarter_second() {
    let ms = 1_000_000u64;
    assert!(foreground_check_due(None, 0));
    assert!(!foreground_check_due(Some(1000 * ms), 1249 * ms));
    assert!(foreground_check_due(Some(1000 * ms), 1250 * ms));
    assert!(!foreground_check_due(Some(1000 * ms), 10 * ms));
}

#[test]
fn one_degradation_error_is_kept() {
    let mut errors = vec![EngineError::Export("x".into())];
    record_foreground_failure(&mut errors);
    record_foreground_failure(&mut errors);
    assert_eq!(
        errors,
        vec![
            EngineError::Export("x".into()),
            EngineError::ForegroundDegradation("application identity unavailable".into())
        ]
    );
}

#[test]
fn samples_off_the_chosen_displays_are_dropped_once_flushed() {
    let off = sample_admission(true, false, false, false, false);
    assert!(!off.accept && off.flush_for_display && off.excluded);
    let still_off = sample_admission(true, false, false, true, true);
    assert!(!still_off.accept && !still_off.flush_for_display && still_off.force_discontinuity);
    let unchosen = sample_admission(true, true, false, false, false);
    assert!(!unchosen.accept && unchosen.excluded);
    let back = sample_admission(true, true, true, true, true);
    assert_eq!(
        back,
        SampleAdmission {
            flush_for_display: false,
            accept: true,
            rejoin_discontinuity: true,
            resume_discontinuity: true,
            excluded: false,
            force_discontinuity: false,
        }
    );
    assert!(sample_admission(false, false, false, false, false).accept);
}

#[test]
fn only_the_active_export_result_ends_the_export() {
    let mut e = EngineControl::new();
    e.apply(ControlCommand::Start { id: id(1), effective_topology_empty: false, session_begins: true });
    e.apply(ControlCommand::RequestExport { png: true, bounds_empty: false });
    assert!(e.export_in_progress);
    assert_eq!(e.finish_export(Some(4), 3, true), None);
    assert!(e.export_in_progress);
    assert_eq!(e.finish_export(Some(4), 4, false), Some(ExportCompletion::Failed));
    assert!(!e.export_in_progress);
    assert_eq!(e.finish_export(None, 4, true), None);
}

use multi_mouse_canvas::session::shutdown::{latest_of, progress_of, result_of, Received as Look};
use std::sync::mpsc::TryRecvError as ChannelError;

#[test]
fn channel_looks_map_to_what_the_window_reads() {
    assert_eq!(progress_of(Look::Message(ShutdownProgress::StoppingSampler)), Some(ShutdownProgress::StoppingSampler));
    assert_eq!(progress_of(Look::Empty), None);
    assert_eq!(progress_of(Look::Disconnected), None);
    assert_eq!(
        result_of(Look::Message(ShutdownResult::NoRecoveryRequiredAndWorkersStopped), ChannelError::Disconnected),
        Ok(Some(ShutdownResult::NoRecoveryRequiredAndWorkersStopped))
    );
    assert_eq!(result_of(Look::Empty, ChannelError::Disconnected), Ok(None));
    assert_eq!(result_of(Look::Disconnected, ChannelError::Disconnected), Err(ChannelError::Disconnected));
    assert_eq!(latest_of(Vec::<u8>::new()), None);
    assert_eq!(latest_of(vec![ShutdownProgress::FinalizingActivity, ShutdownProgress::JoiningEngine]), Some(ShutdownProgress::JoiningEngine));
}

use multi_mouse_canvas::session::engine::{ExportDecision as Decision, ExportRejection as Refusal};
use multi_mouse_canvas::session::export_activity::{ExportActivity, ExportOutcome, ExportState, WORKER_DISCONNECTED};

#[test]
fn an_export_runs_from_preparation_to_its_result() {
    let mut a = ExportActivity::new();
    a.record_decision(4, Decision::Rejected(Refusal::NotExportable));
    assert_eq!(a.export, ExportState::Idle);
    assert_eq!(a.last_export_result, Some(ExportOutcome::Rejected { request_id: 4, reason: Refusal::NotExportable }));
    a.record_decision(5, Decision::Prepare);
    assert!(a.in_progress());
    assert_eq!(a.export, ExportState::PreparingSnapshot { request_id: 5 });
    assert_eq!(a.last_export_result, None);
    assert!(a.begin_exporting());
    assert!(!a.begin_exporting());
    assert_eq!(a.export, ExportState::Exporting { request_id: 5 });
    assert!(!a.take_result(Look::Empty));
    let stale = ExportOutcome::Success { request_id: 4, path: "old.png".into() };
    assert!(!a.take_result(Look::Message(stale)));
    let done = ExportOutcome::Success { request_id: 5, path: "art.png".into() };
    assert!(a.take_result(Look::Message(done.clone())));
    assert_eq!(a.export, ExportState::Succeeded { request_id: 5 });
    assert_eq!(a.last_export_result, Some(done));
    assert!(!a.in_progress());
}

#[test]
fn a_vanished_export_worker_fails_the_request_for_a_retry() {
    let mut a = ExportActivity::new();
    assert!(!a.take_result(Look::Disconnected));
    a.record_decision(9, Decision::Prepare);
    a.begin_exporting();
    assert!(a.take_result(Look::Disconnected));
    assert_eq!(a.export, ExportState::Failed { request_id: 9 });
    assert_eq!(
        a.last_export_result,
        Some(ExportOutcome::Failure { request_id: 9, error: WORKER_DISCONNECTED.to_string(), retry_request: 9 })
    );
    assert_eq!(a.active_export, None);
}

use multi_mouse_canvas::session::engine_loop::{EngineLoop, LoopAction, LoopEvent, LoopPhase, SAMPLE_BATCH};

#[test]
fn a_loop_round_takes_commands_then_a_batch_of_samples() {
    let mut l = EngineLoop::new();
    assert_eq!(l.action(), LoopAction::PollExport);
    let s = l.step(LoopEvent::ExportPolled { changed: true });
    assert!(s.publish_now);
    assert_eq!(s.next, LoopAction::TakeHigh);
    let s = l.step(LoopEvent::Command(CommandEffect::PublishImmediately));
    assert!(s.publish_now && s.next == LoopAction::TakeHigh);
    assert_eq!(l.step(LoopEvent::NoCommand).next, LoopAction::TakeNormal);
    let s = l.step(LoopEvent::Command(CommandEffect::Continue));
    assert!(!s.publish_now);
    assert_eq!(s.next, LoopAction::TakeHigh);
    let mut samples = 0;
    loop {
        match l.action() {
            LoopAction::TakeHigh => {
                l.step(LoopEvent::NoCommand);
            }
            LoopAction::TakeSample => {
                samples += 1;
                l.step(LoopEvent::Sample);
            }
            LoopAction::PublishRound => break,
            other => panic!("unexpected {other:?}"),
        }
    }
    assert_eq!(samples, SAMPLE_BATCH);
    assert_eq!(l.step(LoopEvent::Published).next, LoopAction::PollExport);
}

#[test]
fn a_terminating_command_publishes_and_stops_the_loop() {
    let mut l = EngineLoop { phase: LoopPhase::Samples { handled: 3, high_done: false } };
    let s = l.step(LoopEvent::Command(CommandEffect::TerminateAfterPublish));
    assert!(s.publish_now);
    assert_eq!(s.next, LoopAction::Stop);
    let s = l.step(LoopEvent::Published);
    assert!(!s.publish_now);
    assert_eq!(s.next, LoopAction::Stop);
    let mut idle = EngineLoop { phase: LoopPhase::Samples { handled: 0, high_done: true } };
    assert_eq!(idle.step(LoopEvent::NoSample).next, LoopAction::PublishRound);
}

use multi_mouse_canvas::session::manifest::session_id;

#[test]
fn session_ids_are_padded_hexadecimal() {
    assert_eq!(
        session_id(0x1a, 0x2b, 3),
        "session-0000000000000000000000000000001a-0000002b-0000000000000003"
    );
    assert_ne!(session_id(5, 7, 0), session_id(5, 7, 1));
    assert_eq!(session_id(u128::MAX, u32::MAX, u64::MAX).len(), 8 + 32 + 1 + 8 + 1 + 16);
}

use multi_mouse_canvas::session::recovery::{checkpoint_tile_names, transaction_name};

#[test]
fn checkpoints_that_replace_prefix_their_tiles() {
    let t = transaction_name(42, 1_700_000_000_000_000_000);
    assert_eq!(t, "checkpoint-42-1700000000000000000");
    let tiles = [TileCoordinate { x: 3, y: 4 }, TileCoordinate { x: 0, y: 12 }];
    assert_eq!(checkpoint_tile_names(&t, false, &tiles), vec!["3_4.png".to_string(), "0_12.png".to_string()]);
    let names = checkpoint_tile_names(&t, true, &tiles);
    assert_eq!(names[0], "checkpoint-42-1700000000000000000-3_4.png");
    assert_eq!(parse_tile_filename(&names[1]), Some(TileCoordinate { x: 0, y: 12 }));
}
