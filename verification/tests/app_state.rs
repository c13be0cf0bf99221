use radiacode::alarm_limits::{
    alarm_limit_registers, alarm_register_writes, alarm_units_from_values, resolve_unit,
    AlarmRegisterValues,
};
use radiacode::color_scheme::ColorScheme;
use radiacode::command::{Command, VirtSfr, VirtString};
use radiacode::dosimeter::{DoseHistory, DoseHistoryPoint, MAX_DOSE_SAMPLES};
use radiacode::library_meta::{meta_or_fallback, meta_path, LibraryMeta};
use radiacode::rate_units::{count_unit_label, dose_unit_label};
use radiacode::scale::{y_axis_label, YScale};
use radiacode::scan::{discovered_label, is_detector_advertisement, ScannedDevice};
use radiacode::smooth::normalize_window;
use radiacode::spectrogram_ingest::{IngestStep, IngestTracker};
use radiacode::view_tab::ViewTab;
use radiacode::worker::{
    alarm_refresh_due, epoch_is_current, should_reconnect, should_retry, CoalescedBatch,
    QueuedCommand,
};
use radiacode::error::Error;

#[test]
fn color_scheme_names_round_trip() {
    for scheme in ColorScheme::all() {
        assert_eq!(ColorScheme::from_persisted(scheme.label()), scheme);
    }
    assert_eq!(ColorScheme::from_persisted("Plasma"), ColorScheme::Viridis);
    assert_eq!(ColorScheme::all()[1].label(), "Inferno");
}

#[test]
fn labels_of_tabs_scales_and_units() {
    assert_eq!(ViewTab::default(), ViewTab::Monitor);
    assert_eq!(ViewTab::Spectrogram.label(), "Spectrogram");
    assert_eq!(YScale::default(), YScale::Linear);
    assert_eq!(y_axis_label(YScale::Logarithmic), "Counts (log10)");
    assert_eq!(dose_unit_label(true), "µSv/h");
    assert_eq!(dose_unit_label(false), "µR/h");
    assert_eq!(count_unit_label(true), "cpm");
    assert_eq!(count_unit_label(false), "cps");
}

#[test]
fn smoothing_window_is_clamped() {
    assert_eq!(normalize_window(0), 1);
    assert_eq!(normalize_window(5), 5);
    assert_eq!(normalize_window(40), 16);
}

#[test]
fn protocol_codes() {
    assert_eq!(Command::GetVersion.code(), 0x000A);
    assert_eq!(Command::RdVirtSfrBatch.code(), 0x082A);
    assert_eq!(u16::from(Command::GetSerial), 0x000B);
    assert_eq!(u32::from(VirtSfr::DsUnits), 0x8004);
    assert_eq!(u32::from(VirtString::DataBuf), 0x100);
    assert_ne!(VirtString::SerialNumber.code(), VirtString::Spectrum.code());
}

#[test]
fn alarm_writes_follow_register_order() {
    let values = AlarmRegisterValues {
        l1_count_rate: None,
        l2_count_rate: Some(20),
        l1_dose_rate: Some(3),
        l2_dose_rate: None,
        l1_dose: None,
        l2_dose: Some(9),
        dose_unit_sv: Some(true),
        count_unit_cpm: Some(false),
    };
    let writes = alarm_register_writes(&values);
    assert_eq!(
        writes,
        vec![
            (VirtSfr::CrLev2Cp10s, 20),
            (VirtSfr::DrLev1UrH, 3),
            (VirtSfr::DsLev2Ur, 9),
            (VirtSfr::DsUnits, 1),
            (VirtSfr::CrUnits, 0),
        ]
    );
    let none = AlarmRegisterValues {
        l1_count_rate: None,
        l2_count_rate: None,
        l1_dose_rate: None,
        l2_dose_rate: None,
        l1_dose: None,
        l2_dose: None,
        dose_unit_sv: None,
        count_unit_cpm: None,
    };
    assert!(alarm_register_writes(&none).is_empty());
}

#[test]
fn alarm_reads_and_units() {
    let ids = alarm_limit_registers();
    assert_eq!(ids.len(), 8);
    assert_eq!(ids[6], VirtSfr::DsUnits);
    assert_eq!(alarm_units_from_values(&[0, 0, 0, 0, 0, 0, 1, 0]), (true, false));
    assert!(resolve_unit(None, true));
    assert!(!resolve_unit(Some(false), true));
}

#[test]
fn dose_history_keeps_spaced_points_and_bounds_length() {
    let mut history = DoseHistory::new();
    assert!(history.push(DoseHistoryPoint { duration_secs: 10, dose_bits: 0 }));
    assert!(!history.push(DoseHistoryPoint { duration_secs: 10, dose_bits: 1 }));
    assert!(!history.push(DoseHistoryPoint { duration_secs: 5, dose_bits: 1 }));
    assert!(history.push(DoseHistoryPoint { duration_secs: 11, dose_bits: 2 }));
    assert_eq!(history.len(), 2);
    assert_eq!(history.get(1).dose_bits, 2);
    for k in 0..(MAX_DOSE_SAMPLES as u32 + 5) {
        history.push(DoseHistoryPoint { duration_secs: 100 + k, dose_bits: k });
    }
    assert_eq!(history.len(), MAX_DOSE_SAMPLES);
    assert_eq!(history.get(MAX_DOSE_SAMPLES - 1).duration_secs, 100 + MAX_DOSE_SAMPLES as u32 + 4);
    history.clear();
    assert_eq!(history.len(), 0);
}

#[test]
fn library_meta_falls_back_to_file_name() {
    let m = meta_or_fallback(None, "run-1");
    assert_eq!(m.name, "run-1");
    assert_eq!(m.comment, "");
    let stored = LibraryMeta { name: "a".into(), comment: "b".into() };
    let m = meta_or_fallback(Some(stored), "run-1");
    assert_eq!(m.name, "a");
    assert_eq!(m.comment, "b");
    let d = LibraryMeta::default();
    assert!(d.name.is_empty() && d.comment.is_empty());
}

#[test]
fn meta_file_sits_beside_recording() {
    let p = meta_path(std::path::Path::new("/tmp/rec/run.rcwf"));
    assert_eq!(p, std::path::PathBuf::from("/tmp/rec/run.rcwf.meta.json"));
}

#[test]
fn scan_recognises_detectors() {
    assert!(is_detector_advertisement(true, None));
    assert!(is_detector_advertisement(false, Some("RadiaCode#RC-110-006806")));
    assert!(!is_detector_advertisement(false, Some("Phone")));
    assert!(!is_detector_advertisement(false, None));
    let d = ScannedDevice::from_advertisement(
        "aa:bb".into(),
        Some("RadiaCode#RC-110-006806".into()),
        Some(-60),
    );
    assert_eq!(d.serial.as_deref(), Some("RC-110-006806"));
    assert_eq!(d.model.as_deref(), Some("RC-110"));
    assert_eq!(d.display_label(), "RC-110");
    let plain = ScannedDevice::from_advertisement("aa:bb".into(), Some("RadiaCode".into()), None);
    assert_eq!(plain.display_label(), "RadiaCode");
    assert_eq!(discovered_label(&None, &None, &Some("X".into())), "X");
    assert_eq!(discovered_label(&None, &Some("S".into()), &Some("X".into())), "S");
}

#[test]
fn worker_decisions() {
    assert!(epoch_is_current(3, 3));
    assert!(!epoch_is_current(3, 4));
    assert!(should_reconnect(&Error::Timeout, Some("aa")));
    assert!(should_reconnect(&Error::ConnectionClosed, Some("aa")));
    assert!(!should_reconnect(&Error::ConnectionClosed, None));
    assert!(!should_reconnect(&Error::VsfrBatchEmpty, Some("aa")));
    assert!(alarm_refresh_due(false, 7));
    assert!(alarm_refresh_due(true, 240));
    assert!(!alarm_refresh_due(true, 7));
    assert!(should_retry(0, 3, true));
    assert!(should_retry(1, 3, true));
    assert!(!should_retry(2, 3, true));
    assert!(!should_retry(0, 3, false));
}

#[test]
fn command_batches_keep_last_priority_and_fetch_flags() {
    let mut batch = CoalescedBatch::starting_with(QueuedCommand::FetchMonitor);
    assert!(!batch.is_complete());
    batch.absorb(QueuedCommand::Priority(1u8));
    batch.absorb(QueuedCommand::FetchSpectrum);
    batch.absorb(QueuedCommand::Priority(2u8));
    assert!(batch.is_complete());
    assert_eq!(batch.priority, Some(2));
    assert!(batch.fetch_monitor && batch.fetch_spectrum);
}

#[test]
fn reconnect_resyncs_baseline_then_appends_rows() {
    let mut t = IngestTracker::new();
    t.capture_enabled = true;
    assert_eq!(t.ingest(1, false, false), IngestStep::StoreBaseline);
    assert_eq!(t.ingest(2, false, false), IngestStep::AppendRow);
    assert_eq!(t.ingest(2, false, false), IngestStep::Duplicate);
    t.on_reconnect();
    assert_eq!(t.ingest(3, false, false), IngestStep::StoreBaseline);
    assert_eq!(t.ingest(4, false, false), IngestStep::AppendRow);
}

#[test]
fn ingest_skips_without_capture_or_channels() {
    let mut t = IngestTracker::new();
    assert_eq!(t.ingest(1, false, false), IngestStep::NotCapturing);
    assert_eq!(t.last_ingested_sequence, 1);
    assert_eq!(t.ingest(2, true, true), IngestStep::EmptyEnergyRange);
    assert_eq!(t.ingest(3, true, false), IngestStep::StoreBaseline);
    t.on_tab_enter(false);
    assert_eq!(t.ingest(4, true, false), IngestStep::StoreBaseline);
    t.reset_accumulation();
    assert_eq!(t.last_ingested_sequence, 0);
    assert_eq!(t.ingest(5, true, false), IngestStep::StoreBaseline);
    t.capture_enabled = true;
    t.on_disconnect();
    assert_eq!(t, IngestTracker::new());
}

#[test]
fn dropping_live_capture_keeps_capture_switch() {
    let mut t = IngestTracker::new();
    t.capture_enabled = true;
    assert_eq!(t.ingest(1, false, false), IngestStep::StoreBaseline);
    t.on_reconnect();
    t.reset_live_capture();
    assert_eq!(t.last_ingested_sequence, 0);
    assert!(t.capture_enabled);
    assert!(!t.has_baseline && !t.reconnect_baseline_pending && !t.skip_next_sample);
}
