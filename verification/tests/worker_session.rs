use radiacode::error::Error;
use radiacode::pc_alarm::beep_due;
use radiacode::peak::sorted_positive_counts;
use radiacode::scan::{order_scan_results, ScannedDevice};
use radiacode::selection::{rebuild_samples, LoadedSample};
use radiacode::worker::{
    after_monitor_poll, connect_result, disconnect_notices, reconnect_step, MonitorNotice,
    ReconnectAction, ReconnectEvent, ReconnectState, end_session, epoch_is_current, error_response,
    finish_command, plan_command, BatchStep, CoalescedBatch, CommandKind, ConnectResult,
    ErrorResponse, QueuedCommand, SessionEpoch, WorkerNotice, WorkerSession,
};
use std::sync::atomic::{AtomicU64, Ordering};
use std::sync::Arc;

fn device(address: &str, rssi: i16) -> ScannedDevice {
    ScannedDevice {
        address: address.into(),
        local_name: None,
        rssi: Some(rssi),
        serial: None,
        model: None,
    }
}

#[test]
fn scan_results_sorted_and_first_report_kept() {
    let found = vec![
        device("cc:00", 1),
        device("aa:00", 2),
        device("cc:00", 3),
        device("bb:00", 4),
        device("aa:00", 5),
    ];
    let listed = order_scan_results(found);
    let summary: Vec<(&str, i16)> = listed
        .iter()
        .map(|d| (d.address.as_str(), d.rssi.unwrap()))
        .collect();
    assert_eq!(summary, vec![("aa:00", 2), ("bb:00", 4), ("cc:00", 1)]);
    assert!(order_scan_results(Vec::new()).is_empty());
}

#[test]
fn scan_results_order_by_code_point() {
    let listed = order_scan_results(vec![device("b", 0), device("B", 0), device("ab", 0), device("a", 0)]);
    let addresses: Vec<&str> = listed.iter().map(|d| d.address.as_str()).collect();
    assert_eq!(addresses, vec!["B", "a", "ab", "b"]);
}

#[test]
fn positive_counts_come_out_sorted() {
    assert_eq!(sorted_positive_counts(&[5, 0, 3, 9, 0, 3]), vec![3, 3, 5, 9]);
    assert!(sorted_positive_counts(&[0, 0]).is_empty());
}

#[test]
fn failed_operations_get_the_right_answer() {
    assert_eq!(error_response(&Error::Timeout, Some("aa"), true, true), ErrorResponse::Reconnect);
    assert_eq!(error_response(&Error::ConnectionClosed, Some("aa"), false, true), ErrorResponse::DropSilently);
    assert_eq!(
        error_response(&Error::ConnectionClosed, Some("aa"), true, false),
        ErrorResponse::ReportDisconnected
    );
    assert_eq!(error_response(&Error::ConnectionClosed, None, true, true), ErrorResponse::ReportAndKeep);
    let mismatch = Error::ProtocolMismatch { expected: "a".into(), got: "b".into() };
    assert_eq!(error_response(&mismatch, Some("aa"), true, true), ErrorResponse::ReportAndKeep);
}

#[test]
fn worker_session_bookkeeping() {
    let mut session: WorkerSession<u8, u8> = WorkerSession::new();
    session.begin_connect();
    session.finish_connect("aa".into(), true);
    assert_eq!(session.session_mac.as_deref(), Some("aa"));
    assert!(session.alarm_refresh_due());
    session.alarm_limits = Some(1);
    session.count_monitor_sample();
    assert_eq!(session.monitor_polls, 1);
    assert!(!session.alarm_refresh_due());
    session.session_restore = Some(2);
    assert!(!session.after_operation(true));
    assert_eq!(session.alarm_limits, Some(1));
    assert!(session.after_operation(false));
    assert!(session.session_mac.is_none() && session.alarm_limits.is_none());
    assert!(session.session_restore.is_none());
    assert_eq!(session.monitor_polls, 0);
    session.monitor_polls = u64::MAX;
    session.count_monitor_sample();
    assert_eq!(session.monitor_polls, u64::MAX);
    session.finish_connect("bb".into(), false);
    assert!(session.session_mac.is_none());
}

#[test]
fn batches_become_steps() {
    let batch = CoalescedBatch::starting_with(QueuedCommand::Priority(7u8));
    assert!(matches!(batch.into_step(), BatchStep::Run(7)));
    let mut batch: CoalescedBatch<u8> = CoalescedBatch::starting_with(QueuedCommand::FetchSpectrum);
    batch.absorb(QueuedCommand::FetchMonitor);
    assert!(matches!(batch.into_step(), BatchStep::Fetch { monitor: true, spectrum: true }));
}

#[test]
fn alarm_tone_is_spaced() {
    assert!(!beep_due(false, None));
    assert!(beep_due(true, None));
    assert!(!beep_due(true, Some(1999)));
    assert!(beep_due(true, Some(2000)));
}

#[test]
fn disconnect_ends_and_forgets_the_session() {
    let epoch = Arc::new(AtomicU64::new(0));
    let work = SessionEpoch { live: Arc::clone(&epoch), started: epoch.load(Ordering::SeqCst) };
    assert!(work.active());
    let mut session: WorkerSession<u8, u8> = WorkerSession::new();
    session.session_mac = Some("aa:bb:cc:dd:ee:ff".into());
    session.monitor_polls = 7;
    let plan = plan_command(&CommandKind::Disconnect, &mut session);
    assert!(plan.ends_session && plan.reset_link_status);
    end_session(&epoch);
    assert_eq!(epoch.load(Ordering::SeqCst), 1);
    assert!(!work.active());
    assert!(!epoch_is_current(work.started, epoch.load(Ordering::SeqCst)));
    assert!(session.session_mac.is_none());
    assert_eq!(session.monitor_polls, 0);
    assert_eq!(
        disconnect_notices(None),
        vec![WorkerNotice::Busy(true), WorkerNotice::Disconnected, WorkerNotice::Busy(false)]
    );
    assert_eq!(
        disconnect_notices(Some("io".into())),
        vec![
            WorkerNotice::Busy(true),
            WorkerNotice::Error("io".into()),
            WorkerNotice::Disconnected,
            WorkerNotice::Busy(false)
        ]
    );
    assert!(!finish_command(CommandKind::Disconnect, &mut session, false));
}

#[test]
fn end_session_wraps_the_counter() {
    let epoch = AtomicU64::new(u64::MAX);
    end_session(&epoch);
    assert_eq!(epoch.load(Ordering::SeqCst), 0);
}

#[test]
fn commands_settle_the_session() {
    let mut session: WorkerSession<u8, u8> = WorkerSession::new();
    session.session_mac = Some("old".into());
    session.alarm_limits = Some(3);
    session.monitor_polls = 4;
    let plan = plan_command(&CommandKind::Connect("new".into()), &mut session);
    assert!(!plan.ends_session && plan.reset_link_status);
    assert_eq!(session.session_mac.as_deref(), Some("old"));
    assert!(session.alarm_limits.is_none() && session.monitor_polls == 0);
    assert!(!finish_command(CommandKind::Connect("new".into()), &mut session, true));
    assert_eq!(session.session_mac.as_deref(), Some("new"));

    let plan = plan_command(&CommandKind::FetchSpectrum, &mut session);
    assert!(!plan.ends_session && !plan.reset_link_status);
    assert!(!finish_command(CommandKind::FetchSpectrum, &mut session, true));
    assert_eq!(session.session_mac.as_deref(), Some("new"));
    session.monitor_polls = 9;
    assert!(!finish_command(CommandKind::FetchMonitor, &mut session, false));
    assert!(session.session_mac.is_none() && session.monitor_polls == 0);
    session.session_mac = Some("x".into());
    assert!(finish_command(CommandKind::SetAlarmLimits, &mut session, false));
    assert!(session.session_mac.is_none());
    let plan = plan_command(&CommandKind::Scan, &mut session);
    assert!(!plan.ends_session && !plan.reset_link_status);
}

#[test]
fn connect_stops_when_the_session_ends() {
    assert_eq!(
        connect_result(false, Ok(()), true, Ok(()), true),
        ConnectResult::Aborted { close_link: false }
    );
    assert_eq!(
        connect_result(true, Err("no link".into()), true, Ok(()), true),
        ConnectResult::Failed { message: "no link".into(), close_link: false }
    );
    assert_eq!(
        connect_result(true, Ok(()), false, Ok(()), true),
        ConnectResult::Aborted { close_link: true }
    );
    assert_eq!(
        connect_result(true, Ok(()), true, Err("meta".into()), true),
        ConnectResult::Failed { message: "meta".into(), close_link: true }
    );
    assert_eq!(
        connect_result(true, Ok(()), true, Ok(()), false),
        ConnectResult::Aborted { close_link: true }
    );
    assert_eq!(connect_result(true, Ok(()), true, Ok(()), true), ConnectResult::Connected);
}

#[test]
fn samples_rebuilt_with_joined_errors() {
    let loaded: Vec<Option<LoadedSample<&str, u32>>> = vec![
        Some(LoadedSample { spectrum: "a", name: "A".into(), comparison: Some(Ok(5)) }),
        None,
        Some(LoadedSample { spectrum: "b", name: "B".into(), comparison: Some(Err("bad".into())) }),
        Some(LoadedSample { spectrum: "c", name: "C".into(), comparison: None }),
    ];
    let (samples, errors) = rebuild_samples(loaded);
    let kept: Vec<(&str, Option<u32>)> = samples.iter().map(|s| (s.spectrum, s.comparison)).collect();
    assert_eq!(kept, vec![("a", Some(5)), ("b", None), ("c", None)]);
    assert_eq!(errors, "Failed to load a selected sample. · B: bad");
    let (none, no_errors) = rebuild_samples::<u8, u8>(Vec::new());
    assert!(none.is_empty() && no_errors.is_empty());
}

#[test]
fn reconnect_runs_its_stages_in_order() {
    let (s, a) = reconnect_step(ReconnectState::Start, ReconnectEvent::Begin { has_restore: true }, true);
    assert_eq!((s, a.clone()), (ReconnectState::AwaitingLink, ReconnectAction::StartLink));
    let (s, a) = reconnect_step(s, ReconnectEvent::LinkUp, true);
    assert_eq!((s, a), (ReconnectState::AwaitingInfo, ReconnectAction::LoadInfo));
    let (s, a) = reconnect_step(s, ReconnectEvent::InfoLoaded, true);
    assert_eq!((s, a), (ReconnectState::AwaitingSpectrum, ReconnectAction::ReportConnected));
    let (s, a) = reconnect_step(s, ReconnectEvent::SpectrumFetched, false);
    assert_eq!((s, a), (ReconnectState::Done { connected: true }, ReconnectAction::DeliverSpectrum { send: false }));
    let (s2, a) = reconnect_step(s, ReconnectEvent::LinkUp, true);
    assert_eq!((s2, a), (s, ReconnectAction::Nothing));
}

#[test]
fn reconnect_stops_and_reports_as_the_session_allows() {
    let done = ReconnectState::Done { connected: false };
    assert_eq!(
        reconnect_step(ReconnectState::Start, ReconnectEvent::Begin { has_restore: true }, false),
        (done, ReconnectAction::Abort { close_link: false })
    );
    assert_eq!(
        reconnect_step(ReconnectState::Start, ReconnectEvent::Begin { has_restore: false }, true),
        (done, ReconnectAction::ReportDisconnected)
    );
    assert_eq!(
        reconnect_step(ReconnectState::AwaitingLink, ReconnectEvent::LinkFailed("x".into()), true),
        (done, ReconnectAction::Fail { message: "x".into(), close_link: false })
    );
    assert_eq!(
        reconnect_step(ReconnectState::AwaitingLink, ReconnectEvent::LinkFailed("x".into()), false),
        (done, ReconnectAction::Abort { close_link: false })
    );
    assert_eq!(
        reconnect_step(ReconnectState::AwaitingLink, ReconnectEvent::LinkUp, false),
        (done, ReconnectAction::Abort { close_link: true })
    );
    assert_eq!(
        reconnect_step(ReconnectState::AwaitingInfo, ReconnectEvent::InfoFailed("m".into()), false),
        (done, ReconnectAction::Fail { message: "m".into(), close_link: true })
    );
    assert_eq!(
        reconnect_step(ReconnectState::AwaitingInfo, ReconnectEvent::InfoLoaded, false),
        (done, ReconnectAction::Abort { close_link: true })
    );
    assert_eq!(
        reconnect_step(ReconnectState::AwaitingSpectrum, ReconnectEvent::SpectrumFailed("s".into()), false),
        (ReconnectState::Done { connected: true }, ReconnectAction::ReportError("s".into()))
    );
}

#[test]
fn monitor_poll_counts_and_reports_only_in_a_live_session() {
    let mut session: WorkerSession<u8, u8> = WorkerSession::new();
    session.monitor_polls = 4;
    assert!(after_monitor_poll(&mut session, false, true).is_empty());
    assert_eq!(session.monitor_polls, 4);
    assert_eq!(
        after_monitor_poll(&mut session, true, true),
        vec![MonitorNotice::Sample, MonitorNotice::Status, MonitorNotice::PollComplete]
    );
    assert_eq!(session.monitor_polls, 5);
    assert_eq!(
        after_monitor_poll(&mut session, true, false),
        vec![MonitorNotice::Status, MonitorNotice::PollComplete]
    );
    assert_eq!(session.monitor_polls, 5);
}
