//! Decisions of the background worker that talks to the detector.
use vstd::prelude::*;

use crate::error::{bluetooth_text_is_link_loss, spec_error_is_connection_lost, Error};
use crate::text::append_str;

verus! {

/// The session a piece of work belongs to: the shared counter of ended sessions and its value
/// when the work started.
#[derive(Clone)]
pub struct SessionEpoch {
    pub live: std::sync::Arc<std::sync::atomic::AtomicU64>,
    pub started: u64,
}

/// Whether work started in session `started` still belongs to the live session `current`.
pub open spec fn spec_epoch_is_current(started: u64, current: u64) -> bool {
    current == started
}

impl SessionEpoch {
    /// Whether the session this work started in is still the live one. The counter is shared
    /// with the user interface thread, so what it reads is not known in advance.
    pub fn active(&self) -> (active: bool) {
        let current = self.live.load(std::sync::atomic::Ordering::SeqCst);
        epoch_is_current(self.started, current)
    }
}

/// Whether work started in session `started` still belongs to the live session `current`.
pub fn epoch_is_current(started: u64, current: u64) -> (r: bool)
    ensures
        r == spec_epoch_is_current(started, current),
{
    current == started
}

/// A failed device operation is answered by a reconnect when a session is open and the error
/// means the link is gone or the device stopped answering.
pub open spec fn spec_should_reconnect(error: Error, has_session: bool) -> bool {
    has_session && (spec_error_is_connection_lost(error) || error is Timeout)
}

/// Whether a failed device operation is answered by a reconnect.
pub fn should_reconnect(error: &Error, session_mac: Option<&str>) -> (r: bool)
    ensures
        r == spec_should_reconnect(*error, session_mac is Some),
{
    let timed_out = match error {
        Error::Timeout => true,
        _ => false,
    };
    session_mac.is_some() && (error.is_connection_lost() || timed_out)
}

/// Monitor polls between two reads of the alarm limits.
pub const ALARM_REFRESH_POLLS: u64 = 120;

/// The alarm limits are read again when none are cached, and every `ALARM_REFRESH_POLLS`
/// monitor polls.
pub fn alarm_refresh_due(cached: bool, monitor_polls: u64) -> (due: bool)
    ensures
        due == (!cached || monitor_polls % ALARM_REFRESH_POLLS == 0),
{
    !cached || monitor_polls % ALARM_REFRESH_POLLS == 0
}

/// A queued worker command, as far as batching is concerned: one of the two periodic fetches,
/// or any other command, which takes priority.
pub enum QueuedCommand<C> {
    FetchMonitor,
    FetchSpectrum,
    Priority(C),
}

/// Commands drained from the queue in one go: at most one priority command (the last one
/// seen) and whether each periodic fetch was asked for.
pub struct CoalescedBatch<C> {
    pub priority: Option<C>,
    pub fetch_monitor: bool,
    pub fetch_spectrum: bool,
}

impl<C> CoalescedBatch<C> {
    /// A batch holding only `first`.
    pub fn starting_with(first: QueuedCommand<C>) -> (b: Self)
        ensures
            b.fetch_monitor == (first is FetchMonitor),
            b.fetch_spectrum == (first is FetchSpectrum),
            match first {
                QueuedCommand::Priority(c) => b.priority == Some(c),
                _ => b.priority is None,
            },
    {
        let mut b = CoalescedBatch { priority: None, fetch_monitor: false, fetch_spectrum: false };
        b.absorb(first);
        b
    }

    /// Adds a command to the batch: a fetch sets its flag, any other command becomes the
    /// batch's priority command.
    pub fn absorb(&mut self, command: QueuedCommand<C>)
        ensures
            final(self).fetch_monitor == (old(self).fetch_monitor || command is FetchMonitor),
            final(self).fetch_spectrum == (old(self).fetch_spectrum || command is FetchSpectrum),
            match command {
                QueuedCommand::Priority(c) => final(self).priority == Some(c),
                _ => final(self).priority == old(self).priority,
            },
    {
        match command {
            QueuedCommand::FetchMonitor => self.fetch_monitor = true,
            QueuedCommand::FetchSpectrum => self.fetch_spectrum = true,
            QueuedCommand::Priority(c) => self.priority = Some(c),
        }
    }

    /// Whether the batch should stop draining the queue: it does once it holds a priority
    /// command.
    pub fn is_complete(&self) -> (done: bool)
        ensures
            done == (self.priority is Some),
    {
        self.priority.is_some()
    }
}

/// Whether a failed attempt is followed by another: only for a transient error, and only while
/// attempts are left.
pub fn should_retry(attempt: usize, max_attempts: usize, transient: bool) -> (retry: bool)
    ensures
        retry == (transient && attempt + 1 < max_attempts),
{
    transient && attempt < max_attempts && max_attempts - attempt > 1
}

/// What a failed device operation leads to.
#[derive(Debug, Clone, Copy, PartialEq, Eq, Structural)]
pub enum ErrorResponse {
    /// The link is gone and a cached session can resume it: reconnect.
    Reconnect,
    /// The link is gone but the session has ended meanwhile: drop the device quietly.
    DropSilently,
    /// The link is gone and nothing is cached to resume it: report the device disconnected.
    ReportDisconnected,
    /// Any other failure: report it and keep the device.
    ReportAndKeep,
}

/// The answer to a failed device operation.
pub open spec fn spec_error_response(
    error: Error,
    has_session: bool,
    session_active: bool,
    has_restore: bool,
) -> ErrorResponse {
    if spec_should_reconnect(error, has_session) {
        if !session_active {
            ErrorResponse::DropSilently
        } else if !has_restore {
            ErrorResponse::ReportDisconnected
        } else {
            ErrorResponse::Reconnect
        }
    } else {
        ErrorResponse::ReportAndKeep
    }
}

/// The answer to a failed device operation: a lost link is reconnected while the session is
/// live and cached, and any other failure is reported with the device kept.
pub fn error_response(
    error: &Error,
    session_mac: Option<&str>,
    session_active: bool,
    has_restore: bool,
) -> (r: ErrorResponse)
    ensures
        r == spec_error_response(*error, session_mac is Some, session_active, has_restore),
{
    if should_reconnect(error, session_mac) {
        if !session_active {
            ErrorResponse::DropSilently
        } else if !has_restore {
            ErrorResponse::ReportDisconnected
        } else {
            ErrorResponse::Reconnect
        }
    } else {
        ErrorResponse::ReportAndKeep
    }
}

/// Without an open session no failure leads to a reconnect, and a failure that neither loses
/// the link nor times out always keeps the device.
pub proof fn law_reconnect_needs_a_lost_link_in_a_session(
    error: Error,
    has_session: bool,
    session_active: bool,
    has_restore: bool,
)
    ensures
        !has_session ==> spec_error_response(error, has_session, session_active, has_restore)
            == ErrorResponse::ReportAndKeep,
        (!spec_error_is_connection_lost(error) && !(error is Timeout)) ==> spec_error_response(
            error,
            has_session,
            session_active,
            has_restore,
        ) == ErrorResponse::ReportAndKeep,
        spec_error_response(error, has_session, session_active, has_restore)
            == ErrorResponse::Reconnect ==> session_active && has_restore,
{
}

/// What the worker remembers of the open session besides the device itself: the device's
/// address, the alarm limits last read, the monitor polls since connecting, and what a
/// reconnect needs to resume.
pub struct WorkerSession<A, R> {
    pub session_mac: Option<String>,
    pub alarm_limits: Option<A>,
    pub monitor_polls: u64,
    pub session_restore: Option<R>,
}

/// Nothing is remembered.
pub open spec fn is_forgotten<A, R>(s: WorkerSession<A, R>) -> bool {
    &&& s.session_mac is None
    &&& s.alarm_limits is None
    &&& s.monitor_polls == 0
    &&& s.session_restore is None
}

impl<A, R> WorkerSession<A, R> {
    /// A worker with no session.
    pub fn new() -> (s: Self)
        ensures
            is_forgotten(s),
    {
        WorkerSession { session_mac: None, alarm_limits: None, monitor_polls: 0, session_restore: None }
    }

    /// Forgets the session, as on a disconnect or when the device is gone.
    pub fn forget(&mut self)
        ensures
            is_forgotten(*final(self)),
    {
        self.session_mac = None;
        self.alarm_limits = None;
        self.monitor_polls = 0;
        self.session_restore = None;
    }

    /// Before connecting: the cached limits, poll count and resume data are dropped; the address
    /// stays until the outcome is known.
    pub fn begin_connect(&mut self)
        ensures
            final(self).session_mac == old(self).session_mac,
            final(self).alarm_limits is None,
            final(self).monitor_polls == 0,
            final(self).session_restore is None,
    {
        self.alarm_limits = None;
        self.monitor_polls = 0;
        self.session_restore = None;
    }

    /// After a connect attempt: the address is the session's when the device is connected, and
    /// no session remains otherwise.
    pub fn finish_connect(&mut self, mac: String, connected: bool)
        ensures
            connected ==> final(self).session_mac == Some(mac),
            !connected ==> final(self).session_mac is None,
            final(self).alarm_limits == old(self).alarm_limits,
            final(self).monitor_polls == old(self).monitor_polls,
            final(self).session_restore == old(self).session_restore,
    {
        if connected {
            self.session_mac = Some(mac);
        } else {
            self.session_mac = None;
        }
    }

    /// After a device operation: when the device is gone the session is forgotten, otherwise
    /// nothing changes. Returns whether it was forgotten.
    pub fn after_operation(&mut self, connected: bool) -> (forgotten: bool)
        ensures
            forgotten == !connected,
            !connected ==> is_forgotten(*final(self)),
            connected ==> *final(self) == *old(self),
    {
        if !connected {
            self.forget();
        }
        !connected
    }

    /// Counts a monitor sample, stopping at the largest count.
    pub fn count_monitor_sample(&mut self)
        ensures
            final(self).monitor_polls == if old(self).monitor_polls == u64::MAX {
                u64::MAX
            } else {
                (old(self).monitor_polls + 1) as u64
            },
            final(self).session_mac == old(self).session_mac,
            final(self).alarm_limits == old(self).alarm_limits,
            final(self).session_restore == old(self).session_restore,
    {
        self.monitor_polls = self.monitor_polls.saturating_add(1);
    }

    /// Whether the alarm limits are read before the next monitor poll.
    pub fn alarm_refresh_due(&self) -> (due: bool)
        ensures
            due == (self.alarm_limits is None || self.monitor_polls % ALARM_REFRESH_POLLS == 0),
    {
        alarm_refresh_due(self.alarm_limits.is_some(), self.monitor_polls)
    }
}

/// What the worker does with a batch of drained commands.
pub enum BatchStep<C> {
    /// Run the priority command; the fetches asked for alongside it are dropped.
    Run(C),
    /// Fetch the monitor values and then the spectrum, as asked.
    Fetch { monitor: bool, spectrum: bool },
}

impl<C> CoalescedBatch<C> {
    /// The step a batch leads to: its priority command when it holds one, else its fetches.
    pub fn into_step(self) -> (step: BatchStep<C>)
        ensures
            match self.priority {
                Some(c) => step == BatchStep::Run(c),
                None => step == BatchStep::<C>::Fetch {
                    monitor: self.fetch_monitor,
                    spectrum: self.fetch_spectrum,
                },
            },
    {
        match self.priority {
            Some(c) => BatchStep::Run(c),
            None => BatchStep::Fetch { monitor: self.fetch_monitor, spectrum: self.fetch_spectrum },
        }
    }
}

/// The counter value after a session ends: one more, wrapping to zero past the largest value
/// (an atomic add wraps around on overflow).
pub open spec fn spec_next_epoch(current: u64) -> u64 {
    if current == u64::MAX {
        0
    } else {
        (current + 1) as u64
    }
}

/// Ends the live session by adding one to the shared counter, so that work started in it sees
/// it as ended. The counter is shared with other threads and atomics carry no value that Verus
/// can follow, so what the counter holds afterwards is not stated here; `spec_next_epoch` and
/// `law_ended_session_is_no_longer_current` say what the add does to the value it finds.
pub fn end_session(live: &std::sync::atomic::AtomicU64) {
    live.fetch_add(1, std::sync::atomic::Ordering::SeqCst);
}

/// Work that started in the live session no longer belongs to it once the session is ended.
pub proof fn law_ended_session_is_no_longer_current(started: u64, current: u64)
    requires
        spec_epoch_is_current(started, current),
    ensures
        !spec_epoch_is_current(started, spec_next_epoch(current)),
{
}

/// A command the worker runs, by what its bookkeeping depends on; a connect carries the address.
#[derive(Debug, Clone, PartialEq, Eq)]
pub enum CommandKind {
    Scan,
    Connect(String),
    Disconnect,
    FetchSpectrum,
    ResetSpectrum,
    FetchMonitor,
    SetAlarmLimits,
}

/// What the worker does before handing a command to its device operation.
#[derive(Debug, Clone, Copy, PartialEq, Eq, Structural)]
pub struct CommandPlan {
    /// The shared session counter is ended (`end_session`), so work in flight stops.
    pub ends_session: bool,
    /// The link status goes back to its default (nothing known of battery, temperature, RSSI).
    pub reset_link_status: bool,
}

/// Prepares a command: a disconnect ends the session, forgets it and resets the link status; a
/// connect drops what was cached of the previous session and resets the link status; the other
/// commands change nothing before they run.
pub fn plan_command<A, R>(kind: &CommandKind, session: &mut WorkerSession<A, R>) -> (plan: CommandPlan)
    ensures
        plan.ends_session == (*kind is Disconnect),
        plan.reset_link_status == (*kind is Disconnect || *kind is Connect),
        *kind is Disconnect ==> is_forgotten(*final(session)),
        *kind is Connect ==> final(session).session_mac == old(session).session_mac
            && final(session).alarm_limits is None && final(session).monitor_polls == 0
            && final(session).session_restore is None,
        !(*kind is Disconnect) && !(*kind is Connect) ==> *final(session) == *old(session),
{
    match kind {
        CommandKind::Disconnect => {
            session.forget();
            CommandPlan { ends_session: true, reset_link_status: true }
        },
        CommandKind::Connect(_) => {
            session.begin_connect();
            CommandPlan { ends_session: false, reset_link_status: true }
        },
        _ => CommandPlan { ends_session: false, reset_link_status: false },
    }
}

/// Settles the session after a command's device operation, given whether a device is still
/// connected; returns whether the link status goes back to its default. A connect keeps the
/// address only when it connected. A failed spectrum fetch, spectrum reset or alarm update that
/// lost the device forgets the session and resets the link status; a monitor poll that lost it
/// forgets the session but keeps the link status. A scan or disconnect changes nothing here.
pub fn finish_command<A, R>(kind: CommandKind, session: &mut WorkerSession<A, R>, connected: bool) -> (reset_link_status: bool)
    ensures
        match kind {
            CommandKind::Connect(mac) => {
                &&& connected ==> final(session).session_mac == Some(mac)
                &&& !connected ==> final(session).session_mac is None
                &&& final(session).alarm_limits == old(session).alarm_limits
                &&& final(session).monitor_polls == old(session).monitor_polls
                &&& final(session).session_restore == old(session).session_restore
                &&& !reset_link_status
            },
            CommandKind::FetchSpectrum | CommandKind::ResetSpectrum | CommandKind::SetAlarmLimits => {
                &&& reset_link_status == !connected
                &&& !connected ==> is_forgotten(*final(session))
                &&& connected ==> *final(session) == *old(session)
            },
            CommandKind::FetchMonitor => {
                &&& !reset_link_status
                &&& !connected ==> is_forgotten(*final(session))
                &&& connected ==> *final(session) == *old(session)
            },
            _ => !reset_link_status && *final(session) == *old(session),
        },
{
    match kind {
        CommandKind::Connect(mac) => {
            session.finish_connect(mac, connected);
            false
        },
        CommandKind::FetchSpectrum | CommandKind::ResetSpectrum | CommandKind::SetAlarmLimits => {
            session.after_operation(connected)
        },
        CommandKind::FetchMonitor => {
            session.after_operation(connected);
            false
        },
        _ => false,
    }
}

/// An event the worker reports about the link.
#[derive(Debug, Clone, PartialEq, Eq)]
pub enum WorkerNotice {
    Busy(bool),
    Disconnected,
    Error(String),
}

/// The events of a disconnect command, in order: busy, the failure of closing the link when
/// there was one, disconnected, idle.
pub open spec fn spec_disconnect_notices(failure: Option<String>) -> Seq<WorkerNotice> {
    seq![WorkerNotice::Busy(true)] + match failure {
        Some(message) => seq![WorkerNotice::Error(message)],
        None => Seq::empty(),
    } + seq![WorkerNotice::Disconnected, WorkerNotice::Busy(false)]
}

/// The events a disconnect command sends, given the error closing the link reported, if any.
pub fn disconnect_notices(failure: Option<String>) -> (notices: Vec<WorkerNotice>)
    ensures
        notices@ == spec_disconnect_notices(failure),
{
    let mut notices = vec![WorkerNotice::Busy(true)];
    match failure {
        Some(message) => notices.push(WorkerNotice::Error(message)),
        None => {},
    }
    notices.push(WorkerNotice::Disconnected);
    notices.push(WorkerNotice::Busy(false));
    proof {
        assert(notices@ =~= spec_disconnect_notices(failure));
    }
    notices
}

/// A disconnect always ends the session, forgets it, resets the link status and ends its events
/// with disconnected and then idle, whatever closing the link reported.
pub proof fn law_disconnect_ends_everything(failure: Option<String>)
    ensures
        spec_disconnect_notices(failure)[0] == WorkerNotice::Busy(true),
        spec_disconnect_notices(failure).last() == WorkerNotice::Busy(false),
        spec_disconnect_notices(failure)[spec_disconnect_notices(failure).len() - 2]
            == WorkerNotice::Disconnected,
{
}

/// How far a connect got before it stopped.
#[derive(Debug, Clone, PartialEq, Eq)]
pub enum ConnectResult {
    /// The session ended meanwhile: nothing is reported; a link already opened is closed.
    Aborted { close_link: bool },
    /// The link or the device's metadata failed: the error is reported, then disconnected; a
    /// link already opened is closed.
    Failed { message: String, close_link: bool },
    /// Connected: the link status is taken from the device's metadata and reported.
    Connected,
}

/// The result of a connect, given whether the session was still live before linking, after the
/// link came up and after the metadata was read, and how linking and reading went.
pub open spec fn spec_connect_result(
    live_before: bool,
    link: Result<(), String>,
    live_after_link: bool,
    info: Result<(), String>,
    live_after_info: bool,
) -> ConnectResult {
    if !live_before {
        ConnectResult::Aborted { close_link: false }
    } else {
        match link {
            Err(message) => ConnectResult::Failed { message, close_link: false },
            Ok(()) => if !live_after_link {
                ConnectResult::Aborted { close_link: true }
            } else {
                match info {
                    Err(message) => ConnectResult::Failed { message, close_link: true },
                    Ok(()) => if !live_after_info {
                        ConnectResult::Aborted { close_link: true }
                    } else {
                        ConnectResult::Connected
                    },
                }
            },
        }
    }
}

/// How a connect ends: it stops as soon as the session is found ended, reports the first
/// failure, and connects only when the link and the metadata came through in a live session.
pub fn connect_result(
    live_before: bool,
    link: Result<(), String>,
    live_after_link: bool,
    info: Result<(), String>,
    live_after_info: bool,
) -> (r: ConnectResult)
    ensures
        r == spec_connect_result(live_before, link, live_after_link, info, live_after_info),
{
    if !live_before {
        return ConnectResult::Aborted { close_link: false };
    }
    match link {
        Err(message) => ConnectResult::Failed { message, close_link: false },
        Ok(()) => {
            if !live_after_link {
                return ConnectResult::Aborted { close_link: true };
            }
            match info {
                Err(message) => ConnectResult::Failed { message, close_link: true },
                Ok(()) => {
                    if !live_after_info {
                        ConnectResult::Aborted { close_link: true }
                    } else {
                        ConnectResult::Connected
                    }
                },
            }
        },
    }
}

/// A connect only succeeds in a session that stayed live through every step.
pub proof fn law_connect_needs_a_live_session(
    live_before: bool,
    link: Result<(), String>,
    live_after_link: bool,
    info: Result<(), String>,
    live_after_info: bool,
)
    ensures
        spec_connect_result(live_before, link, live_after_link, info, live_after_info)
            == ConnectResult::Connected ==> live_before && live_after_link && live_after_info
            && link is Ok && info is Ok,
{
}

/// What a monitor poll that read the device reports.
#[derive(Debug, Clone, Copy, PartialEq, Eq, Structural)]
pub enum MonitorNotice {
    /// The live rates read.
    Sample,
    /// The device status, as now known.
    Status,
    /// The poll is over.
    PollComplete,
}

/// The events of a monitor poll that read the device, given whether rates were found.
pub open spec fn spec_monitor_notices(has_rates: bool) -> Seq<MonitorNotice> {
    (if has_rates {
        seq![MonitorNotice::Sample]
    } else {
        Seq::empty()
    }) + seq![MonitorNotice::Status, MonitorNotice::PollComplete]
}

/// Settles a monitor poll that read the device: when the session has ended meanwhile nothing is
/// reported or counted; otherwise a sample is counted and reported when rates were found, and
/// the status and the end of the poll are always reported.
pub fn after_monitor_poll<A, R>(
    session: &mut WorkerSession<A, R>,
    session_active: bool,
    has_rates: bool,
) -> (notices: Vec<MonitorNotice>)
    ensures
        !session_active ==> notices@ == Seq::<MonitorNotice>::empty() && *final(session)
            == *old(session),
        session_active ==> notices@ == spec_monitor_notices(has_rates),
        session_active && has_rates ==> final(session).monitor_polls == (if old(
            session,
        ).monitor_polls == u64::MAX {
            u64::MAX
        } else {
            (old(session).monitor_polls + 1) as u64
        }),
        session_active && !has_rates ==> final(session).monitor_polls == old(session).monitor_polls,
        final(session).session_mac == old(session).session_mac,
        final(session).alarm_limits == old(session).alarm_limits,
        final(session).session_restore == old(session).session_restore,
{
    let mut notices: Vec<MonitorNotice> = Vec::new();
    if !session_active {
        return notices;
    }
    if has_rates {
        session.count_monitor_sample();
        notices.push(MonitorNotice::Sample);
    }
    notices.push(MonitorNotice::Status);
    notices.push(MonitorNotice::PollComplete);
    proof {
        assert(notices@ =~= spec_monitor_notices(has_rates));
    }
    notices
}

/// Where a reconnect stands.
#[derive(Debug, Clone, Copy, PartialEq, Eq, Structural)]
pub enum ReconnectState {
    /// Nothing tried yet.
    Start,
    /// The link is being opened.
    AwaitingLink,
    /// The link is up and the device's metadata is being read.
    AwaitingInfo,
    /// Reconnected; the spectrum is being fetched.
    AwaitingSpectrum,
    /// Over: the device is kept when `connected`.
    Done { connected: bool },
}

/// What happened since the last step.
#[derive(Debug, Clone, PartialEq, Eq)]
pub enum ReconnectEvent {
    /// The reconnect is asked for; `has_restore` says whether a session is cached to resume.
    Begin { has_restore: bool },
    LinkUp,
    LinkFailed(String),
    InfoLoaded,
    InfoFailed(String),
    SpectrumFetched,
    SpectrumFailed(String),
}

/// What the worker does next.
#[derive(Debug, Clone, PartialEq, Eq)]
pub enum ReconnectAction {
    /// The event does not belong to this stage: nothing.
    Nothing,
    /// Stop without a word; close the link when one is open.
    Abort { close_link: bool },
    /// Report the device disconnected and stop.
    ReportDisconnected,
    /// Report reconnecting and open the link with the cached session.
    StartLink,
    /// Reset the link status and read the device's metadata.
    LoadInfo,
    /// Take the link status from the metadata, report the connection and fetch the spectrum.
    ReportConnected,
    /// Report the error, then disconnected, and stop; close the link when one is open.
    Fail { message: String, close_link: bool },
    /// Keep the device; report the spectrum when `send`.
    DeliverSpectrum { send: bool },
    /// Keep the device and report the error.
    ReportError(String),
}

/// One step of a reconnect: the stage and action that follow an event, given whether the
/// session is still live when the event is handled.
pub open spec fn spec_reconnect_step(
    state: ReconnectState,
    event: ReconnectEvent,
    session_active: bool,
) -> (ReconnectState, ReconnectAction) {
    let done = ReconnectState::Done { connected: false };
    match (state, event) {
        (ReconnectState::Start, ReconnectEvent::Begin { has_restore }) => if !session_active {
            (done, ReconnectAction::Abort { close_link: false })
        } else if !has_restore {
            (done, ReconnectAction::ReportDisconnected)
        } else {
            (ReconnectState::AwaitingLink, ReconnectAction::StartLink)
        },
        (ReconnectState::AwaitingLink, ReconnectEvent::LinkUp) => if !session_active {
            (done, ReconnectAction::Abort { close_link: true })
        } else {
            (ReconnectState::AwaitingInfo, ReconnectAction::LoadInfo)
        },
        (ReconnectState::AwaitingLink, ReconnectEvent::LinkFailed(message)) => if session_active {
            (done, ReconnectAction::Fail { message, close_link: false })
        } else {
            (done, ReconnectAction::Abort { close_link: false })
        },
        (ReconnectState::AwaitingInfo, ReconnectEvent::InfoLoaded) => if !session_active {
            (done, ReconnectAction::Abort { close_link: true })
        } else {
            (ReconnectState::AwaitingSpectrum, ReconnectAction::ReportConnected)
        },
        (ReconnectState::AwaitingInfo, ReconnectEvent::InfoFailed(message)) => (
            done,
            ReconnectAction::Fail { message, close_link: true },
        ),
        (ReconnectState::AwaitingSpectrum, ReconnectEvent::SpectrumFetched) => (
            ReconnectState::Done { connected: true },
            ReconnectAction::DeliverSpectrum { send: session_active },
        ),
        (ReconnectState::AwaitingSpectrum, ReconnectEvent::SpectrumFailed(message)) => (
            ReconnectState::Done { connected: true },
            ReconnectAction::ReportError(message),
        ),
        (s, _) => (s, ReconnectAction::Nothing),
    }
}

/// One step of a reconnect with a cached session. It stops when the session has ended before
/// the attempt, after the link came up or after the metadata was read; reports disconnected
/// when nothing is cached; reports a failed link only while the session is live; and once
/// reconnected keeps the device, sending the spectrum only while the session is live.
pub fn reconnect_step(state: ReconnectState, event: ReconnectEvent, session_active: bool) -> (r: (
    ReconnectState,
    ReconnectAction,
))
    ensures
        r == spec_reconnect_step(state, event, session_active),
{
    let done = ReconnectState::Done { connected: false };
    match (state, event) {
        (ReconnectState::Start, ReconnectEvent::Begin { has_restore }) => {
            if !session_active {
                (done, ReconnectAction::Abort { close_link: false })
            } else if !has_restore {
                (done, ReconnectAction::ReportDisconnected)
            } else {
                (ReconnectState::AwaitingLink, ReconnectAction::StartLink)
            }
        },
        (ReconnectState::AwaitingLink, ReconnectEvent::LinkUp) => {
            if !session_active {
                (done, ReconnectAction::Abort { close_link: true })
            } else {
                (ReconnectState::AwaitingInfo, ReconnectAction::LoadInfo)
            }
        },
        (ReconnectState::AwaitingLink, ReconnectEvent::LinkFailed(message)) => {
            if session_active {
                (done, ReconnectAction::Fail { message, close_link: false })
            } else {
                (done, ReconnectAction::Abort { close_link: false })
            }
        },
        (ReconnectState::AwaitingInfo, ReconnectEvent::InfoLoaded) => {
            if !session_active {
                (done, ReconnectAction::Abort { close_link: true })
            } else {
                (ReconnectState::AwaitingSpectrum, ReconnectAction::ReportConnected)
            }
        },
        (ReconnectState::AwaitingInfo, ReconnectEvent::InfoFailed(message)) => {
            (done, ReconnectAction::Fail { message, close_link: true })
        },
        (ReconnectState::AwaitingSpectrum, ReconnectEvent::SpectrumFetched) => {
            (
                ReconnectState::Done { connected: true },
                ReconnectAction::DeliverSpectrum { send: session_active },
            )
        },
        (ReconnectState::AwaitingSpectrum, ReconnectEvent::SpectrumFailed(message)) => {
            (ReconnectState::Done { connected: true }, ReconnectAction::ReportError(message))
        },
        (s, _) => (s, ReconnectAction::Nothing),
    }
}

/// A reconnect keeps the device only after the metadata was read in a live session, and once it
/// is over no event moves it on.
pub proof fn law_reconnect_keeps_device_only_after_live_metadata(
    state: ReconnectState,
    event: ReconnectEvent,
    session_active: bool,
)
    ensures
        (spec_reconnect_step(state, event, session_active).0 == ReconnectState::Done {
            connected: true,
        } && !(state is Done)) ==> state == ReconnectState::AwaitingSpectrum,
        spec_reconnect_step(state, event, session_active).1 == ReconnectAction::ReportConnected
            ==> state == ReconnectState::AwaitingInfo && session_active,
        state is Done ==> spec_reconnect_step(state, event, session_active) == (
            state,
            ReconnectAction::Nothing,
        ),
{
}

/// In an open session, a failure that means the link is gone (a closed connection, a Bluetooth
/// failure whose text points at a lost link) or that timed out is never reported as an ordinary
/// error with the device kept: the device is dropped, reported disconnected, or reconnected, and
/// it is reconnected whenever the session is live and cached.
pub proof fn law_lost_link_is_answered_by_reconnecting(
    error: Error,
    session_active: bool,
    has_restore: bool,
)
    requires
        error is ConnectionClosed || error is Timeout || (error matches Error::Bluetooth { message }
            && bluetooth_text_is_link_loss(message@)),
    ensures
        spec_should_reconnect(error, true),
        spec_error_response(error, true, session_active, has_restore)
            != ErrorResponse::ReportAndKeep,
        session_active && has_restore ==> spec_error_response(error, true, session_active, has_restore)
            == ErrorResponse::Reconnect,
        !session_active ==> spec_error_response(error, true, session_active, has_restore)
            == ErrorResponse::DropSilently,
        session_active && !has_restore ==> spec_error_response(error, true, session_active, has_restore)
            == ErrorResponse::ReportDisconnected,
{
}

} // verus!
