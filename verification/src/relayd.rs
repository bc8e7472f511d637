//! The relay daemon's dealings with Control: which registration its
//! arguments ask for, the health and usage it reports, and the answers to
//! the commands it receives.
use vstd::prelude::*;
use std::time::Duration;
use crate::ids::SessionId;
use crate::ip::SocketAddr;
use crate::models::{
    RelayBootstrapExchangeResponse, RelayCommand, RelayCommandKind, RelayCommandStatus,
    RelayHealthReport, RelayHealthStatus, RelaySessionSnapshot, RelaySessionUsageReport,
    ReportRelayCommandResultRequest, ReportRelayHealthRequest, ReportRelaySessionUsageRequest,
};
use crate::protocol::{RelayLimits, TrafficStats};
use crate::text::{copy_string, owned, trim, trimmed};

verus! {

/// What `Duration::from_secs` gives for a number of seconds.
pub uninterp spec fn secs_duration(secs: u64) -> Duration;

/// `Duration::from_secs`; the duration is named by `secs_duration`.
#[verifier::external_body]
fn duration_from_secs(secs: u64) -> (d: Duration)
    ensures
        d == secs_duration(secs),
{
    Duration::from_secs(secs)
}

/// The state of a relay session.
#[derive(Clone, Copy, Debug, PartialEq, Eq, Structural)]
pub enum RelaySessionState {
    Waiting,
    Ready,
    Closed,
}

/// What the daemon reads of a relay session.
#[derive(Clone, Debug, PartialEq, Eq)]
pub struct RelaySession {
    pub session_id: SessionId,
    pub mobile_bound: bool,
    pub agent_bound: bool,
    pub limits: RelayLimits,
    pub stats: TrafficStats,
    pub state: RelaySessionState,
}

/// Where and as whom the relay registers with Control.
#[derive(Clone, Debug, PartialEq, Eq)]
pub struct RelayControlRegistration {
    pub control_url: String,
    pub control_token: String,
    pub relay_id: String,
    pub relay_addr: String,
    pub admin_addr: String,
    pub capacity_streams: u32,
}

impl RelayControlRegistration {
    /// The registration that a bootstrap exchange hands out. The admin address
    /// that older Control servers still send is not advertised.
    pub fn from_bootstrap(response: RelayBootstrapExchangeResponse) -> (r: Self)
        ensures
            r.control_url == response.control_url,
            r.control_token == response.control_token,
            r.relay_id == response.relay_id,
            r.relay_addr == response.relay_addr,
            r.admin_addr@ == Seq::<char>::empty(),
            r.capacity_streams == response.capacity_streams,
    {
        let admin_addr = String::new();
        assert(admin_addr@ =~= Seq::<char>::empty());
        RelayControlRegistration {
            control_url: response.control_url,
            control_token: response.control_token,
            relay_id: response.relay_id,
            relay_addr: response.relay_addr,
            admin_addr,
            capacity_streams: response.capacity_streams,
        }
    }
}

/// A bootstrap to exchange with Control for the relay's credentials.
#[derive(Clone, Debug, PartialEq, Eq)]
pub struct RelayBootstrapExchange {
    pub control_url: String,
    pub bootstrap_id: String,
    pub bootstrap_token: String,
}

/// The data-plane secret and the clock the relay runs with.
#[derive(Clone, Debug, PartialEq, Eq)]
pub struct RelayConfig {
    pub token_secret: String,
    pub now_epoch_sec: u64,
}

/// The daemon's arguments that its dealings with Control read.
#[derive(Clone, Debug)]
pub struct Cli {
    pub token_secret: Option<String>,
    pub now_epoch_sec: Option<u64>,
    pub debug_admin_listen: Option<SocketAddr>,
    pub admin_listen: Option<SocketAddr>,
    pub control_url: Option<String>,
    pub control_token: Option<String>,
    pub relay_id: Option<String>,
    pub advertise_addr: Option<String>,
    pub advertise_admin_addr: Option<String>,
    pub capacity_streams: u32,
    pub heartbeat_interval_sec: u64,
    pub bootstrap_control_url: Option<String>,
    pub bootstrap_id: Option<String>,
    pub bootstrap_token: Option<String>,
}

/// An argument's text trimmed, when it is set and not blank.
pub open spec fn nonblank(o: Option<String>) -> Option<Seq<char>> {
    match o {
        Some(s) => if trim(s@).len() > 0 {
            Some(trim(s@))
        } else {
            None
        },
        None => None,
    }
}

pub open spec fn bootstrap_conflict_message() -> Seq<char> {
    "bootstrap args cannot be combined with explicit control registration or --token-secret"@
}

pub open spec fn bootstrap_empty_message() -> Seq<char> {
    "bootstrap args must not be empty"@
}

pub open spec fn bootstrap_partial_message() -> Seq<char> {
    "--bootstrap-control-url, --bootstrap-id, and --bootstrap-token must be provided together"@
}

/// The bootstrap that the arguments ask to exchange: none, or the three
/// bootstrap arguments trimmed, or why the arguments are refused.
pub open spec fn bootstrap_request(c: Cli) -> Result<Option<(Seq<char>, Seq<char>, Seq<char>)>, Seq<char>> {
    match (c.bootstrap_control_url, c.bootstrap_id, c.bootstrap_token) {
        (None, None, None) => Ok(None),
        (Some(u), Some(i), Some(t)) => if c.control_url is Some || c.control_token is Some
            || c.relay_id is Some || c.token_secret is Some {
            Err(bootstrap_conflict_message())
        } else if trim(u@).len() == 0 || trim(i@).len() == 0 || trim(t@).len() == 0 {
            Err(bootstrap_empty_message())
        } else {
            Ok(Some((trim(u@), trim(i@), trim(t@))))
        },
        _ => Err(bootstrap_partial_message()),
    }
}

pub struct RegistrationView {
    pub control_url: Seq<char>,
    pub control_token: Seq<char>,
    pub relay_id: Seq<char>,
    pub relay_addr: Seq<char>,
    pub admin_addr: Seq<char>,
    pub capacity_streams: u32,
}

pub open spec fn registration_view(r: RelayControlRegistration) -> RegistrationView {
    RegistrationView {
        control_url: r.control_url@,
        control_token: r.control_token@,
        relay_id: r.relay_id@,
        relay_addr: r.relay_addr@,
        admin_addr: r.admin_addr@,
        capacity_streams: r.capacity_streams,
    }
}

/// The explicit registration that the arguments ask for, with `bound_addr`
/// the address the relay listens on: none when bootstrapping or without a
/// Control URL; the advertised address, or else the bound one; never an
/// admin address.
pub open spec fn registration_request(c: Cli, bound_addr: Seq<char>) -> Result<Option<RegistrationView>, Seq<char>> {
    match bootstrap_request(c) {
        Err(e) => Err(e),
        Ok(Some(_)) => Ok(None),
        Ok(None) => match nonblank(c.control_url) {
            None => Ok(None),
            Some(url) => match nonblank(c.control_token) {
                None => Err("--control-token is required when --control-url is set"@),
                Some(token) => match nonblank(c.relay_id) {
                    None => Err("--relay-id is required when --control-url is set"@),
                    Some(id) => if c.capacity_streams == 0 {
                        Err("--capacity-streams must be greater than zero"@)
                    } else {
                        Ok(
                            Some(
                                RegistrationView {
                                    control_url: url,
                                    control_token: token,
                                    relay_id: id,
                                    relay_addr: match nonblank(c.advertise_addr) {
                                        Some(a) => a,
                                        None => bound_addr,
                                    },
                                    admin_addr: Seq::empty(),
                                    capacity_streams: c.capacity_streams,
                                },
                            ),
                        )
                    },
                },
            },
        },
    }
}

/// The argument trimmed, when it is set and not blank.
fn nonblank_arg(o: &Option<String>) -> (r: Option<String>)
    ensures
        match nonblank(*o) {
            Some(t) => r matches Some(s) && s@ == t,
            None => r is None,
        },
{
    match o {
        Some(s) => {
            let t = trimmed(s.as_str());
            if t.unicode_len() > 0 {
                Some(t)
            } else {
                None
            }
        },
        None => None,
    }
}

impl Cli {
    /// The data-plane secret, from the bootstrap or else from the arguments,
    /// and the clock: the one the arguments fix, or else `current_epoch_sec`.
    pub fn config(&self, bootstrap: Option<&RelayBootstrapExchangeResponse>, current_epoch_sec: u64) -> (r:
        Result<RelayConfig, String>)
        ensures
            match bootstrap {
                Some(b) => r matches Ok(c) && c.token_secret@ == b.token_secret@,
                None => match self.token_secret {
                    Some(t) => r matches Ok(c) && c.token_secret@ == t@,
                    None => r matches Err(m) && m@
                        == "--token-secret is required unless relayd is started with bootstrap args"@,
                },
            },
            r matches Ok(c) ==> c.now_epoch_sec == match self.now_epoch_sec {
                Some(n) => n,
                None => current_epoch_sec,
            },
    {
        let token_secret = match bootstrap {
            Some(b) => copy_string(&b.token_secret),
            None => match &self.token_secret {
                Some(t) => copy_string(t),
                None => {
                    return Err(owned("--token-secret is required unless relayd is started with bootstrap args"));
                },
            },
        };
        let now_epoch_sec = match self.now_epoch_sec {
            Some(n) => n,
            None => current_epoch_sec,
        };
        Ok(RelayConfig { token_secret, now_epoch_sec })
    }

    /// How often to report to Control: at least every second.
    pub fn heartbeat_interval(&self) -> (r: Duration)
        ensures
            r == secs_duration(if self.heartbeat_interval_sec == 0 {
                1
            } else {
                self.heartbeat_interval_sec
            }),
    {
        let secs = if self.heartbeat_interval_sec < 1 {
            1
        } else {
            self.heartbeat_interval_sec
        };
        duration_from_secs(secs)
    }

    /// The local-only debug admin listener, under its current or its former
    /// argument name.
    pub fn debug_admin_listen(&self) -> (r: Option<SocketAddr>)
        ensures
            r == match self.debug_admin_listen {
                Some(a) => Some(a),
                None => self.admin_listen,
            },
    {
        match self.debug_admin_listen {
            Some(a) => Some(a),
            None => self.admin_listen,
        }
    }

    /// The bootstrap that the arguments ask to exchange, if any.
    pub fn bootstrap_exchange(&self) -> (r: Result<Option<RelayBootstrapExchange>, String>)
        ensures
            match bootstrap_request(*self) {
                Ok(None) => r matches Ok(None),
                Ok(Some((u, i, t))) => r matches Ok(Some(b)) && b.control_url@ == u && b.bootstrap_id@ == i
                    && b.bootstrap_token@ == t,
                Err(m) => r matches Err(e) && e@ == m,
            },
    {
        match (&self.bootstrap_control_url, &self.bootstrap_id, &self.bootstrap_token) {
            (None, None, None) => Ok(None),
            (Some(u), Some(i), Some(t)) => {
                if self.control_url.is_some() || self.control_token.is_some() || self.relay_id.is_some()
                    || self.token_secret.is_some() {
                    return Err(owned("bootstrap args cannot be combined with explicit control registration or --token-secret"));
                }
                let control_url = trimmed(u.as_str());
                let bootstrap_id = trimmed(i.as_str());
                let bootstrap_token = trimmed(t.as_str());
                if control_url.unicode_len() == 0 || bootstrap_id.unicode_len() == 0
                    || bootstrap_token.unicode_len() == 0 {
                    return Err(owned("bootstrap args must not be empty"));
                }
                Ok(Some(RelayBootstrapExchange { control_url, bootstrap_id, bootstrap_token }))
            },
            _ => Err(owned("--bootstrap-control-url, --bootstrap-id, and --bootstrap-token must be provided together")),
        }
    }

    /// The registration that the arguments ask for, given the text of the
    /// address the relay is bound to.
    pub fn control_registration(&self, bound_addr: &str) -> (r: Result<Option<RelayControlRegistration>, String>)
        ensures
            match registration_request(*self, bound_addr@) {
                Ok(None) => r matches Ok(None),
                Ok(Some(v)) => r matches Ok(Some(g)) && registration_view(g) == v,
                Err(m) => r matches Err(e) && e@ == m,
            },
    {
        if self.bootstrap_exchange()?.is_some() {
            return Ok(None);
        }
        let control_url = match nonblank_arg(&self.control_url) {
            Some(u) => u,
            None => {
                return Ok(None);
            },
        };
        let control_token = match nonblank_arg(&self.control_token) {
            Some(t) => t,
            None => {
                return Err(owned("--control-token is required when --control-url is set"));
            },
        };
        let relay_id = match nonblank_arg(&self.relay_id) {
            Some(i) => i,
            None => {
                return Err(owned("--relay-id is required when --control-url is set"));
            },
        };
        if self.capacity_streams == 0 {
            return Err(owned("--capacity-streams must be greater than zero"));
        }
        let relay_addr = match nonblank_arg(&self.advertise_addr) {
            Some(a) => a,
            None => owned(bound_addr),
        };
        let admin_addr = String::new();
        assert(admin_addr@ =~= Seq::<char>::empty());
        Ok(
            Some(
                RelayControlRegistration {
                    control_url,
                    control_token,
                    relay_id,
                    relay_addr,
                    admin_addr,
                    capacity_streams: self.capacity_streams,
                },
            ),
        )
    }
}

// ---------------------------------------------------------------------------
// Reports.

pub open spec fn saturate(n: int) -> u64 {
    if n > u64::MAX {
        u64::MAX
    } else {
        n as u64
    }
}

/// How many sessions are not closed.
pub open spec fn open_sessions(s: Seq<RelaySession>) -> nat
    decreases s.len(),
{
    if s.len() == 0 {
        0
    } else {
        open_sessions(s.drop_last()) + if s.last().state != RelaySessionState::Closed {
            1nat
        } else {
            0nat
        }
    }
}

pub open spec fn sum_streams(s: Seq<RelaySession>) -> nat
    decreases s.len(),
{
    if s.len() == 0 {
        0
    } else {
        sum_streams(s.drop_last()) + s.last().stats.active_streams as nat
    }
}

pub open spec fn sum_uplink(s: Seq<RelaySession>) -> nat
    decreases s.len(),
{
    if s.len() == 0 {
        0
    } else {
        sum_uplink(s.drop_last()) + s.last().stats.uplink_bytes as nat
    }
}

pub open spec fn sum_downlink(s: Seq<RelaySession>) -> nat
    decreases s.len(),
{
    if s.len() == 0 {
        0
    } else {
        sum_downlink(s.drop_last()) + s.last().stats.downlink_bytes as nat
    }
}

pub open spec fn sum_total(s: Seq<RelaySession>) -> nat
    decreases s.len(),
{
    if s.len() == 0 {
        0
    } else {
        sum_total(s.drop_last()) + s.last().stats.total_bytes as nat
    }
}

/// The relay's health: healthy exactly while its data plane is bound, and the
/// counters over all sessions, each capped at `u64::MAX`.
pub open spec fn health_of(
    s: Seq<RelaySession>,
    uptime_sec: u64,
    data_plane_bound: bool,
    admin_bound: bool,
    relay_version: Seq<char>,
    r: RelayHealthReport,
) -> bool {
    &&& r.status == (if data_plane_bound {
        RelayHealthStatus::Healthy
    } else {
        RelayHealthStatus::Unhealthy
    })
    &&& r.reason@ == (if data_plane_bound {
        Seq::<char>::empty()
    } else {
        "data_plane_not_bound"@
    })
    &&& r.relay_version@ == relay_version
    &&& r.uptime_sec == uptime_sec
    &&& r.active_sessions == saturate(open_sessions(s) as int)
    &&& r.active_streams == saturate(sum_streams(s) as int)
    &&& r.total_uplink_bytes == saturate(sum_uplink(s) as int)
    &&& r.total_downlink_bytes == saturate(sum_downlink(s) as int)
    &&& r.total_bytes == saturate(sum_total(s) as int)
    &&& r.data_plane_bound == data_plane_bound
    &&& r.admin_bound == admin_bound
}

proof fn lemma_saturating_step(acc: u64, total: nat, x: nat)
    requires
        acc == saturate(total as int),
        x <= u64::MAX,
    ensures
        (if acc + x > u64::MAX {
            u64::MAX
        } else {
            (acc + x) as u64
        }) == saturate((total + x) as int),
{
}

/// Sums up the relay's sessions for its health report.
pub fn health_report_from_sessions(
    sessions: &Vec<RelaySession>,
    uptime_sec: u64,
    data_plane_bound: bool,
    admin_bound: bool,
    relay_version: &str,
) -> (r: RelayHealthReport)
    ensures
        health_of(sessions@, uptime_sec, data_plane_bound, admin_bound, relay_version@, r),
{
    let mut active_sessions: u64 = 0;
    let mut active_streams: u64 = 0;
    let mut total_uplink_bytes: u64 = 0;
    let mut total_downlink_bytes: u64 = 0;
    let mut total_bytes: u64 = 0;
    let mut i: usize = 0;
    while i < sessions.len()
        invariant
            i <= sessions@.len(),
            active_sessions == saturate(open_sessions(sessions@.take(i as int)) as int),
            active_streams == saturate(sum_streams(sessions@.take(i as int)) as int),
            total_uplink_bytes == saturate(sum_uplink(sessions@.take(i as int)) as int),
            total_downlink_bytes == saturate(sum_downlink(sessions@.take(i as int)) as int),
            total_bytes == saturate(sum_total(sessions@.take(i as int)) as int),
        decreases sessions@.len() - i,
    {
        let session = &sessions[i];
        let ghost t = sessions@.take(i as int);
        proof {
            assert(sessions@.take(i + 1).drop_last() =~= t);
            assert(sessions@.take(i + 1).last() == sessions@[i as int]);
            lemma_saturating_step(active_sessions, open_sessions(t), if session.state != RelaySessionState::Closed { 1nat } else { 0nat });
            lemma_saturating_step(active_streams, sum_streams(t), session.stats.active_streams as nat);
            lemma_saturating_step(total_uplink_bytes, sum_uplink(t), session.stats.uplink_bytes as nat);
            lemma_saturating_step(total_downlink_bytes, sum_downlink(t), session.stats.downlink_bytes as nat);
            lemma_saturating_step(total_bytes, sum_total(t), session.stats.total_bytes as nat);
        }
        if session.state != RelaySessionState::Closed {
            active_sessions = active_sessions.saturating_add(1);
        }
        active_streams = active_streams.saturating_add(session.stats.active_streams as u64);
        total_uplink_bytes = total_uplink_bytes.saturating_add(session.stats.uplink_bytes);
        total_downlink_bytes = total_downlink_bytes.saturating_add(session.stats.downlink_bytes);
        total_bytes = total_bytes.saturating_add(session.stats.total_bytes);
        i = i + 1;
    }
    assert(sessions@.take(i as int) =~= sessions@);
    let (status, reason) = if data_plane_bound {
        let e = String::new();
        assert(e@ =~= Seq::<char>::empty());
        (RelayHealthStatus::Healthy, e)
    } else {
        (RelayHealthStatus::Unhealthy, owned("data_plane_not_bound"))
    };
    RelayHealthReport {
        status,
        reason,
        relay_version: owned(relay_version),
        uptime_sec,
        active_sessions,
        active_streams,
        total_uplink_bytes,
        total_downlink_bytes,
        total_bytes,
        data_plane_bound,
        admin_bound,
    }
}

/// The name under which a session state is reported.
pub fn relay_session_state_name(state: RelaySessionState) -> (r: &'static str)
    ensures
        r@ == match state {
            RelaySessionState::Waiting => "waiting"@,
            RelaySessionState::Ready => "ready"@,
            RelaySessionState::Closed => "closed"@,
        },
{
    match state {
        RelaySessionState::Waiting => "waiting",
        RelaySessionState::Ready => "ready",
        RelaySessionState::Closed => "closed",
    }
}

/// The snapshot of a session that the health report carries.
pub fn session_snapshot_from_relay_session(session: &RelaySession) -> (r: RelaySessionSnapshot)
    ensures
        r.session_id == session.session_id,
        r.state@ == relay_session_state_name_spec(session.state),
        r.mobile_bound == session.mobile_bound,
        r.agent_bound == session.agent_bound,
        r.limits == session.limits,
        r.stats == session.stats,
        r.last_seen_epoch_sec == 0,
{
    RelaySessionSnapshot {
        session_id: session.session_id.copied(),
        state: owned(relay_session_state_name(session.state)),
        mobile_bound: session.mobile_bound,
        agent_bound: session.agent_bound,
        limits: session.limits,
        stats: session.stats.copied(),
        last_seen_epoch_sec: 0,
    }
}

pub open spec fn relay_session_state_name_spec(state: RelaySessionState) -> Seq<char> {
    match state {
        RelaySessionState::Waiting => "waiting"@,
        RelaySessionState::Ready => "ready"@,
        RelaySessionState::Closed => "closed"@,
    }
}

/// The health report of the relay with a snapshot of every session.
pub fn health_request_from_sessions(
    registration: &RelayControlRegistration,
    sessions: &Vec<RelaySession>,
    uptime_sec: u64,
    data_plane_bound: bool,
    admin_bound: bool,
    relay_version: &str,
) -> (r: ReportRelayHealthRequest)
    ensures
        r.relay_addr@ == registration.relay_addr@,
        r.admin_addr@ == registration.admin_addr@,
        r.capacity_streams == registration.capacity_streams,
        health_of(sessions@, uptime_sec, data_plane_bound, admin_bound, relay_version@, r.health),
        r.sessions@.len() == sessions@.len(),
        forall|i: int|
            0 <= i < sessions@.len() ==> {
                let s = #[trigger] r.sessions@[i];
                &&& s.session_id == sessions@[i].session_id
                &&& s.state@ == relay_session_state_name_spec(sessions@[i].state)
                &&& s.mobile_bound == sessions@[i].mobile_bound
                &&& s.agent_bound == sessions@[i].agent_bound
                &&& s.limits == sessions@[i].limits
                &&& s.stats == sessions@[i].stats
                &&& s.last_seen_epoch_sec == 0
            },
{
    let health = health_report_from_sessions(sessions, uptime_sec, data_plane_bound, admin_bound, relay_version);
    let mut snapshots: Vec<RelaySessionSnapshot> = Vec::new();
    let mut i: usize = 0;
    while i < sessions.len()
        invariant
            i <= sessions@.len(),
            snapshots@.len() == i,
            forall|j: int|
                0 <= j < i ==> {
                    let s = #[trigger] snapshots@[j];
                    &&& s.session_id == sessions@[j].session_id
                    &&& s.state@ == relay_session_state_name_spec(sessions@[j].state)
                    &&& s.mobile_bound == sessions@[j].mobile_bound
                    &&& s.agent_bound == sessions@[j].agent_bound
                    &&& s.limits == sessions@[j].limits
                    &&& s.stats == sessions@[j].stats
                    &&& s.last_seen_epoch_sec == 0
                },
        decreases sessions@.len() - i,
    {
        snapshots.push(session_snapshot_from_relay_session(&sessions[i]));
        i = i + 1;
    }
    ReportRelayHealthRequest {
        relay_addr: copy_string(&registration.relay_addr),
        admin_addr: copy_string(&registration.admin_addr),
        capacity_streams: registration.capacity_streams,
        health,
        sessions: snapshots,
    }
}

/// The usage report of the relay: each session's traffic counters.
pub fn usage_request_from_sessions(registration: &RelayControlRegistration, sessions: &Vec<RelaySession>) -> (r:
    ReportRelaySessionUsageRequest)
    ensures
        r.relay_id@ == registration.relay_id@,
        r.sessions@.len() == sessions@.len(),
        forall|i: int|
            0 <= i < sessions@.len() ==> (#[trigger] r.sessions@[i]).session_id == sessions@[i].session_id
                && r.sessions@[i].stats == sessions@[i].stats,
{
    let mut reports: Vec<RelaySessionUsageReport> = Vec::new();
    let mut i: usize = 0;
    while i < sessions.len()
        invariant
            i <= sessions@.len(),
            reports@.len() == i,
            forall|j: int|
                0 <= j < i ==> (#[trigger] reports@[j]).session_id == sessions@[j].session_id
                    && reports@[j].stats == sessions@[j].stats,
        decreases sessions@.len() - i,
    {
        reports.push(
            RelaySessionUsageReport {
                session_id: sessions[i].session_id.copied(),
                stats: sessions[i].stats.copied(),
            },
        );
        i = i + 1;
    }
    ReportRelaySessionUsageRequest { relay_id: copy_string(&registration.relay_id), sessions: reports }
}

/// The session that a disconnect command names, or the failure to report
/// when it names none.
pub fn disconnect_target(command: &RelayCommand) -> (r: Result<&SessionId, ReportRelayCommandResultRequest>)
    ensures
        match command.session_id {
            Some(id) => r == Ok::<&SessionId, ReportRelayCommandResultRequest>(&id),
            None => r matches Err(report) && report.status == RelayCommandStatus::Failed
                && report.message@ == "missing session_id"@,
        },
{
    match command.kind {
        RelayCommandKind::DisconnectSession => match &command.session_id {
            Some(id) => Ok(id),
            None => Err(
                ReportRelayCommandResultRequest {
                    status: RelayCommandStatus::Failed,
                    message: owned("missing session_id"),
                },
            ),
        },
    }
}

/// The result to report after trying to close a session: success, or the
/// failure with its message.
pub fn close_result(outcome: Result<(), String>) -> (r: ReportRelayCommandResultRequest)
    ensures
        match outcome {
            Ok(_) => r.status == RelayCommandStatus::Succeeded && r.message@ == "session closed"@,
            Err(m) => r.status == RelayCommandStatus::Failed && r.message == m,
        },
{
    match outcome {
        Ok(_) => ReportRelayCommandResultRequest {
            status: RelayCommandStatus::Succeeded,
            message: owned("session closed"),
        },
        Err(message) => ReportRelayCommandResultRequest { status: RelayCommandStatus::Failed, message },
    }
}

} // verus!
