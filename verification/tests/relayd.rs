use std::time::Duration;

use mobilecode_connect::ids::SessionId;
use mobilecode_connect::ip::{IpAddr, SocketAddr};
use mobilecode_connect::models::{
    RelayBootstrapExchangeResponse, RelayCommand, RelayCommandKind, RelayCommandStatus,
    RelayHealthStatus,
};
use mobilecode_connect::protocol::{RelayLimits, TrafficStats};
use mobilecode_connect::relayd::{
    close_result, disconnect_target, health_report_from_sessions, health_request_from_sessions,
    relay_session_state_name, usage_request_from_sessions, Cli, RelayControlRegistration,
    RelaySession, RelaySessionState,
};

fn cli() -> Cli {
    Cli {
        token_secret: None,
        now_epoch_sec: None,
        debug_admin_listen: None,
        admin_listen: None,
        control_url: None,
        control_token: None,
        relay_id: None,
        advertise_addr: None,
        advertise_admin_addr: None,
        capacity_streams: 128,
        heartbeat_interval_sec: 30,
        bootstrap_control_url: None,
        bootstrap_id: None,
        bootstrap_token: None,
    }
}

fn local(port: u16) -> SocketAddr {
    SocketAddr {
        ip: IpAddr::V4(0x7f00_0001),
        port,
    }
}

fn limits() -> RelayLimits {
    RelayLimits {
        max_bps: 1024,
        max_streams: 4,
        max_duration_sec: 60,
        traffic_quota_bytes: 4096,
    }
}

fn session(id: &str, up: u64, down: u64, total: u64, streams: u32, state: RelaySessionState) -> RelaySession {
    let session_id = SessionId::new(id);
    RelaySession {
        session_id: session_id.clone(),
        mobile_bound: state != RelaySessionState::Closed,
        agent_bound: state != RelaySessionState::Closed,
        limits: limits(),
        stats: TrafficStats {
            session_id: Some(session_id),
            uplink_bytes: up,
            downlink_bytes: down,
            total_bytes: total,
            duration_sec: 5,
            active_streams: streams,
        },
        state,
    }
}

#[test]
fn relayd_args_build_runtime_config() {
    let mut args = cli();
    args.token_secret = Some("dev-secret".to_string());
    args.now_epoch_sec = Some(1_767_000_000);
    args.debug_admin_listen = Some(local(9090));

    assert_eq!(args.config(None, 5).unwrap().token_secret, "dev-secret");
    assert_eq!(args.config(None, 5).unwrap().now_epoch_sec, 1_767_000_000);
    assert_eq!(args.debug_admin_listen().unwrap(), local(9090));
}

#[test]
fn relayd_args_build_control_registration() {
    let mut args = cli();
    args.token_secret = Some("dev-secret".to_string());
    args.control_url = Some("http://127.0.0.1:4242".to_string());
    args.control_token = Some("admin-token".to_string());
    args.relay_id = Some("relay_auto".to_string());
    args.capacity_streams = 64;

    let registration = args.control_registration("127.0.0.1:4443").unwrap().unwrap();

    assert_eq!(registration.control_url, "http://127.0.0.1:4242");
    assert_eq!(registration.control_token, "admin-token");
    assert_eq!(registration.relay_id, "relay_auto");
    assert_eq!(registration.relay_addr, "127.0.0.1:4443");
    assert_eq!(registration.admin_addr, "");
    assert_eq!(registration.capacity_streams, 64);
}

#[test]
fn relayd_args_do_not_advertise_admin_addr_from_bound_debug_listener() {
    let mut args = cli();
    args.token_secret = Some("dev-secret".to_string());
    args.control_url = Some("http://127.0.0.1:4242".to_string());
    args.control_token = Some("relay-token".to_string());
    args.relay_id = Some("relay_auto".to_string());
    args.advertise_admin_addr = Some("127.0.0.1:9090".to_string());

    let registration = args.control_registration("127.0.0.1:4443").unwrap().unwrap();

    assert_eq!(registration.admin_addr, "");
}

#[test]
fn relayd_debug_admin_listen_is_explicit_local_debug_only() {
    let mut args = cli();
    args.token_secret = Some("dev-secret".to_string());
    assert!(args.debug_admin_listen().is_none());
    args.admin_listen = Some(local(9191));
    assert_eq!(args.debug_admin_listen().unwrap(), local(9191));
    args.debug_admin_listen = Some(local(9090));
    assert_eq!(args.debug_admin_listen().unwrap(), local(9090));
}

#[test]
fn relayd_bootstrap_args_build_exchange_request_and_runtime_config() {
    let mut args = cli();
    args.bootstrap_control_url = Some("https://control.example.com".to_string());
    args.bootstrap_id = Some("rb_001".to_string());
    args.bootstrap_token = Some("shown-once".to_string());

    let bootstrap = args.bootstrap_exchange().unwrap().unwrap();
    assert_eq!(bootstrap.control_url, "https://control.example.com");
    assert_eq!(bootstrap.bootstrap_id, "rb_001");
    assert_eq!(bootstrap.bootstrap_token, "shown-once");

    let response = RelayBootstrapExchangeResponse {
        control_url: "https://control.example.com".to_string(),
        control_token: "relay-control-token".to_string(),
        relay_id: "relay_bootstrap".to_string(),
        token_secret: "relay-data-plane-secret".to_string(),
        relay_addr: "relay.example.com:4443".to_string(),
        admin_addr: "127.0.0.1:9090".to_string(),
        capacity_streams: 64,
        heartbeat_interval_sec: 15,
    };

    let config = args.config(Some(&response), 1).unwrap();
    assert_eq!(config.token_secret, "relay-data-plane-secret");
    let registration = RelayControlRegistration::from_bootstrap(response);
    assert_eq!(registration.control_url, "https://control.example.com");
    assert_eq!(registration.control_token, "relay-control-token");
    assert_eq!(registration.relay_id, "relay_bootstrap");
    assert_eq!(registration.relay_addr, "relay.example.com:4443");
    assert_eq!(registration.admin_addr, "");
    assert_eq!(registration.capacity_streams, 64);
    assert!(args.control_registration("0.0.0.0:1").unwrap().is_none());
}

#[test]
fn bootstrap_registration_ignores_legacy_admin_addr_from_control_response() {
    let response = RelayBootstrapExchangeResponse {
        control_url: "https://control.example.com".to_string(),
        control_token: "relay-control-token".to_string(),
        relay_id: "relay_bootstrap".to_string(),
        token_secret: "relay-data-plane-secret".to_string(),
        relay_addr: "relay.example.com:4443".to_string(),
        admin_addr: "legacy-admin.example.com:9090".to_string(),
        capacity_streams: 64,
        heartbeat_interval_sec: 15,
    };

    let registration = RelayControlRegistration::from_bootstrap(response);
    assert_eq!(registration.admin_addr, "");
}

#[test]
fn relayd_args_build_heartbeat_interval() {
    let mut args = cli();
    args.heartbeat_interval_sec = 5;
    assert_eq!(args.heartbeat_interval(), Duration::from_secs(5));
    args.heartbeat_interval_sec = 0;
    assert_eq!(args.heartbeat_interval(), Duration::from_secs(1));
}

#[test]
fn relayd_args_refuse_inconsistent_control_arguments() {
    let mut args = cli();
    args.control_url = Some("http://c:1".to_string());
    assert_eq!(
        args.control_registration("a:1").unwrap_err(),
        "--control-token is required when --control-url is set"
    );
    args.control_token = Some("t".to_string());
    assert_eq!(
        args.control_registration("a:1").unwrap_err(),
        "--relay-id is required when --control-url is set"
    );
    args.relay_id = Some(" r ".to_string());
    args.capacity_streams = 0;
    assert_eq!(
        args.control_registration("a:1").unwrap_err(),
        "--capacity-streams must be greater than zero"
    );
    args.capacity_streams = 1;
    args.advertise_addr = Some(" relay.example:1 ".to_string());
    let registration = args.control_registration("a:1").unwrap().unwrap();
    assert_eq!(registration.relay_id, "r");
    assert_eq!(registration.relay_addr, "relay.example:1");

    args.bootstrap_id = Some("rb".to_string());
    assert_eq!(
        args.bootstrap_exchange().unwrap_err(),
        "--bootstrap-control-url, --bootstrap-id, and --bootstrap-token must be provided together"
    );
    args.bootstrap_control_url = Some("u".to_string());
    args.bootstrap_token = Some("t".to_string());
    assert_eq!(
        args.bootstrap_exchange().unwrap_err(),
        "bootstrap args cannot be combined with explicit control registration or --token-secret"
    );
    let mut only = cli();
    only.bootstrap_control_url = Some(" ".to_string());
    only.bootstrap_id = Some("rb".to_string());
    only.bootstrap_token = Some("t".to_string());
    assert_eq!(only.bootstrap_exchange().unwrap_err(), "bootstrap args must not be empty");
    assert_eq!(
        cli().config(None, 7).unwrap_err(),
        "--token-secret is required unless relayd is started with bootstrap args"
    );
    assert!(cli().control_registration("a:1").unwrap().is_none());
}

#[test]
fn usage_request_from_sessions_maps_relay_stats() {
    let registration = RelayControlRegistration {
        control_url: "http://127.0.0.1:4242".to_string(),
        control_token: "relay-token".to_string(),
        relay_id: "relay_usage".to_string(),
        relay_addr: "127.0.0.1:4443".to_string(),
        admin_addr: "127.0.0.1:9090".to_string(),
        capacity_streams: 64,
    };
    let session_id = SessionId::new("sess_usage");
    let request = usage_request_from_sessions(
        &registration,
        &vec![session("sess_usage", 13, 21, 34, 1, RelaySessionState::Ready)],
    );

    assert_eq!(request.relay_id, "relay_usage");
    assert_eq!(request.sessions.len(), 1);
    assert_eq!(request.sessions[0].session_id, session_id);
    assert_eq!(request.sessions[0].stats.uplink_bytes, 13);
    assert_eq!(request.sessions[0].stats.downlink_bytes, 21);
    assert_eq!(request.sessions[0].stats.total_bytes, 34);
}

#[test]
fn health_report_from_sessions_summarizes_runtime_metrics() {
    let report = health_report_from_sessions(
        &vec![
            session("sess_ready", 13, 21, 34, 2, RelaySessionState::Ready),
            session("sess_closed", 100, 200, 300, 0, RelaySessionState::Closed),
        ],
        45,
        true,
        true,
        "0.1.0",
    );

    assert_eq!(report.status, RelayHealthStatus::Healthy);
    assert_eq!(report.reason, "");
    assert_eq!(report.uptime_sec, 45);
    assert_eq!(report.active_sessions, 1);
    assert_eq!(report.active_streams, 2);
    assert_eq!(report.total_uplink_bytes, 113);
    assert_eq!(report.total_downlink_bytes, 221);
    assert_eq!(report.total_bytes, 334);
    assert!(report.data_plane_bound);
    assert!(report.admin_bound);
    assert_eq!(report.relay_version, "0.1.0");
}

#[test]
fn health_report_marks_missing_data_plane_unhealthy() {
    let report = health_report_from_sessions(&Vec::new(), 1, false, true, "0.1.0");

    assert_eq!(report.status, RelayHealthStatus::Unhealthy);
    assert_eq!(report.reason, "data_plane_not_bound");
    assert!(!report.data_plane_bound);
    assert!(report.admin_bound);
}

#[test]
fn health_report_counters_saturate() {
    let report = health_report_from_sessions(
        &vec![
            session("a", u64::MAX, 1, u64::MAX - 1, 1, RelaySessionState::Waiting),
            session("b", 5, 2, 5, 1, RelaySessionState::Ready),
        ],
        0,
        true,
        false,
        "v",
    );
    assert_eq!(report.total_uplink_bytes, u64::MAX);
    assert_eq!(report.total_downlink_bytes, 3);
    assert_eq!(report.total_bytes, u64::MAX);
    assert_eq!(report.active_sessions, 2);
}

#[test]
fn relay_live_ops_health_request_includes_session_snapshots() {
    let registration = RelayControlRegistration {
        control_url: "http://127.0.0.1:4242".to_string(),
        control_token: "relay-token".to_string(),
        relay_id: "relay_live_ops".to_string(),
        relay_addr: "127.0.0.1:4443".to_string(),
        admin_addr: String::new(),
        capacity_streams: 64,
    };
    let session_id = SessionId::new("sess_live_ops_snapshot");
    let request = health_request_from_sessions(
        &registration,
        &vec![session("sess_live_ops_snapshot", 13, 21, 34, 2, RelaySessionState::Ready)],
        45,
        true,
        false,
        "0.1.0",
    );

    assert_eq!(request.relay_addr, "127.0.0.1:4443");
    assert_eq!(request.capacity_streams, 64);
    assert_eq!(request.health.active_sessions, 1);
    assert_eq!(request.health.active_streams, 2);
    assert_eq!(request.sessions.len(), 1);
    assert_eq!(request.sessions[0].session_id, session_id);
    assert_eq!(request.sessions[0].state, "ready");
    assert!(request.sessions[0].mobile_bound);
    assert!(request.sessions[0].agent_bound);
    assert_eq!(request.sessions[0].stats.total_bytes, 34);
    assert_eq!(relay_session_state_name(RelaySessionState::Waiting), "waiting");
    assert_eq!(relay_session_state_name(RelaySessionState::Closed), "closed");
}

fn command(session_id: Option<&str>) -> RelayCommand {
    RelayCommand {
        command_id: "rc_close".to_string(),
        relay_id: "relay_live_ops".to_string(),
        kind: RelayCommandKind::DisconnectSession,
        session_id: session_id.map(SessionId::new),
        status: RelayCommandStatus::Pending,
        requested_epoch_sec: 1,
        updated_epoch_sec: 1,
        message: String::new(),
    }
}

#[test]
fn relay_live_ops_disconnect_command_closes_local_session() {
    let command = command(Some("sess_live_ops_close"));
    let target = disconnect_target(&command).unwrap();
    assert_eq!(target, &SessionId::new("sess_live_ops_close"));
    let result = close_result(Ok(()));

    assert_eq!(result.status, RelayCommandStatus::Succeeded);
    assert_eq!(result.message, "session closed");
}

#[test]
fn relay_live_ops_disconnect_command_reports_missing_session() {
    let result = close_result(Err("session not found: sess_missing".to_string()));

    assert_eq!(result.status, RelayCommandStatus::Failed);
    assert!(result.message.contains("session not found"));

    let no_session = disconnect_target(&command(None)).unwrap_err();
    assert_eq!(no_session.status, RelayCommandStatus::Failed);
    assert_eq!(no_session.message, "missing session_id");
}
