use mobilecode_connect::cli::{
    agent_direct_relay_config, check_invite_services, control_client_options, direct_relay_config,
    p2p_identity_action, pairing_poll_delay_ms, parse_device_id, parse_service_arg, parse_session_id, parse_user_id,
    parse_user_role, AdminAssignPlanArgs, AdminCommonArgs, AdminCreateRelayBootstrapArgs,
    AdminCreateUserArgs, AdminDeviceAccessArgs, AdminGrantDeviceAccessArgs, AdminListArgs,
    AdminListCommandArgs, AdminRegisterRelayArgs, AdminRevokeDeviceAccessArgs,
    AdminSetUserStatusArgs, AdminUpdateRelayArgs, P2pIdentityAction,
};
use mobilecode_connect::ids::{DeviceId, ServiceId, SessionId, UserId};
use mobilecode_connect::ip::{IpAddr, SocketAddr};
use mobilecode_connect::protocol::ServiceProtocol;
use mobilecode_connect::token::ControlRole;

fn common() -> AdminCommonArgs {
    AdminCommonArgs {
        control: "http://127.0.0.1:4242".to_string(),
        token: "admin-token".to_string(),
    }
}

fn no_filters() -> AdminListArgs {
    AdminListArgs {
        limit: None,
        offset: None,
        sort: None,
        q: None,
        role: None,
        enabled: None,
        status: None,
        user_id: None,
        device_id: None,
        healthy: None,
        action: None,
        target_type: None,
    }
}

fn relay_addr() -> SocketAddr {
    SocketAddr { ip: IpAddr::V4(0x7f00_0001), port: 4443 }
}

#[test]
fn admin_users_args_build_admin_query() {
    let mut query = no_filters();
    query.limit = Some(50);
    query.offset = Some(10);
    query.q = Some("alice".to_string());
    query.sort = Some("email".to_string());
    query.role = Some("admin".to_string());
    query.enabled = Some(true);
    let query_args = AdminListCommandArgs { common: common(), query };

    assert_eq!(query_args.common.control, "http://127.0.0.1:4242");
    assert_eq!(query_args.common.token, "admin-token");
    let query = query_args.query.to_query();

    assert_eq!(query.limit, Some(50));
    assert_eq!(query.offset, Some(10));
    assert_eq!(query.q.as_deref(), Some("alice"));
    assert_eq!(query.sort.as_deref(), Some("email"));
    assert_eq!(query.role.as_deref(), Some("admin"));
    assert_eq!(query.enabled, Some(true));
}

#[test]
fn admin_device_access_args_build_path_device_and_query() {
    let mut query = no_filters();
    query.user_id = Some("user_abc".to_string());
    query.limit = Some(20);
    let device_args = AdminDeviceAccessArgs {
        common: common(),
        device: "server_001".to_string(),
        query,
    };
    let query = device_args.query.to_query();

    assert_eq!(device_args.common.control, "http://127.0.0.1:4242");
    assert_eq!(device_args.common.token, "admin-token");
    assert_eq!(device_args.device.as_str(), "server_001");
    assert_eq!(query.user_id.unwrap().as_str(), "user_abc");
    assert_eq!(query.limit, Some(20));
}

#[test]
fn admin_create_user_args_build_request() {
    let role = parse_user_role("admin").unwrap();
    let enabled: bool = "false".parse().unwrap();
    let user_args = AdminCreateUserArgs {
        common: common(),
        email: "member@example.com".to_string(),
        password: "password-123".to_string(),
        name: "Member".to_string(),
        role,
        enabled,
    };
    let request = user_args.request();

    assert_eq!(user_args.common.control, "http://127.0.0.1:4242");
    assert_eq!(request.email, "member@example.com");
    assert_eq!(request.password, "password-123");
    assert_eq!(request.display_name, "Member");
    assert_eq!(request.role, ControlRole::Admin);
    assert!(!request.enabled);
}

#[test]
fn admin_user_status_and_assign_plan_args_build_requests() {
    let status_args = AdminSetUserStatusArgs {
        common: common(),
        user_id: parse_user_id("user_abc").unwrap(),
        enabled: false,
    };
    assert_eq!(status_args.user_id.as_str(), "user_abc");
    assert!(!status_args.request().enabled);

    let plan_args = AdminAssignPlanArgs {
        common: common(),
        user_id: parse_user_id("user_abc").unwrap(),
        plan_id: "team".to_string(),
    };
    assert_eq!(plan_args.user_id.as_str(), "user_abc");
    assert_eq!(plan_args.request().plan_id, "team");
}

#[test]
fn admin_relay_and_device_access_mutation_args_build_requests() {
    let relay_args = AdminRegisterRelayArgs {
        common: common(),
        relay_id: "relay_local".to_string(),
        relay_addr: "127.0.0.1:4443".to_string(),
        admin_addr: "127.0.0.1:9090".to_string(),
        capacity_streams: 64,
    };
    let request = relay_args.request();
    assert_eq!(request.relay_id, "relay_local");
    assert_eq!(request.relay_addr, "127.0.0.1:4443");
    assert_eq!(request.admin_addr, "127.0.0.1:9090");
    assert_eq!(request.capacity_streams, 64);

    let grant_args = AdminGrantDeviceAccessArgs {
        common: common(),
        device: parse_device_id("server_001").unwrap(),
        user_id: parse_user_id("user_abc").unwrap(),
    };
    assert_eq!(grant_args.device.as_str(), "server_001");
    assert_eq!(grant_args.request().user_id.as_str(), "user_abc");
}

#[test]
fn admin_create_relay_bootstrap_args_build_request() {
    let args = AdminCreateRelayBootstrapArgs {
        common: AdminCommonArgs {
            control: "https://control.example.com".to_string(),
            token: "admin-token".to_string(),
        },
        relay_id: "relay_bootstrap".to_string(),
        relay_addr: "relay.example.com:4443".to_string(),
        admin_addr: "127.0.0.1:9090".to_string(),
        capacity_streams: 128,
        heartbeat_interval_sec: 30,
        ttl_sec: 900,
    };
    let request = args.request();
    assert_eq!(request.relay_id, "relay_bootstrap");
    assert_eq!(request.control_url, "https://control.example.com");
    assert_eq!(request.relay_addr, "relay.example.com:4443");
    assert_eq!(request.admin_addr, "127.0.0.1:9090");
    assert_eq!(request.capacity_streams, 128);
    assert_eq!(request.heartbeat_interval_sec, 30);
    assert_eq!(request.ttl_sec, 900);
}

#[test]
fn admin_update_relay_and_revoke_device_access_args_build_requests() {
    let relay_args = AdminUpdateRelayArgs {
        common: common(),
        relay_id: "relay_local".to_string(),
        relay_addr: "127.0.0.1:4444".to_string(),
        admin_addr: "127.0.0.1:9091".to_string(),
        capacity_streams: 32,
        healthy: false,
    };
    let request = relay_args.request();
    assert_eq!(relay_args.relay_id, "relay_local");
    assert_eq!(request.relay_addr, "127.0.0.1:4444");
    assert_eq!(request.admin_addr, "127.0.0.1:9091");
    assert_eq!(request.capacity_streams, 32);
    assert!(!request.healthy);

    let revoke_args = AdminRevokeDeviceAccessArgs {
        common: common(),
        device: parse_device_id("server_001").unwrap(),
        user_id: parse_user_id("user_abc").unwrap(),
    };
    assert_eq!(revoke_args.device.as_str(), "server_001");
    assert_eq!(revoke_args.user_id.as_str(), "user_abc");
}

#[test]
fn agentd_args_build_direct_relay_config_and_service_registry_input() {
    let session = Some(parse_session_id("sess_001").unwrap());
    let token = Some("relay-token".to_string());
    let direct = agent_direct_relay_config(Some(relay_addr()), &session, &token).unwrap();
    assert_eq!(direct.relay_addr, relay_addr());
    assert_eq!(direct.session_id.as_str(), "sess_001");
    assert_eq!(direct.token, "relay-token");

    let services = vec![parse_service_arg("svc_web_3000=127.0.0.1:3000").unwrap()];
    assert_eq!(services.len(), 1);
    assert_eq!(services[0].service_id.as_str(), "svc_web_3000");
    assert_eq!(services[0].name, "svc_web_3000");
    assert_eq!(services[0].protocol, ServiceProtocol::Tcp);
    assert_eq!(services[0].target_host, "127.0.0.1");
    assert_eq!(services[0].target_port, 3000);
}

#[test]
fn service_args_take_the_last_colon_as_the_port_separator() {
    let service = parse_service_arg("svc=::1:8080").unwrap();
    assert_eq!(service.service_id.as_str(), "svc");
    assert_eq!(service.target_host, "::1");
    assert_eq!(service.target_port, 8080);
}

#[test]
fn service_args_are_refused_with_a_reason_for_each_fault() {
    assert_eq!(
        parse_service_arg("svc_web_3000").unwrap_err(),
        "service must use service_id=host:port"
    );
    assert_eq!(
        parse_service_arg("  =127.0.0.1:3000").unwrap_err(),
        "service id must not be empty"
    );
    assert_eq!(
        parse_service_arg("svc=localhost").unwrap_err(),
        "service target must use host:port"
    );
    assert_eq!(parse_service_arg("svc= :3000").unwrap_err(), "service host must not be empty");
    assert_eq!(
        parse_service_arg("svc=127.0.0.1:70000").unwrap_err(),
        "service port must be a valid u16"
    );
    assert_eq!(
        parse_service_arg("svc=127.0.0.1:http").unwrap_err(),
        "service port must be a valid u16"
    );
}

#[test]
fn identifiers_must_not_be_blank() {
    assert_eq!(parse_session_id("sess_001").unwrap().as_str(), "sess_001");
    assert!(parse_session_id("   ").is_err());
    assert!(parse_user_id("").is_err());
    assert!(parse_device_id(" \t").is_err());
}

#[test]
fn user_roles_are_user_or_admin() {
    assert_eq!(parse_user_role("user").unwrap(), ControlRole::User);
    assert_eq!(parse_user_role("admin").unwrap(), ControlRole::Admin);
    assert_eq!(parse_user_role("relay").unwrap_err(), "role must be user or admin");
    assert_eq!(parse_user_role("Admin").unwrap_err(), "role must be user or admin");
}

#[test]
fn invite_services_must_be_exposed() {
    let services = vec![parse_service_arg("svc_web_3000=127.0.0.1:3000").unwrap()];
    assert!(check_invite_services(&services, &vec![ServiceId::new("svc_web_3000")]).is_ok());
    let refused =
        check_invite_services(&services, &vec![ServiceId::new("svc_web_3000"), ServiceId::new("svc_db")])
            .unwrap_err();
    assert!(refused.contains("svc_db"));
}

#[test]
fn direct_relay_mode_needs_all_three_arguments() {
    let session: Option<SessionId> = Some(SessionId::new("sess_001"));
    let token = Some("relay-token".to_string());
    let direct = direct_relay_config(Some(relay_addr()), &session, &token).unwrap().unwrap();
    assert_eq!(direct.session_id.as_str(), "sess_001");
    assert!(direct_relay_config(None, &None, &None).unwrap().is_none());
    assert_eq!(
        direct_relay_config(Some(relay_addr()), &None, &token).unwrap_err(),
        "--relay, --session, and --relay-token must be provided together for direct Relay mode"
    );
    assert_eq!(
        agent_direct_relay_config(None, &None, &None).unwrap_err(),
        "--control is required unless --relay, --session, and --relay-token are provided"
    );
}

#[test]
fn control_client_options_follow_the_arguments() {
    let options = control_client_options(Some(1500), 3, 250);
    assert_eq!(options.request_timeout(), Some(std::time::Duration::from_millis(1500)));
    assert_eq!(options.max_retries(), 3);
    assert_eq!(options.retry_backoff(), std::time::Duration::from_millis(250));
    let options = control_client_options(None, 0, 100);
    assert_eq!(options.request_timeout(), None);
}

#[test]
fn pairing_polls_wait_the_longer_interval_and_at_least_a_millisecond() {
    assert_eq!(pairing_poll_delay_ms(500, 250), 500);
    assert_eq!(pairing_poll_delay_ms(100, 250), 250);
    assert_eq!(pairing_poll_delay_ms(0, 0), 1);
}

#[test]
fn admin_common_args_build_a_client_for_the_control_url() {
    let client = common().client().unwrap();
    assert_eq!(client.endpoint().host_header(), "127.0.0.1:4242");
    let bad = AdminCommonArgs { control: "ftp://example.com".to_string(), token: "t".to_string() };
    assert!(bad.client().is_err());
    let _ = UserId::new("x");
    let _ = DeviceId::new("y");
}

#[test]
fn pairings_and_invites_need_a_service() {
    assert_eq!(
        mobilecode_connect::cli::check_requested_services(&vec![]).unwrap_err(),
        "at least one --service is required"
    );
    assert!(mobilecode_connect::cli::check_requested_services(&vec![ServiceId::new("svc")]).is_ok());
}

#[test]
fn agent_public_key_defaults_to_the_device_name() {
    let device = DeviceId::new("pc_001");
    assert_eq!(
        mobilecode_connect::cli::server_public_key(&None, &device),
        "agentd-public-key-pc_001"
    );
    assert_eq!(
        mobilecode_connect::cli::server_public_key(&Some("key-123".to_string()), &device),
        "key-123"
    );
}

#[test]
fn open_service_args_build_sdk_config_and_request_for_control_mode() {
    let options = control_client_options(Some(5000), 2, 25);
    assert_eq!(options.request_timeout().unwrap().as_millis(), 5000);
    assert_eq!(options.max_retries(), 2);
    assert_eq!(options.retry_backoff().as_millis(), 25);
    assert!(direct_relay_config(None, &None, &None).unwrap().is_none());
}

#[test]
fn open_service_args_accept_direct_relay_mode() {
    let relay = mobilecode_connect::ip::parse_socket_addr_str("127.0.0.1:4443");
    let session = Some(parse_session_id("sess_001").unwrap());
    let token = Some("relay-token".to_string());
    let direct = direct_relay_config(relay, &session, &token).unwrap().unwrap();
    assert_eq!(direct.relay_addr, relay_addr());
    assert_eq!(direct.session_id.as_str(), "sess_001");
    assert_eq!(direct.token, "relay-token");
}

#[test]
fn p2p_identity_dirs_hold_both_files_or_neither() {
    assert_eq!(p2p_identity_action(true, true, "id").unwrap(), P2pIdentityAction::Load);
    assert_eq!(p2p_identity_action(false, false, "id").unwrap(), P2pIdentityAction::Generate);
    assert_eq!(
        p2p_identity_action(true, false, "agent-identity").unwrap_err(),
        "p2p identity dir agent-identity has cert.der but is missing key.pkcs8.der"
    );
    assert_eq!(
        p2p_identity_action(false, true, "agent-identity").unwrap_err(),
        "p2p identity dir agent-identity has key.pkcs8.der but is missing cert.der"
    );
}
