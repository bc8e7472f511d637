use mobilecode_connect::config::ServiceConfig;
use mobilecode_connect::ids::ServiceId;
use mobilecode_connect::ip::{IpAddr, SocketAddr};
use mobilecode_connect::protocol::ServiceProtocol;
use mobilecode_connect::registry::ServiceRegistry;
use mobilecode_connect::target_policy::{
    default_allowed_lan_cidrs, detected_lan_cidr_for_interface, network_prefix_match,
    stream_service, stream_target, AgentStreamError, IpNetwork, TargetAccessPolicy,
    TargetAccessPolicyError,
};

fn v4(a: u8, b: u8, c: u8, d: u8) -> IpAddr {
    IpAddr::V4(u32::from_be_bytes([a, b, c, d]))
}

fn service(host: &str, port: u16) -> ServiceConfig {
    ServiceConfig {
        service_id: ServiceId::new("svc_web_3000"),
        name: "Dev Web".to_string(),
        protocol: ServiceProtocol::Tcp,
        target_host: host.to_string(),
        target_port: port,
    }
}

#[test]
fn detected_lan_cidr_uses_interface_netmask() {
    assert_eq!(
        detected_lan_cidr_for_interface("192.168.1.42", "255.255.255.0").unwrap(),
        "192.168.1.0/24"
    );
    assert_eq!(
        detected_lan_cidr_for_interface("10.4.5.6", "255.0.0.0").unwrap(),
        "10.0.0.0/8"
    );
    assert!(detected_lan_cidr_for_interface("8.8.8.8", "255.255.255.0").is_none());
}

#[test]
fn detected_lan_cidr_refuses_non_prefix_masks() {
    assert!(detected_lan_cidr_for_interface("192.168.1.42", "255.0.255.0").is_none());
    assert_eq!(
        detected_lan_cidr_for_interface("127.0.0.1", "0.0.0.0").unwrap(),
        "0.0.0.0/0"
    );
    assert_eq!(
        detected_lan_cidr_for_interface("169.254.3.4", "255.255.255.255").unwrap(),
        "169.254.3.4/32"
    );
    assert!(detected_lan_cidr_for_interface("not an ip", "255.0.0.0").is_none());
}

#[test]
fn prefix_match_compares_leading_bits() {
    assert!(network_prefix_match(0x0a00_0000, 0x0aff_ffff, 8, 32));
    assert!(!network_prefix_match(0x0a00_0000, 0x0b00_0000, 8, 32));
    assert!(network_prefix_match(1, 2, 0, 32));
    assert!(network_prefix_match(5, 5, 32, 32));
    assert!(!network_prefix_match(5, 4, 32, 32));
    assert!(network_prefix_match(1, 1, 128, 128));
}

#[test]
fn networks_parse_and_contain_addresses() {
    let net = IpNetwork::parse("10.0.0.0/8").unwrap();
    assert!(net.contains(v4(10, 200, 1, 1)));
    assert!(!net.contains(v4(11, 0, 0, 1)));
    assert!(!net.contains(IpAddr::V6(1)));
    let v6 = IpNetwork::parse("fe80::/10").unwrap();
    assert!(v6.contains(IpAddr::V6(0xfe80_0000_0000_0000_0000_0000_0000_0001)));
    assert_eq!(
        IpNetwork::parse("10.0.0.0/33").unwrap_err(),
        TargetAccessPolicyError::InvalidCidr
    );
    assert_eq!(
        IpNetwork::parse("10.0.0.0").unwrap_err(),
        TargetAccessPolicyError::InvalidCidr
    );
    assert_eq!(
        IpNetwork::parse("nope/8").unwrap_err(),
        TargetAccessPolicyError::InvalidCidr
    );
    assert_eq!(default_allowed_lan_cidrs().len(), 2);
}

#[test]
fn policy_refuses_a_list_with_a_bad_network() {
    assert!(TargetAccessPolicy::with_allowed_lan_cidrs(&["127.0.0.0/8", "x"]).is_err());
    assert!(TargetAccessPolicy::with_allowed_lan_cidrs(&[]).is_ok());
}

#[test]
fn handle_data_stream_blocks_target_outside_receiver_lan_policy() {
    let registry = ServiceRegistry::new(vec![service("192.168.1.50", 3000)]).unwrap();
    let policy = TargetAccessPolicy::with_allowed_lan_cidrs(&["10.0.0.0/8"]).unwrap();
    let id = ServiceId::new("svc_web_3000");
    let found = stream_service(&registry, &id).unwrap();
    let resolved = Ok(vec![SocketAddr { ip: v4(192, 168, 1, 50), port: 3000 }]);
    let err = stream_target(&policy, &id, found, resolved).unwrap_err();
    assert!(matches!(err, AgentStreamError::TargetAccessDenied { .. }));
}

#[test]
fn handle_data_stream_blocks_domain_that_resolves_outside_receiver_lan_policy() {
    let registry = ServiceRegistry::new(vec![service("public.example.test", 3000)]).unwrap();
    let policy = TargetAccessPolicy::with_allowed_lan_cidrs(&["10.0.0.0/8"]).unwrap();
    let id = ServiceId::new("svc_web_3000");
    let found = stream_service(&registry, &id).unwrap();
    let resolved = Ok(vec![SocketAddr { ip: v4(192, 168, 1, 50), port: 3000 }]);
    let err = stream_target(&policy, &id, found, resolved).unwrap_err();
    assert!(matches!(err, AgentStreamError::TargetAccessDenied { .. }));
}

#[test]
fn handle_data_stream_allows_domain_that_resolves_inside_receiver_lan_policy() {
    let registry = ServiceRegistry::new(vec![service("internal.example.test", 4000)]).unwrap();
    let policy = TargetAccessPolicy::with_allowed_lan_cidrs(&["127.0.0.0/8"]).unwrap();
    let id = ServiceId::new("svc_web_3000");
    let found = stream_service(&registry, &id).unwrap();
    let resolved = Ok(vec![
        SocketAddr { ip: v4(8, 8, 8, 8), port: 4000 },
        SocketAddr { ip: v4(127, 0, 0, 1), port: 4000 },
    ]);
    let target = stream_target(&policy, &id, found, resolved).unwrap();
    assert_eq!(target, SocketAddr { ip: v4(127, 0, 0, 1), port: 4000 });
}

#[test]
fn handle_data_stream_allows_target_inside_receiver_lan_policy() {
    let registry = ServiceRegistry::new(vec![service("127.0.0.1", 4000)]).unwrap();
    let policy = TargetAccessPolicy::with_allowed_lan_cidrs(&["127.0.0.0/8"]).unwrap();
    let id = ServiceId::new("svc_web_3000");
    let found = stream_service(&registry, &id).unwrap();
    let resolved = Ok(vec![
        SocketAddr { ip: v4(127, 0, 0, 2), port: 4000 },
        SocketAddr { ip: v4(127, 0, 0, 1), port: 4000 },
    ]);
    let target = stream_target(&policy, &id, found, resolved).unwrap();
    assert_eq!(target, SocketAddr { ip: v4(127, 0, 0, 1), port: 4000 });
}

#[test]
fn handle_data_stream_rejects_unknown_service_id() {
    let registry = ServiceRegistry::new(vec![service("127.0.0.1", 3000)]).unwrap();
    let err = stream_service(&registry, &ServiceId::new("svc_missing")).unwrap_err();
    assert!(matches!(err, AgentStreamError::ServiceNotFound { .. }));
}

#[test]
fn stream_target_reports_resolution_failure() {
    let config = service("internal.example.test", 4000);
    let policy = TargetAccessPolicy::with_allowed_lan_cidrs(&["127.0.0.0/8"]).unwrap();
    let id = ServiceId::new("svc_web_3000");
    let err = stream_target(
        &policy,
        &id,
        &config,
        Err(std::io::Error::new(std::io::ErrorKind::NotFound, "no such host")),
    )
    .unwrap_err();
    match err {
        AgentStreamError::TargetResolveFailed { target_host, .. } => {
            assert_eq!(target_host, "internal.example.test")
        }
        other => panic!("unexpected {other:?}"),
    }
}

#[test]
fn allowed_target_addrs_keeps_only_the_named_address() {
    let policy = TargetAccessPolicy::with_allowed_lan_cidrs(&["10.0.0.0/8"]).unwrap();
    let addrs = vec![
        SocketAddr { ip: v4(10, 0, 0, 1), port: 1 },
        SocketAddr { ip: v4(10, 0, 0, 2), port: 1 },
        SocketAddr { ip: v4(10, 0, 0, 1), port: 2 },
    ];
    let kept = policy.allowed_target_addrs(" 10.0.0.1 ", addrs.clone()).unwrap();
    assert_eq!(
        kept,
        vec![
            SocketAddr { ip: v4(10, 0, 0, 1), port: 1 },
            SocketAddr { ip: v4(10, 0, 0, 1), port: 2 }
        ]
    );
    assert_eq!(
        policy.allowed_target_addrs("11.0.0.1", addrs.clone()).unwrap_err(),
        TargetAccessPolicyError::Denied
    );
    assert_eq!(
        policy.allowed_target_addrs("not a host!", addrs).unwrap_err(),
        TargetAccessPolicyError::Denied
    );
}

#[test]
fn detected_networks_extend_the_defaults() {
    let policy = TargetAccessPolicy::with_detected_lan_cidrs(vec![IpNetwork::parse("192.168.0.0/16").unwrap()]);
    assert!(policy.allows_ip(v4(127, 1, 2, 3)));
    assert!(policy.allows_ip(IpAddr::V6(1)));
    assert!(policy.allows_ip(v4(192, 168, 9, 9)));
    assert!(!policy.allows_ip(v4(10, 0, 0, 1)));
}
