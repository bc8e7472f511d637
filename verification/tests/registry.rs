use mobilecode_connect::config::ServiceConfig;
use mobilecode_connect::ids::ServiceId;
use mobilecode_connect::protocol::ServiceProtocol;
use mobilecode_connect::registry::{is_domain_name, ServiceRegistry, ServiceRegistryError};

fn service(id: &str, port: u16) -> ServiceConfig {
    ServiceConfig {
        service_id: ServiceId::new(id),
        name: "Dev Web".to_string(),
        protocol: ServiceProtocol::Tcp,
        target_host: "127.0.0.1".to_string(),
        target_port: port,
    }
}

#[test]
fn registry_returns_service_target_by_id() {
    let registry = ServiceRegistry::new(vec![service("svc_web_3000", 3000)]).unwrap();
    let found = registry.get(&ServiceId::new("svc_web_3000")).unwrap();

    assert_eq!(found.target_addr(), "127.0.0.1:3000");
}

#[test]
fn registry_rejects_duplicate_service_id() {
    let err = ServiceRegistry::new(vec![
        service("svc_web_3000", 3000),
        service("svc_web_3000", 3001),
    ])
    .unwrap_err();

    assert!(matches!(
        err,
        ServiceRegistryError::DuplicateServiceId { .. }
    ));
}

#[test]
fn registry_rejects_empty_target_host() {
    let mut config = service("svc_web_3000", 3000);
    config.target_host.clear();

    let err = ServiceRegistry::new(vec![config]).unwrap_err();

    assert!(matches!(err, ServiceRegistryError::InvalidTarget { .. }));
}

#[test]
fn registry_rejects_zero_target_port() {
    let err = ServiceRegistry::new(vec![service("svc_web_3000", 0)]).unwrap_err();

    assert!(matches!(err, ServiceRegistryError::InvalidTarget { .. }));
}

#[test]
fn registry_allows_local_lan_and_domain_targets() {
    for target_host in [
        "localhost",
        "127.0.0.1",
        "192.168.1.20",
        "10.0.0.5",
        "172.16.4.8",
        "printer.home.arpa",
        "nas.local",
    ] {
        let mut config = service("svc_web_3000", 3000);
        config.target_host = target_host.to_string();

        ServiceRegistry::new(vec![config]).expect(target_host);
    }
}

#[test]
fn registry_rejects_public_or_unspecified_ip_targets() {
    for target_host in ["0.0.0.0", "8.8.8.8", "1.1.1.1", "255.255.255.255"] {
        let mut config = service("svc_web_3000", 3000);
        config.target_host = target_host.to_string();

        let err = ServiceRegistry::new(vec![config]).unwrap_err();
        assert!(matches!(err, ServiceRegistryError::InvalidTarget { .. }));
    }
}

#[test]
fn registry_reports_the_first_refused_service() {
    let mut bad = service("svc_bad", 3000);
    bad.target_host = "8.8.8.8".to_string();
    let err = ServiceRegistry::new(vec![
        service("svc_a", 1),
        bad,
        service("svc_a", 2),
    ])
    .unwrap_err();
    match err {
        ServiceRegistryError::InvalidTarget {
            service_id,
            target_host,
            target_port,
        } => {
            assert_eq!(service_id, ServiceId::new("svc_bad"));
            assert_eq!(target_host, "8.8.8.8");
            assert_eq!(target_port, 3000);
        }
        other => panic!("unexpected {other:?}"),
    }
}

#[test]
fn registry_allows_private_ipv6_and_shared_space_targets() {
    for target_host in ["::1", "fd00::1", "fe80::1", "100.64.0.1", " 10.1.2.3 "] {
        let mut config = service("svc", 22);
        config.target_host = target_host.to_string();
        ServiceRegistry::new(vec![config]).expect(target_host);
    }
    for target_host in ["2001:db8::1", "100.128.0.1", "-bad.example", "a..b", ".lead"] {
        let mut config = service("svc", 22);
        config.target_host = target_host.to_string();
        assert!(ServiceRegistry::new(vec![config]).is_err(), "{target_host}");
    }
}

#[test]
fn domain_names_follow_label_rules() {
    assert!(is_domain_name("nas.local"));
    assert!(is_domain_name("a-b.c1"));
    assert!(!is_domain_name(""));
    assert!(!is_domain_name("trailing."));
    assert!(!is_domain_name("-x.y"));
    assert!(!is_domain_name("x-.y"));
    assert!(!is_domain_name("under_score.y"));
    assert!(!is_domain_name(&"a".repeat(64)));
    assert!(is_domain_name(&"a".repeat(63)));
    assert!(!is_domain_name("é.local"));
}
