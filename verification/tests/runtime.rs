use mobilecode_connect::config::{AgentConfig, ServiceConfig};
use mobilecode_connect::ip::{IpAddr, SocketAddr};
use mobilecode_connect::runtime::{assignment_punch_addr, assignment_relay_addr};
use mobilecode_connect::control_client::{ControlClientError, StatusCode};
use mobilecode_connect::ids::{ClientId, DeviceId, ServiceId, SessionId, UserId};
use mobilecode_connect::mobile_grant::{
    CreateMobileInviteRequest, MobileGrantManager, MobileGrantManagerError,
};
use mobilecode_connect::models::{AgentSessionAssignment, AgentSessionStatus};
use mobilecode_connect::protocol::{DeviceStatus, MobilePairingRequest, ServiceProtocol};
use mobilecode_connect::runtime::{
    active_mobile_grant_metadata_from_assignment, active_mobile_grant_metadata_is_valid,
    device_from_config, is_claim_conflict, pairing_reply, revoked_mobile_grant_session_ids,
    services_from_config, session_reply, validate_grant_assignment, ActiveMobileGrantMetadata,
    AgentError, PairingReply,
};

fn manager_with_grant(
    device_id: &DeviceId,
    client_id: &ClientId,
    service_id: &ServiceId,
) -> (MobileGrantManager, String, u64) {
    let mut grants = MobileGrantManager::default();
    let invite = grants
        .create_invite(
            CreateMobileInviteRequest {
                control_url: "http://127.0.0.1".to_string(),
                device_id: device_id.clone(),
                allowed_services: vec![service_id.clone()],
                ttl_sec: 4_102_444_800,
                max_uses: 1,
                agent_p2p_cert_fingerprint: None,
            },
            1_000,
        )
        .unwrap();
    let grant = grants
        .approve_pairing(
            &MobilePairingRequest {
                device_id: device_id.clone(),
                invite_id: invite.invite_id.clone(),
                client_id: client_id.clone(),
                requested_services: vec![service_id.clone()],
                nonce: "pairing-nonce".to_string(),
                proof: invite.invite_secret.clone(),
            },
            1_001,
            |request: &MobilePairingRequest, secret: &str| request.proof == secret,
            |secret: &str, grant_id: &str, _client: &ClientId| Some(format!("{secret}:{grant_id}")),
        )
        .unwrap();
    (grants, grant.grant_id, grant.revocation_version)
}

#[test]
fn active_mobile_grant_metadata_is_invalid_after_local_revoke() {
    let device_id = DeviceId::new("pc_active_revoke");
    let service_id = ServiceId::new("svc_web_3000");
    let client_id = ClientId::new("mobile_001");
    let (mut grants, grant_id, revocation_version) =
        manager_with_grant(&device_id, &client_id, &service_id);
    let metadata = ActiveMobileGrantMetadata {
        device_id,
        client_id,
        service_id,
        grant_id: grant_id.clone(),
        revocation_version,
    };

    assert!(active_mobile_grant_metadata_is_valid(Some(&grants), &metadata));

    grants.revoke_grant(&grant_id).unwrap();

    assert!(!active_mobile_grant_metadata_is_valid(Some(&grants), &metadata));
}

#[test]
fn revoked_mobile_grant_session_ids_ignore_regular_sessions() {
    let grants = MobileGrantManager::default();
    let metadata = ActiveMobileGrantMetadata {
        device_id: DeviceId::new("pc_active_revoke"),
        client_id: ClientId::new("mobile_001"),
        service_id: ServiceId::new("svc_web_3000"),
        grant_id: "missing-grant".to_string(),
        revocation_version: 1,
    };

    let revoked = revoked_mobile_grant_session_ids(
        &vec![
            (SessionId::new("sess_regular"), None),
            (SessionId::new("sess_grant"), Some(metadata)),
        ],
        Some(&grants),
    );

    assert_eq!(revoked, vec![SessionId::new("sess_grant")]);
}

fn assignment(
    device_id: &DeviceId,
    client_id: &ClientId,
    service_id: &ServiceId,
    grant: Option<(String, u64, ServiceId)>,
) -> AgentSessionAssignment {
    let (grant_id, grant_revocation_version, grant_service_id) = match grant {
        Some((g, v, s)) => (Some(g), Some(v), Some(s)),
        None => (None, None, None),
    };
    AgentSessionAssignment {
        session_id: SessionId::new("sess_001"),
        user_id: UserId::new(""),
        device_id: device_id.clone(),
        service_id: service_id.clone(),
        client_id: client_id.clone(),
        relay_token: "relay-token".to_string(),
        relay_addr: "127.0.0.1:4443".to_string(),
        punch_addr: "127.0.0.1:3478".to_string(),
        expire_at: 4_102_444_800,
        status: AgentSessionStatus::Claimed,
        grant_id,
        grant_revocation_version,
        grant_service_id,
    }
}

fn rejection(result: Result<(), AgentError>) -> String {
    match result {
        Err(AgentError::MobileGrantRejected { reason }) => reason,
        other => panic!("unexpected {other:?}"),
    }
}

#[test]
fn grant_assignments_are_checked_against_the_store() {
    let device_id = DeviceId::new("pc_001");
    let service_id = ServiceId::new("svc_web_3000");
    let client_id = ClientId::new("mobile_001");
    let (mut grants, grant_id, version) = manager_with_grant(&device_id, &client_id, &service_id);

    let plain = assignment(&device_id, &client_id, &service_id, None);
    assert!(validate_grant_assignment(None, &plain).is_ok());
    assert!(active_mobile_grant_metadata_from_assignment(&plain).is_none());

    let mut partial = plain.clone();
    partial.grant_id = Some(grant_id.clone());
    assert_eq!(rejection(validate_grant_assignment(Some(&grants), &partial)), "incomplete grant metadata");

    let good = assignment(&device_id, &client_id, &service_id, Some((grant_id.clone(), version, service_id.clone())));
    assert!(validate_grant_assignment(Some(&grants), &good).is_ok());
    let metadata = active_mobile_grant_metadata_from_assignment(&good).unwrap();
    assert_eq!(metadata.grant_id, grant_id);
    assert_eq!(rejection(validate_grant_assignment(None, &good)), "grant manager unavailable");

    let missing = assignment(&device_id, &client_id, &service_id, Some(("gr_missing".to_string(), version, service_id.clone())));
    assert_eq!(rejection(validate_grant_assignment(Some(&grants), &missing)), "grant not found");

    let stale = assignment(&device_id, &client_id, &service_id, Some((grant_id.clone(), version + 1, service_id.clone())));
    assert_eq!(rejection(validate_grant_assignment(Some(&grants), &stale)), "grant metadata mismatch");

    let other_service = ServiceId::new("svc_other");
    let mismatch = assignment(&device_id, &client_id, &service_id, Some((grant_id.clone(), version, other_service)));
    assert_eq!(rejection(validate_grant_assignment(Some(&grants), &mismatch)), "grant metadata mismatch");

    grants.revoke_grant(&grant_id).unwrap();
    assert_eq!(rejection(validate_grant_assignment(Some(&grants), &good)), "grant revoked");
}

#[test]
fn registered_device_and_services_come_from_the_config() {
    let config = AgentConfig {
        device_id: DeviceId::new("pc_001"),
        control_server: "http://127.0.0.1:4242".to_string(),
        auth_token: "token".to_string(),
        services: vec![ServiceConfig {
            service_id: ServiceId::new("svc_web_3000"),
            name: "Dev Web".to_string(),
            protocol: ServiceProtocol::Tcp,
            target_host: "127.0.0.1".to_string(),
            target_port: 3000,
        }],
        p2p_certificate_der: None,
    };
    let device = device_from_config(&config, "0.1.0");
    assert_eq!(device.device_id, DeviceId::new("pc_001"));
    assert_eq!(device.user_id, UserId::new("user_001"));
    assert_eq!(device.name, "pc_001");
    assert_eq!(device.status, DeviceStatus::Online);
    assert_eq!(device.agent_version, "0.1.0");
    let services = services_from_config(&config.device_id, config.services.clone());
    assert_eq!(services.len(), 1);
    assert_eq!(services[0].device_id, DeviceId::new("pc_001"));
    assert_eq!(services[0].target_port, 3000);
}

#[test]
fn pending_requests_are_answered_from_the_store_outcome() {
    match pairing_reply(Err(MobileGrantManagerError::ScopeDenied)) {
        PairingReply::Deny(d) => assert_eq!(d.reason.as_deref(), Some("mobile grant scope denied")),
        other => panic!("unexpected {other:?}"),
    }
    assert!(session_reply(Err(MobileGrantManagerError::GrantRevoked))
        .unwrap()
        .reason
        .unwrap()
        .contains("revoked"));
    assert!(is_claim_conflict(&ControlClientError::HttpStatus {
        status_code: StatusCode::from_u16(409),
        body: Vec::new()
    }));
    assert!(!is_claim_conflict(&ControlClientError::HttpStatus {
        status_code: StatusCode::from_u16(500),
        body: Vec::new()
    }));
}

#[test]
fn claimed_sessions_name_their_relay_and_punch_addresses() {
    let device_id = DeviceId::new("pc_001");
    let client_id = ClientId::new("mobile_001");
    let service_id = ServiceId::new("svc_web_3000");
    let mut claimed = assignment(&device_id, &client_id, &service_id, None);
    assert_eq!(
        assignment_relay_addr(&claimed).unwrap(),
        SocketAddr { ip: IpAddr::V4(0x7f00_0001), port: 4443 }
    );
    assert_eq!(
        assignment_punch_addr(&claimed).unwrap(),
        SocketAddr { ip: IpAddr::V4(0x7f00_0001), port: 3478 }
    );

    claimed.relay_addr = "relay.example.com:4443".to_string();
    match assignment_relay_addr(&claimed) {
        Err(AgentError::InvalidRelayAddress { value }) => assert_eq!(value, "relay.example.com:4443"),
        other => panic!("unexpected {other:?}"),
    }
    claimed.punch_addr = "127.0.0.1".to_string();
    match assignment_punch_addr(&claimed) {
        Err(AgentError::InvalidPunchAddress { value }) => assert_eq!(value, "127.0.0.1"),
        other => panic!("unexpected {other:?}"),
    }
}
