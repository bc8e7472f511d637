use mobilecode_connect::ids::{ClientId, DeviceId, ServiceId};
use mobilecode_connect::mobile_grant::{
    CreateMobileInviteRequest, MobileGrantManager, MobileGrantManagerError, MobileGrantState,
    MobileInviteRecord,
};
use mobilecode_connect::protocol::{
    GrantSessionRequest, MobileGrantCredential, MobileInvitePayload, MobilePairingRequest,
};

// The proofs in these tests are the secrets themselves: checking a proof is
// comparing it with the secret, and a grant secret is built from its inputs.
fn verify_pairing(request: &MobilePairingRequest, secret: &str) -> bool {
    request.proof == secret
}

fn verify_session(request: &GrantSessionRequest, secret: &str) -> bool {
    request.proof == secret
}

fn derive(invite_secret: &str, grant_id: &str, client_id: &ClientId) -> Option<String> {
    Some(format!("{invite_secret}|{grant_id}|{}", client_id.as_str()))
}

fn approve(
    manager: &mut MobileGrantManager,
    request: &MobilePairingRequest,
    now: u64,
) -> Result<MobileGrantCredential, MobileGrantManagerError> {
    manager.approve_pairing(request, now, verify_pairing, derive)
}

fn verify(
    manager: &mut MobileGrantManager,
    request: &GrantSessionRequest,
    now: u64,
) -> Result<MobileGrantCredential, MobileGrantManagerError> {
    manager.verify_session(request, now, verify_session)
}

fn sign_session_request(
    grant: &MobileGrantCredential,
    service_id: ServiceId,
    nonce: &str,
) -> GrantSessionRequest {
    GrantSessionRequest {
        device_id: grant.device_id.clone(),
        grant_id: grant.grant_id.clone(),
        client_id: grant.client_id.clone(),
        service_id,
        revocation_version: grant.revocation_version,
        nonce: nonce.to_string(),
        proof: grant.grant_secret.clone(),
    }
}

fn invite(
    manager: &mut MobileGrantManager,
    device_id: DeviceId,
    services: Vec<ServiceId>,
    max_uses: u32,
    fingerprint: Option<&str>,
) -> MobileInvitePayload {
    manager
        .create_invite(
            CreateMobileInviteRequest {
                control_url: "https://control.example.test".to_string(),
                device_id,
                allowed_services: services,
                ttl_sec: 60,
                max_uses,
                agent_p2p_cert_fingerprint: fingerprint.map(str::to_string),
            },
            1_000,
        )
        .unwrap()
}

fn pairing_request(
    invite: &MobileInvitePayload,
    device_id: DeviceId,
    client_id: ClientId,
    requested_services: Vec<ServiceId>,
    nonce: &str,
) -> MobilePairingRequest {
    MobilePairingRequest {
        device_id,
        invite_id: invite.invite_id.clone(),
        client_id,
        requested_services,
        nonce: nonce.to_string(),
        proof: invite.invite_secret.clone(),
    }
}

#[test]
fn mobile_grant_manager_approves_verifies_and_revokes_grants() {
    let mut manager = MobileGrantManager::default();
    let device_id = DeviceId::new("pc_001");
    let service_id = ServiceId::new("svc_web_3000");
    let client_id = ClientId::new("mobile_001");
    let invite = invite(
        &mut manager,
        device_id.clone(),
        vec![service_id.clone()],
        1,
        Some("sha256:test"),
    );
    let pairing = pairing_request(
        &invite,
        device_id.clone(),
        client_id.clone(),
        vec![service_id.clone()],
        "pairing-nonce",
    );

    let grant = approve(&mut manager, &pairing, 1_001).unwrap();
    assert_eq!(grant.device_id, device_id);
    assert_eq!(grant.client_id, client_id);
    assert_eq!(grant.allowed_services, vec![service_id.clone()]);
    assert_eq!(grant.revocation_version, 1);

    let session = sign_session_request(&grant, service_id, "session-nonce");
    assert!(verify(&mut manager, &session, 1_002).is_ok());

    manager.revoke_grant(&grant.grant_id).unwrap();
    assert_eq!(
        verify(&mut manager, &session, 1_003).unwrap_err(),
        MobileGrantManagerError::GrantRevoked
    );
}

#[test]
fn mobile_grant_manager_rejects_bad_or_out_of_scope_pairing() {
    let mut manager = MobileGrantManager::default();
    let device_id = DeviceId::new("pc_001");
    let invite = invite(
        &mut manager,
        device_id.clone(),
        vec![ServiceId::new("svc_web_3000")],
        1,
        None,
    );
    let pairing = pairing_request(
        &invite,
        device_id,
        ClientId::new("mobile_001"),
        vec![ServiceId::new("svc_ssh")],
        "pairing-nonce",
    );

    assert_eq!(
        approve(&mut manager, &pairing, 1_001).unwrap_err(),
        MobileGrantManagerError::ScopeDenied
    );
}

#[test]
fn mobile_grant_manager_lists_and_revokes_invites_and_grants() {
    let mut manager = MobileGrantManager::default();
    let device_id = DeviceId::new("pc_001");
    let service_id = ServiceId::new("svc_web_3000");
    let client_id = ClientId::new("mobile_001");
    let invite = invite(
        &mut manager,
        device_id.clone(),
        vec![service_id.clone()],
        2,
        Some("cert-fp"),
    );
    let pairing = pairing_request(
        &invite,
        device_id.clone(),
        client_id.clone(),
        vec![service_id.clone()],
        "pairing-nonce",
    );
    let grant = approve(&mut manager, &pairing, 1_001).unwrap();

    let invites = manager.list_invites();
    assert_eq!(invites.len(), 1);
    assert_eq!(invites[0].invite_id, invite.invite_id);
    assert_eq!(invites[0].uses, 1);
    assert_eq!(invites[0].max_uses, 2);
    assert!(!invites[0].revoked);
    assert_eq!(
        invites[0].agent_p2p_cert_fingerprint.as_deref(),
        Some("cert-fp")
    );

    let grants = manager.list_grants();
    assert_eq!(grants.len(), 1);
    assert_eq!(grants[0].grant_id, grant.grant_id);
    assert_eq!(grants[0].client_id, client_id);
    assert_eq!(grants[0].revocation_version, 1);
    assert!(grants[0].enabled);
    assert_eq!(
        grants[0].agent_p2p_cert_fingerprint.as_deref(),
        Some("cert-fp")
    );

    manager.revoke_invite(&invite.invite_id).unwrap();
    assert!(manager.list_invites()[0].revoked);
    manager.revoke_grant(&grant.grant_id).unwrap();
    assert!(!manager.list_grants()[0].enabled);
}

#[test]
fn mobile_grant_manager_reuses_grant_for_identical_pairing_retry() {
    let mut manager = MobileGrantManager::default();
    let device_id = DeviceId::new("pc_001");
    let service_id = ServiceId::new("svc_web_3000");
    let client_id = ClientId::new("mobile_001");
    let invite = invite(&mut manager, device_id.clone(), vec![service_id.clone()], 1, None);
    let pairing = pairing_request(
        &invite,
        device_id,
        client_id,
        vec![service_id],
        "pairing-nonce",
    );

    let first = approve(&mut manager, &pairing, 1_001).unwrap();
    let retry = approve(&mut manager, &pairing, 1_002).unwrap();

    assert_eq!(retry.grant_id, first.grant_id);
    assert_eq!(manager.list_invites()[0].uses, 1);
}

#[test]
fn mobile_grant_manager_rejects_reused_pairing_nonce_for_different_payload() {
    let mut manager = MobileGrantManager::default();
    let device_id = DeviceId::new("pc_001");
    let web = ServiceId::new("svc_web_3000");
    let ssh = ServiceId::new("svc_ssh");
    let client_id = ClientId::new("mobile_001");
    let invite = invite(
        &mut manager,
        device_id.clone(),
        vec![web.clone(), ssh.clone()],
        2,
        None,
    );
    let first = pairing_request(
        &invite,
        device_id.clone(),
        client_id.clone(),
        vec![web],
        "pairing-nonce",
    );
    let replay = pairing_request(&invite, device_id, client_id, vec![ssh], "pairing-nonce");

    approve(&mut manager, &first, 1_001).unwrap();
    assert_eq!(
        approve(&mut manager, &replay, 1_002).unwrap_err(),
        MobileGrantManagerError::ReplayDetected
    );
}

#[test]
fn mobile_grant_manager_rejects_reused_session_nonce_for_different_payload() {
    let mut manager = MobileGrantManager::default();
    let device_id = DeviceId::new("pc_001");
    let web = ServiceId::new("svc_web_3000");
    let ssh = ServiceId::new("svc_ssh");
    let client_id = ClientId::new("mobile_001");
    let invite = invite(
        &mut manager,
        device_id.clone(),
        vec![web.clone(), ssh.clone()],
        1,
        None,
    );
    let grant = approve(
        &mut manager,
        &pairing_request(
            &invite,
            device_id,
            client_id,
            vec![web.clone(), ssh.clone()],
            "pairing-nonce",
        ),
        1_001,
    )
    .unwrap();
    let first = sign_session_request(&grant, web, "session-nonce");
    let replay = sign_session_request(&grant, ssh, "session-nonce");

    verify(&mut manager, &first, 1_002).unwrap();
    assert_eq!(
        verify(&mut manager, &first, 1_003).unwrap().grant_id,
        grant.grant_id
    );
    assert_eq!(
        verify(&mut manager, &replay, 1_004).unwrap_err(),
        MobileGrantManagerError::ReplayDetected
    );
}

#[test]
fn invites_carry_generated_ids_and_saturating_expiry() {
    let mut manager = MobileGrantManager::default();
    let payload = manager
        .create_invite(
            CreateMobileInviteRequest {
                control_url: "https://control.example.test".to_string(),
                device_id: DeviceId::new("pc_001"),
                allowed_services: vec![ServiceId::new("svc")],
                ttl_sec: u64::MAX,
                max_uses: 3,
                agent_p2p_cert_fingerprint: None,
            },
            1_000,
        )
        .unwrap();
    assert_eq!(payload.version, 1);
    assert_eq!(payload.expires_at, u64::MAX);
    assert!(payload.invite_id.starts_with("inv_"));
    assert_eq!(payload.invite_id.len(), 4 + 32);
    assert!(payload.invite_secret.starts_with("inv_secret_"));
    assert!(payload.invite_id[4..]
        .chars()
        .all(|c| c.is_ascii_digit() || ('a'..='f').contains(&c)));
}

#[test]
fn invalid_invite_requests_are_refused_and_change_nothing() {
    let mut manager = MobileGrantManager::default();
    let base = CreateMobileInviteRequest {
        control_url: "https://control.example.test".to_string(),
        device_id: DeviceId::new("pc_001"),
        allowed_services: vec![ServiceId::new("svc")],
        ttl_sec: 60,
        max_uses: 1,
        agent_p2p_cert_fingerprint: None,
    };
    let mut cases = Vec::new();
    let mut c = base.clone();
    c.control_url = "  ".to_string();
    cases.push(c);
    let mut c = base.clone();
    c.device_id = DeviceId::new("");
    cases.push(c);
    let mut c = base.clone();
    c.allowed_services = Vec::new();
    cases.push(c);
    let mut c = base.clone();
    c.allowed_services = vec![ServiceId::new("svc"), ServiceId::new(" ")];
    cases.push(c);
    let mut c = base.clone();
    c.ttl_sec = 0;
    cases.push(c);
    let mut c = base;
    c.max_uses = 0;
    cases.push(c);
    for case in cases {
        assert_eq!(
            manager.create_invite(case, 1_000).unwrap_err(),
            MobileGrantManagerError::InvalidInput
        );
    }
    assert!(manager.list_invites().is_empty());
}

#[test]
fn pairing_refusals_follow_the_invite_state() {
    let mut manager = MobileGrantManager::default();
    let device_id = DeviceId::new("pc_001");
    let svc = ServiceId::new("svc");
    let client = ClientId::new("mobile_001");
    let inv = invite(&mut manager, device_id.clone(), vec![svc.clone()], 1, None);

    let mut unknown = pairing_request(&inv, device_id.clone(), client.clone(), vec![svc.clone()], "n0");
    unknown.invite_id = "inv_missing".to_string();
    assert_eq!(approve(&mut manager, &unknown, 1_001).unwrap_err(), MobileGrantManagerError::InviteNotFound);

    let other_device = pairing_request(&inv, DeviceId::new("pc_002"), client.clone(), vec![svc.clone()], "n1");
    assert_eq!(approve(&mut manager, &other_device, 1_001).unwrap_err(), MobileGrantManagerError::ScopeDenied);

    let expired = pairing_request(&inv, device_id.clone(), client.clone(), vec![svc.clone()], "n2");
    assert_eq!(approve(&mut manager, &expired, 1_060).unwrap_err(), MobileGrantManagerError::InviteExpired);

    let mut bad_proof = pairing_request(&inv, device_id.clone(), client.clone(), vec![svc.clone()], "n3");
    bad_proof.proof = "wrong".to_string();
    assert_eq!(approve(&mut manager, &bad_proof, 1_001).unwrap_err(), MobileGrantManagerError::InvalidProof);

    let empty = pairing_request(&inv, device_id.clone(), client.clone(), Vec::new(), "n4");
    assert_eq!(approve(&mut manager, &empty, 1_001).unwrap_err(), MobileGrantManagerError::ScopeDenied);

    let ok = pairing_request(&inv, device_id.clone(), client.clone(), vec![svc.clone()], "n5");
    approve(&mut manager, &ok, 1_001).unwrap();
    let again = pairing_request(&inv, device_id.clone(), client.clone(), vec![svc.clone()], "n6");
    assert_eq!(approve(&mut manager, &again, 1_002).unwrap_err(), MobileGrantManagerError::InviteConsumed);

    manager.revoke_invite(&inv.invite_id).unwrap();
    let revoked = pairing_request(&inv, device_id, client, vec![svc], "n7");
    assert_eq!(approve(&mut manager, &revoked, 1_002).unwrap_err(), MobileGrantManagerError::InviteRevoked);
    assert_eq!(manager.revoke_invite("inv_missing").unwrap_err(), MobileGrantManagerError::InviteNotFound);
    assert_eq!(manager.revoke_grant("gr_missing").unwrap_err(), MobileGrantManagerError::GrantNotFound);
}

#[test]
fn session_refusals_follow_the_grant_state() {
    let mut manager = MobileGrantManager::default();
    let device_id = DeviceId::new("pc_001");
    let svc = ServiceId::new("svc");
    let client = ClientId::new("mobile_001");
    let inv = invite(&mut manager, device_id.clone(), vec![svc.clone()], 1, None);
    let grant = approve(
        &mut manager,
        &pairing_request(&inv, device_id, client, vec![svc.clone()], "n"),
        1_001,
    )
    .unwrap();

    let mut missing = sign_session_request(&grant, svc.clone(), "s0");
    missing.grant_id = "gr_missing".to_string();
    assert_eq!(verify(&mut manager, &missing, 1_002).unwrap_err(), MobileGrantManagerError::GrantNotFound);

    let mut other_client = sign_session_request(&grant, svc.clone(), "s1");
    other_client.client_id = ClientId::new("mobile_002");
    assert_eq!(verify(&mut manager, &other_client, 1_002).unwrap_err(), MobileGrantManagerError::ScopeDenied);

    let mut stale = sign_session_request(&grant, svc.clone(), "s2");
    stale.revocation_version = 7;
    assert_eq!(verify(&mut manager, &stale, 1_002).unwrap_err(), MobileGrantManagerError::GrantVersionMismatch);

    let other_service = sign_session_request(&grant, ServiceId::new("svc_other"), "s3");
    assert_eq!(verify(&mut manager, &other_service, 1_002).unwrap_err(), MobileGrantManagerError::ScopeDenied);

    let mut bad_proof = sign_session_request(&grant, svc.clone(), "s4");
    bad_proof.proof = "wrong".to_string();
    assert_eq!(verify(&mut manager, &bad_proof, 1_002).unwrap_err(), MobileGrantManagerError::InvalidProof);

    let ok = sign_session_request(&grant, svc, "s5");
    verify(&mut manager, &ok, 1_005).unwrap();
    let record = manager.grant(&grant.grant_id).unwrap();
    assert_eq!(record.last_used_at, Some(1_005));
    assert_eq!(record.created_at, 1_001);

    manager.revoke_grant(&grant.grant_id).unwrap();
    let record = manager.grant(&grant.grant_id).unwrap();
    assert!(!record.enabled);
    assert_eq!(record.credential.revocation_version, 2);
    assert!(manager.grant("gr_missing").is_none());
}

#[test]
fn lists_are_ordered_by_id() {
    let mut manager = MobileGrantManager::default();
    for _ in 0..5 {
        invite(&mut manager, DeviceId::new("pc"), vec![ServiceId::new("svc")], 1, None);
    }
    let invites = manager.list_invites();
    assert_eq!(invites.len(), 5);
    for pair in invites.windows(2) {
        assert!(pair[0].invite_id <= pair[1].invite_id);
    }
}

#[test]
fn error_messages_match_their_display_text() {
    assert_eq!(MobileGrantManagerError::InviteConsumed.message(), "mobile invite is already consumed");
    assert_eq!(
        MobileGrantManagerError::StoreIo("disk full".to_string()).message(),
        "mobile grant store io failed: disk full"
    );
}

#[test]
fn listings_are_equal_across_an_identical_pairing_retry() {
    let mut manager = MobileGrantManager::default();
    let device = DeviceId::new("pc_001");
    let web = ServiceId::new("svc_web_3000");
    let first = invite(&mut manager, device.clone(), vec![web.clone()], 2, None);
    let second = invite(&mut manager, device.clone(), vec![web.clone()], 1, None);
    let request = pairing_request(&first, device.clone(), ClientId::new("mobile_001"), vec![web.clone()], "nonce-1");
    let grant = approve(&mut manager, &request, 1_001).unwrap();
    let invites = manager.list_invites();
    let grants = manager.list_grants();
    assert_eq!(invites.len(), 2);
    assert!(invites[0].invite_id < invites[1].invite_id);
    assert!(invites.iter().any(|i| i.invite_id == second.invite_id));

    let again = approve(&mut manager, &request, 1_010).unwrap();
    assert_eq!(again, grant);
    assert_eq!(manager.list_invites(), invites);
    assert_eq!(manager.list_grants(), grants);
}

#[test]
fn a_store_read_back_keeps_each_invite_under_its_own_id() {
    let mut manager = MobileGrantManager::default();
    let device = DeviceId::new("pc_001");
    let web = ServiceId::new("svc_web_3000");
    let payload = invite(&mut manager, device.clone(), vec![web.clone()], 1, None);
    let mut good = MobileGrantState::new();
    good.invites.insert(
        payload.invite_id.clone(),
        MobileInviteRecord { payload: payload.clone(), uses: 0, revoked: false },
    );
    let restored = MobileGrantManager::from_state(good);
    assert_eq!(restored.list_invites().len(), 1);

    let mut misplaced = MobileGrantState::new();
    misplaced.invites.insert(
        "inv_other".to_string(),
        MobileInviteRecord { payload: payload.clone(), uses: 0, revoked: false },
    );
    let mut rekeyed = MobileGrantManager::from_state(misplaced);
    let listed = rekeyed.list_invites();
    assert_eq!(listed.len(), 1);
    assert_eq!(listed[0].invite_id, payload.invite_id);
    let request = pairing_request(&payload, device, ClientId::new("mobile_001"), vec![web], "nonce-1");
    assert!(approve(&mut rekeyed, &request, 1_001).is_ok());
}

#[test]
fn a_change_that_cannot_be_stored_is_undone() {
    let mut manager = MobileGrantManager::default();
    let device = DeviceId::new("pc_001");
    let web = ServiceId::new("svc_web_3000");
    invite(&mut manager, device.clone(), vec![web.clone()], 1, None);

    let failed = manager.keep_if_stored(MobileGrantManager::default(), |_| {
        Err(MobileGrantManagerError::StoreIo("disk full".to_string()))
    });
    assert_eq!(failed, Err(MobileGrantManagerError::StoreIo("disk full".to_string())));
    assert!(manager.list_invites().is_empty());

    let kept = invite(&mut manager, device, vec![web], 1, None);
    let stored = manager.keep_if_stored(MobileGrantManager::default(), |state| {
        assert_eq!(state.invites.len(), 1);
        Ok(())
    });
    assert_eq!(stored, Ok(()));
    let listed = manager.list_invites();
    assert_eq!(listed.len(), 1);
    assert_eq!(listed[0].invite_id, kept.invite_id);
}
