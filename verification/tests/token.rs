use serde_json::Value;

use mobilecode_connect::ids::{ClientId, DeviceId, ServiceId, SessionId, UserId};
use mobilecode_connect::token::{
    accept_control_claims, accept_relay_claims, check_expiry, ControlRole, ControlTokenClaims,
    RelayTokenClaims, TokenError, TokenKey, TokenSigner,
};

fn relay_claims(exp: u64) -> RelayTokenClaims {
    RelayTokenClaims {
        session_id: SessionId::new("sess_001"),
        user_id: UserId::new("user_001"),
        client_id: ClientId::new("mobile_001"),
        device_id: DeviceId::new("pc_001"),
        service_id: ServiceId::new("svc_web_3000"),
        max_bps: 2_097_152,
        max_streams: 32,
        max_duration_sec: 3_600,
        traffic_quota_bytes: 1_073_741_824,
        exp,
    }
}

const PAYLOAD: &[u8] = br#"{"session_id":"sess_001","exp":4102444800}"#;

fn text(value: &Value, key: &str) -> String {
    value.get(key).unwrap().as_str().unwrap().to_string()
}

fn number(value: &Value, key: &str) -> u64 {
    value.get(key).unwrap().as_u64().unwrap()
}

fn relay_payload(claims: &RelayTokenClaims) -> Vec<u8> {
    let mut object = serde_json::Map::new();
    object.insert("session_id".to_string(), Value::from(claims.session_id.as_str()));
    object.insert("user_id".to_string(), Value::from(claims.user_id.as_str()));
    object.insert("client_id".to_string(), Value::from(claims.client_id.as_str()));
    object.insert("device_id".to_string(), Value::from(claims.device_id.as_str()));
    object.insert("service_id".to_string(), Value::from(claims.service_id.as_str()));
    object.insert("max_bps".to_string(), Value::from(claims.max_bps));
    object.insert("max_streams".to_string(), Value::from(claims.max_streams));
    object.insert("max_duration_sec".to_string(), Value::from(claims.max_duration_sec));
    object.insert("traffic_quota_bytes".to_string(), Value::from(claims.traffic_quota_bytes));
    object.insert("exp".to_string(), Value::from(claims.exp));
    serde_json::to_vec(&Value::Object(object)).unwrap()
}

fn relay_claims_from(payload: &[u8]) -> RelayTokenClaims {
    let value: Value = serde_json::from_slice(payload).unwrap();
    RelayTokenClaims {
        session_id: SessionId::new(&text(&value, "session_id")),
        user_id: UserId::new(&text(&value, "user_id")),
        client_id: ClientId::new(&text(&value, "client_id")),
        device_id: DeviceId::new(&text(&value, "device_id")),
        service_id: ServiceId::new(&text(&value, "service_id")),
        max_bps: number(&value, "max_bps"),
        max_streams: number(&value, "max_streams") as u32,
        max_duration_sec: number(&value, "max_duration_sec"),
        traffic_quota_bytes: number(&value, "traffic_quota_bytes"),
        exp: number(&value, "exp"),
    }
}

fn role_name(role: ControlRole) -> &'static str {
    match role {
        ControlRole::User => "user",
        ControlRole::Admin => "admin",
        ControlRole::Relay => "relay",
        ControlRole::Agent => "agent",
    }
}

fn role_from(name: &str) -> ControlRole {
    match name {
        "user" => ControlRole::User,
        "admin" => ControlRole::Admin,
        "relay" => ControlRole::Relay,
        "agent" => ControlRole::Agent,
        other => panic!("unknown role {other}"),
    }
}

fn optional_number(value: Option<u64>) -> Value {
    match value {
        Some(n) => Value::from(n),
        None => Value::Null,
    }
}

fn control_payload(claims: &ControlTokenClaims) -> Vec<u8> {
    let mut object = serde_json::Map::new();
    object.insert("user_id".to_string(), Value::from(claims.user_id.as_str()));
    object.insert("subject".to_string(), Value::from(claims.subject.as_str()));
    object.insert("role".to_string(), Value::from(role_name(claims.role)));
    object.insert("exp".to_string(), Value::from(claims.exp));
    object.insert("relay_token_version".to_string(), optional_number(claims.relay_token_version));
    object.insert(
        "credential_id".to_string(),
        match &claims.credential_id {
            Some(id) => Value::from(id.as_str()),
            None => Value::Null,
        },
    );
    object.insert(
        "server_credential_version".to_string(),
        optional_number(claims.server_credential_version),
    );
    serde_json::to_vec(&Value::Object(object)).unwrap()
}

fn control_claims_from(payload: &[u8]) -> ControlTokenClaims {
    let value: Value = serde_json::from_slice(payload).unwrap();
    ControlTokenClaims {
        user_id: UserId::new(&text(&value, "user_id")),
        subject: text(&value, "subject"),
        role: role_from(&text(&value, "role")),
        exp: number(&value, "exp"),
        relay_token_version: value.get("relay_token_version").unwrap().as_u64(),
        credential_id: value
            .get("credential_id")
            .unwrap()
            .as_str()
            .map(|id| id.to_string()),
        server_credential_version: value.get("server_credential_version").unwrap().as_u64(),
    }
}

#[test]
fn relay_token_roundtrips_with_limits() {
    let signer = TokenSigner::new(TokenKey::new(b"dev-secret"));
    let claims = relay_claims(4_102_444_800);

    let token = signer.sign_payload(&relay_payload(&claims)).unwrap();
    let payload = signer.verify_payload(&token).unwrap();
    let decoded = accept_relay_claims(relay_claims_from(&payload), 1_767_000_000).unwrap();

    assert_eq!(decoded, claims);
    assert_eq!(decoded.max_bps, 2_097_152);
    assert_eq!(decoded.max_streams, 32);
}

#[test]
fn expired_relay_token_is_rejected() {
    let signer = TokenSigner::new(TokenKey::new(b"dev-secret"));
    let token = signer.sign_payload(&relay_payload(&relay_claims(1_000))).unwrap();
    let payload = signer.verify_payload(&token).unwrap();
    let err = accept_relay_claims(relay_claims_from(&payload), 1_001).unwrap_err();

    assert!(matches!(err, TokenError::Expired));
}

#[test]
fn tampered_relay_token_is_rejected() {
    let signer = TokenSigner::new(TokenKey::new(b"dev-secret"));
    let mut token = signer.sign_payload(PAYLOAD).unwrap();
    token.push('x');

    let err = signer.verify_payload(&token).unwrap_err();

    assert!(matches!(err, TokenError::InvalidSignature));
}

#[test]
fn token_signed_with_another_key_is_rejected() {
    let signer = TokenSigner::new(TokenKey::new(b"dev-secret"));
    let other = TokenSigner::new(TokenKey::new(b"other-secret"));
    let token = signer.sign_payload(PAYLOAD).unwrap();
    assert!(matches!(
        other.verify_payload(&token).unwrap_err(),
        TokenError::InvalidSignature
    ));
}

#[test]
fn malformed_tokens_are_rejected_as_format_errors() {
    let signer = TokenSigner::new(TokenKey::new(b"dev-secret"));
    for token in ["", "no-dot", ".sig", "payload.", "payload.!!!"] {
        assert!(
            matches!(signer.verify_payload(token).unwrap_err(), TokenError::InvalidFormat),
            "{token}"
        );
    }
}

#[test]
fn token_is_base64url_payload_dot_signature() {
    let signer = TokenSigner::new(TokenKey::new(b"dev-secret"));
    let token = signer.sign_payload(b"{}").unwrap();
    let (payload, signature) = token.split_once('.').unwrap();
    assert_eq!(payload, "e30");
    assert_eq!(signature.len(), 43);
    assert_eq!(
        signer.signature(b"e30").unwrap().len(),
        32
    );
}

#[test]
fn control_claims_expire_at_their_exp() {
    let claims = ControlTokenClaims {
        user_id: UserId::new("admin_001"),
        subject: "admin@example.com".to_string(),
        role: ControlRole::Admin,
        exp: 4_102_444_800,
        relay_token_version: None,
        credential_id: None,
        server_credential_version: None,
    };
    assert_eq!(accept_control_claims(claims.clone(), 1_767_000_000).unwrap(), claims);
    assert!(matches!(
        accept_control_claims(claims, 4_102_444_800).unwrap_err(),
        TokenError::Expired
    ));
    assert!(check_expiry(10, 9).is_ok());
    assert!(check_expiry(10, 10).is_err());
}

#[test]
fn control_token_roundtrips_with_role() {
    let signer = TokenSigner::new(TokenKey::new(b"dev-secret"));
    let claims = ControlTokenClaims {
        user_id: UserId::new("admin_001"),
        subject: "admin@example.com".to_string(),
        role: ControlRole::Admin,
        exp: 4_102_444_800,
        relay_token_version: None,
        credential_id: None,
        server_credential_version: None,
    };

    let token = signer.sign_payload(&control_payload(&claims)).unwrap();
    let payload = signer.verify_payload(&token).unwrap();
    let decoded = accept_control_claims(control_claims_from(&payload), 1_767_000_000).unwrap();

    assert_eq!(decoded, claims);
    assert_eq!(decoded.role, ControlRole::Admin);
}

#[test]
fn agent_control_token_preserves_credential_metadata() {
    let signer = TokenSigner::new(TokenKey::new(b"dev-secret"));
    let claims = ControlTokenClaims {
        user_id: UserId::new("user_001"),
        subject: "srv_cred_001".to_string(),
        role: ControlRole::Agent,
        exp: 4_102_444_800,
        relay_token_version: None,
        credential_id: Some("srv_cred_001".to_string()),
        server_credential_version: Some(3),
    };

    let token = signer.sign_payload(&control_payload(&claims)).unwrap();
    let payload = signer.verify_payload(&token).unwrap();
    let decoded = accept_control_claims(control_claims_from(&payload), 1_767_000_000).unwrap();

    assert_eq!(decoded, claims);
    assert_eq!(decoded.credential_id.as_deref(), Some("srv_cred_001"));
    assert_eq!(decoded.server_credential_version, Some(3));
}

#[test]
fn token_payload_uses_the_url_safe_alphabet() {
    let signer = TokenSigner::new(TokenKey::new(b"dev-secret"));
    let token = signer.sign_payload(&[0xfb, 0xff]).unwrap();
    assert!(token.starts_with("-_8."));
    assert_eq!(signer.verify_payload(&token).unwrap(), vec![0xfb, 0xff]);
}
