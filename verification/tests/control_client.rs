use std::time::Duration;

use mobilecode_connect::control_client::{
    find_header_end, looks_like_signed_token, parse_response, ControlClientError, ControlEndpoint,
    HttpControlClient, HttpControlClientOptions, RequestAttempts, StatusCode,
};
use mobilecode_connect::ids::{DeviceId, UserId};
use mobilecode_connect::query::{admin_query_path, encode_query_value, AdminListQuery};

#[test]
fn admin_query_path_encodes_supported_filters() {
    let path = admin_query_path(
        "/users",
        AdminListQuery {
            limit: Some(50),
            offset: Some(10),
            sort: Some("-created_epoch_sec".to_string()),
            q: Some("alice admin".to_string()),
            role: Some("admin".to_string()),
            enabled: Some(true),
            status: Some("bound".to_string()),
            user_id: Some(UserId::new("user_abc")),
            device_id: Some(DeviceId::new("device_123")),
            healthy: Some(false),
            action: Some("relay.register".to_string()),
            target_type: Some("relay pool".to_string()),
        },
    );

    assert_eq!(
        path,
        "/users?limit=50&offset=10&sort=-created_epoch_sec&q=alice%20admin&role=admin&enabled=true&status=bound&user_id=user_abc&device_id=device_123&healthy=false&action=relay.register&target_type=relay%20pool"
    );
}

#[test]
fn admin_query_path_without_filters_is_the_bare_path() {
    assert_eq!(admin_query_path("/relays", AdminListQuery::default()), "/relays");
}

#[test]
fn admin_query_path_skips_blank_text_filters_and_trims_others() {
    let path = admin_query_path(
        "/audit",
        AdminListQuery {
            q: Some("   ".to_string()),
            action: Some("  login  ".to_string()),
            ..AdminListQuery::default()
        },
    );
    assert_eq!(path, "/audit?action=login");
}

#[test]
fn encode_query_value_escapes_reserved_and_multibyte_characters() {
    assert_eq!(encode_query_value("a-b.c_d~e"), "a-b.c_d~e");
    assert_eq!(encode_query_value("a b&c=d"), "a%20b%26c%3Dd");
    assert_eq!(encode_query_value("é"), "%C3%A9");
    assert_eq!(encode_query_value("€"), "%E2%82%AC");
    assert_eq!(encode_query_value("😀"), "%F0%9F%98%80");
}

#[test]
fn http_client_options_default_disable_timeout_and_retry() {
    let options = HttpControlClientOptions::default();

    assert_eq!(options.request_timeout(), None);
    assert_eq!(options.max_retries(), 0);
    assert_eq!(options.retry_backoff(), Duration::from_millis(0));
}

#[test]
fn http_client_constructors_accept_timeout_and_retry_options() {
    let options = HttpControlClientOptions::default()
        .with_request_timeout(Duration::from_secs(5))
        .with_max_retries(2)
        .with_retry_backoff(Duration::from_millis(25));

    let client = HttpControlClient::with_options("http://127.0.0.1:1", options).unwrap();
    let bearer =
        HttpControlClient::with_bearer_token_and_options("http://127.0.0.1:1", "token", options)
            .unwrap();
    let optional = HttpControlClient::with_optional_bearer_token_and_options(
        "http://127.0.0.1:1",
        "payload.signature",
        options,
    )
    .unwrap();

    assert_eq!(client.options(), &options);
    assert_eq!(bearer.options(), &options);
    assert_eq!(optional.options(), &options);
}

#[test]
fn retryable_control_errors_are_classified() {
    assert!(ControlClientError::Timeout {
        timeout: Duration::from_secs(5)
    }
    .is_retryable());
    assert!(ControlClientError::Io(std::io::Error::new(
        std::io::ErrorKind::ConnectionReset,
        "reset"
    ))
    .is_retryable());
    assert!(ControlClientError::HttpStatus {
        status_code: StatusCode::from_u16(503),
        body: Vec::new(),
    }
    .is_retryable());
    assert!(ControlClientError::HttpStatus {
        status_code: StatusCode::from_u16(429),
        body: Vec::new(),
    }
    .is_retryable());
    assert!(!ControlClientError::HttpStatus {
        status_code: StatusCode::from_u16(403),
        body: Vec::new(),
    }
    .is_retryable());
    assert!(!ControlClientError::MalformedResponse {
        reason: "x".to_string()
    }
    .is_retryable());
}

#[test]
fn status_codes_classify_success_and_retry() {
    assert!(StatusCode::from_u16(200).is_success());
    assert!(StatusCode::from_u16(299).is_success());
    assert!(!StatusCode::from_u16(300).is_success());
    assert!(!StatusCode::from_u16(199).is_success());
    for code in [408, 429, 500, 501, 502, 503, 504, 505, 599] {
        assert!(StatusCode::from_u16(code).is_retryable());
    }
    for code in [200, 400, 404, 409, 499, 600] {
        assert!(!StatusCode::from_u16(code).is_retryable());
    }
    assert_eq!(StatusCode::from_u16(418).as_u16(), 418);
    assert_eq!(StatusCode::from_u16(418).to_text(), "418");
}

#[test]
fn endpoint_parse_reads_host_and_port() {
    let endpoint = ControlEndpoint::parse("http://control.local:4242///").unwrap();
    assert_eq!(endpoint.addr(), "control.local:4242");
    assert_eq!(endpoint.host_header(), "control.local:4242");
    let v6 = ControlEndpoint::parse("http://[::1]:80").unwrap();
    assert_eq!(v6.addr(), "[::1]:80");
}

fn base_url_reason(url: &str) -> String {
    match ControlEndpoint::parse(url) {
        Err(ControlClientError::InvalidBaseUrl { value, reason }) => {
            assert_eq!(value, url);
            reason
        }
        other => panic!("unexpected {other:?}"),
    }
}

#[test]
fn endpoint_parse_refuses_each_kind_of_bad_url() {
    assert_eq!(
        base_url_reason("https://control.local:443"),
        "only http:// URLs are supported"
    );
    assert_eq!(base_url_reason("http://control.local"), "missing host:port");
    assert_eq!(base_url_reason("http://  :80"), "host must not be empty");
    assert_eq!(
        base_url_reason("http://control.local:70000"),
        "port must be a valid u16"
    );
    assert_eq!(
        base_url_reason("http://control.local:http"),
        "port must be a valid u16"
    );
}

#[test]
fn optional_bearer_token_is_kept_only_when_signed() {
    let signed = HttpControlClient::with_optional_bearer_token("http://127.0.0.1:1", "  a.b  ").unwrap();
    assert_eq!(signed.authorization_header(), "Authorization: Bearer a.b\r\n");
    let unsigned = HttpControlClient::with_optional_bearer_token("http://127.0.0.1:1", "plain").unwrap();
    assert_eq!(unsigned.authorization_header(), "");
    assert!(looks_like_signed_token("x.y"));
    assert!(!looks_like_signed_token(".y"));
    assert!(!looks_like_signed_token("x."));
    assert!(!looks_like_signed_token("xy"));
}

#[test]
fn request_head_frames_method_path_host_and_length() {
    let mut client = HttpControlClient::new("http://127.0.0.1:4242").unwrap();
    assert_eq!(
        client.request_head("GET", "/relays", 0),
        "GET /relays HTTP/1.1\r\nHost: 127.0.0.1:4242\r\nContent-Type: application/json\r\nContent-Length: 0\r\nConnection: close\r\n\r\n"
    );
    client.set_bearer_token("tok.sig");
    assert_eq!(
        client.request_head("POST", "/sessions", 17),
        "POST /sessions HTTP/1.1\r\nHost: 127.0.0.1:4242\r\nAuthorization: Bearer tok.sig\r\nContent-Type: application/json\r\nContent-Length: 17\r\nConnection: close\r\n\r\n"
    );
}

#[test]
fn parse_response_reads_status_and_body() {
    let response = parse_response(b"HTTP/1.1 201 Created\r\nX: y\r\n\r\n{\"ok\":true}").unwrap();
    assert_eq!(response.status_code.as_u16(), 201);
    assert_eq!(response.body, b"{\"ok\":true}".to_vec());
    assert_eq!(find_header_end(b"ab\r\n\r\ncd"), Some(2));
    assert_eq!(find_header_end(b"ab\r\n\r"), None);
}

fn malformed_reason(bytes: &[u8]) -> String {
    match parse_response(bytes) {
        Err(ControlClientError::MalformedResponse { reason }) => reason,
        Err(other) => panic!("unexpected {other:?}"),
        Ok(_) => panic!("unexpected success"),
    }
}

#[test]
fn parse_response_refuses_each_kind_of_malformed_response() {
    assert_eq!(
        malformed_reason(b"HTTP/1.1 200 OK\r\n"),
        "missing header terminator in 17 bytes"
    );
    assert_eq!(
        malformed_reason(b"HTTP/1.1 \xff\r\n\r\n"),
        "headers are not valid utf-8"
    );
    assert_eq!(malformed_reason(b"\r\n\r\nbody"), "missing status line");
    assert_eq!(malformed_reason(b"HTTP/1.1\r\n\r\n"), "missing status code");
    assert_eq!(
        malformed_reason(b"HTTP/1.1 abc\r\n\r\n"),
        "status code is not numeric"
    );
}

#[test]
fn unsuccessful_response_becomes_status_error() {
    let response = parse_response(b"HTTP/1.1 404 Not Found\r\n\r\nnope").unwrap();
    match response.into_success_body() {
        Err(ControlClientError::HttpStatus { status_code, body }) => {
            assert_eq!(status_code.as_u16(), 404);
            assert_eq!(body, b"nope".to_vec());
        }
        other => panic!("unexpected {other:?}"),
    }
}

#[test]
fn request_attempts_stop_after_max_retries() {
    let mut attempts = RequestAttempts::new();
    assert!(attempts.retry_after(true, 2));
    assert!(attempts.retry_after(true, 2));
    assert!(!attempts.retry_after(true, 2));
    let mut other = RequestAttempts::new();
    assert!(!other.retry_after(false, 2));
    assert!(!RequestAttempts::new().retry_after(true, 0));
}

#[test]
fn oauth_identity_paths_name_the_provider_and_user() {
    assert_eq!(
        mobilecode_connect::control_client::oauth_provider_path(
            mobilecode_connect::models::OAuthProvider::GitHub
        ),
        "github"
    );
    assert_eq!(
        mobilecode_connect::control_client::oauth_identity_path(
            mobilecode_connect::models::OAuthProvider::GitHub,
            "123456"
        ),
        "/oauth/identities/github/123456"
    );
}
