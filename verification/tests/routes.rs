use mobilecode_connect::routes::{
    browser_server_auth_approve_path, browser_server_auth_session_path,
    device_server_auth_approve_path, device_server_auth_deny_path, device_server_auth_session_path,
    nested_resource_path, resource_path,
};

#[test]
fn object_paths_place_ids_between_fixed_parts() {
    assert_eq!(resource_path("/relays/", "relay_local", "/health"), "/relays/relay_local/health");
    assert_eq!(resource_path("/users/", "user_abc", ""), "/users/user_abc");
    assert_eq!(
        nested_resource_path("/devices/", "server_001", "/access/", "user_abc", ""),
        "/devices/server_001/access/user_abc"
    );
}

#[test]
fn server_auth_paths_encode_their_query_values() {
    assert_eq!(
        browser_server_auth_session_path("sess 1/2"),
        "/server-auth/browser/session?session_id=sess%201%2F2"
    );
    assert_eq!(
        browser_server_auth_approve_path("sess_1"),
        "/server-auth/browser/approve?session_id=sess_1"
    );
    assert_eq!(
        device_server_auth_session_path("ABCD-EFGH"),
        "/server-auth/device/session?user_code=ABCD-EFGH"
    );
    assert_eq!(device_server_auth_approve_path("AB&CD"), "/server-auth/device?user_code=AB%26CD");
    assert_eq!(
        device_server_auth_deny_path("ABCD"),
        "/server-auth/device?user_code=ABCD&decision=deny"
    );
}
