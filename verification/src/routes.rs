//! The request paths of the Control API that name an object: an id placed
//! between fixed parts, or a percent-encoded query value.
use vstd::prelude::*;
use crate::query::{encode_query, encode_query_value};
use crate::text::{owned, push_str};

verus! {

/// A path that names one object: `prefix`, the object's id, `suffix`, as in
/// `/relays/{relay_id}/health`.
pub fn resource_path(prefix: &str, id: &str, suffix: &str) -> (r: String)
    ensures
        r@ == prefix@ + id@ + suffix@,
{
    let mut s = owned(prefix);
    push_str(&mut s, id);
    push_str(&mut s, suffix);
    s
}

/// A path that names an object inside another, as in
/// `/devices/{device_id}/access/{user_id}`.
pub fn nested_resource_path(prefix: &str, outer: &str, middle: &str, inner: &str, suffix: &str) -> (r:
    String)
    ensures
        r@ == prefix@ + outer@ + middle@ + inner@ + suffix@,
{
    let mut s = owned(prefix);
    push_str(&mut s, outer);
    push_str(&mut s, middle);
    push_str(&mut s, inner);
    push_str(&mut s, suffix);
    s
}

fn query_path(path: &str, name: &str, value: &str, tail: &str) -> (r: String)
    ensures
        r@ == path@ + "?"@ + name@ + "="@ + encode_query(value@) + tail@,
{
    let mut s = owned(path);
    push_str(&mut s, "?");
    push_str(&mut s, name);
    push_str(&mut s, "=");
    let v = encode_query_value(value);
    push_str(&mut s, v.as_str());
    push_str(&mut s, tail);
    s
}

/// The details of a browser sign-in session.
pub fn browser_server_auth_session_path(session_id: &str) -> (r: String)
    ensures
        r@ == "/server-auth/browser/session?session_id="@ + encode_query(session_id@),
{
    let r = query_path("/server-auth/browser/session", "session_id", session_id, "");
    proof {
        reveal_strlit("/server-auth/browser/session");
        reveal_strlit("session_id");
        reveal_strlit("/server-auth/browser/session?session_id=");
        reveal_strlit("?");
        reveal_strlit("=");
        reveal_strlit("");
    }
    assert(r@ =~= "/server-auth/browser/session?session_id="@ + encode_query(session_id@));
    r
}

/// The approval of a browser sign-in session.
pub fn browser_server_auth_approve_path(session_id: &str) -> (r: String)
    ensures
        r@ == "/server-auth/browser/approve?session_id="@ + encode_query(session_id@),
{
    let r = query_path("/server-auth/browser/approve", "session_id", session_id, "");
    proof {
        reveal_strlit("/server-auth/browser/approve");
        reveal_strlit("session_id");
        reveal_strlit("/server-auth/browser/approve?session_id=");
        reveal_strlit("?");
        reveal_strlit("=");
        reveal_strlit("");
    }
    assert(r@ =~= "/server-auth/browser/approve?session_id="@ + encode_query(session_id@));
    r
}

/// The details of a device-code sign-in session.
pub fn device_server_auth_session_path(user_code: &str) -> (r: String)
    ensures
        r@ == "/server-auth/device/session?user_code="@ + encode_query(user_code@),
{
    let r = query_path("/server-auth/device/session", "user_code", user_code, "");
    proof {
        reveal_strlit("/server-auth/device/session");
        reveal_strlit("user_code");
        reveal_strlit("/server-auth/device/session?user_code=");
        reveal_strlit("?");
        reveal_strlit("=");
        reveal_strlit("");
    }
    assert(r@ =~= "/server-auth/device/session?user_code="@ + encode_query(user_code@));
    r
}

/// The approval of a device-code sign-in session.
pub fn device_server_auth_approve_path(user_code: &str) -> (r: String)
    ensures
        r@ == "/server-auth/device?user_code="@ + encode_query(user_code@),
{
    let r = query_path("/server-auth/device", "user_code", user_code, "");
    proof {
        reveal_strlit("/server-auth/device");
        reveal_strlit("user_code");
        reveal_strlit("/server-auth/device?user_code=");
        reveal_strlit("?");
        reveal_strlit("=");
        reveal_strlit("");
    }
    assert(r@ =~= "/server-auth/device?user_code="@ + encode_query(user_code@));
    r
}

/// The refusal of a device-code sign-in session.
pub fn device_server_auth_deny_path(user_code: &str) -> (r: String)
    ensures
        r@ == "/server-auth/device?user_code="@ + encode_query(user_code@) + "&decision=deny"@,
{
    let r = query_path("/server-auth/device", "user_code", user_code, "&decision=deny");
    proof {
        reveal_strlit("/server-auth/device");
        reveal_strlit("user_code");
        reveal_strlit("/server-auth/device?user_code=");
        reveal_strlit("?");
        reveal_strlit("=");
    }
    assert(r@ =~= "/server-auth/device?user_code="@ + encode_query(user_code@) + "&decision=deny"@);
    r
}

} // verus!
