//! What the command-line tools make of their arguments: identifiers, roles,
//! service targets, admin requests and client options.
use vstd::prelude::*;
use crate::config::ServiceConfig;
use crate::control_client::{
    duration_from_millis, millis_duration, ControlClientError, HttpControlClient, HttpControlClientOptions,
};
use crate::ids::{DeviceId, ServiceId, SessionId, UserId};
use crate::ip::SocketAddr;
use crate::models::{
    AssignUserPlanRequest, CreateRelayBootstrapRequest, CreateUserRequest, GrantDeviceAccessRequest,
    RegisterRelayRequest, UpdateRelayRequest, UpdateUserStatusRequest,
};
use crate::protocol::{copy_opt_string, ids_view, opt_view, ServiceProtocol};
use crate::query::AdminListQuery;
use crate::text::{
    chars_of, copy_string, is_blank, owned, parse_unsigned, parse_unsigned_at, push_str,
    rsplit_once_spec, split_once_spec, str_eq, string_of, trim,
};
use crate::token::ControlRole;

verus! {

/// A session id argument: any text that is not blank.
pub fn parse_session_id(value: &str) -> (r: Result<SessionId, String>)
    ensures
        trim(value@).len() > 0 ==> (r matches Ok(id) && id@ == value@),
        trim(value@).len() == 0 ==> (r matches Err(m) && m@ == "session id must not be empty"@),
{
    if is_blank(value) {
        return Err(owned("session id must not be empty"));
    }
    Ok(SessionId::new(value))
}

/// A user id argument: any text that is not blank.
pub fn parse_user_id(value: &str) -> (r: Result<UserId, String>)
    ensures
        trim(value@).len() > 0 ==> (r matches Ok(id) && id@ == value@),
        trim(value@).len() == 0 ==> (r matches Err(m) && m@ == "user id must not be empty"@),
{
    if is_blank(value) {
        return Err(owned("user id must not be empty"));
    }
    Ok(UserId::new(value))
}

/// A device id argument: any text that is not blank.
pub fn parse_device_id(value: &str) -> (r: Result<DeviceId, String>)
    ensures
        trim(value@).len() > 0 ==> (r matches Ok(id) && id@ == value@),
        trim(value@).len() == 0 ==> (r matches Err(m) && m@ == "device id must not be empty"@),
{
    if is_blank(value) {
        return Err(owned("device id must not be empty"));
    }
    Ok(DeviceId::new(value))
}

/// A service id argument: any text that is not blank.
pub fn parse_service_id(value: &str) -> (r: Result<ServiceId, String>)
    ensures
        trim(value@).len() > 0 ==> (r matches Ok(id) && id@ == value@),
        trim(value@).len() == 0 ==> (r matches Err(m) && m@ == "service id must not be empty"@),
{
    if is_blank(value) {
        return Err(owned("service id must not be empty"));
    }
    Ok(ServiceId::new(value))
}

/// A role that an admin may give a new user: `user` or `admin`, exactly.
pub fn parse_user_role(value: &str) -> (r: Result<ControlRole, String>)
    ensures
        value@ == "user"@ ==> r == Ok::<ControlRole, String>(ControlRole::User),
        value@ == "admin"@ ==> r == Ok::<ControlRole, String>(ControlRole::Admin),
        value@ != "user"@ && value@ != "admin"@ ==> (r matches Err(m) && m@ == "role must be user or admin"@),
{
    proof {
        reveal_strlit("user");
        reveal_strlit("admin");
        assert("user"@.len() == 4 && "admin"@.len() == 5);
        assert("user"@ != "admin"@);
    }
    if str_eq(value, "user") {
        Ok(ControlRole::User)
    } else if str_eq(value, "admin") {
        Ok(ControlRole::Admin)
    } else {
        Err(owned("role must be user or admin"))
    }
}

/// What a `--service service_id=host:port` argument is refused for, if it
/// is; otherwise its id, host and port.
pub open spec fn service_arg(value: Seq<char>) -> Result<(Seq<char>, Seq<char>, u16), Seq<char>> {
    match split_once_spec(value, '=') {
        None => Err("service must use service_id=host:port"@),
        Some((id, target)) => if trim(id).len() == 0 {
            Err("service id must not be empty"@)
        } else {
            match rsplit_once_spec(target, ':') {
                None => Err("service target must use host:port"@),
                Some((host, port)) => if trim(host).len() == 0 {
                    Err("service host must not be empty"@)
                } else {
                    match parse_unsigned(port, 65535) {
                        None => Err("service port must be a valid u16"@),
                        Some(p) => Ok((id, host, p as u16)),
                    }
                },
            }
        },
    }
}

/// A service to expose, from `service_id=host:port`; its name is its id.
pub fn parse_service_arg(value: &str) -> (r: Result<ServiceConfig, String>)
    ensures
        match service_arg(value@) {
            Ok((id, host, port)) => r matches Ok(c) && c@.service_id == id && c@.name == id
                && c@.protocol == ServiceProtocol::Tcp && c@.target_host == host && c@.target_port == port,
            Err(m) => r matches Err(e) && e@ == m,
        },
{
    let v = chars_of(value);
    let eq = match crate::text::split_once_at(&v, '=') {
        Some(i) => i,
        None => {
            return Err(owned("service must use service_id=host:port"));
        },
    };
    let service_id = string_of(&v, 0, eq);
    if is_blank(service_id.as_str()) {
        return Err(owned("service id must not be empty"));
    }
    let colon = match crate::text::rsplit_once_in(&v, eq + 1, v.len(), ':') {
        Some(i) => i,
        None => {
            return Err(owned("service target must use host:port"));
        },
    };
    let host = string_of(&v, eq + 1, colon);
    if is_blank(host.as_str()) {
        return Err(owned("service host must not be empty"));
    }
    let port = match parse_unsigned_at(&v, colon + 1, v.len(), 65535) {
        Some(p) => p as u16,
        None => {
            return Err(owned("service port must be a valid u16"));
        },
    };
    Ok(
        ServiceConfig {
            service_id: ServiceId::from_string(copy_string(&service_id)),
            name: service_id,
            protocol: ServiceProtocol::Tcp,
            target_host: host,
            target_port: port,
        },
    )
}

/// Whether some exposed service has this id.
pub open spec fn has_service(services: Seq<ServiceConfig>, id: Seq<char>) -> bool {
    exists|j: int| 0 <= j < services.len() && (#[trigger] services[j]).service_id@ == id
}

/// Refuses invite services that are not among the exposed services, naming
/// the first of them.
pub fn check_invite_services(services: &Vec<ServiceConfig>, invite_services: &Vec<ServiceId>) -> (r: Result<
    (),
    String,
>)
    ensures
        r is Ok <==> forall|i: int|
            0 <= i < invite_services@.len() ==> #[trigger] has_service(services@, invite_services@[i]@),
        r matches Err(m) ==> exists|i: int|
            0 <= i < invite_services@.len() && !has_service(services@, invite_services@[i]@)
                && (forall|k: int| 0 <= k < i ==> has_service(services@, invite_services@[k]@))
                && m@ == "--mobile-invite-service "@ + (#[trigger] invite_services@[i])@
                + " must match a registered --service"@,
{
    let mut i: usize = 0;
    while i < invite_services.len()
        invariant
            i <= invite_services@.len(),
            forall|k: int| 0 <= k < i ==> #[trigger] has_service(services@, invite_services@[k]@),
        decreases invite_services@.len() - i,
    {
        let id = &invite_services[i];
        let mut j: usize = 0;
        let mut found = false;
        while j < services.len()
            invariant
                j <= services@.len(),
                !found ==> forall|t: int| 0 <= t < j ==> (#[trigger] services@[t]).service_id@ != id@,
                found ==> has_service(services@, id@),
            decreases services@.len() - j,
        {
            if !found && services[j].service_id.same(id) {
                found = true;
            }
            j = j + 1;
        }
        if !found {
            let mut m = owned("--mobile-invite-service ");
            push_str(&mut m, id.as_str());
            push_str(&mut m, " must match a registered --service");
            assert(m@ =~= "--mobile-invite-service "@ + invite_services@[i as int]@
                + " must match a registered --service"@);
            assert(!has_service(services@, invite_services@[i as int]@));
            return Err(m);
        }
        i = i + 1;
    }
    Ok(())
}

/// A pairing or an invite must name at least one service.
pub fn check_requested_services(services: &Vec<ServiceId>) -> (r: Result<(), String>)
    ensures
        r is Ok <==> services@.len() > 0,
        r matches Err(m) ==> m@ == "at least one --service is required"@,
{
    if services.len() == 0 {
        Err(owned("at least one --service is required"))
    } else {
        Ok(())
    }
}

/// The public key that an agent logs in with: the one given, else one named
/// after the device.
pub fn server_public_key(given: &Option<String>, device_id: &DeviceId) -> (r: String)
    ensures
        r@ == match *given {
            Some(k) => k@,
            None => "agentd-public-key-"@ + device_id@,
        },
{
    match given {
        Some(k) => copy_string(k),
        None => {
            let mut s = owned("agentd-public-key-");
            push_str(&mut s, device_id.as_str());
            s
        },
    }
}

/// What to do with the agent's P2P identity directory.
#[derive(Clone, Copy, Debug, PartialEq, Eq, Structural)]
pub enum P2pIdentityAction {
    /// Read the certificate and the private key that are there.
    Load,
    /// Generate an identity and write both files.
    Generate,
}

/// The identity directory holds both `cert.der` and `key.pkcs8.der`, to be
/// loaded, or neither, to be generated; one without the other is refused.
pub fn p2p_identity_action(cert_exists: bool, key_exists: bool, identity_dir: &str) -> (r: Result<
    P2pIdentityAction,
    String,
>)
    ensures
        cert_exists && key_exists ==> r == Ok::<P2pIdentityAction, String>(P2pIdentityAction::Load),
        !cert_exists && !key_exists ==> r == Ok::<P2pIdentityAction, String>(P2pIdentityAction::Generate),
        cert_exists && !key_exists ==> (r matches Err(m) && m@ == "p2p identity dir "@ + identity_dir@
            + " has cert.der but is missing key.pkcs8.der"@),
        !cert_exists && key_exists ==> (r matches Err(m) && m@ == "p2p identity dir "@ + identity_dir@
            + " has key.pkcs8.der but is missing cert.der"@),
{
    if cert_exists && key_exists {
        Ok(P2pIdentityAction::Load)
    } else if !cert_exists && !key_exists {
        Ok(P2pIdentityAction::Generate)
    } else {
        let mut m = owned("p2p identity dir ");
        push_str(&mut m, identity_dir);
        if cert_exists {
            push_str(&mut m, " has cert.der but is missing key.pkcs8.der");
        } else {
            push_str(&mut m, " has key.pkcs8.der but is missing cert.der");
        }
        Err(m)
    }
}

/// Where an admin command talks to Control, and with which token.
#[derive(Clone, Debug)]
pub struct AdminCommonArgs {
    pub control: String,
    pub token: String,
}

impl AdminCommonArgs {
    /// A client of the Control server that sends the admin token.
    pub fn client(&self) -> (r: Result<HttpControlClient, ControlClientError>)
        ensures
            match crate::control_client::parse_endpoint(self.control@) {
                Ok(e) => r matches Ok(c) && c.endpoint_spec() == e && c.token_spec() == Some(self.token@),
                Err(reason) => r matches Err(ControlClientError::InvalidBaseUrl { value, reason: why })
                    && value@ == self.control@ && why@ == reason,
            },
    {
        HttpControlClient::with_bearer_token(self.control.as_str(), self.token.as_str())
    }
}

/// An admin list command: where to send it and its filters.
#[derive(Clone, Debug)]
pub struct AdminListCommandArgs {
    pub common: AdminCommonArgs,
    pub query: AdminListArgs,
}

/// An admin command that lists who may access a device.
#[derive(Clone, Debug)]
pub struct AdminDeviceAccessArgs {
    pub common: AdminCommonArgs,
    pub device: String,
    pub query: AdminListArgs,
}

/// An admin command that takes a user's access to a device away.
#[derive(Clone, Debug)]
pub struct AdminRevokeDeviceAccessArgs {
    pub common: AdminCommonArgs,
    pub device: DeviceId,
    pub user_id: UserId,
}

/// The filters of an admin list command.
#[derive(Clone, Debug, Default)]
pub struct AdminListArgs {
    pub limit: Option<u32>,
    pub offset: Option<u32>,
    pub sort: Option<String>,
    pub q: Option<String>,
    pub role: Option<String>,
    pub enabled: Option<bool>,
    pub status: Option<String>,
    pub user_id: Option<String>,
    pub device_id: Option<String>,
    pub healthy: Option<bool>,
    pub action: Option<String>,
    pub target_type: Option<String>,
}

impl AdminListArgs {
    /// The query that carries these filters, as they were given.
    pub fn to_query(&self) -> (r: AdminListQuery)
        ensures
            r.limit == self.limit,
            r.offset == self.offset,
            opt_view(r.sort) == opt_view(self.sort),
            opt_view(r.q) == opt_view(self.q),
            opt_view(r.role) == opt_view(self.role),
            r.enabled == self.enabled,
            opt_view(r.status) == opt_view(self.status),
            crate::query::opt_user(r.user_id) == opt_view(self.user_id),
            crate::query::opt_device(r.device_id) == opt_view(self.device_id),
            r.healthy == self.healthy,
            opt_view(r.action) == opt_view(self.action),
            opt_view(r.target_type) == opt_view(self.target_type),
    {
        AdminListQuery {
            limit: self.limit,
            offset: self.offset,
            sort: copy_opt_string(&self.sort),
            q: copy_opt_string(&self.q),
            role: copy_opt_string(&self.role),
            enabled: self.enabled,
            status: copy_opt_string(&self.status),
            user_id: match &self.user_id {
                Some(u) => Some(UserId::new(u.as_str())),
                None => None,
            },
            device_id: match &self.device_id {
                Some(d) => Some(DeviceId::new(d.as_str())),
                None => None,
            },
            healthy: self.healthy,
            action: copy_opt_string(&self.action),
            target_type: copy_opt_string(&self.target_type),
        }
    }
}

/// An admin command that creates a user.
#[derive(Clone, Debug)]
pub struct AdminCreateUserArgs {
    pub common: AdminCommonArgs,
    pub email: String,
    pub password: String,
    pub name: String,
    pub role: ControlRole,
    pub enabled: bool,
}

impl AdminCreateUserArgs {
    pub fn request(&self) -> (r: CreateUserRequest)
        ensures
            r.email@ == self.email@,
            r.password@ == self.password@,
            r.display_name@ == self.name@,
            r.role == self.role,
            r.enabled == self.enabled,
    {
        CreateUserRequest {
            email: copy_string(&self.email),
            password: copy_string(&self.password),
            display_name: copy_string(&self.name),
            role: self.role,
            enabled: self.enabled,
        }
    }
}

/// An admin command that enables or disables a user.
#[derive(Clone, Debug)]
pub struct AdminSetUserStatusArgs {
    pub common: AdminCommonArgs,
    pub user_id: UserId,
    pub enabled: bool,
}

impl AdminSetUserStatusArgs {
    pub fn request(&self) -> (r: UpdateUserStatusRequest)
        ensures
            r.enabled == self.enabled,
    {
        UpdateUserStatusRequest { enabled: self.enabled }
    }
}

/// An admin command that assigns a plan to a user.
#[derive(Clone, Debug)]
pub struct AdminAssignPlanArgs {
    pub common: AdminCommonArgs,
    pub user_id: UserId,
    pub plan_id: String,
}

impl AdminAssignPlanArgs {
    pub fn request(&self) -> (r: AssignUserPlanRequest)
        ensures
            r.plan_id@ == self.plan_id@,
    {
        AssignUserPlanRequest { plan_id: copy_string(&self.plan_id) }
    }
}

/// An admin command that registers a relay.
#[derive(Clone, Debug)]
pub struct AdminRegisterRelayArgs {
    pub common: AdminCommonArgs,
    pub relay_id: String,
    pub relay_addr: String,
    pub admin_addr: String,
    pub capacity_streams: u32,
}

impl AdminRegisterRelayArgs {
    pub fn request(&self) -> (r: RegisterRelayRequest)
        ensures
            r.relay_id@ == self.relay_id@,
            r.relay_addr@ == self.relay_addr@,
            r.admin_addr@ == self.admin_addr@,
            r.capacity_streams == self.capacity_streams,
    {
        RegisterRelayRequest {
            relay_id: copy_string(&self.relay_id),
            relay_addr: copy_string(&self.relay_addr),
            admin_addr: copy_string(&self.admin_addr),
            capacity_streams: self.capacity_streams,
        }
    }
}

/// An admin command that creates a relay bootstrap.
#[derive(Clone, Debug)]
pub struct AdminCreateRelayBootstrapArgs {
    pub common: AdminCommonArgs,
    pub relay_id: String,
    pub relay_addr: String,
    pub admin_addr: String,
    pub capacity_streams: u32,
    pub heartbeat_interval_sec: u64,
    pub ttl_sec: u64,
}

impl AdminCreateRelayBootstrapArgs {
    /// The bootstrap request; the relay will report to the Control server
    /// that the command talks to.
    pub fn request(&self) -> (r: CreateRelayBootstrapRequest)
        ensures
            r.relay_id@ == self.relay_id@,
            r.control_url@ == self.common.control@,
            r.relay_addr@ == self.relay_addr@,
            r.admin_addr@ == self.admin_addr@,
            r.capacity_streams == self.capacity_streams,
            r.heartbeat_interval_sec == self.heartbeat_interval_sec,
            r.ttl_sec == self.ttl_sec,
    {
        CreateRelayBootstrapRequest {
            relay_id: copy_string(&self.relay_id),
            control_url: copy_string(&self.common.control),
            relay_addr: copy_string(&self.relay_addr),
            admin_addr: copy_string(&self.admin_addr),
            capacity_streams: self.capacity_streams,
            heartbeat_interval_sec: self.heartbeat_interval_sec,
            ttl_sec: self.ttl_sec,
        }
    }
}

/// An admin command that updates a relay.
#[derive(Clone, Debug)]
pub struct AdminUpdateRelayArgs {
    pub common: AdminCommonArgs,
    pub relay_id: String,
    pub relay_addr: String,
    pub admin_addr: String,
    pub capacity_streams: u32,
    pub healthy: bool,
}

impl AdminUpdateRelayArgs {
    pub fn request(&self) -> (r: UpdateRelayRequest)
        ensures
            r.relay_addr@ == self.relay_addr@,
            r.admin_addr@ == self.admin_addr@,
            r.capacity_streams == self.capacity_streams,
            r.healthy == self.healthy,
    {
        UpdateRelayRequest {
            relay_addr: copy_string(&self.relay_addr),
            admin_addr: copy_string(&self.admin_addr),
            capacity_streams: self.capacity_streams,
            healthy: self.healthy,
        }
    }
}

/// An admin command that gives a user access to a device.
#[derive(Clone, Debug)]
pub struct AdminGrantDeviceAccessArgs {
    pub common: AdminCommonArgs,
    pub device: DeviceId,
    pub user_id: UserId,
}

impl AdminGrantDeviceAccessArgs {
    pub fn request(&self) -> (r: GrantDeviceAccessRequest)
        ensures
            r.user_id@ == self.user_id@,
    {
        GrantDeviceAccessRequest { user_id: self.user_id.copied() }
    }
}

/// The Control client options that a command's arguments ask for: the
/// retries and backoff as given, and a timeout only when one is given.
pub fn control_client_options(
    request_timeout_ms: Option<u64>,
    max_retries: u32,
    retry_backoff_ms: u64,
) -> (r: HttpControlClientOptions)
    ensures
        r.timeout_spec() == match request_timeout_ms {
            Some(ms) => Some(millis_duration(ms)),
            None => None,
        },
        r.retries_spec() == max_retries,
        r.backoff_spec() == millis_duration(retry_backoff_ms),
{
    let options = HttpControlClientOptions::default().with_max_retries(max_retries).with_retry_backoff(
        duration_from_millis(retry_backoff_ms),
    );
    match request_timeout_ms {
        Some(ms) => options.with_request_timeout(duration_from_millis(ms)),
        None => options,
    }
}

/// A relay session to join directly, without Control.
#[derive(Clone, Debug)]
pub struct DirectRelayTarget {
    pub relay_addr: SocketAddr,
    pub session_id: SessionId,
    pub token: String,
}

/// The direct relay session that the mobile client's arguments name: all
/// three of relay, session and token, or none of them.
pub fn direct_relay_config(
    relay_addr: Option<SocketAddr>,
    session_id: &Option<SessionId>,
    relay_token: &Option<String>,
) -> (r: Result<Option<DirectRelayTarget>, String>)
    ensures
        match (relay_addr, *session_id, *relay_token) {
            (Some(a), Some(s), Some(t)) => r matches Ok(Some(d)) && d.relay_addr == a && d.session_id == s
                && d.token@ == t@,
            (None, None, None) => r matches Ok(None),
            _ => r matches Err(m) && m@
                == "--relay, --session, and --relay-token must be provided together for direct Relay mode"@,
        },
{
    match (relay_addr, session_id, relay_token) {
        (Some(a), Some(s), Some(t)) => Ok(
            Some(DirectRelayTarget { relay_addr: a, session_id: s.copied(), token: copy_string(t) }),
        ),
        (None, None, None) => Ok(None),
        _ => Err(owned("--relay, --session, and --relay-token must be provided together for direct Relay mode")),
    }
}

/// The direct relay session that the agent's arguments name; without it the
/// agent needs a Control server.
pub fn agent_direct_relay_config(
    relay_addr: Option<SocketAddr>,
    session_id: &Option<SessionId>,
    relay_token: &Option<String>,
) -> (r: Result<DirectRelayTarget, String>)
    ensures
        match (relay_addr, *session_id, *relay_token) {
            (Some(a), Some(s), Some(t)) => r matches Ok(d) && d.relay_addr == a && d.session_id == s
                && d.token@ == t@,
            (None, None, None) => r matches Err(m) && m@
                == "--control is required unless --relay, --session, and --relay-token are provided"@,
            _ => r matches Err(m) && m@
                == "--relay, --session, and --relay-token must be provided together for direct Relay mode"@,
        },
{
    match (relay_addr, session_id, relay_token) {
        (Some(a), Some(s), Some(t)) => Ok(
            DirectRelayTarget { relay_addr: a, session_id: s.copied(), token: copy_string(t) },
        ),
        (None, None, None) => Err(owned("--control is required unless --relay, --session, and --relay-token are provided")),
        _ => Err(owned("--relay, --session, and --relay-token must be provided together for direct Relay mode")),
    }
}

/// How long to wait between polls of a pairing: the longer of what Control
/// asks and what the arguments ask, at least a millisecond.
pub fn pairing_poll_delay_ms(poll_interval_ms: u64, poll_ms: u64) -> (r: u64)
    ensures
        r >= 1,
        r >= poll_interval_ms && r >= poll_ms,
        r == poll_interval_ms || r == poll_ms || r == 1,
{
    let m = if poll_interval_ms > poll_ms {
        poll_interval_ms
    } else {
        poll_ms
    };
    if m < 1 {
        1
    } else {
        m
    }
}

} // verus!
