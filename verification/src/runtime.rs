//! The agent runtime's decisions: what it registers with Control, which
//! claimed sessions a mobile grant lets it serve, which running sessions a
//! revocation ends, and how it answers pending pairing and session requests.
use vstd::prelude::*;
use crate::config::{AgentConfig, ServiceConfig};
use crate::control_client::ControlClientError;
use crate::ids::{ClientId, DeviceId, ServiceId, SessionId, UserId};
use crate::ip::{parse_socket_addr, parse_socket_addr_str, SocketAddr};
use crate::mobile_grant::{
    error_message, grant_revoked, MobileGrantManager, MobileGrantManagerError, MobileGrantStateView,
};
use crate::models::{AgentSessionAssignment, ApproveMobilePairingRequest, DenyMobileGrantRequest};
use crate::protocol::{
    copy_service_ids, ids_view, Device, DeviceStatus, MobileGrantCredential, Service,
};
use crate::text::{copy_string, owned};

verus! {

/// The agent process.
#[derive(Debug)]
pub struct Agent;

/// The relay client's settings beyond those of a relay session: there are
/// none.
#[derive(Debug, Clone)]
pub struct RelayClientConfig;

#[derive(Debug)]
pub enum AgentError {
    Control(ControlClientError),
    Relay(String),
    P2p(String),
    P2pPath(String),
    InvalidRelayAddress { value: String },
    InvalidPunchAddress { value: String },
    MobileGrantRejected { reason: String },
}

/// The device as the agent registers it.
pub fn device_from_config(config: &AgentConfig, agent_version: &str) -> (r: Device)
    ensures
        r.device_id@ == config.device_id@,
        r.user_id@ == "user_001"@,
        r.name@ == config.device_id@,
        r.status == DeviceStatus::Online,
        r.agent_version@ == agent_version@,
{
    Device {
        device_id: config.device_id.copied(),
        user_id: UserId::new("user_001"),
        name: copy_string(&config.device_id.0),
        status: DeviceStatus::Online,
        agent_version: owned(agent_version),
    }
}

/// The services as the agent registers them, each under the device.
pub fn services_from_config(device_id: &DeviceId, services: Vec<ServiceConfig>) -> (r: Vec<Service>)
    ensures
        r@.len() == services@.len(),
        forall|i: int|
            0 <= i < services@.len() ==> {
                let s = #[trigger] r@[i];
                &&& s.service_id@ == services@[i].service_id@
                &&& s.device_id@ == device_id@
                &&& s.name@ == services@[i].name@
                &&& s.protocol == services@[i].protocol
                &&& s.target_host@ == services@[i].target_host@
                &&& s.target_port == services@[i].target_port
            },
{
    let mut r: Vec<Service> = Vec::new();
    let mut i: usize = 0;
    while i < services.len()
        invariant
            i <= services@.len(),
            r@.len() == i,
            forall|j: int|
                0 <= j < i ==> {
                    let s = #[trigger] r@[j];
                    &&& s.service_id@ == services@[j].service_id@
                    &&& s.device_id@ == device_id@
                    &&& s.name@ == services@[j].name@
                    &&& s.protocol == services@[j].protocol
                    &&& s.target_host@ == services@[j].target_host@
                    &&& s.target_port == services@[j].target_port
                },
        decreases services@.len() - i,
    {
        let c = &services[i];
        r.push(
            Service {
                service_id: c.service_id.copied(),
                device_id: device_id.copied(),
                name: copy_string(&c.name),
                protocol: c.protocol,
                target_host: copy_string(&c.target_host),
                target_port: c.target_port,
            },
        );
        i = i + 1;
    }
    r
}

/// Whether a failed claim means that another agent process claimed the
/// session first (409 Conflict): the session is skipped.
pub fn is_claim_conflict(error: &ControlClientError) -> (r: bool)
    ensures
        r == (error matches ControlClientError::HttpStatus { status_code, .. } && status_code.code() == 409),
{
    match error {
        ControlClientError::HttpStatus { status_code, .. } => status_code.as_u16() == 409,
        _ => false,
    }
}

/// Whether the grant a session runs under still allows it: it exists, is
/// enabled, and matches the device, client, revocation version and service.
pub open spec fn grant_allows(
    grants: Option<MobileGrantStateView>,
    grant_id: Seq<char>,
    device_id: Seq<char>,
    client_id: Seq<char>,
    revocation_version: u64,
    service_id: Seq<char>,
) -> bool {
    match grants {
        None => false,
        Some(s) => {
            &&& s.grants.dom().contains(grant_id)
            &&& s.grants[grant_id].enabled
            &&& s.grants[grant_id].credential.device_id == device_id
            &&& s.grants[grant_id].credential.client_id == client_id
            &&& s.grants[grant_id].credential.revocation_version == revocation_version
            &&& s.grants[grant_id].credential.allowed_services.contains(service_id)
        },
    }
}

pub open spec fn store_view(grants: Option<&MobileGrantManager>) -> Option<MobileGrantStateView> {
    match grants {
        Some(g) => Some(g@),
        None => None,
    }
}

/// Why a claimed session's grant is refused, if it is: incomplete grant
/// data, no grant store, no such grant, a revoked grant, or a grant that
/// does not match the session.
pub open spec fn assignment_refusal(grants: Option<MobileGrantStateView>, a: AgentSessionAssignment) -> Option<
    Seq<char>,
> {
    match (a.grant_id, a.grant_revocation_version, a.grant_service_id) {
        (Some(gid), Some(version), Some(sid)) => match grants {
            None => Some("grant manager unavailable"@),
            Some(s) => if !s.grants.dom().contains(gid@) {
                Some("grant not found"@)
            } else if !s.grants[gid@].enabled {
                Some("grant revoked"@)
            } else {
                let c = s.grants[gid@].credential;
                if c.device_id != a.device_id@ || c.client_id != a.client_id@ || c.revocation_version
                    != version || sid@ != a.service_id@ || !c.allowed_services.contains(sid@) {
                    Some("grant metadata mismatch"@)
                } else {
                    None
                }
            },
        },
        (None, None, None) => None,
        _ => Some("incomplete grant metadata"@),
    }
}

/// A claimed session that carries grant data is served only under an
/// enabled grant of the store issued to the session's device and client, at
/// the claimed revocation version, whose grant service is the session's own
/// service and is one the grant allows.
pub proof fn law_grant_covers_the_served_service(s: MobileGrantStateView, a: AgentSessionAssignment)
    requires
        a.grant_id is Some || a.grant_revocation_version is Some || a.grant_service_id is Some,
        assignment_refusal(Some(s), a) is None,
    ensures
        a.grant_id is Some && a.grant_revocation_version is Some && a.grant_service_id is Some,
        s.grants.dom().contains(a.grant_id->Some_0@),
        s.grants[a.grant_id->Some_0@].enabled,
        s.grants[a.grant_id->Some_0@].credential.device_id == a.device_id@,
        s.grants[a.grant_id->Some_0@].credential.client_id == a.client_id@,
        s.grants[a.grant_id->Some_0@].credential.revocation_version == a.grant_revocation_version->Some_0,
        a.grant_service_id->Some_0@ == a.service_id@,
        s.grants[a.grant_id->Some_0@].credential.allowed_services.contains(a.service_id@),
{
}

/// Without a grant store, no session that carries grant data is served.
pub proof fn law_grant_data_needs_a_store(a: AgentSessionAssignment)
    requires
        a.grant_id is Some || a.grant_revocation_version is Some || a.grant_service_id is Some,
    ensures
        assignment_refusal(None, a) is Some,
{
}

fn rejected(reason: &str) -> (e: AgentError)
    ensures
        e matches AgentError::MobileGrantRejected { reason: why } && why@ == reason@,
{
    AgentError::MobileGrantRejected { reason: owned(reason) }
}

/// Checks the grant of a claimed session before the agent serves it.
pub fn validate_grant_assignment(grants: Option<&MobileGrantManager>, claimed: &AgentSessionAssignment) -> (r:
    Result<(), AgentError>)
    ensures
        match assignment_refusal(store_view(grants), *claimed) {
            None => r is Ok,
            Some(reason) => r matches Err(AgentError::MobileGrantRejected { reason: why }) && why@ == reason,
        },
        r is Ok && (claimed.grant_id is Some || claimed.grant_revocation_version is Some
            || claimed.grant_service_id is Some) ==> (grants matches Some(m) && {
            let gid = claimed.grant_id->Some_0@;
            let g = m@.grants[gid];
            &&& claimed.grant_id is Some
            &&& claimed.grant_revocation_version is Some
            &&& claimed.grant_service_id is Some
            &&& m@.grants.dom().contains(gid)
            &&& g.enabled
            &&& g.credential.device_id == claimed.device_id@
            &&& g.credential.client_id == claimed.client_id@
            &&& g.credential.revocation_version == claimed.grant_revocation_version->Some_0
            &&& claimed.grant_service_id->Some_0@ == claimed.service_id@
            &&& g.credential.allowed_services.contains(claimed.service_id@)
        }),
{
    let (grant_id, version, grant_service_id) = match (
        &claimed.grant_id,
        claimed.grant_revocation_version,
        &claimed.grant_service_id,
    ) {
        (Some(g), Some(v), Some(s)) => (g, v, s),
        _ => {
            if claimed.grant_id.is_none() && claimed.grant_revocation_version.is_none()
                && claimed.grant_service_id.is_none() {
                return Ok(());
            }
            return Err(rejected("incomplete grant metadata"));
        },
    };
    let manager = match grants {
        Some(m) => m,
        None => {
            return Err(rejected("grant manager unavailable"));
        },
    };
    let record = match manager.grant(grant_id.as_str()) {
        Some(r) => r,
        None => {
            return Err(rejected("grant not found"));
        },
    };
    if !record.enabled {
        return Err(rejected("grant revoked"));
    }
    if !record.credential.device_id.same(&claimed.device_id) || !record.credential.client_id.same(
        &claimed.client_id,
    ) || record.credential.revocation_version != version || !grant_service_id.same(&claimed.service_id)
        || !crate::protocol::contains_service_id(&record.credential.allowed_services, grant_service_id) {
        return Err(rejected("grant metadata mismatch"));
    }
    Ok(())
}

/// The grant data of a session that runs under a mobile grant.
#[derive(Clone, Debug, PartialEq, Eq)]
pub struct ActiveMobileGrantMetadata {
    pub device_id: DeviceId,
    pub client_id: ClientId,
    pub service_id: ServiceId,
    pub grant_id: String,
    pub revocation_version: u64,
}

/// The grant data of a claimed session, when it carries all of it.
pub fn active_mobile_grant_metadata_from_assignment(assignment: &AgentSessionAssignment) -> (r: Option<
    ActiveMobileGrantMetadata,
>)
    ensures
        match (assignment.grant_id, assignment.grant_revocation_version, assignment.grant_service_id) {
            (Some(g), Some(v), Some(s)) => r matches Some(m) && m.device_id@ == assignment.device_id@
                && m.client_id@ == assignment.client_id@ && m.service_id@ == s@ && m.grant_id@ == g@
                && m.revocation_version == v,
            _ => r is None,
        },
{
    match (&assignment.grant_id, assignment.grant_revocation_version, &assignment.grant_service_id) {
        (Some(g), Some(v), Some(s)) => Some(
            ActiveMobileGrantMetadata {
                device_id: assignment.device_id.copied(),
                client_id: assignment.client_id.copied(),
                service_id: s.copied(),
                grant_id: copy_string(g),
                revocation_version: v,
            },
        ),
        _ => None,
    }
}

/// Whether the grant of a running session still allows it.
pub fn active_mobile_grant_metadata_is_valid(
    grants: Option<&MobileGrantManager>,
    metadata: &ActiveMobileGrantMetadata,
) -> (r: bool)
    ensures
        r == grant_allows(
            store_view(grants),
            metadata.grant_id@,
            metadata.device_id@,
            metadata.client_id@,
            metadata.revocation_version,
            metadata.service_id@,
        ),
{
    let manager = match grants {
        Some(m) => m,
        None => {
            return false;
        },
    };
    let record = match manager.grant(metadata.grant_id.as_str()) {
        Some(r) => r,
        None => {
            return false;
        },
    };
    record.enabled && record.credential.device_id.same(&metadata.device_id)
        && record.credential.client_id.same(&metadata.client_id)
        && record.credential.revocation_version == metadata.revocation_version
        && crate::protocol::contains_service_id(&record.credential.allowed_services, &metadata.service_id)
}

/// Whether a running session is to be closed because its grant no longer
/// allows it; sessions without a grant are never closed here.
pub open spec fn revoked_session(grants: Option<MobileGrantStateView>, m: Option<ActiveMobileGrantMetadata>) -> bool {
    match m {
        Some(md) => !grant_allows(grants, md.grant_id@, md.device_id@, md.client_id@, md.revocation_version, md.service_id@),
        None => false,
    }
}

/// The running sessions whose grant no longer allows them, in order.
pub fn revoked_mobile_grant_session_ids(
    sessions: &Vec<(SessionId, Option<ActiveMobileGrantMetadata>)>,
    grants: Option<&MobileGrantManager>,
) -> (r: Vec<SessionId>)
    ensures
        r@.map_values(|s: SessionId| s@) == sessions@.filter(
            |e: (SessionId, Option<ActiveMobileGrantMetadata>)| revoked_session(store_view(grants), e.1),
        ).map_values(|e: (SessionId, Option<ActiveMobileGrantMetadata>)| e.0@),
{
    let ghost pred = |e: (SessionId, Option<ActiveMobileGrantMetadata>)| revoked_session(store_view(grants), e.1);
    let mut out: Vec<SessionId> = Vec::new();
    let mut i: usize = 0;
    proof {
        reveal(Seq::filter);
        assert(sessions@.take(0) =~= Seq::<(SessionId, Option<ActiveMobileGrantMetadata>)>::empty());
        assert(out@.map_values(|s: SessionId| s@) =~= sessions@.take(0).filter(pred).map_values(
            |e: (SessionId, Option<ActiveMobileGrantMetadata>)| e.0@,
        ));
    }
    while i < sessions.len()
        invariant
            i <= sessions@.len(),
            pred == (|e: (SessionId, Option<ActiveMobileGrantMetadata>)| revoked_session(store_view(grants), e.1)),
            out@.map_values(|s: SessionId| s@) == sessions@.take(i as int).filter(pred).map_values(
                |e: (SessionId, Option<ActiveMobileGrantMetadata>)| e.0@,
            ),
        decreases sessions@.len() - i,
    {
        let (session_id, metadata) = &sessions[i];
        let ghost before = out@;
        proof {
            reveal(Seq::filter);
            assert(sessions@.take(i + 1).drop_last() =~= sessions@.take(i as int));
        }
        let revoked = match metadata {
            Some(m) => !active_mobile_grant_metadata_is_valid(grants, m),
            None => false,
        };
        if revoked {
            out.push(session_id.copied());
            proof {
                let f = sessions@.take(i as int).filter(pred);
                assert(sessions@[i as int].0 == *session_id);
                assert(out@ =~= before.push(*session_id));
                assert(before.map_values(|s: SessionId| s@) == f.map_values(
                    |e: (SessionId, Option<ActiveMobileGrantMetadata>)| e.0@,
                ));
                assert(sessions@.take(i + 1).filter(pred) == f.push(sessions@[i as int]));
                assert(out@.map_values(|s: SessionId| s@) =~= before.map_values(|s: SessionId| s@).push(session_id@));
                assert(f.push(sessions@[i as int]).map_values(
                    |e: (SessionId, Option<ActiveMobileGrantMetadata>)| e.0@,
                ) =~= f.map_values(|e: (SessionId, Option<ActiveMobileGrantMetadata>)| e.0@).push(session_id@));
            }
        } else {
            proof {
                assert(sessions@.take(i + 1).filter(pred) == sessions@.take(i as int).filter(pred));
            }
        }
        i = i + 1;
    }
    assert(sessions@.take(i as int) =~= sessions@);
    out
}

/// Once a grant is revoked, no running session under it is allowed any more:
/// the next sweep closes every one of them.
pub proof fn law_revoked_grant_ends_running_sessions(
    s: MobileGrantStateView,
    grant_id: Seq<char>,
    device_id: Seq<char>,
    client_id: Seq<char>,
    revocation_version: u64,
    service_id: Seq<char>,
)
    requires
        grant_revoked(s, grant_id) is Ok,
    ensures
        !grant_allows(Some(grant_revoked(s, grant_id)->Ok_0), grant_id, device_id, client_id, revocation_version, service_id),
{
}

/// Where to reach the relay of a claimed session.
pub fn assignment_relay_addr(claimed: &AgentSessionAssignment) -> (r: Result<SocketAddr, AgentError>)
    ensures
        match parse_socket_addr(claimed.relay_addr@) {
            Some(a) => r matches Ok(x) && x == a,
            None => r matches Err(AgentError::InvalidRelayAddress { value }) && value@
                == claimed.relay_addr@,
        },
{
    match parse_socket_addr_str(claimed.relay_addr.as_str()) {
        Some(a) => Ok(a),
        None => Err(AgentError::InvalidRelayAddress { value: copy_string(&claimed.relay_addr) }),
    }
}

/// Where to reach the punch service of a claimed session.
pub fn assignment_punch_addr(claimed: &AgentSessionAssignment) -> (r: Result<SocketAddr, AgentError>)
    ensures
        match parse_socket_addr(claimed.punch_addr@) {
            Some(a) => r matches Ok(x) && x == a,
            None => r matches Err(AgentError::InvalidPunchAddress { value }) && value@
                == claimed.punch_addr@,
        },
{
    match parse_socket_addr_str(claimed.punch_addr.as_str()) {
        Some(a) => Ok(a),
        None => Err(AgentError::InvalidPunchAddress { value: copy_string(&claimed.punch_addr) }),
    }
}

/// How the agent answers a pending pairing request.
#[derive(Debug)]
pub enum PairingReply {
    Approve(ApproveMobilePairingRequest),
    Deny(DenyMobileGrantRequest),
}

/// The answer to a pending pairing request: approve with the grant's id,
/// services and revocation version, or deny with the error's text.
pub fn pairing_reply(result: Result<MobileGrantCredential, MobileGrantManagerError>) -> (r: PairingReply)
    ensures
        match result {
            Ok(g) => r matches PairingReply::Approve(a) && a.grant_id@ == g.grant_id@ && ids_view(
                a.allowed_services@,
            ) == ids_view(g.allowed_services@) && a.revocation_version == g.revocation_version,
            Err(e) => r matches PairingReply::Deny(d) && d.reason matches Some(m) && m@ == error_message(e),
        },
{
    match result {
        Ok(grant) => PairingReply::Approve(
            ApproveMobilePairingRequest {
                grant_id: copy_string(&grant.grant_id),
                allowed_services: copy_service_ids(&grant.allowed_services),
                revocation_version: grant.revocation_version,
            },
        ),
        Err(error) => PairingReply::Deny(DenyMobileGrantRequest { reason: Some(error.message()) }),
    }
}

/// The answer to a pending grant session request: approve, or deny with the
/// error's text.
pub fn session_reply(result: Result<MobileGrantCredential, MobileGrantManagerError>) -> (r: Option<
    DenyMobileGrantRequest,
>)
    ensures
        match result {
            Ok(_) => r is None,
            Err(e) => r matches Some(d) && d.reason matches Some(m) && m@ == error_message(e),
        },
{
    match result {
        Ok(_) => None,
        Err(error) => Some(DenyMobileGrantRequest { reason: Some(error.message()) }),
    }
}

} // verus!
