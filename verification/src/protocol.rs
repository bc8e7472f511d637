//! The records that the control plane, the agent and the mobile client
//! exchange: devices, services, relay limits and traffic counters, and the
//! mobile invite, pairing and grant messages.
use vstd::prelude::*;
use crate::ids::{ClientId, DeviceId, ServiceId, SessionId, UserId};
use crate::text::copy_string;

verus! {

/// The characters of each identifier in a list.
pub open spec fn ids_view<T: View<V = Seq<char>>>(v: Seq<T>) -> Seq<Seq<char>> {
    v.map_values(|x: T| x@)
}

/// The characters of an optional string.
pub open spec fn opt_view(o: Option<String>) -> Option<Seq<char>> {
    match o {
        Some(s) => Some(s@),
        None => None,
    }
}

/// A copy of a list of service identifiers.
pub fn copy_service_ids(v: &Vec<ServiceId>) -> (r: Vec<ServiceId>)
    ensures
        ids_view(r@) == ids_view(v@),
{
    let mut r: Vec<ServiceId> = Vec::new();
    let mut i: usize = 0;
    while i < v.len()
        invariant
            i <= v@.len(),
            r@.len() == i,
            forall|j: int| 0 <= j < i ==> (#[trigger] r@[j])@ == v@[j]@,
        decreases v@.len() - i,
    {
        r.push(v[i].copied());
        i = i + 1;
    }
    assert(ids_view(r@) =~= ids_view(v@));
    r
}

/// Whether two lists of service identifiers are the same.
pub fn same_service_ids(a: &Vec<ServiceId>, b: &Vec<ServiceId>) -> (r: bool)
    ensures
        r == (ids_view(a@) == ids_view(b@)),
{
    if a.len() != b.len() {
        assert(ids_view(a@).len() != ids_view(b@).len());
        return false;
    }
    let mut i: usize = 0;
    while i < a.len()
        invariant
            a@.len() == b@.len(),
            i <= a@.len(),
            forall|j: int| 0 <= j < i ==> a@[j]@ == b@[j]@,
        decreases a@.len() - i,
    {
        if !a[i].same(&b[i]) {
            assert(ids_view(a@)[i as int] != ids_view(b@)[i as int]);
            return false;
        }
        i = i + 1;
    }
    assert(ids_view(a@) =~= ids_view(b@));
    true
}

/// Whether `id` is in the list.
pub fn contains_service_id(v: &Vec<ServiceId>, id: &ServiceId) -> (r: bool)
    ensures
        r == ids_view(v@).contains(id@),
{
    let mut i: usize = 0;
    while i < v.len()
        invariant
            i <= v@.len(),
            forall|j: int| 0 <= j < i ==> v@[j]@ != id@,
        decreases v@.len() - i,
    {
        if v[i].same(id) {
            assert(ids_view(v@)[i as int] == id@);
            return true;
        }
        i = i + 1;
    }
    assert forall|j: int| 0 <= j < ids_view(v@).len() implies ids_view(v@)[j] != id@ by {
        assert(ids_view(v@)[j] == v@[j]@);
    }
    false
}

/// A copy of an optional string.
pub fn copy_opt_string(o: &Option<String>) -> (r: Option<String>)
    ensures
        opt_view(r) == opt_view(*o),
{
    match o {
        Some(s) => Some(copy_string(s)),
        None => None,
    }
}

/// Whether two optional strings are the same.
pub fn same_opt_string(a: &Option<String>, b: &Option<String>) -> (r: bool)
    ensures
        r == (opt_view(*a) == opt_view(*b)),
{
    match (a, b) {
        (Some(x), Some(y)) => *x == *y,
        (None, None) => true,
        _ => false,
    }
}

#[derive(Clone, Copy, Debug, PartialEq, Eq)]
pub enum ServiceProtocol {
    Tcp,
}

#[derive(Clone, Copy, Debug, PartialEq, Eq)]
pub enum DeviceStatus {
    Online,
    Offline,
}

#[derive(Clone, Copy, Debug, PartialEq, Eq)]
pub enum PeerRole {
    Mobile,
    Agent,
}

/// A controlled device as the control plane records it.
#[derive(Clone, Debug, PartialEq, Eq)]
pub struct Device {
    pub device_id: DeviceId,
    pub user_id: UserId,
    pub name: String,
    pub status: DeviceStatus,
    pub agent_version: String,
}

/// A service of a device as the control plane records it.
#[derive(Clone, Debug, PartialEq, Eq)]
pub struct Service {
    pub service_id: ServiceId,
    pub device_id: DeviceId,
    pub name: String,
    pub protocol: ServiceProtocol,
    pub target_host: String,
    pub target_port: u16,
}

/// The limits that a relay applies to one session.
#[derive(Clone, Copy, Debug, PartialEq, Eq)]
pub struct RelayLimits {
    pub max_bps: u64,
    pub max_streams: u32,
    pub max_duration_sec: u64,
    pub traffic_quota_bytes: u64,
}

/// The traffic counters of one relay session.
#[derive(Clone, Debug, PartialEq, Eq)]
pub struct TrafficStats {
    pub session_id: Option<SessionId>,
    pub uplink_bytes: u64,
    pub downlink_bytes: u64,
    pub total_bytes: u64,
    pub duration_sec: u64,
    pub active_streams: u32,
}

impl TrafficStats {
    pub fn copied(&self) -> (r: Self)
        ensures
            r == *self,
    {
        TrafficStats {
            session_id: match &self.session_id {
                Some(id) => Some(id.copied()),
                None => None,
            },
            uplink_bytes: self.uplink_bytes,
            downlink_bytes: self.downlink_bytes,
            total_bytes: self.total_bytes,
            duration_sec: self.duration_sec,
            active_streams: self.active_streams,
        }
    }
}

#[derive(Clone, Copy, Debug, PartialEq, Eq)]
pub enum PendingPairingStatus {
    Pending,
    Approved,
    Denied,
    Expired,
}

#[derive(Clone, Copy, Debug, PartialEq, Eq)]
pub enum PendingGrantSessionStatus {
    Pending,
    Approved,
    Denied,
    Expired,
}

/// What an agent hands to a mobile client so that it can pair without a
/// Control login.
#[derive(Clone, Debug, PartialEq, Eq)]
pub struct MobileInvitePayload {
    pub version: u32,
    pub control_url: String,
    pub device_id: DeviceId,
    pub invite_id: String,
    pub invite_secret: String,
    pub agent_p2p_cert_fingerprint: Option<String>,
    pub allowed_services: Vec<ServiceId>,
    pub expires_at: u64,
    pub max_uses: u32,
}

pub struct MobileInvitePayloadView {
    pub version: u32,
    pub control_url: Seq<char>,
    pub device_id: Seq<char>,
    pub invite_id: Seq<char>,
    pub invite_secret: Seq<char>,
    pub agent_p2p_cert_fingerprint: Option<Seq<char>>,
    pub allowed_services: Seq<Seq<char>>,
    pub expires_at: u64,
    pub max_uses: u32,
}

impl View for MobileInvitePayload {
    type V = MobileInvitePayloadView;

    open spec fn view(&self) -> MobileInvitePayloadView {
        MobileInvitePayloadView {
            version: self.version,
            control_url: self.control_url@,
            device_id: self.device_id@,
            invite_id: self.invite_id@,
            invite_secret: self.invite_secret@,
            agent_p2p_cert_fingerprint: opt_view(self.agent_p2p_cert_fingerprint),
            allowed_services: ids_view(self.allowed_services@),
            expires_at: self.expires_at,
            max_uses: self.max_uses,
        }
    }
}

impl MobileInvitePayload {
    pub fn copied(&self) -> (r: Self)
        ensures
            r@ == self@,
    {
        MobileInvitePayload {
            version: self.version,
            control_url: copy_string(&self.control_url),
            device_id: self.device_id.copied(),
            invite_id: copy_string(&self.invite_id),
            invite_secret: copy_string(&self.invite_secret),
            agent_p2p_cert_fingerprint: copy_opt_string(&self.agent_p2p_cert_fingerprint),
            allowed_services: copy_service_ids(&self.allowed_services),
            expires_at: self.expires_at,
            max_uses: self.max_uses,
        }
    }
}

/// The credential that an approved pairing gives a mobile client.
#[derive(Clone, Debug, PartialEq, Eq)]
pub struct MobileGrantCredential {
    pub version: u32,
    pub control_url: String,
    pub device_id: DeviceId,
    pub grant_id: String,
    pub client_id: ClientId,
    pub allowed_services: Vec<ServiceId>,
    pub grant_secret: String,
    pub revocation_version: u64,
    pub agent_p2p_cert_fingerprint: Option<String>,
}

pub struct MobileGrantCredentialView {
    pub version: u32,
    pub control_url: Seq<char>,
    pub device_id: Seq<char>,
    pub grant_id: Seq<char>,
    pub client_id: Seq<char>,
    pub allowed_services: Seq<Seq<char>>,
    pub grant_secret: Seq<char>,
    pub revocation_version: u64,
    pub agent_p2p_cert_fingerprint: Option<Seq<char>>,
}

impl View for MobileGrantCredential {
    type V = MobileGrantCredentialView;

    open spec fn view(&self) -> MobileGrantCredentialView {
        MobileGrantCredentialView {
            version: self.version,
            control_url: self.control_url@,
            device_id: self.device_id@,
            grant_id: self.grant_id@,
            client_id: self.client_id@,
            allowed_services: ids_view(self.allowed_services@),
            grant_secret: self.grant_secret@,
            revocation_version: self.revocation_version,
            agent_p2p_cert_fingerprint: opt_view(self.agent_p2p_cert_fingerprint),
        }
    }
}

impl MobileGrantCredential {
    pub fn copied(&self) -> (r: Self)
        ensures
            r@ == self@,
    {
        MobileGrantCredential {
            version: self.version,
            control_url: copy_string(&self.control_url),
            device_id: self.device_id.copied(),
            grant_id: copy_string(&self.grant_id),
            client_id: self.client_id.copied(),
            allowed_services: copy_service_ids(&self.allowed_services),
            grant_secret: copy_string(&self.grant_secret),
            revocation_version: self.revocation_version,
            agent_p2p_cert_fingerprint: copy_opt_string(&self.agent_p2p_cert_fingerprint),
        }
    }
}

/// A mobile client's request to pair with a device through an invite.
#[derive(Clone, Debug, PartialEq, Eq)]
pub struct MobilePairingRequest {
    pub device_id: DeviceId,
    pub invite_id: String,
    pub client_id: ClientId,
    pub requested_services: Vec<ServiceId>,
    pub nonce: String,
    pub proof: String,
}

pub struct MobilePairingRequestView {
    pub device_id: Seq<char>,
    pub invite_id: Seq<char>,
    pub client_id: Seq<char>,
    pub requested_services: Seq<Seq<char>>,
    pub nonce: Seq<char>,
    pub proof: Seq<char>,
}

impl View for MobilePairingRequest {
    type V = MobilePairingRequestView;

    open spec fn view(&self) -> MobilePairingRequestView {
        MobilePairingRequestView {
            device_id: self.device_id@,
            invite_id: self.invite_id@,
            client_id: self.client_id@,
            requested_services: ids_view(self.requested_services@),
            nonce: self.nonce@,
            proof: self.proof@,
        }
    }
}

impl MobilePairingRequest {
    pub fn copied(&self) -> (r: Self)
        ensures
            r@ == self@,
    {
        MobilePairingRequest {
            device_id: self.device_id.copied(),
            invite_id: copy_string(&self.invite_id),
            client_id: self.client_id.copied(),
            requested_services: copy_service_ids(&self.requested_services),
            nonce: copy_string(&self.nonce),
            proof: copy_string(&self.proof),
        }
    }

    /// Whether two pairing requests carry the same content.
    pub fn same(&self, other: &Self) -> (r: bool)
        ensures
            r == (self@ == other@),
    {
        self.device_id.same(&other.device_id) && self.invite_id == other.invite_id
            && self.client_id.same(&other.client_id) && same_service_ids(
            &self.requested_services,
            &other.requested_services,
        ) && self.nonce == other.nonce && self.proof == other.proof
    }
}

/// A mobile client's request to open a session with a grant credential.
#[derive(Clone, Debug, PartialEq, Eq)]
pub struct GrantSessionRequest {
    pub device_id: DeviceId,
    pub grant_id: String,
    pub client_id: ClientId,
    pub service_id: ServiceId,
    pub revocation_version: u64,
    pub nonce: String,
    pub proof: String,
}

pub struct GrantSessionRequestView {
    pub device_id: Seq<char>,
    pub grant_id: Seq<char>,
    pub client_id: Seq<char>,
    pub service_id: Seq<char>,
    pub revocation_version: u64,
    pub nonce: Seq<char>,
    pub proof: Seq<char>,
}

impl View for GrantSessionRequest {
    type V = GrantSessionRequestView;

    open spec fn view(&self) -> GrantSessionRequestView {
        GrantSessionRequestView {
            device_id: self.device_id@,
            grant_id: self.grant_id@,
            client_id: self.client_id@,
            service_id: self.service_id@,
            revocation_version: self.revocation_version,
            nonce: self.nonce@,
            proof: self.proof@,
        }
    }
}

impl GrantSessionRequest {
    pub fn copied(&self) -> (r: Self)
        ensures
            r@ == self@,
    {
        GrantSessionRequest {
            device_id: self.device_id.copied(),
            grant_id: copy_string(&self.grant_id),
            client_id: self.client_id.copied(),
            service_id: self.service_id.copied(),
            revocation_version: self.revocation_version,
            nonce: copy_string(&self.nonce),
            proof: copy_string(&self.proof),
        }
    }

    /// Whether two session requests carry the same content.
    pub fn same(&self, other: &Self) -> (r: bool)
        ensures
            r == (self@ == other@),
    {
        self.device_id.same(&other.device_id) && self.grant_id == other.grant_id
            && self.client_id.same(&other.client_id) && self.service_id.same(&other.service_id)
            && self.revocation_version == other.revocation_version && self.nonce == other.nonce
            && self.proof == other.proof
    }
}

} // verus!
