//! The agent's store of mobile invites and grants: creating invites, approving
//! pairings, verifying grant sessions, revoking, and listing.
//!
//! Checking a request's proof and deriving a grant's secret are done by the
//! functions that the caller hands in; the store decides everything else.
use vstd::prelude::*;
use crate::ids::{ClientId, DeviceId, ServiceId};
use crate::protocol::{
    copy_opt_string, copy_service_ids, ids_view, opt_view, GrantSessionRequest,
    GrantSessionRequestView, MobileGrantCredential, MobileGrantCredentialView, MobileInvitePayload,
    MobileInvitePayloadView, MobilePairingRequest, MobilePairingRequestView,
};
use crate::table::Table;
use crate::text::{copy_string, is_blank, owned, push_char, push_str, seq_lt, str_eq, str_lt, trim};

verus! {

/// What an agent owner asks for when creating an invite.
#[derive(Clone, Debug, PartialEq, Eq)]
pub struct CreateMobileInviteRequest {
    pub control_url: String,
    pub device_id: DeviceId,
    pub allowed_services: Vec<ServiceId>,
    pub ttl_sec: u64,
    pub max_uses: u32,
    pub agent_p2p_cert_fingerprint: Option<String>,
}

/// A grant as the agent keeps it.
#[derive(Clone, Debug, PartialEq, Eq)]
pub struct MobileGrantRecord {
    pub credential: MobileGrantCredential,
    pub enabled: bool,
    pub created_at: u64,
    pub last_used_at: Option<u64>,
}

pub struct MobileGrantRecordView {
    pub credential: MobileGrantCredentialView,
    pub enabled: bool,
    pub created_at: u64,
    pub last_used_at: Option<u64>,
}

impl View for MobileGrantRecord {
    type V = MobileGrantRecordView;

    open spec fn view(&self) -> MobileGrantRecordView {
        MobileGrantRecordView {
            credential: self.credential@,
            enabled: self.enabled,
            created_at: self.created_at,
            last_used_at: self.last_used_at,
        }
    }
}

impl MobileGrantRecord {
    pub fn copied(&self) -> (r: Self)
        ensures
            r@ == self@,
    {
        MobileGrantRecord {
            credential: self.credential.copied(),
            enabled: self.enabled,
            created_at: self.created_at,
            last_used_at: self.last_used_at,
        }
    }
}

/// An invite as the agent keeps it.
#[derive(Clone, Debug, PartialEq, Eq)]
pub struct MobileInviteRecord {
    pub payload: MobileInvitePayload,
    pub uses: u32,
    pub revoked: bool,
}

pub struct MobileInviteRecordView {
    pub payload: MobileInvitePayloadView,
    pub uses: u32,
    pub revoked: bool,
}

impl View for MobileInviteRecord {
    type V = MobileInviteRecordView;

    open spec fn view(&self) -> MobileInviteRecordView {
        MobileInviteRecordView { payload: self.payload@, uses: self.uses, revoked: self.revoked }
    }
}

impl MobileInviteRecord {
    pub fn copied(&self) -> (r: Self)
        ensures
            r@ == self@,
    {
        MobileInviteRecord {
            payload: self.payload.copied(),
            uses: self.uses,
            revoked: self.revoked,
        }
    }
}

/// A pairing that was approved, with the request it answered.
#[derive(Clone, Debug, PartialEq, Eq)]
pub struct PairingApprovalRecord {
    pub request: MobilePairingRequest,
    pub grant_id: String,
}

pub struct PairingApprovalView {
    pub request: MobilePairingRequestView,
    pub grant_id: Seq<char>,
}

impl View for PairingApprovalRecord {
    type V = PairingApprovalView;

    open spec fn view(&self) -> PairingApprovalView {
        PairingApprovalView { request: self.request@, grant_id: self.grant_id@ }
    }
}

/// A session request that was verified.
#[derive(Clone, Debug, PartialEq, Eq)]
pub struct SessionApprovalRecord {
    pub request: GrantSessionRequest,
}

pub struct SessionApprovalView {
    pub request: GrantSessionRequestView,
}

impl View for SessionApprovalRecord {
    type V = SessionApprovalView;

    open spec fn view(&self) -> SessionApprovalView {
        SessionApprovalView { request: self.request@ }
    }
}

/// Everything the agent remembers about invites and grants.
pub struct MobileGrantState {
    pub invites: Table<MobileInviteRecord>,
    pub grants: Table<MobileGrantRecord>,
    pub pairing_approvals: Table<PairingApprovalRecord>,
    pub session_approvals: Table<SessionApprovalRecord>,
}

pub struct MobileGrantStateView {
    pub invites: Map<Seq<char>, MobileInviteRecordView>,
    pub grants: Map<Seq<char>, MobileGrantRecordView>,
    pub pairing_approvals: Map<Seq<char>, PairingApprovalView>,
    pub session_approvals: Map<Seq<char>, SessionApprovalView>,
}

impl View for MobileGrantState {
    type V = MobileGrantStateView;

    open spec fn view(&self) -> MobileGrantStateView {
        MobileGrantStateView {
            invites: self.invites@,
            grants: self.grants@,
            pairing_approvals: self.pairing_approvals@,
            session_approvals: self.session_approvals@,
        }
    }
}

impl MobileGrantState {
    pub fn new() -> (s: Self)
        ensures
            s@.invites == Map::<Seq<char>, MobileInviteRecordView>::empty(),
            s@.grants == Map::<Seq<char>, MobileGrantRecordView>::empty(),
            s@.pairing_approvals == Map::<Seq<char>, PairingApprovalView>::empty(),
            s@.session_approvals == Map::<Seq<char>, SessionApprovalView>::empty(),
    {
        MobileGrantState {
            invites: Table::new(),
            grants: Table::new(),
            pairing_approvals: Table::new(),
            session_approvals: Table::new(),
        }
    }
}

/// An invite as it is listed.
#[derive(Clone, Debug, PartialEq, Eq)]
pub struct MobileInviteSummary {
    pub invite_id: String,
    pub device_id: DeviceId,
    pub allowed_services: Vec<ServiceId>,
    pub expires_at: u64,
    pub max_uses: u32,
    pub uses: u32,
    pub revoked: bool,
    pub agent_p2p_cert_fingerprint: Option<String>,
}

pub struct MobileInviteSummaryView {
    pub invite_id: Seq<char>,
    pub device_id: Seq<char>,
    pub allowed_services: Seq<Seq<char>>,
    pub expires_at: u64,
    pub max_uses: u32,
    pub uses: u32,
    pub revoked: bool,
    pub agent_p2p_cert_fingerprint: Option<Seq<char>>,
}

impl View for MobileInviteSummary {
    type V = MobileInviteSummaryView;

    open spec fn view(&self) -> MobileInviteSummaryView {
        MobileInviteSummaryView {
            invite_id: self.invite_id@,
            device_id: self.device_id@,
            allowed_services: ids_view(self.allowed_services@),
            expires_at: self.expires_at,
            max_uses: self.max_uses,
            uses: self.uses,
            revoked: self.revoked,
            agent_p2p_cert_fingerprint: opt_view(self.agent_p2p_cert_fingerprint),
        }
    }
}

/// A grant as it is listed.
#[derive(Clone, Debug, PartialEq, Eq)]
pub struct MobileGrantSummary {
    pub grant_id: String,
    pub device_id: DeviceId,
    pub client_id: ClientId,
    pub allowed_services: Vec<ServiceId>,
    pub enabled: bool,
    pub revocation_version: u64,
    pub created_at: u64,
    pub last_used_at: Option<u64>,
    pub agent_p2p_cert_fingerprint: Option<String>,
}

pub struct MobileGrantSummaryView {
    pub grant_id: Seq<char>,
    pub device_id: Seq<char>,
    pub client_id: Seq<char>,
    pub allowed_services: Seq<Seq<char>>,
    pub enabled: bool,
    pub revocation_version: u64,
    pub created_at: u64,
    pub last_used_at: Option<u64>,
    pub agent_p2p_cert_fingerprint: Option<Seq<char>>,
}

impl View for MobileGrantSummary {
    type V = MobileGrantSummaryView;

    open spec fn view(&self) -> MobileGrantSummaryView {
        MobileGrantSummaryView {
            grant_id: self.grant_id@,
            device_id: self.device_id@,
            client_id: self.client_id@,
            allowed_services: ids_view(self.allowed_services@),
            enabled: self.enabled,
            revocation_version: self.revocation_version,
            created_at: self.created_at,
            last_used_at: self.last_used_at,
            agent_p2p_cert_fingerprint: opt_view(self.agent_p2p_cert_fingerprint),
        }
    }
}

#[derive(Clone, Debug, PartialEq, Eq)]
pub enum MobileGrantManagerError {
    InvalidInput,
    InviteNotFound,
    InviteExpired,
    InviteRevoked,
    InviteConsumed,
    ScopeDenied,
    InvalidProof,
    GrantNotFound,
    GrantRevoked,
    GrantVersionMismatch,
    ReplayDetected,
    StoreIo(String),
    StoreJson(String),
}

/// What an error says, as its `Display` writes it.
pub open spec fn error_message(e: MobileGrantManagerError) -> Seq<char> {
    match e {
        MobileGrantManagerError::InvalidInput => "mobile grant input is invalid"@,
        MobileGrantManagerError::InviteNotFound => "mobile invite was not found"@,
        MobileGrantManagerError::InviteExpired => "mobile invite expired"@,
        MobileGrantManagerError::InviteRevoked => "mobile invite was revoked"@,
        MobileGrantManagerError::InviteConsumed => "mobile invite is already consumed"@,
        MobileGrantManagerError::ScopeDenied => "mobile grant scope denied"@,
        MobileGrantManagerError::InvalidProof => "mobile grant proof is invalid"@,
        MobileGrantManagerError::GrantNotFound => "mobile grant was not found"@,
        MobileGrantManagerError::GrantRevoked => "mobile grant was revoked"@,
        MobileGrantManagerError::GrantVersionMismatch => "mobile grant revocation version is stale"@,
        MobileGrantManagerError::ReplayDetected => "mobile grant replay detected"@,
        MobileGrantManagerError::StoreIo(m) => "mobile grant store io failed: "@ + m@,
        MobileGrantManagerError::StoreJson(m) => "mobile grant store json failed: "@ + m@,
    }
}

impl MobileGrantManagerError {
    /// The error's text.
    pub fn message(&self) -> (r: String)
        ensures
            r@ == error_message(*self),
    {
        match self {
            MobileGrantManagerError::InvalidInput => owned("mobile grant input is invalid"),
            MobileGrantManagerError::InviteNotFound => owned("mobile invite was not found"),
            MobileGrantManagerError::InviteExpired => owned("mobile invite expired"),
            MobileGrantManagerError::InviteRevoked => owned("mobile invite was revoked"),
            MobileGrantManagerError::InviteConsumed => owned("mobile invite is already consumed"),
            MobileGrantManagerError::ScopeDenied => owned("mobile grant scope denied"),
            MobileGrantManagerError::InvalidProof => owned("mobile grant proof is invalid"),
            MobileGrantManagerError::GrantNotFound => owned("mobile grant was not found"),
            MobileGrantManagerError::GrantRevoked => owned("mobile grant was revoked"),
            MobileGrantManagerError::GrantVersionMismatch => owned("mobile grant revocation version is stale"),
            MobileGrantManagerError::ReplayDetected => owned("mobile grant replay detected"),
            MobileGrantManagerError::StoreIo(m) => {
                let mut s = owned("mobile grant store io failed: ");
                push_str(&mut s, m.as_str());
                s
            },
            MobileGrantManagerError::StoreJson(m) => {
                let mut s = owned("mobile grant store json failed: ");
                push_str(&mut s, m.as_str());
                s
            },
        }
    }
}

// ---------------------------------------------------------------------------
// The model.

pub open spec fn is_lower_hex_digit(c: char) -> bool {
    ('0' <= c && c <= '9') || ('a' <= c && c <= 'f')
}

/// The text of a random UUID in its simple form: 32 lowercase hex digits.
pub open spec fn is_simple_uuid(s: Seq<char>) -> bool {
    s.len() == 32 && forall|i: int| 0 <= i < s.len() ==> is_lower_hex_digit(#[trigger] s[i])
}

/// An identifier made of `prefix` and a random UUID.
pub open spec fn is_generated_id(prefix: Seq<char>, id: Seq<char>) -> bool {
    id.len() >= prefix.len() && id.subrange(0, prefix.len() as int) == prefix && is_simple_uuid(
        id.subrange(prefix.len() as int, id.len() as int),
    )
}

pub open spec fn invite_id_prefix() -> Seq<char> {
    seq!['i', 'n', 'v', '_']
}

pub open spec fn invite_secret_prefix() -> Seq<char> {
    seq!['i', 'n', 'v', '_', 's', 'e', 'c', 'r', 'e', 't', '_']
}

pub open spec fn grant_id_prefix() -> Seq<char> {
    seq!['g', 'r', '_']
}

/// Three fields joined by newlines: the key under which an approval is kept.
pub open spec fn approval_key(a: Seq<char>, b: Seq<char>, c: Seq<char>) -> Seq<char> {
    a + seq!['\n'] + b + seq!['\n'] + c
}

pub open spec fn pairing_key(r: MobilePairingRequestView) -> Seq<char> {
    approval_key(r.invite_id, r.client_id, r.nonce)
}

pub open spec fn session_key(r: GrantSessionRequestView) -> Seq<char> {
    approval_key(r.grant_id, r.client_id, r.nonce)
}

/// Whether a request to create an invite is refused as invalid input.
pub open spec fn invite_request_invalid(
    control_url: Seq<char>,
    device_id: Seq<char>,
    allowed_services: Seq<Seq<char>>,
    ttl_sec: u64,
    max_uses: u32,
) -> bool {
    ||| trim(control_url).len() == 0
    ||| trim(device_id).len() == 0
    ||| allowed_services.len() == 0
    ||| exists|i: int| 0 <= i < allowed_services.len() && trim(#[trigger] allowed_services[i]).len() == 0
    ||| ttl_sec == 0
    ||| max_uses == 0
}

pub open spec fn saturating_add_u64(a: u64, b: u64) -> u64 {
    if a + b > u64::MAX {
        u64::MAX
    } else {
        (a + b) as u64
    }
}

/// The store after an invite was created.
pub open spec fn invite_created(s: MobileGrantStateView, p: MobileInvitePayloadView) -> MobileGrantStateView {
    MobileGrantStateView {
        invites: s.invites.insert(p.invite_id, MobileInviteRecordView { payload: p, uses: 0, revoked: false }),
        ..s
    }
}

/// Whether every requested service is one that the invite allows.
pub open spec fn all_allowed(requested: Seq<Seq<char>>, allowed: Seq<Seq<char>>) -> bool {
    forall|i: int| 0 <= i < requested.len() ==> allowed.contains(#[trigger] requested[i])
}

/// Where a pairing request stands before its proof is looked at.
pub enum PairingStep {
    /// The store answers without looking at the proof.
    Answer(Result<MobileGrantCredentialView, MobileGrantManagerError>),
    /// The request passes every check but the proof.
    CheckProof,
}

pub open spec fn pairing_step(s: MobileGrantStateView, r: MobilePairingRequestView, now: u64) -> PairingStep {
    let key = pairing_key(r);
    if s.pairing_approvals.dom().contains(key) {
        let approval = s.pairing_approvals[key];
        if approval.request != r {
            PairingStep::Answer(Err(MobileGrantManagerError::ReplayDetected))
        } else if s.grants.dom().contains(approval.grant_id) {
            PairingStep::Answer(Ok(s.grants[approval.grant_id].credential))
        } else {
            PairingStep::Answer(Err(MobileGrantManagerError::GrantNotFound))
        }
    } else if !s.invites.dom().contains(r.invite_id) {
        PairingStep::Answer(Err(MobileGrantManagerError::InviteNotFound))
    } else {
        let invite = s.invites[r.invite_id];
        if invite.payload.device_id != r.device_id {
            PairingStep::Answer(Err(MobileGrantManagerError::ScopeDenied))
        } else if invite.revoked {
            PairingStep::Answer(Err(MobileGrantManagerError::InviteRevoked))
        } else if invite.payload.expires_at <= now {
            PairingStep::Answer(Err(MobileGrantManagerError::InviteExpired))
        } else if invite.uses >= invite.payload.max_uses {
            PairingStep::Answer(Err(MobileGrantManagerError::InviteConsumed))
        } else if r.requested_services.len() == 0 || !all_allowed(
            r.requested_services,
            invite.payload.allowed_services,
        ) {
            PairingStep::Answer(Err(MobileGrantManagerError::ScopeDenied))
        } else {
            PairingStep::CheckProof
        }
    }
}

/// Whether `c` is the credential that an accepted pairing hands out, given
/// the grant id and secret it was made with.
pub open spec fn pairing_credential(s: MobileGrantStateView, r: MobilePairingRequestView, c: MobileGrantCredentialView) -> bool {
    let invite = s.invites[r.invite_id];
    &&& c.version == 1
    &&& c.control_url == invite.payload.control_url
    &&& c.device_id == r.device_id
    &&& is_generated_id(grant_id_prefix(), c.grant_id)
    &&& c.client_id == r.client_id
    &&& c.allowed_services == r.requested_services
    &&& c.revocation_version == 1
    &&& c.agent_p2p_cert_fingerprint == invite.payload.agent_p2p_cert_fingerprint
}

/// The store after a pairing was accepted with credential `c`.
pub open spec fn pairing_accepted(
    s: MobileGrantStateView,
    r: MobilePairingRequestView,
    now: u64,
    c: MobileGrantCredentialView,
) -> MobileGrantStateView {
    let invite = s.invites[r.invite_id];
    MobileGrantStateView {
        invites: s.invites.insert(r.invite_id, MobileInviteRecordView { uses: (invite.uses + 1) as u32, ..invite }),
        grants: s.grants.insert(
            c.grant_id,
            MobileGrantRecordView { credential: c, enabled: true, created_at: now, last_used_at: None },
        ),
        pairing_approvals: s.pairing_approvals.insert(pairing_key(r), PairingApprovalView { request: r, grant_id: c.grant_id }),
        session_approvals: s.session_approvals,
    }
}

/// Where a session request stands before its proof is looked at: the refusal,
/// if there is one.
pub open spec fn session_refusal(s: MobileGrantStateView, r: GrantSessionRequestView) -> Option<MobileGrantManagerError> {
    let key = session_key(r);
    if s.session_approvals.dom().contains(key) && s.session_approvals[key].request != r {
        Some(MobileGrantManagerError::ReplayDetected)
    } else if !s.grants.dom().contains(r.grant_id) {
        Some(MobileGrantManagerError::GrantNotFound)
    } else {
        let record = s.grants[r.grant_id];
        if !record.enabled {
            Some(MobileGrantManagerError::GrantRevoked)
        } else if record.credential.device_id != r.device_id || record.credential.client_id != r.client_id {
            Some(MobileGrantManagerError::ScopeDenied)
        } else if record.credential.revocation_version != r.revocation_version {
            Some(MobileGrantManagerError::GrantVersionMismatch)
        } else if !record.credential.allowed_services.contains(r.service_id) {
            Some(MobileGrantManagerError::ScopeDenied)
        } else {
            None
        }
    }
}

/// The store after a session request was verified at `now`.
pub open spec fn session_accepted(s: MobileGrantStateView, r: GrantSessionRequestView, now: u64) -> MobileGrantStateView {
    let record = s.grants[r.grant_id];
    MobileGrantStateView {
        grants: s.grants.insert(r.grant_id, MobileGrantRecordView { last_used_at: Some(now), ..record }),
        session_approvals: s.session_approvals.insert(session_key(r), SessionApprovalView { request: r }),
        ..s
    }
}

/// What revoking an invite does.
pub open spec fn invite_revoked(s: MobileGrantStateView, id: Seq<char>) -> Result<MobileGrantStateView, MobileGrantManagerError> {
    if s.invites.dom().contains(id) {
        Ok(MobileGrantStateView {
            invites: s.invites.insert(id, MobileInviteRecordView { revoked: true, ..s.invites[id] }),
            ..s
        })
    } else {
        Err(MobileGrantManagerError::InviteNotFound)
    }
}

/// What revoking a grant does: it is disabled and its revocation version
/// moves on.
pub open spec fn grant_revoked(s: MobileGrantStateView, id: Seq<char>) -> Result<MobileGrantStateView, MobileGrantManagerError> {
    if s.grants.dom().contains(id) {
        let record = s.grants[id];
        let version = record.credential.revocation_version;
        Ok(MobileGrantStateView {
            grants: s.grants.insert(
                id,
                MobileGrantRecordView {
                    enabled: false,
                    credential: MobileGrantCredentialView {
                        revocation_version: saturating_add_u64(version, 1),
                        ..record.credential
                    },
                    ..record
                },
            ),
            ..s
        })
    } else {
        Err(MobileGrantManagerError::GrantNotFound)
    }
}

pub open spec fn invite_summary(r: MobileInviteRecordView) -> MobileInviteSummaryView {
    MobileInviteSummaryView {
        invite_id: r.payload.invite_id,
        device_id: r.payload.device_id,
        allowed_services: r.payload.allowed_services,
        expires_at: r.payload.expires_at,
        max_uses: r.payload.max_uses,
        uses: r.uses,
        revoked: r.revoked,
        agent_p2p_cert_fingerprint: r.payload.agent_p2p_cert_fingerprint,
    }
}

pub open spec fn grant_summary(r: MobileGrantRecordView) -> MobileGrantSummaryView {
    MobileGrantSummaryView {
        grant_id: r.credential.grant_id,
        device_id: r.credential.device_id,
        client_id: r.credential.client_id,
        allowed_services: r.credential.allowed_services,
        enabled: r.enabled,
        revocation_version: r.credential.revocation_version,
        created_at: r.created_at,
        last_used_at: r.last_used_at,
        agent_p2p_cert_fingerprint: r.credential.agent_p2p_cert_fingerprint,
    }
}

/// Whether `x` is the summary of some invite of the store.
pub open spec fn summarizes_some_invite(s: MobileGrantStateView, x: MobileInviteSummaryView) -> bool {
    exists|k: Seq<char>| #[trigger] s.invites.dom().contains(k) && x == invite_summary(s.invites[k])
}

/// Whether `x` is the summary of some grant of the store.
pub open spec fn summarizes_some_grant(s: MobileGrantStateView, x: MobileGrantSummaryView) -> bool {
    exists|k: Seq<char>| #[trigger] s.grants.dom().contains(k) && x == grant_summary(s.grants[k])
}

pub open spec fn invites_sorted(v: Seq<MobileInviteSummary>) -> bool {
    forall|i: int, j: int| 0 <= i < j < v.len() ==> !seq_lt((#[trigger] v[j]).invite_id@, (#[trigger] v[i]).invite_id@)
}

pub open spec fn grants_sorted(v: Seq<MobileGrantSummary>) -> bool {
    forall|i: int, j: int| 0 <= i < j < v.len() ==> !seq_lt((#[trigger] v[j]).grant_id@, (#[trigger] v[i]).grant_id@)
}

/// Whether the summaries come in strictly ascending order of invite id.
pub open spec fn invite_ids_ascending(v: Seq<MobileInviteSummaryView>) -> bool {
    forall|i: int, j: int| 0 <= i < j < v.len() ==> seq_lt((#[trigger] v[i]).invite_id, (#[trigger] v[j]).invite_id)
}

/// Whether the summaries come in strictly ascending order of grant id.
pub open spec fn grant_ids_ascending(v: Seq<MobileGrantSummaryView>) -> bool {
    forall|i: int, j: int| 0 <= i < j < v.len() ==> seq_lt((#[trigger] v[i]).grant_id, (#[trigger] v[j]).grant_id)
}

/// Whether `v` holds exactly the summaries of the store's invites.
pub open spec fn lists_invites(s: MobileGrantStateView, v: Seq<MobileInviteSummaryView>) -> bool {
    forall|x: MobileInviteSummaryView| v.contains(x) <==> summarizes_some_invite(s, x)
}

/// Whether `v` holds exactly the summaries of the store's grants.
pub open spec fn lists_grants(s: MobileGrantStateView, v: Seq<MobileGrantSummaryView>) -> bool {
    forall|x: MobileGrantSummaryView| v.contains(x) <==> summarizes_some_grant(s, x)
}

/// The listing of the store's invites: their summaries in ascending order of
/// invite id (there is exactly one such sequence when each invite is kept
/// under its own id).
pub open spec fn invite_listing(s: MobileGrantStateView) -> Seq<MobileInviteSummaryView> {
    choose|v: Seq<MobileInviteSummaryView>| invite_ids_ascending(v) && lists_invites(s, v)
}

/// The listing of the store's grants, in ascending order of grant id.
pub open spec fn grant_listing(s: MobileGrantStateView) -> Seq<MobileGrantSummaryView> {
    choose|v: Seq<MobileGrantSummaryView>| grant_ids_ascending(v) && lists_grants(s, v)
}

pub open spec fn result_view(r: Result<MobileGrantCredential, MobileGrantManagerError>) -> Result<MobileGrantCredentialView, MobileGrantManagerError> {
    match r {
        Ok(c) => Ok(c@),
        Err(e) => Err(e),
    }
}


pub open spec fn invite_summaries(v: Seq<MobileInviteSummary>) -> Seq<MobileInviteSummaryView> {
    v.map_values(|x: MobileInviteSummary| x@)
}

pub open spec fn grant_summaries(v: Seq<MobileGrantSummary>) -> Seq<MobileGrantSummaryView> {
    v.map_values(|x: MobileGrantSummary| x@)
}

// ---------------------------------------------------------------------------
// Identifiers and keys.

/// `uuid::Uuid::new_v4().simple()` written as text. uuid writes the simple
/// form as 32 lowercase hex digits (see `format_simple` in its `fmt` module);
/// which digits they are is random, and nothing more is stated of them.
#[verifier::external_body]
fn new_simple_uuid() -> (s: String)
    ensures
        is_simple_uuid(s@),
{
    uuid::Uuid::new_v4().simple().to_string()
}

/// `prefix` followed by a fresh random UUID.
fn generated_id(prefix: &str) -> (s: String)
    ensures
        is_generated_id(prefix@, s@),
{
    let mut s = owned(prefix);
    let u = new_simple_uuid();
    push_str(&mut s, u.as_str());
    assert(s@.subrange(0, prefix@.len() as int) =~= prefix@);
    assert(s@.subrange(prefix@.len() as int, s@.len() as int) =~= u@);
    s
}

/// The three fields joined by newlines.
fn approval_key_string(a: &str, b: &str, c: &str) -> (k: String)
    ensures
        k@ == approval_key(a@, b@, c@),
{
    let mut k = owned(a);
    push_char(&mut k, '\n');
    push_str(&mut k, b);
    push_char(&mut k, '\n');
    push_str(&mut k, c);
    assert(k@ =~= approval_key(a@, b@, c@));
    k
}

/// Whether some service identifier is blank.
fn any_blank_service(v: &Vec<ServiceId>) -> (r: bool)
    ensures
        r == exists|i: int| 0 <= i < ids_view(v@).len() && trim(#[trigger] ids_view(v@)[i]).len() == 0,
{
    let mut i: usize = 0;
    while i < v.len()
        invariant
            i <= v@.len(),
            forall|j: int| 0 <= j < i ==> trim((#[trigger] v@[j])@).len() != 0,
        decreases v@.len() - i,
    {
        if is_blank(v[i].as_str()) {
            assert(ids_view(v@)[i as int] == v@[i as int]@);
            return true;
        }
        i = i + 1;
    }
    assert forall|j: int| 0 <= j < ids_view(v@).len() implies trim(#[trigger] ids_view(v@)[j]).len() != 0 by {
        assert(ids_view(v@)[j] == v@[j]@);
    }
    false
}

/// Whether `id` is one of `allowed`.
fn service_allowed(allowed: &Vec<ServiceId>, id: &ServiceId) -> (r: bool)
    ensures
        r == ids_view(allowed@).contains(id@),
{
    crate::protocol::contains_service_id(allowed, id)
}

/// Whether every requested service is allowed.
fn all_services_allowed(requested: &Vec<ServiceId>, allowed: &Vec<ServiceId>) -> (r: bool)
    ensures
        r == all_allowed(ids_view(requested@), ids_view(allowed@)),
{
    let mut i: usize = 0;
    while i < requested.len()
        invariant
            i <= requested@.len(),
            forall|j: int| 0 <= j < i ==> ids_view(allowed@).contains((#[trigger] requested@[j])@),
        decreases requested@.len() - i,
    {
        if !service_allowed(allowed, &requested[i]) {
            assert(ids_view(requested@)[i as int] == requested@[i as int]@);
            return false;
        }
        i = i + 1;
    }
    assert forall|j: int| 0 <= j < ids_view(requested@).len() implies ids_view(allowed@).contains(
        #[trigger] ids_view(requested@)[j],
    ) by {
        assert(ids_view(requested@)[j] == requested@[j]@);
    }
    true
}


fn summary_of_invite(record: &MobileInviteRecord) -> (r: MobileInviteSummary)
    ensures
        r@ == invite_summary(record@),
{
    MobileInviteSummary {
        invite_id: copy_string(&record.payload.invite_id),
        device_id: record.payload.device_id.copied(),
        allowed_services: copy_service_ids(&record.payload.allowed_services),
        expires_at: record.payload.expires_at,
        max_uses: record.payload.max_uses,
        uses: record.uses,
        revoked: record.revoked,
        agent_p2p_cert_fingerprint: copy_opt_string(&record.payload.agent_p2p_cert_fingerprint),
    }
}

fn summary_of_grant(record: &MobileGrantRecord) -> (r: MobileGrantSummary)
    ensures
        r@ == grant_summary(record@),
{
    MobileGrantSummary {
        grant_id: copy_string(&record.credential.grant_id),
        device_id: record.credential.device_id.copied(),
        client_id: record.credential.client_id.copied(),
        allowed_services: copy_service_ids(&record.credential.allowed_services),
        enabled: record.enabled,
        revocation_version: record.credential.revocation_version,
        created_at: record.created_at,
        last_used_at: record.last_used_at,
        agent_p2p_cert_fingerprint: copy_opt_string(&record.credential.agent_p2p_cert_fingerprint),
    }
}

/// Inserting `x` at `p`, after every element whose key does not sort above
/// its own and before one whose key does, keeps a sequence in order.
proof fn lemma_insert_keeps_order<A>(before: Seq<A>, p: int, x: A, key: spec_fn(A) -> Seq<char>)
    requires
        0 <= p <= before.len(),
        forall|i: int, j: int| 0 <= i < j < before.len() ==> !seq_lt(key(#[trigger] before[j]), key(#[trigger] before[i])),
        forall|j: int| 0 <= j < p ==> !seq_lt(key(x), key(#[trigger] before[j])),
        p < before.len() ==> seq_lt(key(x), key(before[p])),
    ensures
        forall|i: int, j: int|
            0 <= i < j < before.insert(p, x).len() ==> !seq_lt(
                key(#[trigger] before.insert(p, x)[j]),
                key(#[trigger] before.insert(p, x)[i]),
            ),
{
    let v = before.insert(p, x);
    assert forall|a: int, b: int| 0 <= a < b < v.len() implies !seq_lt(key(#[trigger] v[b]), key(#[trigger] v[a])) by {
        if b < p {
            assert(v[a] == before[a] && v[b] == before[b]);
        } else if b == p {
            assert(v[a] == before[a]);
        } else if a == p {
            assert(v[b] == before[b - 1]);
            if seq_lt(key(before[b - 1]), key(x)) {
                crate::text::lemma_seq_lt_transitive(key(before[b - 1]), key(x), key(before[p]));
                if b - 1 == p {
                    crate::text::lemma_seq_lt_irreflexive(key(before[p]));
                } else {
                    assert(!seq_lt(key(before[b - 1]), key(before[p])));
                }
            }
        } else if a < p {
            assert(v[a] == before[a] && v[b] == before[b - 1]);
        } else {
            assert(v[a] == before[a - 1] && v[b] == before[b - 1]);
        }
    }
}

/// Inserts `x` after every summary whose id does not sort above its own.
fn insert_invite_sorted(v: &mut Vec<MobileInviteSummary>, x: MobileInviteSummary)
    requires
        invites_sorted(old(v)@),
    ensures
        invites_sorted(final(v)@),
        invite_summaries(final(v)@).to_multiset() == invite_summaries(old(v)@).to_multiset().insert(x@),
        exists|p: int| 0 <= p <= old(v)@.len() && final(v)@ == old(v)@.insert(p, x),
{
    let mut p: usize = 0;
    while p < v.len() && !str_lt(x.invite_id.as_str(), v[p].invite_id.as_str())
        invariant
            p <= v@.len(),
            forall|j: int| 0 <= j < p ==> !seq_lt(x.invite_id@, (#[trigger] v@[j]).invite_id@),
        decreases v@.len() - p,
    {
        p = p + 1;
    }
    let ghost before = v@;
    let ghost xv = x@;
    let ghost key = |e: MobileInviteSummary| e.invite_id@;
    v.insert(p, x);
    proof {
        lemma_insert_keeps_order(before, p as int, x, key);
        assert(v@ =~= before.insert(p as int, x));
        assert(invite_summaries(v@) =~= invite_summaries(before).insert(p as int, xv));
        vstd::seq_lib::to_multiset_insert(invite_summaries(before), p as int, xv);
    }
}

/// Inserts `x` after every summary whose id does not sort above its own.
fn insert_grant_sorted(v: &mut Vec<MobileGrantSummary>, x: MobileGrantSummary)
    requires
        grants_sorted(old(v)@),
    ensures
        grants_sorted(final(v)@),
        grant_summaries(final(v)@).to_multiset() == grant_summaries(old(v)@).to_multiset().insert(x@),
        exists|p: int| 0 <= p <= old(v)@.len() && final(v)@ == old(v)@.insert(p, x),
{
    let mut p: usize = 0;
    while p < v.len() && !str_lt(x.grant_id.as_str(), v[p].grant_id.as_str())
        invariant
            p <= v@.len(),
            forall|j: int| 0 <= j < p ==> !seq_lt(x.grant_id@, (#[trigger] v@[j]).grant_id@),
        decreases v@.len() - p,
    {
        p = p + 1;
    }
    let ghost before = v@;
    let ghost xv = x@;
    let ghost key = |e: MobileGrantSummary| e.grant_id@;
    v.insert(p, x);
    proof {
        lemma_insert_keeps_order(before, p as int, x, key);
        assert(v@ =~= before.insert(p as int, x));
        assert(grant_summaries(v@) =~= grant_summaries(before).insert(p as int, xv));
        vstd::seq_lib::to_multiset_insert(grant_summaries(before), p as int, xv);
    }
}

// ---------------------------------------------------------------------------
// The store.

fn create_invite_in(state: &mut MobileGrantState, request: CreateMobileInviteRequest, now: u64) -> (r: Result<
    MobileInvitePayload,
    MobileGrantManagerError,
>)
    requires
        ids_match(old(state)@),
    ensures
        ids_match(final(state)@),
        invite_request_invalid(
            request.control_url@,
            request.device_id@,
            ids_view(request.allowed_services@),
            request.ttl_sec,
            request.max_uses,
        ) ==> r == Err::<MobileInvitePayload, MobileGrantManagerError>(
            MobileGrantManagerError::InvalidInput,
        ) && final(state)@ == old(state)@,
        !invite_request_invalid(
            request.control_url@,
            request.device_id@,
            ids_view(request.allowed_services@),
            request.ttl_sec,
            request.max_uses,
        ) ==> match r {
            Ok(p) => {
                &&& p@.version == 1
                &&& p@.control_url == request.control_url@
                &&& p@.device_id == request.device_id@
                &&& is_generated_id(invite_id_prefix(), p@.invite_id)
                &&& is_generated_id(invite_secret_prefix(), p@.invite_secret)
                &&& p@.agent_p2p_cert_fingerprint == opt_view(request.agent_p2p_cert_fingerprint)
                &&& p@.allowed_services == ids_view(request.allowed_services@)
                &&& p@.expires_at == saturating_add_u64(now, request.ttl_sec)
                &&& p@.max_uses == request.max_uses
                &&& final(state)@ == invite_created(old(state)@, p@)
            },
            Err(_) => false,
        },
{
    if is_blank(request.control_url.as_str()) || is_blank(request.device_id.as_str())
        || request.allowed_services.len() == 0 || any_blank_service(&request.allowed_services)
        || request.ttl_sec == 0 || request.max_uses == 0 {
        return Err(MobileGrantManagerError::InvalidInput);
    }
    let invite_id = generated_id("inv_");
    let invite_secret = generated_id("inv_secret_");
    proof {
        reveal_strlit("inv_");
        reveal_strlit("inv_secret_");
        assert("inv_"@ =~= invite_id_prefix());
        assert("inv_secret_"@ =~= invite_secret_prefix());
    }
    let key = copy_string(&invite_id);
    let payload = MobileInvitePayload {
        version: 1,
        control_url: request.control_url,
        device_id: request.device_id,
        invite_id,
        invite_secret,
        agent_p2p_cert_fingerprint: request.agent_p2p_cert_fingerprint,
        allowed_services: request.allowed_services,
        expires_at: now.saturating_add(request.ttl_sec),
        max_uses: request.max_uses,
    };
    let record = MobileInviteRecord { payload: payload.copied(), uses: 0, revoked: false };
    state.invites.insert(key, record);
    Ok(payload)
}

fn approve_pairing_in<V, D>(
    state: &mut MobileGrantState,
    request: &MobilePairingRequest,
    now: u64,
    verify_proof: V,
    derive_secret: D,
) -> (r: Result<MobileGrantCredential, MobileGrantManagerError>) where
    V: Fn(&MobilePairingRequest, &str) -> bool,
    D: Fn(&str, &str, &ClientId) -> Option<String>,

    requires
        ids_match(old(state)@),
        forall|q: &MobilePairingRequest, k: &str| #[trigger] verify_proof.requires((q, k)),
        forall|k: &str, g: &str, c: &ClientId| #[trigger] derive_secret.requires((k, g, c)),
    ensures
        ids_match(final(state)@),
        match pairing_step(old(state)@, request@, now) {
            PairingStep::Answer(answer) => result_view(r) == answer && final(state)@ == old(state)@,
            PairingStep::CheckProof => {
                let secret = old(state)@.invites[request@.invite_id].payload.invite_secret;
                match r {
                    Ok(c) => {
                        &&& pairing_credential(old(state)@, request@, c@)
                        &&& final(state)@ == pairing_accepted(old(state)@, request@, now, c@)
                        &&& exists|k: &str| k@ == secret && #[trigger] verify_proof.ensures((request, k), true)
                        &&& exists|k: &str, g: &str|
                            k@ == secret && g@ == c@.grant_id && #[trigger] derive_secret.ensures(
                                (k, g, &request.client_id),
                                Some(c.grant_secret),
                            )
                    },
                    Err(e) => {
                        &&& e == MobileGrantManagerError::InvalidProof
                        &&& final(state)@ == old(state)@
                        &&& (exists|k: &str| k@ == secret && #[trigger] verify_proof.ensures((request, k), false))
                            || (exists|k: &str, g: &str|
                            k@ == secret && is_generated_id(grant_id_prefix(), g@)
                                && #[trigger] derive_secret.ensures((k, g, &request.client_id), None))
                    },
                }
            },
        },
{
    let key = approval_key_string(
        request.invite_id.as_str(),
        request.client_id.as_str(),
        request.nonce.as_str(),
    );
    match state.pairing_approvals.get(key.as_str()) {
        Some(approval) => {
            if !approval.request.same(request) {
                return Err(MobileGrantManagerError::ReplayDetected);
            }
            return match state.grants.get(approval.grant_id.as_str()) {
                Some(record) => Ok(record.credential.copied()),
                None => Err(MobileGrantManagerError::GrantNotFound),
            };
        },
        None => {},
    }
    let index = match state.invites.index_of(request.invite_id.as_str()) {
        Some(i) => i,
        None => {
            return Err(MobileGrantManagerError::InviteNotFound);
        },
    };
    let invite = state.invites.value_at(index);
    if !invite.payload.device_id.same(&request.device_id) {
        return Err(MobileGrantManagerError::ScopeDenied);
    }
    if invite.revoked {
        return Err(MobileGrantManagerError::InviteRevoked);
    }
    if invite.payload.expires_at <= now {
        return Err(MobileGrantManagerError::InviteExpired);
    }
    if invite.uses >= invite.payload.max_uses {
        return Err(MobileGrantManagerError::InviteConsumed);
    }
    if request.requested_services.len() == 0 || !all_services_allowed(
        &request.requested_services,
        &invite.payload.allowed_services,
    ) {
        return Err(MobileGrantManagerError::ScopeDenied);
    }
    if !verify_proof(request, invite.payload.invite_secret.as_str()) {
        return Err(MobileGrantManagerError::InvalidProof);
    }
    let grant_id = generated_id("gr_");
    proof {
        reveal_strlit("gr_");
        assert("gr_"@ =~= grant_id_prefix());
    }
    let grant_secret = match derive_secret(
        invite.payload.invite_secret.as_str(),
        grant_id.as_str(),
        &request.client_id,
    ) {
        Some(secret) => secret,
        None => {
            return Err(MobileGrantManagerError::InvalidProof);
        },
    };
    let credential = MobileGrantCredential {
        version: 1,
        control_url: copy_string(&invite.payload.control_url),
        device_id: request.device_id.copied(),
        grant_id: copy_string(&grant_id),
        client_id: request.client_id.copied(),
        allowed_services: copy_service_ids(&request.requested_services),
        grant_secret,
        revocation_version: 1,
        agent_p2p_cert_fingerprint: copy_opt_string(&invite.payload.agent_p2p_cert_fingerprint),
    };
    let mut updated = invite.copied();
    updated.uses = invite.uses + 1;
    state.invites.set_at(index, updated);
    let record = MobileGrantRecord {
        credential: credential.copied(),
        enabled: true,
        created_at: now,
        last_used_at: None,
    };
    state.grants.insert(copy_string(&grant_id), record);
    let approval = PairingApprovalRecord { request: request.copied(), grant_id };
    state.pairing_approvals.insert(key, approval);
    Ok(credential)
}

fn verify_session_in<V>(state: &mut MobileGrantState, request: &GrantSessionRequest, now: u64, verify_proof: V) -> (r:
    Result<MobileGrantCredential, MobileGrantManagerError>) where
    V: Fn(&GrantSessionRequest, &str) -> bool,

    requires
        ids_match(old(state)@),
        forall|q: &GrantSessionRequest, k: &str| #[trigger] verify_proof.requires((q, k)),
    ensures
        ids_match(final(state)@),
        match session_refusal(old(state)@, request@) {
            Some(e) => r == Err::<MobileGrantCredential, MobileGrantManagerError>(e)
                && final(state)@ == old(state)@,
            None => {
                let credential = old(state)@.grants[request@.grant_id].credential;
                match r {
                    Ok(c) => {
                        &&& c@ == credential
                        &&& final(state)@ == session_accepted(old(state)@, request@, now)
                        &&& exists|k: &str|
                            k@ == credential.grant_secret && #[trigger] verify_proof.ensures(
                                (request, k),
                                true,
                            )
                    },
                    Err(e) => {
                        &&& e == MobileGrantManagerError::InvalidProof
                        &&& final(state)@ == old(state)@
                        &&& exists|k: &str|
                            k@ == credential.grant_secret && #[trigger] verify_proof.ensures(
                                (request, k),
                                false,
                            )
                    },
                }
            },
        },
{
    let key = approval_key_string(
        request.grant_id.as_str(),
        request.client_id.as_str(),
        request.nonce.as_str(),
    );
    match state.session_approvals.get(key.as_str()) {
        Some(approval) => {
            if !approval.request.same(request) {
                return Err(MobileGrantManagerError::ReplayDetected);
            }
        },
        None => {},
    }
    let index = match state.grants.index_of(request.grant_id.as_str()) {
        Some(i) => i,
        None => {
            return Err(MobileGrantManagerError::GrantNotFound);
        },
    };
    let record = state.grants.value_at(index);
    if !record.enabled {
        return Err(MobileGrantManagerError::GrantRevoked);
    }
    let credential = record.credential.copied();
    if !credential.device_id.same(&request.device_id) || !credential.client_id.same(
        &request.client_id,
    ) {
        return Err(MobileGrantManagerError::ScopeDenied);
    }
    if credential.revocation_version != request.revocation_version {
        return Err(MobileGrantManagerError::GrantVersionMismatch);
    }
    if !service_allowed(&credential.allowed_services, &request.service_id) {
        return Err(MobileGrantManagerError::ScopeDenied);
    }
    if !verify_proof(request, credential.grant_secret.as_str()) {
        return Err(MobileGrantManagerError::InvalidProof);
    }
    let mut updated = record.copied();
    updated.last_used_at = Some(now);
    state.grants.set_at(index, updated);
    state.session_approvals.insert(key, SessionApprovalRecord { request: request.copied() });
    Ok(credential)
}

fn revoke_invite_in(state: &mut MobileGrantState, invite_id: &str) -> (r: Result<(), MobileGrantManagerError>)
    requires
        ids_match(old(state)@),
    ensures
        ids_match(final(state)@),
        match invite_revoked(old(state)@, invite_id@) {
            Ok(t) => r is Ok && final(state)@ == t,
            Err(e) => r == Err::<(), MobileGrantManagerError>(e) && final(state)@ == old(state)@,
        },
{
    let index = match state.invites.index_of(invite_id) {
        Some(i) => i,
        None => {
            return Err(MobileGrantManagerError::InviteNotFound);
        },
    };
    let mut updated = state.invites.value_at(index).copied();
    updated.revoked = true;
    state.invites.set_at(index, updated);
    Ok(())
}

fn revoke_grant_in(state: &mut MobileGrantState, grant_id: &str) -> (r: Result<(), MobileGrantManagerError>)
    requires
        ids_match(old(state)@),
    ensures
        ids_match(final(state)@),
        match grant_revoked(old(state)@, grant_id@) {
            Ok(t) => r is Ok && final(state)@ == t,
            Err(e) => r == Err::<(), MobileGrantManagerError>(e) && final(state)@ == old(state)@,
        },
{
    let index = match state.grants.index_of(grant_id) {
        Some(i) => i,
        None => {
            return Err(MobileGrantManagerError::GrantNotFound);
        },
    };
    let mut updated = state.grants.value_at(index).copied();
    updated.enabled = false;
    updated.credential.revocation_version = updated.credential.revocation_version.saturating_add(1);
    state.grants.set_at(index, updated);
    Ok(())
}

/// Whether every invite is stored under its own invite id and every grant
/// under its own grant id.
pub open spec fn ids_match(s: MobileGrantStateView) -> bool {
    &&& forall|k: Seq<char>| #[trigger] s.invites.dom().contains(k) ==> s.invites[k].payload.invite_id == k
    &&& forall|k: Seq<char>| #[trigger] s.grants.dom().contains(k) ==> s.grants[k].credential.grant_id == k
}

/// Whether every invite and every grant of `state` is stored under its own
/// id.
pub fn state_ids_match(state: &MobileGrantState) -> (r: bool)
    ensures
        r == ids_match(state@),
{
    let n = state.invites.len();
    let mut i: usize = 0;
    while i < n
        invariant
            n == state.invites.entries().len(),
            i <= n,
            forall|j: int|
                0 <= j < n ==> state@.invites.dom().contains((#[trigger] state.invites.entries()[j]).0)
                    && state@.invites[state.invites.entries()[j].0] == state.invites.entries()[j].1,
            forall|j: int| 0 <= j < i ==> (#[trigger] state.invites.entries()[j]).1.payload.invite_id
                == state.invites.entries()[j].0,
        decreases n - i,
    {
        if !str_eq(state.invites.key_at(i), state.invites.value_at(i).payload.invite_id.as_str()) {
            proof {
                let k = state.invites.entries()[i as int].0;
                assert(state@.invites.dom().contains(k));
                assert(state@.invites[k] == state.invites.entries()[i as int].1);
            }
            return false;
        }
        i = i + 1;
    }
    let m = state.grants.len();
    let mut g: usize = 0;
    while g < m
        invariant
            m == state.grants.entries().len(),
            g <= m,
            forall|j: int|
                0 <= j < m ==> state@.grants.dom().contains((#[trigger] state.grants.entries()[j]).0)
                    && state@.grants[state.grants.entries()[j].0] == state.grants.entries()[j].1,
            forall|j: int| 0 <= j < g ==> (#[trigger] state.grants.entries()[j]).1.credential.grant_id
                == state.grants.entries()[j].0,
        decreases m - g,
    {
        if !str_eq(state.grants.key_at(g), state.grants.value_at(g).credential.grant_id.as_str()) {
            proof {
                let k = state.grants.entries()[g as int].0;
                assert(state@.grants.dom().contains(k));
                assert(state@.grants[k] == state.grants.entries()[g as int].1);
            }
            return false;
        }
        g = g + 1;
    }
    proof {
        assert forall|k: Seq<char>| #[trigger] state@.invites.dom().contains(k) implies state@.invites[k].payload.invite_id
            == k by {
            let j = choose|j: int| 0 <= j < state.invites.entries().len() && (#[trigger] state.invites.entries()[j]).0 == k;
            assert(state.invites.entries()[j].1.payload.invite_id == state.invites.entries()[j].0);
        }
        assert forall|k: Seq<char>| #[trigger] state@.grants.dom().contains(k) implies state@.grants[k].credential.grant_id
            == k by {
            let j = choose|j: int| 0 <= j < state.grants.entries().len() && (#[trigger] state.grants.entries()[j]).0 == k;
            assert(state.grants.entries()[j].1.credential.grant_id == state.grants.entries()[j].0);
        }
    }
    true
}

/// The invites of `t`, each stored under its own id; of two invites that
/// share an id, the later entry is kept.
fn rekey_invites(t: &Table<MobileInviteRecord>) -> (r: Table<MobileInviteRecord>)
    ensures
        forall|k: Seq<char>| #[trigger] r@.dom().contains(k) ==> r@[k].payload.invite_id == k
            && exists|k2: Seq<char>| t@.dom().contains(k2) && #[trigger] t@[k2] == r@[k],
        forall|k2: Seq<char>| #[trigger] t@.dom().contains(k2) ==> r@.dom().contains(t@[k2].payload.invite_id),
{
    let n = t.len();
    let mut out: Table<MobileInviteRecord> = Table::new();
    let mut i: usize = 0;
    while i < n
        invariant
            n == t.entries().len(),
            i <= n,
            forall|j: int|
                0 <= j < n ==> t@.dom().contains((#[trigger] t.entries()[j]).0) && t@[t.entries()[j].0]
                    == t.entries()[j].1,
            forall|k: Seq<char>| #[trigger] out@.dom().contains(k) ==> out@[k].payload.invite_id == k
                && exists|j: int| 0 <= j < i && #[trigger] t.entries()[j].1 == out@[k],
            forall|j: int| 0 <= j < i ==> out@.dom().contains((#[trigger] t.entries()[j]).1.payload.invite_id),
        decreases n - i,
    {
        let record = t.value_at(i).copied();
        let key = copy_string(&record.payload.invite_id);
        let ghost before = out@;
        out.insert(key, record);
        proof {
            assert forall|k: Seq<char>| #[trigger] out@.dom().contains(k) implies out@[k].payload.invite_id == k
                && exists|j: int| 0 <= j < i + 1 && #[trigger] t.entries()[j].1 == out@[k] by {
                if k != record@.payload.invite_id {
                    assert(before.dom().contains(k));
                    let j = choose|j: int| 0 <= j < i && #[trigger] t.entries()[j].1 == before[k];
                } else {
                    assert(t.entries()[i as int].1 == out@[k]);
                }
            }
            assert forall|j: int| 0 <= j < i + 1 implies out@.dom().contains((#[trigger] t.entries()[j]).1.payload.invite_id) by {
                if j < i {
                    assert(before.dom().contains(t.entries()[j].1.payload.invite_id));
                }
            }
        }
        i = i + 1;
    }
    proof {
        assert forall|k: Seq<char>| #[trigger] out@.dom().contains(k) implies out@[k].payload.invite_id == k
            && exists|k2: Seq<char>| t@.dom().contains(k2) && #[trigger] t@[k2] == out@[k] by {
            let j = choose|j: int| 0 <= j < n && #[trigger] t.entries()[j].1 == out@[k];
            assert(t@.dom().contains(t.entries()[j].0));
            assert(t@[t.entries()[j].0] == out@[k]);
        }
        assert forall|k2: Seq<char>| #[trigger] t@.dom().contains(k2) implies out@.dom().contains(t@[k2].payload.invite_id) by {
            let j = choose|j: int| 0 <= j < t.entries().len() && (#[trigger] t.entries()[j]).0 == k2;
            assert(t@[t.entries()[j].0] == t.entries()[j].1);
        }
    }
    out
}

/// The grants of `t`, each stored under its own id; of two grants that
/// share an id, the later entry is kept.
fn rekey_grants(t: &Table<MobileGrantRecord>) -> (r: Table<MobileGrantRecord>)
    ensures
        forall|k: Seq<char>| #[trigger] r@.dom().contains(k) ==> r@[k].credential.grant_id == k
            && exists|k2: Seq<char>| t@.dom().contains(k2) && #[trigger] t@[k2] == r@[k],
        forall|k2: Seq<char>| #[trigger] t@.dom().contains(k2) ==> r@.dom().contains(t@[k2].credential.grant_id),
{
    let n = t.len();
    let mut out: Table<MobileGrantRecord> = Table::new();
    let mut i: usize = 0;
    while i < n
        invariant
            n == t.entries().len(),
            i <= n,
            forall|j: int|
                0 <= j < n ==> t@.dom().contains((#[trigger] t.entries()[j]).0) && t@[t.entries()[j].0]
                    == t.entries()[j].1,
            forall|k: Seq<char>| #[trigger] out@.dom().contains(k) ==> out@[k].credential.grant_id == k
                && exists|j: int| 0 <= j < i && #[trigger] t.entries()[j].1 == out@[k],
            forall|j: int| 0 <= j < i ==> out@.dom().contains((#[trigger] t.entries()[j]).1.credential.grant_id),
        decreases n - i,
    {
        let record = t.value_at(i).copied();
        let key = copy_string(&record.credential.grant_id);
        let ghost before = out@;
        out.insert(key, record);
        proof {
            assert forall|k: Seq<char>| #[trigger] out@.dom().contains(k) implies out@[k].credential.grant_id == k
                && exists|j: int| 0 <= j < i + 1 && #[trigger] t.entries()[j].1 == out@[k] by {
                if k != record@.credential.grant_id {
                    assert(before.dom().contains(k));
                    let j = choose|j: int| 0 <= j < i && #[trigger] t.entries()[j].1 == before[k];
                } else {
                    assert(t.entries()[i as int].1 == out@[k]);
                }
            }
            assert forall|j: int| 0 <= j < i + 1 implies out@.dom().contains((#[trigger] t.entries()[j]).1.credential.grant_id) by {
                if j < i {
                    assert(before.dom().contains(t.entries()[j].1.credential.grant_id));
                }
            }
        }
        i = i + 1;
    }
    proof {
        assert forall|k: Seq<char>| #[trigger] out@.dom().contains(k) implies out@[k].credential.grant_id == k
            && exists|k2: Seq<char>| t@.dom().contains(k2) && #[trigger] t@[k2] == out@[k] by {
            let j = choose|j: int| 0 <= j < n && #[trigger] t.entries()[j].1 == out@[k];
            assert(t@.dom().contains(t.entries()[j].0));
            assert(t@[t.entries()[j].0] == out@[k]);
        }
        assert forall|k2: Seq<char>| #[trigger] t@.dom().contains(k2) implies out@.dom().contains(t@[k2].credential.grant_id) by {
            let j = choose|j: int| 0 <= j < t.entries().len() && (#[trigger] t.entries()[j]).0 == k2;
            assert(t@[t.entries()[j].0] == t.entries()[j].1);
        }
    }
    out
}

/// The agent's invites and grants; each is kept under its own id.
pub struct MobileGrantManager {
    state: MobileGrantState,
}

impl MobileGrantManager {
    #[verifier::type_invariant]
    closed spec fn keyed_by_id(&self) -> bool {
        ids_match(self.state@)
    }
}

impl View for MobileGrantManager {
    type V = MobileGrantStateView;

    closed spec fn view(&self) -> MobileGrantStateView {
        self.state@
    }
}

impl Default for MobileGrantManager {
    fn default() -> (r: Self)
        ensures
            r@.invites == Map::<Seq<char>, MobileInviteRecordView>::empty(),
            r@.grants == Map::<Seq<char>, MobileGrantRecordView>::empty(),
            r@.pairing_approvals == Map::<Seq<char>, PairingApprovalView>::empty(),
            r@.session_approvals == Map::<Seq<char>, SessionApprovalView>::empty(),
    {
        MobileGrantManager { state: MobileGrantState::new() }
    }
}

impl MobileGrantManager {
    /// A store holding `state`, as it was read back from disk. An invite or
    /// a grant found under another key than its own id is stored under its
    /// id instead.
    pub fn from_state(state: MobileGrantState) -> (r: Self)
        ensures
            ids_match(state@) ==> r@ == state@,
            r@.pairing_approvals == state@.pairing_approvals,
            r@.session_approvals == state@.session_approvals,
            forall|k: Seq<char>| #[trigger] r@.invites.dom().contains(k) ==> exists|k2: Seq<char>|
                state@.invites.dom().contains(k2) && #[trigger] state@.invites[k2] == r@.invites[k],
            forall|k2: Seq<char>| #[trigger] state@.invites.dom().contains(k2) ==> r@.invites.dom().contains(
                state@.invites[k2].payload.invite_id,
            ),
            forall|k: Seq<char>| #[trigger] r@.grants.dom().contains(k) ==> exists|k2: Seq<char>|
                state@.grants.dom().contains(k2) && #[trigger] state@.grants[k2] == r@.grants[k],
            forall|k2: Seq<char>| #[trigger] state@.grants.dom().contains(k2) ==> r@.grants.dom().contains(
                state@.grants[k2].credential.grant_id,
            ),
    {
        if state_ids_match(&state) {
            proof {
                assert forall|k: Seq<char>| #[trigger] state@.invites.dom().contains(k) implies exists|k2: Seq<char>|
                    state@.invites.dom().contains(k2) && #[trigger] state@.invites[k2] == state@.invites[k] by {
                    assert(state@.invites[k] == state@.invites[k]);
                }
                assert forall|k: Seq<char>| #[trigger] state@.grants.dom().contains(k) implies exists|k2: Seq<char>|
                    state@.grants.dom().contains(k2) && #[trigger] state@.grants[k2] == state@.grants[k] by {
                    assert(state@.grants[k] == state@.grants[k]);
                }
            }
            MobileGrantManager { state }
        } else {
            let invites = rekey_invites(&state.invites);
            let grants = rekey_grants(&state.grants);
            MobileGrantManager {
                state: MobileGrantState {
                    invites,
                    grants,
                    pairing_approvals: state.pairing_approvals,
                    session_approvals: state.session_approvals,
                },
            }
        }
    }

    /// What the store holds, to be written to disk.
    pub fn state(&self) -> (r: &MobileGrantState)
        ensures
            r@ == self@,
    {
        &self.state
    }

    /// Keeps the change made since `before` only once `store` has written
    /// the changed state: when writing fails, the store goes back to
    /// `before` and the failure is returned.
    pub fn keep_if_stored<P>(&mut self, before: MobileGrantManager, store: P) -> (r: Result<
        (),
        MobileGrantManagerError,
    >) where P: FnOnce(&MobileGrantState) -> Result<(), MobileGrantManagerError>
        requires
            forall|s: &MobileGrantState| #[trigger] store.requires((s,)),
        ensures
            exists|s: &MobileGrantState| s@ == old(self)@ && #[trigger] store.ensures((s,), r),
            r is Ok ==> final(self)@ == old(self)@,
            r is Err ==> final(self)@ == before@,
    {
        let r = store(&self.state);
        if r.is_err() {
            *self = before;
        }
        r
    }

    /// Creates an invite that lets up to `max_uses` mobile clients pair for
    /// `ttl_sec` seconds from `now`.
    pub fn create_invite(&mut self, request: CreateMobileInviteRequest, now: u64) -> (r: Result<
        MobileInvitePayload,
        MobileGrantManagerError,
    >)
        ensures
            invite_request_invalid(
                request.control_url@,
                request.device_id@,
                ids_view(request.allowed_services@),
                request.ttl_sec,
                request.max_uses,
            ) ==> r == Err::<MobileInvitePayload, MobileGrantManagerError>(
                MobileGrantManagerError::InvalidInput,
            ) && final(self)@ == old(self)@,
            !invite_request_invalid(
                request.control_url@,
                request.device_id@,
                ids_view(request.allowed_services@),
                request.ttl_sec,
                request.max_uses,
            ) ==> match r {
                Ok(p) => {
                    &&& p@.version == 1
                    &&& p@.control_url == request.control_url@
                    &&& p@.device_id == request.device_id@
                    &&& is_generated_id(invite_id_prefix(), p@.invite_id)
                    &&& is_generated_id(invite_secret_prefix(), p@.invite_secret)
                    &&& p@.agent_p2p_cert_fingerprint == opt_view(request.agent_p2p_cert_fingerprint)
                    &&& p@.allowed_services == ids_view(request.allowed_services@)
                    &&& p@.expires_at == saturating_add_u64(now, request.ttl_sec)
                    &&& p@.max_uses == request.max_uses
                    &&& final(self)@ == invite_created(old(self)@, p@)
                },
                Err(_) => false,
            },
    {
        proof {
            use_type_invariant(&*self);
        }
        let mut state = MobileGrantState::new();
        std::mem::swap(&mut state, &mut self.state);
        let r = create_invite_in(&mut state, request, now);
        self.state = state;
        r
    }

    /// Approves a mobile client's pairing through an invite.
    ///
    /// A request that repeats an approved one (same invite, client and nonce)
    /// gets the grant it got before; one that reuses the nonce with other
    /// content is a replay. Otherwise the invite must exist, belong to the
    /// device, be neither revoked, expired nor used up, and allow every
    /// requested service; then `verify_proof` checks the request's proof
    /// against the invite secret, a new grant id is drawn, and
    /// `derive_secret` makes the grant secret from the invite secret, the
    /// grant id and the client id. Nothing changes unless the pairing is
    /// accepted.
    pub fn approve_pairing<V, D>(
        &mut self,
        request: &MobilePairingRequest,
        now: u64,
        verify_proof: V,
        derive_secret: D,
    ) -> (r: Result<MobileGrantCredential, MobileGrantManagerError>) where
        V: Fn(&MobilePairingRequest, &str) -> bool,
        D: Fn(&str, &str, &ClientId) -> Option<String>,

        requires
            forall|q: &MobilePairingRequest, k: &str| #[trigger] verify_proof.requires((q, k)),
            forall|k: &str, g: &str, c: &ClientId| #[trigger] derive_secret.requires((k, g, c)),
        ensures
            match pairing_step(old(self)@, request@, now) {
                PairingStep::Answer(answer) => result_view(r) == answer && final(self)@ == old(self)@,
                PairingStep::CheckProof => {
                    let secret = old(self)@.invites[request@.invite_id].payload.invite_secret;
                    match r {
                        Ok(c) => {
                            &&& pairing_credential(old(self)@, request@, c@)
                            &&& final(self)@ == pairing_accepted(old(self)@, request@, now, c@)
                            &&& exists|k: &str| k@ == secret && #[trigger] verify_proof.ensures((request, k), true)
                            &&& exists|k: &str, g: &str|
                                k@ == secret && g@ == c@.grant_id && #[trigger] derive_secret.ensures(
                                    (k, g, &request.client_id),
                                    Some(c.grant_secret),
                                )
                        },
                        Err(e) => {
                            &&& e == MobileGrantManagerError::InvalidProof
                            &&& final(self)@ == old(self)@
                            &&& (exists|k: &str| k@ == secret && #[trigger] verify_proof.ensures((request, k), false))
                                || (exists|k: &str, g: &str|
                                k@ == secret && is_generated_id(grant_id_prefix(), g@)
                                    && #[trigger] derive_secret.ensures((k, g, &request.client_id), None))
                        },
                    }
                },
            },
            r is Ok && !old(self)@.pairing_approvals.dom().contains(pairing_key(request@)) ==> {
                let invite = old(self)@.invites[request@.invite_id];
                &&& old(self)@.invites.dom().contains(request@.invite_id)
                &&& invite.payload.device_id == request@.device_id
                &&& !invite.revoked
                &&& now < invite.payload.expires_at
                &&& invite.uses < invite.payload.max_uses
                &&& r->Ok_0@.allowed_services == request@.requested_services
                &&& request@.requested_services.len() > 0
                &&& forall|i: int|
                    0 <= i < request@.requested_services.len() ==> invite.payload.allowed_services.contains(
                        #[trigger] request@.requested_services[i],
                    )
            },
    {
        proof {
            use_type_invariant(&*self);
        }
        let mut state = MobileGrantState::new();
        std::mem::swap(&mut state, &mut self.state);
        let r = approve_pairing_in(&mut state, request, now, verify_proof, derive_secret);
        self.state = state;
        r
    }

    /// Verifies a mobile client's request to open a session with a grant.
    ///
    /// A request that reuses an earlier verified request's nonce with other
    /// content is a replay. Otherwise the grant must exist, be enabled, belong
    /// to the request's device and client, carry the request's revocation
    /// version and allow the requested service; then `verify_proof` checks the
    /// request's proof against the grant secret. An accepted request marks the
    /// grant as used at `now`; nothing changes otherwise.
    pub fn verify_session<V>(&mut self, request: &GrantSessionRequest, now: u64, verify_proof: V) -> (r:
        Result<MobileGrantCredential, MobileGrantManagerError>) where
        V: Fn(&GrantSessionRequest, &str) -> bool,

        requires
            forall|q: &GrantSessionRequest, k: &str| #[trigger] verify_proof.requires((q, k)),
        ensures
            match session_refusal(old(self)@, request@) {
                Some(e) => r == Err::<MobileGrantCredential, MobileGrantManagerError>(e)
                    && final(self)@ == old(self)@,
                None => {
                    let credential = old(self)@.grants[request@.grant_id].credential;
                    match r {
                        Ok(c) => {
                            &&& c@ == credential
                            &&& final(self)@ == session_accepted(old(self)@, request@, now)
                            &&& exists|k: &str|
                                k@ == credential.grant_secret && #[trigger] verify_proof.ensures(
                                    (request, k),
                                    true,
                                )
                        },
                        Err(e) => {
                            &&& e == MobileGrantManagerError::InvalidProof
                            &&& final(self)@ == old(self)@
                            &&& exists|k: &str|
                                k@ == credential.grant_secret && #[trigger] verify_proof.ensures(
                                    (request, k),
                                    false,
                                )
                        },
                    }
                },
            },
            r is Ok ==> {
                let g = old(self)@.grants[request@.grant_id];
                &&& old(self)@.grants.dom().contains(request@.grant_id)
                &&& g.enabled
                &&& g.credential.device_id == request@.device_id
                &&& g.credential.client_id == request@.client_id
                &&& g.credential.revocation_version == request@.revocation_version
                &&& g.credential.allowed_services.contains(request@.service_id)
            },
    {
        proof {
            use_type_invariant(&*self);
        }
        let mut state = MobileGrantState::new();
        std::mem::swap(&mut state, &mut self.state);
        let r = verify_session_in(&mut state, request, now, verify_proof);
        self.state = state;
        r
    }

    /// Revokes an invite: it pairs no more clients.
    pub fn revoke_invite(&mut self, invite_id: &str) -> (r: Result<(), MobileGrantManagerError>)
        ensures
            match invite_revoked(old(self)@, invite_id@) {
                Ok(t) => r is Ok && final(self)@ == t,
                Err(e) => r == Err::<(), MobileGrantManagerError>(e) && final(self)@ == old(self)@,
            },
    {
        proof {
            use_type_invariant(&*self);
        }
        let mut state = MobileGrantState::new();
        std::mem::swap(&mut state, &mut self.state);
        let r = revoke_invite_in(&mut state, invite_id);
        self.state = state;
        r
    }

    /// Revokes a grant: it is disabled, and its revocation version moves on so
    /// that credentials issued before no longer match.
    pub fn revoke_grant(&mut self, grant_id: &str) -> (r: Result<(), MobileGrantManagerError>)
        ensures
            match grant_revoked(old(self)@, grant_id@) {
                Ok(t) => r is Ok && final(self)@ == t,
                Err(e) => r == Err::<(), MobileGrantManagerError>(e) && final(self)@ == old(self)@,
            },
    {
        proof {
            use_type_invariant(&*self);
        }
        let mut state = MobileGrantState::new();
        std::mem::swap(&mut state, &mut self.state);
        let r = revoke_grant_in(&mut state, grant_id);
        self.state = state;
        r
    }

    /// The grant with this id, if there is one.
    pub fn grant(&self, grant_id: &str) -> (r: Option<MobileGrantRecord>)
        ensures
            match r {
                Some(record) => self@.grants.dom().contains(grant_id@) && record@ == self@.grants[grant_id@],
                None => !self@.grants.dom().contains(grant_id@),
            },
    {
        match self.state.grants.get(grant_id) {
            Some(record) => Some(record.copied()),
            None => None,
        }
    }

    /// The invites in the order in which they were first stored.
    pub closed spec fn invite_entries(&self) -> Seq<(Seq<char>, MobileInviteRecordView)> {
        self.state.invites.entries()
    }

    /// The grants in the order in which they were first stored.
    pub closed spec fn grant_entries(&self) -> Seq<(Seq<char>, MobileGrantRecordView)> {
        self.state.grants.entries()
    }

    /// Every invite, summarized, ordered by invite id.
    pub fn list_invites(&self) -> (r: Vec<MobileInviteSummary>)
        ensures
            invites_sorted(r@),
            invite_summaries(r@).to_multiset() == self.invite_entries().map_values(
                |e: (Seq<char>, MobileInviteRecordView)| invite_summary(e.1),
            ).to_multiset(),
            r@.len() == self@.invites.len(),
            forall|k: Seq<char>|
                #[trigger] self@.invites.dom().contains(k) ==> invite_summaries(r@).contains(
                    invite_summary(self@.invites[k]),
                ),
            forall|i: int| 0 <= i < r@.len() ==> #[trigger] summarizes_some_invite(self@, r@[i]@),
            invite_ids_ascending(invite_summaries(r@)),
            lists_invites(self@, invite_summaries(r@)),
            invite_summaries(r@) == invite_listing(self@),
    {
        proof {
            use_type_invariant(self);
        }
        let n = self.state.invites.len();
        let ghost entries = self.state.invites.entries();
        let ghost all = entries.map_values(|e: (Seq<char>, MobileInviteRecordView)| invite_summary(e.1));
        let mut out: Vec<MobileInviteSummary> = Vec::new();
        let mut i: usize = 0;
        assert(invite_summaries(out@) =~= all.take(0));
        while i < n
            invariant
                n == entries.len(),
                entries == self.state.invites.entries(),
                all == entries.map_values(|e: (Seq<char>, MobileInviteRecordView)| invite_summary(e.1)),
                i <= n,
                invites_sorted(out@),
                invite_summaries(out@).to_multiset() == all.take(i as int).to_multiset(),
                ids_match(self@),
                forall|j: int|
                    0 <= j < n ==> self@.invites.dom().contains((#[trigger] entries[j]).0)
                        && self@.invites[entries[j].0] == entries[j].1,
                forall|j1: int, j2: int| 0 <= j1 < j2 < n ==> (#[trigger] entries[j1]).0 != (#[trigger] entries[j2]).0,
                forall|a: int| 0 <= a < out@.len() ==> exists|j: int| 0 <= j < i && (#[trigger] out@[a]).invite_id@ == entries[j].0,
                forall|a: int, b: int| 0 <= a < b < out@.len() ==> (#[trigger] out@[a]).invite_id@ != (#[trigger] out@[b]).invite_id@,
            decreases n - i,
        {
            let summary = summary_of_invite(self.state.invites.value_at(i));
            let ghost before = out@;
            let ghost xid = summary.invite_id@;
            assert(xid == entries[i as int].0);
            insert_invite_sorted(&mut out, summary);
            proof {
                let p = choose|p: int| 0 <= p <= before.len() && out@ == before.insert(p, summary);
                assert forall|a: int| 0 <= a < out@.len() implies exists|j: int| 0 <= j < i + 1 && (#[trigger] out@[a]).invite_id@ == entries[j].0 by {
                    if a < p {
                        assert(out@[a] == before[a]);
                    } else if a == p {
                        assert(out@[a].invite_id@ == entries[i as int].0);
                    } else {
                        assert(out@[a] == before[a - 1]);
                    }
                }
                assert forall|a: int, b: int| 0 <= a < b < out@.len() implies (#[trigger] out@[a]).invite_id@ != (#[trigger] out@[b]).invite_id@ by {
                    if b < p {
                        assert(out@[a] == before[a] && out@[b] == before[b]);
                    } else if b == p {
                        assert(out@[a] == before[a]);
                        let j = choose|j: int| 0 <= j < i && before[a].invite_id@ == entries[j].0;
                    } else if a == p {
                        assert(out@[b] == before[b - 1]);
                        let j = choose|j: int| 0 <= j < i && before[b - 1].invite_id@ == entries[j].0;
                    } else if a < p {
                        assert(out@[a] == before[a] && out@[b] == before[b - 1]);
                    } else {
                        assert(out@[a] == before[a - 1] && out@[b] == before[b - 1]);
                    }
                }
                assert(all.take(i + 1) =~= all.take(i as int).push(all[i as int]));
                vstd::seq_lib::to_multiset_build(all.take(i as int), all[i as int]);
            }
            i = i + 1;
        }
        proof {
            assert(all.take(n as int) =~= all);
            let sv = invite_summaries(out@);
            vstd::seq_lib::to_multiset_len(sv);
            vstd::seq_lib::to_multiset_len(all);
            assert forall|k: Seq<char>| #[trigger] self@.invites.dom().contains(k) implies sv.contains(
                invite_summary(self@.invites[k]),
            ) by {
                let j = choose|j: int| 0 <= j < entries.len() && (#[trigger] entries[j]).0 == k;
                assert(all[j] == invite_summary(self@.invites[k]));
                vstd::seq_lib::to_multiset_contains(all, all[j]);
                vstd::seq_lib::to_multiset_contains(sv, all[j]);
            }
            assert forall|m: int| 0 <= m < out@.len() implies #[trigger] summarizes_some_invite(self@, out@[m]@) by {
                assert(sv[m] == out@[m]@);
                vstd::seq_lib::to_multiset_contains(sv, sv[m]);
                vstd::seq_lib::to_multiset_contains(all, sv[m]);
                let j = choose|j: int| 0 <= j < all.len() && all[j] == sv[m];
                assert(all[j] == invite_summary(entries[j].1));
                assert(self@.invites.dom().contains(entries[j].0));
                assert(self@.invites[entries[j].0] == entries[j].1);
                assert(out@[m]@ == invite_summary(self@.invites[entries[j].0]));
            }
            assert forall|a: int, b: int| 0 <= a < b < sv.len() implies seq_lt((#[trigger] sv[a]).invite_id, (#[trigger] sv[b]).invite_id) by {
                assert(sv[a] == out@[a]@ && sv[b] == out@[b]@);
                assert(!seq_lt(out@[b].invite_id@, out@[a].invite_id@));
                crate::text::lemma_seq_lt_total(out@[a].invite_id@, out@[b].invite_id@);
            }
            assert forall|x: MobileInviteSummaryView| sv.contains(x) <==> summarizes_some_invite(self@, x) by {
                if sv.contains(x) {
                    let m = choose|m: int| 0 <= m < sv.len() && sv[m] == x;
                    assert(sv[m] == out@[m]@);
                    assert(summarizes_some_invite(self@, out@[m]@));
                }
                if summarizes_some_invite(self@, x) {
                    let k = choose|k: Seq<char>| #[trigger] self@.invites.dom().contains(k) && x == invite_summary(self@.invites[k]);
                    assert(sv.contains(invite_summary(self@.invites[k])));
                }
            }
        }
        proof {
            let sv = invite_summaries(out@);
            let w = invite_listing(self@);
            assert(invite_ids_ascending(sv) && lists_invites(self@, sv));
            law_invite_listing_is_determined(self@, sv, w);
        }
        out
    }

    /// Every grant, summarized, ordered by grant id.
    pub fn list_grants(&self) -> (r: Vec<MobileGrantSummary>)
        ensures
            grants_sorted(r@),
            grant_summaries(r@).to_multiset() == self.grant_entries().map_values(
                |e: (Seq<char>, MobileGrantRecordView)| grant_summary(e.1),
            ).to_multiset(),
            r@.len() == self@.grants.len(),
            forall|k: Seq<char>|
                #[trigger] self@.grants.dom().contains(k) ==> grant_summaries(r@).contains(
                    grant_summary(self@.grants[k]),
                ),
            forall|i: int| 0 <= i < r@.len() ==> #[trigger] summarizes_some_grant(self@, r@[i]@),
            grant_ids_ascending(grant_summaries(r@)),
            lists_grants(self@, grant_summaries(r@)),
            grant_summaries(r@) == grant_listing(self@),
    {
        proof {
            use_type_invariant(self);
        }
        let n = self.state.grants.len();
        let ghost entries = self.state.grants.entries();
        let ghost all = entries.map_values(|e: (Seq<char>, MobileGrantRecordView)| grant_summary(e.1));
        let mut out: Vec<MobileGrantSummary> = Vec::new();
        let mut i: usize = 0;
        assert(grant_summaries(out@) =~= all.take(0));
        while i < n
            invariant
                n == entries.len(),
                entries == self.state.grants.entries(),
                all == entries.map_values(|e: (Seq<char>, MobileGrantRecordView)| grant_summary(e.1)),
                i <= n,
                grants_sorted(out@),
                grant_summaries(out@).to_multiset() == all.take(i as int).to_multiset(),
                ids_match(self@),
                forall|j: int|
                    0 <= j < n ==> self@.grants.dom().contains((#[trigger] entries[j]).0)
                        && self@.grants[entries[j].0] == entries[j].1,
                forall|j1: int, j2: int| 0 <= j1 < j2 < n ==> (#[trigger] entries[j1]).0 != (#[trigger] entries[j2]).0,
                forall|a: int| 0 <= a < out@.len() ==> exists|j: int| 0 <= j < i && (#[trigger] out@[a]).grant_id@ == entries[j].0,
                forall|a: int, b: int| 0 <= a < b < out@.len() ==> (#[trigger] out@[a]).grant_id@ != (#[trigger] out@[b]).grant_id@,
            decreases n - i,
        {
            let summary = summary_of_grant(self.state.grants.value_at(i));
            let ghost before = out@;
            let ghost xid = summary.grant_id@;
            assert(xid == entries[i as int].0);
            insert_grant_sorted(&mut out, summary);
            proof {
                let p = choose|p: int| 0 <= p <= before.len() && out@ == before.insert(p, summary);
                assert forall|a: int| 0 <= a < out@.len() implies exists|j: int| 0 <= j < i + 1 && (#[trigger] out@[a]).grant_id@ == entries[j].0 by {
                    if a < p {
                        assert(out@[a] == before[a]);
                    } else if a == p {
                        assert(out@[a].grant_id@ == entries[i as int].0);
                    } else {
                        assert(out@[a] == before[a - 1]);
                    }
                }
                assert forall|a: int, b: int| 0 <= a < b < out@.len() implies (#[trigger] out@[a]).grant_id@ != (#[trigger] out@[b]).grant_id@ by {
                    if b < p {
                        assert(out@[a] == before[a] && out@[b] == before[b]);
                    } else if b == p {
                        assert(out@[a] == before[a]);
                        let j = choose|j: int| 0 <= j < i && before[a].grant_id@ == entries[j].0;
                    } else if a == p {
                        assert(out@[b] == before[b - 1]);
                        let j = choose|j: int| 0 <= j < i && before[b - 1].grant_id@ == entries[j].0;
                    } else if a < p {
                        assert(out@[a] == before[a] && out@[b] == before[b - 1]);
                    } else {
                        assert(out@[a] == before[a - 1] && out@[b] == before[b - 1]);
                    }
                }
                assert(all.take(i + 1) =~= all.take(i as int).push(all[i as int]));
                vstd::seq_lib::to_multiset_build(all.take(i as int), all[i as int]);
            }
            i = i + 1;
        }
        proof {
            assert(all.take(n as int) =~= all);
            let sv = grant_summaries(out@);
            vstd::seq_lib::to_multiset_len(sv);
            vstd::seq_lib::to_multiset_len(all);
            assert forall|k: Seq<char>| #[trigger] self@.grants.dom().contains(k) implies sv.contains(
                grant_summary(self@.grants[k]),
            ) by {
                let j = choose|j: int| 0 <= j < entries.len() && (#[trigger] entries[j]).0 == k;
                assert(all[j] == grant_summary(self@.grants[k]));
                vstd::seq_lib::to_multiset_contains(all, all[j]);
                vstd::seq_lib::to_multiset_contains(sv, all[j]);
            }
            assert forall|m: int| 0 <= m < out@.len() implies #[trigger] summarizes_some_grant(self@, out@[m]@) by {
                assert(sv[m] == out@[m]@);
                vstd::seq_lib::to_multiset_contains(sv, sv[m]);
                vstd::seq_lib::to_multiset_contains(all, sv[m]);
                let j = choose|j: int| 0 <= j < all.len() && all[j] == sv[m];
                assert(all[j] == grant_summary(entries[j].1));
                assert(self@.grants.dom().contains(entries[j].0));
                assert(self@.grants[entries[j].0] == entries[j].1);
                assert(out@[m]@ == grant_summary(self@.grants[entries[j].0]));
            }
            assert forall|a: int, b: int| 0 <= a < b < sv.len() implies seq_lt((#[trigger] sv[a]).grant_id, (#[trigger] sv[b]).grant_id) by {
                assert(sv[a] == out@[a]@ && sv[b] == out@[b]@);
                assert(!seq_lt(out@[b].grant_id@, out@[a].grant_id@));
                crate::text::lemma_seq_lt_total(out@[a].grant_id@, out@[b].grant_id@);
            }
            assert forall|x: MobileGrantSummaryView| sv.contains(x) <==> summarizes_some_grant(self@, x) by {
                if sv.contains(x) {
                    let m = choose|m: int| 0 <= m < sv.len() && sv[m] == x;
                    assert(sv[m] == out@[m]@);
                    assert(summarizes_some_grant(self@, out@[m]@));
                }
                if summarizes_some_grant(self@, x) {
                    let k = choose|k: Seq<char>| #[trigger] self@.grants.dom().contains(k) && x == grant_summary(self@.grants[k]);
                    assert(sv.contains(grant_summary(self@.grants[k])));
                }
            }
        }
        proof {
            let sv = grant_summaries(out@);
            let w = grant_listing(self@);
            assert(grant_ids_ascending(sv) && lists_grants(self@, sv));
            law_grant_listing_is_determined(self@, sv, w);
        }
        out
    }
}


// ---------------------------------------------------------------------------
// Laws of the store.

/// Once a grant is revoked, a session request for it is refused as revoked
/// (or, if it reuses a verified request's nonce with other content, as a
/// replay).
pub proof fn law_revoked_grant_refuses_sessions(s: MobileGrantStateView, grant_id: Seq<char>, r: GrantSessionRequestView)
    requires
        grant_revoked(s, grant_id) is Ok,
        r.grant_id == grant_id,
    ensures
        session_refusal(grant_revoked(s, grant_id)->Ok_0, r) == (if s.session_approvals.dom().contains(session_key(r))
            && s.session_approvals[session_key(r)].request != r {
            Some(MobileGrantManagerError::ReplayDetected)
        } else {
            Some(MobileGrantManagerError::GrantRevoked)
        }),
{
}

/// Once an invite is revoked, a pairing through it that was not approved
/// before is refused: as revoked, or as out of scope when it names another
/// device.
pub proof fn law_revoked_invite_refuses_pairing(s: MobileGrantStateView, invite_id: Seq<char>, r: MobilePairingRequestView, now: u64)
    requires
        invite_revoked(s, invite_id) is Ok,
        r.invite_id == invite_id,
        !s.pairing_approvals.dom().contains(pairing_key(r)),
    ensures
        pairing_step(invite_revoked(s, invite_id)->Ok_0, r, now) == PairingStep::Answer(
            Err(if s.invites[invite_id].payload.device_id != r.device_id {
                MobileGrantManagerError::ScopeDenied
            } else {
                MobileGrantManagerError::InviteRevoked
            }),
        ),
{
}

/// Retrying an accepted pairing with the identical request, at any later
/// time, hands back the same credential and changes nothing: the invite is
/// not used again.
pub proof fn law_identical_pairing_retry_returns_same_grant(
    s: MobileGrantStateView,
    r: MobilePairingRequestView,
    now: u64,
    c: MobileGrantCredentialView,
    later: u64,
)
    requires
        pairing_step(s, r, now) == PairingStep::CheckProof,
    ensures
        pairing_step(pairing_accepted(s, r, now, c), r, later) == PairingStep::Answer(Ok(c)),
{
}

/// A pairing that gets past every check but the proof is one for an existing
/// invite of the request's device, neither revoked, expired nor used up, that
/// allows each service requested (and at least one is requested); the
/// credential it hands out names only services the invite allows.
pub proof fn law_pairing_only_grants_allowed_services(
    s: MobileGrantStateView,
    r: MobilePairingRequestView,
    now: u64,
    c: MobileGrantCredentialView,
)
    requires
        pairing_step(s, r, now) == PairingStep::CheckProof,
        pairing_credential(s, r, c),
    ensures
        s.invites.dom().contains(r.invite_id),
        s.invites[r.invite_id].payload.device_id == r.device_id,
        !s.invites[r.invite_id].revoked,
        now < s.invites[r.invite_id].payload.expires_at,
        s.invites[r.invite_id].uses < s.invites[r.invite_id].payload.max_uses,
        r.requested_services.len() > 0,
        forall|i: int|
            0 <= i < r.requested_services.len() ==> s.invites[r.invite_id].payload.allowed_services.contains(
                #[trigger] r.requested_services[i],
            ),
        forall|i: int|
            0 <= i < c.allowed_services.len() ==> s.invites[r.invite_id].payload.allowed_services.contains(
                #[trigger] c.allowed_services[i],
            ),
{
}

/// A session request is accepted only for an enabled grant issued to the
/// request's own device and client, at the request's revocation version, and
/// allowing the requested service.
pub proof fn law_session_only_for_the_grants_device_client_and_services(
    s: MobileGrantStateView,
    r: GrantSessionRequestView,
)
    requires
        session_refusal(s, r) is None,
    ensures
        s.grants.dom().contains(r.grant_id),
        s.grants[r.grant_id].enabled,
        s.grants[r.grant_id].credential.device_id == r.device_id,
        s.grants[r.grant_id].credential.client_id == r.client_id,
        s.grants[r.grant_id].credential.revocation_version == r.revocation_version,
        s.grants[r.grant_id].credential.allowed_services.contains(r.service_id),
{
}

/// After a pairing is accepted, another request with the same invite, client
/// and nonce but other content is a replay.
pub proof fn law_pairing_nonce_reuse_is_replay(
    s: MobileGrantStateView,
    r: MobilePairingRequestView,
    now: u64,
    c: MobileGrantCredentialView,
    other: MobilePairingRequestView,
    later: u64,
)
    requires
        pairing_step(s, r, now) == PairingStep::CheckProof,
        pairing_key(other) == pairing_key(r),
        other != r,
    ensures
        pairing_step(pairing_accepted(s, r, now, c), other, later) == PairingStep::Answer(
            Err(MobileGrantManagerError::ReplayDetected),
        ),
{
}

/// After a session request is verified, another request with the same grant,
/// client and nonce but other content is a replay, while the identical
/// request passes the same checks again.
pub proof fn law_session_nonce_reuse_is_replay(
    s: MobileGrantStateView,
    r: GrantSessionRequestView,
    now: u64,
    other: GrantSessionRequestView,
)
    requires
        session_refusal(s, r) is None,
        session_key(other) == session_key(r),
    ensures
        other != r ==> session_refusal(session_accepted(s, r, now), other) == Some(
            MobileGrantManagerError::ReplayDetected,
        ),
        session_refusal(session_accepted(s, r, now), r) is None,
{
}

/// A revoked invite is still listed, as revoked and otherwise unchanged; a
/// revoked grant is still listed, as disabled and with the next revocation
/// version.
pub proof fn law_revocations_show_in_lists(s: MobileGrantStateView, id: Seq<char>)
    ensures
        invite_revoked(s, id) is Ok ==> {
            let t = invite_revoked(s, id)->Ok_0;
            &&& t.invites.dom().contains(id)
            &&& invite_summary(t.invites[id]) == MobileInviteSummaryView {
                revoked: true,
                ..invite_summary(s.invites[id])
            }
            &&& t.invites.dom() == s.invites.dom()
        },
        grant_revoked(s, id) is Ok ==> {
            let t = grant_revoked(s, id)->Ok_0;
            &&& t.grants.dom().contains(id)
            &&& grant_summary(t.grants[id]) == MobileGrantSummaryView {
                enabled: false,
                revocation_version: saturating_add_u64(s.grants[id].credential.revocation_version, 1),
                ..grant_summary(s.grants[id])
            }
            &&& t.grants.dom() == s.grants.dom()
        },
{
    if invite_revoked(s, id) is Ok {
        assert(invite_revoked(s, id)->Ok_0.invites.dom() =~= s.invites.dom());
    }
    if grant_revoked(s, id) is Ok {
        assert(grant_revoked(s, id)->Ok_0.grants.dom() =~= s.grants.dom());
    }
}

proof fn lemma_ascending_listings_equal<A>(a: Seq<A>, b: Seq<A>, key: spec_fn(A) -> Seq<char>)
    requires
        forall|i: int, j: int| 0 <= i < j < a.len() ==> seq_lt(key(#[trigger] a[i]), key(#[trigger] a[j])),
        forall|i: int, j: int| 0 <= i < j < b.len() ==> seq_lt(key(#[trigger] b[i]), key(#[trigger] b[j])),
        forall|x: A| a.contains(x) <==> b.contains(x),
    ensures
        a == b,
    decreases a.len(),
{
    if a.len() == 0 {
        if b.len() > 0 {
            assert(b.contains(b[0]));
        }
        assert(a =~= b);
    } else {
        assert(a.contains(a[0]));
        assert(b.len() > 0);
        assert(b.contains(b[0]));
        let i = choose|i: int| 0 <= i < a.len() && a[i] == b[0];
        let j = choose|j: int| 0 <= j < b.len() && b[j] == a[0];
        if i > 0 && j > 0 {
            crate::text::lemma_seq_lt_transitive(key(a[0]), key(a[i]), key(b[j]));
            crate::text::lemma_seq_lt_irreflexive(key(a[0]));
        }
        assert(a[0] == b[0]) by {
            if i > 0 && j == 0 {
                assert(b[0] == a[0]);
            }
        }
        let a1 = a.drop_first();
        let b1 = b.drop_first();
        assert forall|x: A| a1.contains(x) <==> b1.contains(x) by {
            if a1.contains(x) {
                let m = choose|m: int| 0 <= m < a1.len() && a1[m] == x;
                assert(a[m + 1] == x);
                assert(b.contains(x));
                let q = choose|q: int| 0 <= q < b.len() && b[q] == x;
                if q == 0 {
                    crate::text::lemma_seq_lt_irreflexive(key(a[0]));
                    assert(seq_lt(key(a[0]), key(a[m + 1])));
                }
                assert(b1[q - 1] == x);
            }
            if b1.contains(x) {
                let m = choose|m: int| 0 <= m < b1.len() && b1[m] == x;
                assert(b[m + 1] == x);
                assert(a.contains(x));
                let q = choose|q: int| 0 <= q < a.len() && a[q] == x;
                if q == 0 {
                    crate::text::lemma_seq_lt_irreflexive(key(b[0]));
                    assert(seq_lt(key(b[0]), key(b[m + 1])));
                }
                assert(a1[q - 1] == x);
            }
        }
        assert forall|p: int, q: int| 0 <= p < q < a1.len() implies seq_lt(key(#[trigger] a1[p]), key(#[trigger] a1[q])) by {
            assert(a1[p] == a[p + 1] && a1[q] == a[q + 1]);
        }
        assert forall|p: int, q: int| 0 <= p < q < b1.len() implies seq_lt(key(#[trigger] b1[p]), key(#[trigger] b1[q])) by {
            assert(b1[p] == b[p + 1] && b1[q] == b[q + 1]);
        }
        lemma_ascending_listings_equal(a1, b1, key);
        assert(a =~= seq![a[0]] + a1);
        assert(b =~= seq![b[0]] + b1);
    }
}

/// The listing of the invites is fixed by the store alone: two listings in
/// ascending order of invite id that hold exactly the store's invites are
/// equal. So two calls of `list_invites` with no change in between, or
/// around a change that leaves the store as it was (an identical pairing
/// retry), return equal lists.
pub proof fn law_invite_listing_is_determined(
    s: MobileGrantStateView,
    a: Seq<MobileInviteSummaryView>,
    b: Seq<MobileInviteSummaryView>,
)
    requires
        invite_ids_ascending(a),
        invite_ids_ascending(b),
        lists_invites(s, a),
        lists_invites(s, b),
    ensures
        a == b,
{
    let key = |x: MobileInviteSummaryView| x.invite_id;
    assert forall|i: int, j: int| 0 <= i < j < a.len() implies seq_lt(key(#[trigger] a[i]), key(#[trigger] a[j])) by {
        assert(seq_lt(a[i].invite_id, a[j].invite_id));
    }
    assert forall|i: int, j: int| 0 <= i < j < b.len() implies seq_lt(key(#[trigger] b[i]), key(#[trigger] b[j])) by {
        assert(seq_lt(b[i].invite_id, b[j].invite_id));
    }
    assert forall|x: MobileInviteSummaryView| a.contains(x) <==> b.contains(x) by {
        assert(a.contains(x) <==> summarizes_some_invite(s, x));
        assert(b.contains(x) <==> summarizes_some_invite(s, x));
    }
    lemma_ascending_listings_equal(a, b, key);
}

/// The listing of the grants is fixed by the store alone, as that of the
/// invites is.
pub proof fn law_grant_listing_is_determined(
    s: MobileGrantStateView,
    a: Seq<MobileGrantSummaryView>,
    b: Seq<MobileGrantSummaryView>,
)
    requires
        grant_ids_ascending(a),
        grant_ids_ascending(b),
        lists_grants(s, a),
        lists_grants(s, b),
    ensures
        a == b,
{
    let key = |x: MobileGrantSummaryView| x.grant_id;
    assert forall|i: int, j: int| 0 <= i < j < a.len() implies seq_lt(key(#[trigger] a[i]), key(#[trigger] a[j])) by {
        assert(seq_lt(a[i].grant_id, a[j].grant_id));
    }
    assert forall|i: int, j: int| 0 <= i < j < b.len() implies seq_lt(key(#[trigger] b[i]), key(#[trigger] b[j])) by {
        assert(seq_lt(b[i].grant_id, b[j].grant_id));
    }
    assert forall|x: MobileGrantSummaryView| a.contains(x) <==> b.contains(x) by {
        assert(a.contains(x) <==> summarizes_some_grant(s, x));
        assert(b.contains(x) <==> summarizes_some_grant(s, x));
    }
    lemma_ascending_listings_equal(a, b, key);
}

/// No invite has been used more often than it allows.
pub open spec fn uses_within_limits(s: MobileGrantStateView) -> bool {
    forall|k: Seq<char>| #[trigger] s.invites.dom().contains(k) ==> s.invites[k].uses <= s.invites[k].payload.max_uses
}

/// Every change of the store keeps each invite's uses within its limit.
pub proof fn law_uses_never_exceed_max_uses(
    s: MobileGrantStateView,
    p: MobileInvitePayloadView,
    pairing: MobilePairingRequestView,
    session: GrantSessionRequestView,
    c: MobileGrantCredentialView,
    id: Seq<char>,
    now: u64,
)
    requires
        uses_within_limits(s),
    ensures
        uses_within_limits(invite_created(s, p)),
        pairing_step(s, pairing, now) == PairingStep::CheckProof ==> uses_within_limits(
            pairing_accepted(s, pairing, now, c),
        ),
        session_refusal(s, session) is None ==> uses_within_limits(session_accepted(s, session, now)),
        invite_revoked(s, id) is Ok ==> uses_within_limits(invite_revoked(s, id)->Ok_0),
        grant_revoked(s, id) is Ok ==> uses_within_limits(grant_revoked(s, id)->Ok_0),
{
}

} // verus!
