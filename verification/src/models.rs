//! The messages of the Control server's HTTP API.
use vstd::prelude::*;
use crate::ids::{ClientId, DeviceId, ServiceId, SessionId, UserId};
use crate::protocol::{
    Device, GrantSessionRequest, MobilePairingRequest, PendingGrantSessionStatus,
    PendingPairingStatus, RelayLimits, TrafficStats,
};
use crate::token::ControlRole;

verus! {

#[derive(Debug, Clone, PartialEq, Eq)]
pub struct CreateSessionRequest {
    pub client_id: String,
    pub device_id: DeviceId,
    pub service_id: ServiceId,
}

#[derive(Debug, Clone, PartialEq, Eq)]
pub struct CreateSessionResponse {
    pub session_id: SessionId,
    pub access_token: String,
    pub relay_token: String,
    pub relay_addr: String,
    pub punch_addr: String,
    pub agent_p2p_cert_der: Option<Vec<u8>>,
    pub expire_at: u64,
}

#[derive(Debug, Clone, PartialEq, Eq)]
pub struct StartMobilePairingResponse {
    pub pending_pairing_id: String,
    pub poll_interval_ms: u64,
    pub expires_at: u64,
}

#[derive(Debug, Clone, PartialEq, Eq)]
pub struct PendingMobilePairingRequest {
    pub pending_pairing_id: String,
    pub request: MobilePairingRequest,
    pub expires_at: u64,
    pub status: PendingPairingStatus,
}

#[derive(Debug, Clone, PartialEq, Eq)]
pub struct ApproveMobilePairingRequest {
    pub grant_id: String,
    pub allowed_services: Vec<ServiceId>,
    pub revocation_version: u64,
}

#[derive(Debug, Clone, PartialEq, Eq)]
pub struct DenyMobileGrantRequest {
    pub reason: Option<String>,
}

#[derive(Debug, Clone, PartialEq, Eq)]
pub struct ApprovedMobileGrantMetadata {
    pub version: u32,
    pub device_id: DeviceId,
    pub grant_id: String,
    pub client_id: ClientId,
    pub allowed_services: Vec<ServiceId>,
    pub revocation_version: u64,
}

#[derive(Debug, Clone, PartialEq, Eq)]
pub struct MobilePairingPollResponse {
    pub pending_pairing_id: String,
    pub status: PendingPairingStatus,
    pub grant: Option<ApprovedMobileGrantMetadata>,
    pub denied_reason: Option<String>,
}

#[derive(Debug, Clone, PartialEq, Eq)]
pub struct StartGrantSessionResponse {
    pub pending_session_id: String,
    pub poll_interval_ms: u64,
    pub expires_at: u64,
}

#[derive(Debug, Clone, PartialEq, Eq)]
pub struct PendingGrantSessionRequest {
    pub pending_session_id: String,
    pub request: GrantSessionRequest,
    pub expires_at: u64,
    pub status: PendingGrantSessionStatus,
}

#[derive(Debug, Clone, PartialEq, Eq)]
pub struct ApproveGrantSessionRequest {}

#[derive(Debug, Clone, PartialEq, Eq)]
pub struct GrantSessionPollResponse {
    pub pending_session_id: String,
    pub status: PendingGrantSessionStatus,
    pub session: Option<CreateSessionResponse>,
    pub denied_reason: Option<String>,
}

#[derive(Debug, Clone, PartialEq, Eq)]
pub struct DeviceAccessGrant {
    pub device_id: DeviceId,
    pub user_id: UserId,
}

#[derive(Debug, Clone, PartialEq, Eq)]
pub struct GrantDeviceAccessRequest {
    pub user_id: UserId,
}

#[derive(Debug, Clone, PartialEq, Eq)]
pub struct RegisterP2pCertificateRequest {
    pub certificate_der: Vec<u8>,
}

#[derive(Debug, Clone, PartialEq, Eq)]
pub struct RegisterUserRequest {
    pub email: String,
    pub password: String,
    pub display_name: String,
}

#[derive(Debug, Clone, PartialEq, Eq)]
pub struct LoginRequest {
    pub email: String,
    pub password: String,
}

#[derive(Debug, Clone, PartialEq, Eq)]
pub struct UpdatePasswordRequest {
    pub current_password: Option<String>,
    pub new_password: String,
}

#[derive(Debug, Clone, PartialEq, Eq)]
pub struct AuthResponse {
    pub user_id: UserId,
    pub access_token: String,
    pub expire_at: u64,
}

#[derive(Debug, Clone, Copy, PartialEq, Eq, Structural)]
pub enum OAuthProvider {
    GitHub,
}

#[derive(Debug, Clone, PartialEq, Eq)]
pub struct OAuthIdentity {
    pub provider: OAuthProvider,
    pub provider_user_id: String,
    pub user_id: UserId,
    pub email: String,
    pub login: String,
    pub avatar_url: String,
    pub created_epoch_sec: u64,
    pub updated_epoch_sec: u64,
}

#[derive(Debug, Clone, Copy, PartialEq, Eq, Structural)]
pub enum ServerAuthMode {
    Browser,
    DeviceCode,
}

#[derive(Debug, Clone, Copy, PartialEq, Eq, Structural)]
pub enum ServerAuthStatus {
    Pending,
    Approved,
    Denied,
    Expired,
    Consumed,
    AuthorizationPending,
    SlowDown,
    AccessDenied,
}

#[derive(Debug, Clone, PartialEq, Eq)]
pub struct StartServerAuthRequest {
    pub device_id: Option<DeviceId>,
    pub device_name: String,
    pub server_public_key: String,
}

#[derive(Debug, Clone, PartialEq, Eq)]
pub struct BrowserServerAuthStartResponse {
    pub session_id: String,
    pub auth_url: String,
    pub expires_in: u64,
}

#[derive(Debug, Clone, PartialEq, Eq)]
pub struct BrowserServerAuthApprovalResponse {
    pub session_id: String,
    pub server_auth_code: String,
    pub status: ServerAuthStatus,
}

#[derive(Debug, Clone, PartialEq, Eq)]
pub struct BrowserServerAuthExchangeRequest {
    pub session_id: String,
    pub server_auth_code: String,
    pub server_public_key: String,
}

#[derive(Debug, Clone, PartialEq, Eq)]
pub struct DeviceServerAuthStartResponse {
    pub device_code: String,
    pub user_code: String,
    pub verification_uri: String,
    pub verification_uri_complete: String,
    pub expires_in: u64,
    pub interval: u64,
}

#[derive(Debug, Clone, PartialEq, Eq)]
pub struct DeviceServerAuthApprovalResponse {
    pub user_code: String,
    pub status: ServerAuthStatus,
}

#[derive(Debug, Clone, PartialEq, Eq)]
pub struct ServerAuthSessionDetail {
    pub session_id: String,
    pub mode: ServerAuthMode,
    pub status: ServerAuthStatus,
    pub device_id: DeviceId,
    pub device_name: String,
    pub server_public_key_fingerprint: String,
    pub expires_epoch_sec: u64,
}

#[derive(Debug, Clone, PartialEq, Eq)]
pub struct PollServerAuthRequest {
    pub device_code: String,
    pub server_public_key: String,
}

#[derive(Debug, Clone, PartialEq, Eq)]
pub struct DeviceServerAuthPollResponse {
    pub status: ServerAuthStatus,
    pub interval: u64,
    pub credential: Option<ServerCredentialResponse>,
}

#[derive(Debug, Clone, PartialEq, Eq)]
pub struct ServerCredentialResponse {
    pub credential_id: String,
    pub device_id: DeviceId,
    pub server_token: String,
    pub token_type: String,
}

#[derive(Debug, Clone, PartialEq, Eq)]
pub struct ServerCredentialSummary {
    pub credential_id: String,
    pub user_id: UserId,
    pub device_id: DeviceId,
    pub device_name: String,
    pub enabled: bool,
    pub token_version: u64,
    pub created_epoch_sec: u64,
    pub last_used_epoch_sec: Option<u64>,
}

#[derive(Debug, Clone, PartialEq, Eq)]
pub struct UpdateServerCredentialStatusRequest {
    pub enabled: bool,
}

#[derive(Debug, Clone, Default, PartialEq, Eq)]
pub struct DashboardSummary {
    pub users: DashboardUserStats,
    pub devices: DashboardDeviceStats,
    pub controllers: DashboardControllerStats,
    pub sessions: DashboardSessionStats,
    pub relays: DashboardRelayStats,
    pub usage: DashboardUsageStats,
    pub recent_audit_logs: Vec<AuditLogEntry>,
}

#[derive(Debug, Clone, Default, PartialEq, Eq)]
pub struct DashboardUserStats {
    pub total: u64,
    pub enabled: u64,
    pub admins: u64,
}

#[derive(Debug, Clone, Default, PartialEq, Eq)]
pub struct DashboardDeviceStats {
    pub total: u64,
    pub online: u64,
}

#[derive(Debug, Clone, Default, PartialEq, Eq)]
pub struct DashboardControllerStats {
    pub total: u64,
}

#[derive(Debug, Clone, Default, PartialEq, Eq)]
pub struct DashboardSessionStats {
    pub total: u64,
    pub pending: u64,
    pub claimed: u64,
    pub bound: u64,
    pub closed: u64,
    pub expired: u64,
}

#[derive(Debug, Clone, Default, PartialEq, Eq)]
pub struct DashboardRelayStats {
    pub total: u64,
    pub healthy: u64,
    pub unhealthy: u64,
}

#[derive(Debug, Clone, Default, PartialEq, Eq)]
pub struct DashboardUsageStats {
    pub actual_uplink_bytes: u64,
    pub actual_downlink_bytes: u64,
    pub actual_total_bytes: u64,
}

#[derive(Debug, Clone, PartialEq, Eq)]
pub struct Page<T> {
    pub items: Vec<T>,
    pub total: u64,
    pub limit: u32,
    pub offset: u32,
}


#[derive(Debug, Clone, PartialEq, Eq)]
pub struct AuditLogEntry {
    pub audit_id: String,
    pub actor_user_id: UserId,
    pub actor_subject: String,
    pub actor_role: ControlRole,
    pub action: String,
    pub target_type: String,
    pub target_id: String,
    pub message: String,
    pub created_epoch_sec: u64,
}

#[derive(Debug, Clone, PartialEq, Eq)]
pub struct UserSummary {
    pub user_id: UserId,
    pub email: String,
    pub display_name: String,
    pub role: ControlRole,
    pub enabled: bool,
    pub plan_id: String,
    pub controller_count: u32,
    pub device_count: u32,
}

#[derive(Debug, Clone, PartialEq, Eq)]
pub struct UserDetail {
    pub user: UserSummary,
    pub plan: Plan,
    pub controllers: Vec<ControllerDevice>,
    pub devices: Vec<Device>,
}

#[derive(Debug, Clone, PartialEq, Eq)]
pub struct UserUsageSummary {
    pub user_id: UserId,
    pub email: String,
    pub plan_id: String,
    pub current_period_started_epoch_sec: u64,
    pub max_controller_devices: u32,
    pub controller_count: u32,
    pub device_count: u32,
    pub session_count: u64,
    pub pending_sessions: u64,
    pub claimed_sessions: u64,
    pub bound_sessions: u64,
    pub closed_sessions: u64,
    pub expired_sessions: u64,
    pub current_session_quota_bytes: u64,
    pub relay_quota_granted_bytes: u64,
    pub actual_uplink_bytes: u64,
    pub actual_downlink_bytes: u64,
    pub actual_total_bytes: u64,
}

#[derive(Debug, Clone, PartialEq, Eq)]
pub struct UserUsagePeriod {
    pub user_id: UserId,
    pub current_period_started_epoch_sec: u64,
}

#[derive(Debug, Clone, PartialEq, Eq)]
pub struct AdminSessionSummary {
    pub session_id: SessionId,
    pub user_id: UserId,
    pub user_email: String,
    pub device_id: DeviceId,
    pub device_name: String,
    pub service_id: ServiceId,
    pub service_name: String,
    pub client_id: ClientId,
    pub status: AgentSessionStatus,
    pub relay_addr: String,
    pub punch_addr: String,
    pub expire_at: u64,
}

#[derive(Debug, Clone, PartialEq, Eq)]
pub struct RelaySessionUsageReport {
    pub session_id: SessionId,
    pub stats: TrafficStats,
}

#[derive(Debug, Clone, PartialEq, Eq)]
pub struct ReportRelaySessionUsageRequest {
    pub relay_id: String,
    pub sessions: Vec<RelaySessionUsageReport>,
}

#[derive(Debug, Clone, PartialEq, Eq)]
pub struct CreateUserRequest {
    pub email: String,
    pub password: String,
    pub display_name: String,
    pub role: ControlRole,
    pub enabled: bool,
}

#[derive(Debug, Clone, PartialEq, Eq)]
pub struct UpdateUserStatusRequest {
    pub enabled: bool,
}

#[derive(Debug, Clone, PartialEq, Eq)]
pub struct UpdateUserRoleRequest {
    pub role: ControlRole,
}

#[derive(Debug, Clone, PartialEq, Eq)]
pub struct ControllerDevice {
    pub user_id: UserId,
    pub client_id: ClientId,
    pub name: String,
}

#[derive(Debug, Clone, PartialEq, Eq)]
pub struct RegisterControllerDeviceRequest {
    pub client_id: String,
    pub name: String,
}

#[derive(Debug, Clone, PartialEq, Eq)]
pub struct Plan {
    pub plan_id: String,
    pub name: String,
    pub max_controller_devices: u32,
    pub relay_limits: RelayLimits,
}

#[derive(Debug, Clone, PartialEq, Eq)]
pub struct UpdateUserPlanRequest {
    pub plan: Plan,
}

#[derive(Debug, Clone, PartialEq, Eq)]
pub struct UpdatePlanCatalogRequest {
    pub plan: Plan,
}

#[derive(Debug, Clone, PartialEq, Eq)]
pub struct AssignUserPlanRequest {
    pub plan_id: String,
}

#[derive(Debug, Clone, PartialEq, Eq)]
pub struct RelayCredential {
    pub relay_id: String,
    pub enabled: bool,
    pub token_version: u64,
}

#[derive(Debug, Clone, PartialEq, Eq)]
pub struct CreateRelayCredentialRequest {
    pub relay_id: String,
    pub enabled: bool,
}

#[derive(Debug, Clone, PartialEq, Eq)]
pub struct UpdateRelayCredentialStatusRequest {
    pub enabled: bool,
}

#[derive(Debug, Clone, PartialEq, Eq)]
pub struct CreateRelayBootstrapRequest {
    pub relay_id: String,
    pub control_url: String,
    pub relay_addr: String,
    pub admin_addr: String,
    pub capacity_streams: u32,
    pub heartbeat_interval_sec: u64,
    pub ttl_sec: u64,
}

#[derive(Debug, Clone, PartialEq, Eq)]
pub struct RelayBootstrapResponse {
    pub bootstrap_id: String,
    pub relay_id: String,
    pub control_url: String,
    pub expires_epoch_sec: u64,
    pub install_command: String,
    pub no_service_install_command: String,
    pub bootstrap_token: String,
}

#[derive(Debug, Clone, PartialEq, Eq)]
pub struct RelayBootstrapExchangeRequest {
    pub bootstrap_token: String,
}

#[derive(Debug, Clone, PartialEq, Eq)]
pub struct RelayBootstrapExchangeResponse {
    pub control_url: String,
    pub control_token: String,
    pub relay_id: String,
    pub token_secret: String,
    pub relay_addr: String,
    pub admin_addr: String,
    pub capacity_streams: u32,
    pub heartbeat_interval_sec: u64,
}

#[derive(Debug, Clone, PartialEq, Eq)]
pub struct RegisterRelayRequest {
    pub relay_id: String,
    pub relay_addr: String,
    pub admin_addr: String,
    pub capacity_streams: u32,
}

#[derive(Debug, Clone, PartialEq, Eq)]
pub struct UpdateRelayRequest {
    pub relay_addr: String,
    pub admin_addr: String,
    pub capacity_streams: u32,
    pub healthy: bool,
}

#[derive(Debug, Clone, Copy, PartialEq, Eq, Structural, Default)]
pub enum RelayHealthStatus {
    #[default]
    Healthy,
    Degraded,
    Unhealthy,
}

#[derive(Debug, Clone, PartialEq, Eq, Default)]
pub struct RelayHealthReport {
    pub status: RelayHealthStatus,
    pub reason: String,
    pub relay_version: String,
    pub uptime_sec: u64,
    pub active_sessions: u64,
    pub active_streams: u64,
    pub total_uplink_bytes: u64,
    pub total_downlink_bytes: u64,
    pub total_bytes: u64,
    pub data_plane_bound: bool,
    pub admin_bound: bool,
}

#[derive(Debug, Clone, PartialEq, Eq)]
pub struct RelaySessionSnapshot {
    pub session_id: SessionId,
    pub state: String,
    pub mobile_bound: bool,
    pub agent_bound: bool,
    pub limits: RelayLimits,
    pub stats: TrafficStats,
    pub last_seen_epoch_sec: u64,
}

#[derive(Debug, Clone, Copy, PartialEq, Eq, Structural)]
pub enum RelayCommandKind {
    DisconnectSession,
}

#[derive(Debug, Clone, Copy, PartialEq, Eq, Structural)]
pub enum RelayCommandStatus {
    Pending,
    Succeeded,
    Failed,
}

#[derive(Debug, Clone, PartialEq, Eq)]
pub struct RelayCommand {
    pub command_id: String,
    pub relay_id: String,
    pub kind: RelayCommandKind,
    pub session_id: Option<SessionId>,
    pub status: RelayCommandStatus,
    pub requested_epoch_sec: u64,
    pub updated_epoch_sec: u64,
    pub message: String,
}

#[derive(Debug, Clone, PartialEq, Eq)]
pub struct ReportRelayCommandResultRequest {
    pub status: RelayCommandStatus,
    pub message: String,
}

#[derive(Debug, Clone, PartialEq, Eq)]
pub struct ReportRelayHealthRequest {
    pub relay_addr: String,
    pub admin_addr: String,
    pub capacity_streams: u32,
    pub health: RelayHealthReport,
    pub sessions: Vec<RelaySessionSnapshot>,
}

#[derive(Debug, Clone, PartialEq, Eq)]
pub struct RelayNode {
    pub relay_id: String,
    pub relay_addr: String,
    pub admin_addr: String,
    pub capacity_streams: u32,
    pub healthy: bool,
    pub last_seen_epoch_sec: u64,
    pub health_status: RelayHealthStatus,
    pub health_reason: String,
    pub relay_version: String,
    pub uptime_sec: u64,
    pub active_sessions: u64,
    pub active_streams: u64,
    pub total_uplink_bytes: u64,
    pub total_downlink_bytes: u64,
    pub total_bytes: u64,
    pub data_plane_bound: bool,
    pub admin_bound: bool,
    pub last_health_report_epoch_sec: u64,
}

#[derive(Debug, Clone, PartialEq, Eq)]
pub struct AgentSessionAssignment {
    pub session_id: SessionId,
    pub user_id: UserId,
    pub device_id: DeviceId,
    pub service_id: ServiceId,
    pub client_id: ClientId,
    pub relay_token: String,
    pub relay_addr: String,
    pub punch_addr: String,
    pub expire_at: u64,
    pub status: AgentSessionStatus,
    pub grant_id: Option<String>,
    pub grant_revocation_version: Option<u64>,
    pub grant_service_id: Option<ServiceId>,
}


#[derive(Debug, Clone, Copy, PartialEq, Eq, Structural)]
pub enum AgentSessionStatus {
    Pending,
    Claimed,
    Bound,
    Closed,
    Expired,
}

} // verus!
