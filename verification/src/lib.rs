//! Verified core of MobileCode Connect: the control-plane client logic and
//! request paths, the agent's service registry, target access policy and
//! mobile grant manager, the signed token format, the relay daemon's
//! control-plane reports, and what the command-line tools and the Control
//! server make of their arguments and settings.
pub mod text;
pub mod ip;
pub mod ids;
pub mod protocol;
pub mod table;
pub mod mobile_grant;
pub mod query;
pub mod control_client;
pub mod token;
pub mod config;
pub mod registry;
pub mod target_policy;
pub mod models;
pub mod relayd;
pub mod runtime;
pub mod cli;
pub mod control_server;
pub mod routes;
