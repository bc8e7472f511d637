//! The agent's configuration: its device, its Control server and the local
//! services it exposes.
use vstd::prelude::*;
use crate::ids::{DeviceId, ServiceId};
use crate::protocol::ServiceProtocol;
use crate::text::{decimal_string, decimal_text, push_char, push_str};

verus! {

/// One local service that the agent exposes.
#[derive(Clone, Debug, PartialEq, Eq)]
pub struct ServiceConfig {
    pub service_id: ServiceId,
    pub name: String,
    pub protocol: ServiceProtocol,
    pub target_host: String,
    pub target_port: u16,
}

pub struct ServiceConfigView {
    pub service_id: Seq<char>,
    pub name: Seq<char>,
    pub protocol: ServiceProtocol,
    pub target_host: Seq<char>,
    pub target_port: u16,
}

impl View for ServiceConfig {
    type V = ServiceConfigView;

    open spec fn view(&self) -> ServiceConfigView {
        ServiceConfigView {
            service_id: self.service_id@,
            name: self.name@,
            protocol: self.protocol,
            target_host: self.target_host@,
            target_port: self.target_port,
        }
    }
}

/// `host:port`.
pub open spec fn target_addr_text(host: Seq<char>, port: u16) -> Seq<char> {
    host + seq![':'] + decimal_text(port as nat)
}

impl ServiceConfig {
    pub fn copied(&self) -> (r: Self)
        ensures
            r@ == self@,
    {
        ServiceConfig {
            service_id: self.service_id.copied(),
            name: self.name.clone(),
            protocol: self.protocol,
            target_host: self.target_host.clone(),
            target_port: self.target_port,
        }
    }

    /// The address of the service, `host:port`.
    pub fn target_addr(&self) -> (r: String)
        ensures
            r@ == target_addr_text(self.target_host@, self.target_port),
    {
        let mut s = self.target_host.clone();
        push_char(&mut s, ':');
        let p = decimal_string(self.target_port as u64);
        push_str(&mut s, p.as_str());
        assert(s@ =~= target_addr_text(self.target_host@, self.target_port));
        s
    }
}

/// What the agent registers with Control.
#[derive(Clone, Debug)]
pub struct AgentConfig {
    pub device_id: DeviceId,
    pub control_server: String,
    pub auth_token: String,
    pub services: Vec<ServiceConfig>,
    pub p2p_certificate_der: Option<Vec<u8>>,
}

} // verus!
