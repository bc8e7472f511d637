//! Which addresses a data stream may be forwarded to: the networks the
//! receiving side allows, and the choice of the address to dial.
use vstd::prelude::*;
use crate::config::ServiceConfig;
use crate::ids::ServiceId;
use crate::ip::{
    is_v4_link_local, is_v4_loopback, is_v4_private, octet, parse_ip, parse_ip_at,
    parse_ipv4, parse_ipv4_at, v4_is_link_local, v4_is_loopback, v4_is_private, IpAddr, SocketAddr,
};
use crate::registry::{is_domain, is_domain_name, ServiceRegistry};
use crate::text::{
    chars_of, copy_string, decimal_string, decimal_text, parse_unsigned, parse_unsigned_at,
    push_char, push_str, split_once_spec, trim, trimmed,
};

verus! {

#[derive(Clone, Copy, Debug, PartialEq, Eq, Structural)]
pub enum TargetAccessPolicyError {
    InvalidCidr,
    Denied,
}

/// Whether the top `prefix_len` of `bits` bits of two numbers agree.
pub open spec fn same_prefix(network: u128, ip: u128, prefix_len: u8, bits: u8) -> bool {
    prefix_len == 0 || (network >> ((bits - prefix_len) as u128)) == (ip >> ((bits - prefix_len) as u128))
}

/// Whether `ip` lies in the network `network/prefix_len` of `bits`-bit
/// addresses.
pub fn network_prefix_match(network: u128, ip: u128, prefix_len: u8, bits: u8) -> (r: bool)
    requires
        prefix_len <= bits <= 128,
    ensures
        r == same_prefix(network, ip, prefix_len, bits),
{
    if prefix_len == 0 {
        return true;
    }
    let shift = (bits - prefix_len) as u128;
    (network >> shift) == (ip >> shift)
}

/// The longest prefix an address family has.
pub open spec fn max_prefix(ip: IpAddr) -> nat {
    match ip {
        IpAddr::V4(_) => 32,
        IpAddr::V6(_) => 128,
    }
}

/// Whether `ip` lies in the network `addr/prefix_len`; never across families.
pub open spec fn network_contains(addr: IpAddr, prefix_len: u8, ip: IpAddr) -> bool {
    match (addr, ip) {
        (IpAddr::V4(n), IpAddr::V4(a)) => same_prefix(n as u128, a as u128, prefix_len, 32),
        (IpAddr::V6(n), IpAddr::V6(a)) => same_prefix(n, a, prefix_len, 128),
        _ => false,
    }
}

/// A network written `address/prefix`, as this crate reads CIDR text.
pub open spec fn parse_cidr(s: Seq<char>) -> Option<(IpAddr, u8)> {
    match split_once_spec(s, '/') {
        None => None,
        Some((a, p)) => match parse_ip(a) {
            None => None,
            Some(ip) => match parse_unsigned(p, 255) {
                None => None,
                Some(n) => if n > max_prefix(ip) {
                    None
                } else {
                    Some((ip, n as u8))
                },
            },
        },
    }
}

/// An IP network.
#[derive(Clone, Copy, Debug, PartialEq, Eq)]
pub struct IpNetwork {
    addr: IpAddr,
    prefix_len: u8,
}

impl IpNetwork {
    #[verifier::type_invariant]
    closed spec fn prefix_fits(&self) -> bool {
        self.prefix_len as nat <= max_prefix(self.addr)
    }

    pub closed spec fn addr_spec(&self) -> IpAddr {
        self.addr
    }

    pub closed spec fn prefix_spec(&self) -> u8 {
        self.prefix_len
    }

    /// The network `addr/prefix_len`.
    pub fn new(addr: IpAddr, prefix_len: u8) -> (r: Option<Self>)
        ensures
            prefix_len as nat <= max_prefix(addr) ==> (r matches Some(n) && n.addr_spec() == addr
                && n.prefix_spec() == prefix_len),
            prefix_len as nat > max_prefix(addr) ==> r is None,
    {
        let max: u8 = match addr {
            IpAddr::V4(_) => 32,
            IpAddr::V6(_) => 128,
        };
        if prefix_len > max {
            None
        } else {
            Some(IpNetwork { addr, prefix_len })
        }
    }

    /// Reads `address/prefix`.
    pub fn parse(value: &str) -> (r: Result<Self, TargetAccessPolicyError>)
        ensures
            match parse_cidr(value@) {
                Some((addr, p)) => r matches Ok(n) && n.addr_spec() == addr && n.prefix_spec() == p,
                None => r == Err::<IpNetwork, TargetAccessPolicyError>(TargetAccessPolicyError::InvalidCidr),
            },
    {
        let v = chars_of(value);
        let i = match crate::text::split_once_at(&v, '/') {
            Some(i) => i,
            None => {
                return Err(TargetAccessPolicyError::InvalidCidr);
            },
        };
        let addr = match parse_ip_at(&v, 0, i) {
            Some(a) => a,
            None => {
                return Err(TargetAccessPolicyError::InvalidCidr);
            },
        };
        let prefix = match parse_unsigned_at(&v, i + 1, v.len(), 255) {
            Some(p) => p as u8,
            None => {
                return Err(TargetAccessPolicyError::InvalidCidr);
            },
        };
        match IpNetwork::new(addr, prefix) {
            Some(n) => Ok(n),
            None => Err(TargetAccessPolicyError::InvalidCidr),
        }
    }

    /// Whether `ip` lies in this network.
    pub fn contains(&self, ip: IpAddr) -> (r: bool)
        ensures
            r == network_contains(self.addr_spec(), self.prefix_spec(), ip),
    {
        proof {
            use_type_invariant(self);
        }
        match (self.addr, ip) {
            (IpAddr::V4(n), IpAddr::V4(a)) => network_prefix_match(n as u128, a as u128, self.prefix_len, 32),
            (IpAddr::V6(n), IpAddr::V6(a)) => network_prefix_match(n, a, self.prefix_len, 128),
            _ => false,
        }
    }
}

pub open spec fn networks_view(v: Seq<IpNetwork>) -> Seq<(IpAddr, u8)> {
    v.map_values(|n: IpNetwork| (n.addr_spec(), n.prefix_spec()))
}

/// Whether some network of the list holds `ip`.
pub open spec fn networks_allow(nets: Seq<(IpAddr, u8)>, ip: IpAddr) -> bool {
    exists|i: int| 0 <= i < nets.len() && network_contains((#[trigger] nets[i]).0, nets[i].1, ip)
}

/// The networks a stream may be forwarded into, and whether a domain name may
/// be a target.
#[derive(Clone, Debug)]
pub struct TargetAccessPolicy {
    allowed_lan_cidrs: Vec<IpNetwork>,
    allow_domains: bool,
}

pub struct TargetAccessPolicyView {
    pub networks: Seq<(IpAddr, u8)>,
    pub allow_domains: bool,
}

impl View for TargetAccessPolicy {
    type V = TargetAccessPolicyView;

    closed spec fn view(&self) -> TargetAccessPolicyView {
        TargetAccessPolicyView {
            networks: networks_view(self.allowed_lan_cidrs@),
            allow_domains: self.allow_domains,
        }
    }
}

/// The addresses that the policy lets a stream reach for `host` among the
/// resolved ones: for an allowed address, the resolved entries of that very
/// address; for a domain name, the resolved entries in allowed networks, if
/// there is any.
pub open spec fn allowed_targets(p: TargetAccessPolicyView, host: Seq<char>, addrs: Seq<SocketAddr>) -> Result<
    Seq<SocketAddr>,
    TargetAccessPolicyError,
> {
    let h = trim(host);
    match parse_ip(h) {
        Some(ip) => if networks_allow(p.networks, ip) {
            Ok(addrs.filter(|a: SocketAddr| a.ip == ip))
        } else {
            Err(TargetAccessPolicyError::Denied)
        },
        None => if p.allow_domains && is_domain(h) {
            let allowed = addrs.filter(|a: SocketAddr| networks_allow(p.networks, a.ip));
            if allowed.len() == 0 {
                Err(TargetAccessPolicyError::Denied)
            } else {
                Ok(allowed)
            }
        } else {
            Err(TargetAccessPolicyError::Denied)
        },
    }
}

/// A stream is only ever forwarded inside the allowed networks: every
/// address that the policy lets through for any host, an address or a
/// domain name, lies in one of them.
pub proof fn law_targets_stay_in_allowed_networks(
    p: TargetAccessPolicyView,
    host: Seq<char>,
    addrs: Seq<SocketAddr>,
    i: int,
)
    requires
        allowed_targets(p, host, addrs) is Ok,
        0 <= i < allowed_targets(p, host, addrs)->Ok_0.len(),
    ensures
        networks_allow(p.networks, allowed_targets(p, host, addrs)->Ok_0[i].ip),
{
    let h = trim(host);
    match parse_ip(h) {
        Some(ip) => {
            let pred = |a: SocketAddr| a.ip == ip;
            addrs.lemma_filter_pred(pred, i);
        },
        None => {
            let pred = |a: SocketAddr| networks_allow(p.networks, a.ip);
            addrs.lemma_filter_pred(pred, i);
        },
    }
}

/// The networks that are always allowed: 127.0.0.0/8 and ::1/128.
pub open spec fn default_networks() -> Seq<(IpAddr, u8)> {
    seq![(IpAddr::V4(0x7f00_0000), 8u8), (IpAddr::V6(1), 128u8)]
}

/// The networks that are always allowed.
pub fn default_allowed_lan_cidrs() -> (r: Vec<IpNetwork>)
    ensures
        networks_view(r@) == default_networks(),
{
    let mut r: Vec<IpNetwork> = Vec::new();
    if let Some(n) = IpNetwork::new(IpAddr::V4(0x7f00_0000), 8) {
        r.push(n);
    }
    if let Some(n) = IpNetwork::new(IpAddr::V6(1), 128) {
        r.push(n);
    }
    assert(networks_view(r@) =~= default_networks());
    r
}

impl TargetAccessPolicy {
    /// The default networks and the networks of the host's interfaces;
    /// domain names allowed.
    pub fn with_detected_lan_cidrs(detected: Vec<IpNetwork>) -> (r: Self)
        ensures
            r@.networks == default_networks() + networks_view(detected@),
            r@.allow_domains,
    {
        let mut nets = default_allowed_lan_cidrs();
        let ghost first = nets@;
        let mut i: usize = 0;
        while i < detected.len()
            invariant
                i <= detected@.len(),
                networks_view(first) == default_networks(),
                nets@ == first + detected@.take(i as int),
            decreases detected@.len() - i,
        {
            nets.push(detected[i]);
            i = i + 1;
            assert(nets@ =~= first + detected@.take(i as int));
        }
        assert(detected@.take(i as int) =~= detected@);
        assert(networks_view(nets@) =~= default_networks() + networks_view(detected@));
        TargetAccessPolicy { allowed_lan_cidrs: nets, allow_domains: true }
    }

    /// A policy of exactly the networks written in `cidrs`; domain names
    /// allowed. Any text that is not a network refuses the whole list.
    pub fn with_allowed_lan_cidrs(cidrs: &[&str]) -> (r: Result<Self, TargetAccessPolicyError>)
        ensures
            (forall|i: int| 0 <= i < cidrs@.len() ==> (#[trigger] parse_cidr(cidrs@[i]@)) is Some) ==> (
            r matches Ok(p) && p@.allow_domains && p@.networks.len() == cidrs@.len() && forall|i: int|
                0 <= i < cidrs@.len() ==> Some(#[trigger] p@.networks[i]) == parse_cidr(cidrs@[i]@)),
            (exists|i: int| 0 <= i < cidrs@.len() && (#[trigger] parse_cidr(cidrs@[i]@)) is None) ==> r
                == Err::<TargetAccessPolicy, TargetAccessPolicyError>(
                TargetAccessPolicyError::InvalidCidr,
            ),
    {
        let mut nets: Vec<IpNetwork> = Vec::new();
        let mut i: usize = 0;
        while i < cidrs.len()
            invariant
                i <= cidrs@.len(),
                nets@.len() == i,
                forall|j: int| 0 <= j < i ==> #[trigger] parse_cidr(cidrs@[j]@) == Some(networks_view(nets@)[j]),
            decreases cidrs@.len() - i,
        {
            let n = IpNetwork::parse(cidrs[i])?;
            let ghost before = nets@;
            nets.push(n);
            proof {
                assert forall|j: int| 0 <= j < i + 1 implies #[trigger] parse_cidr(cidrs@[j]@) == Some(networks_view(nets@)[j]) by {
                    if j < i {
                        assert(nets@[j] == before[j]);
                        assert(networks_view(before)[j] == (before[j].addr_spec(), before[j].prefix_spec()));
                    }
                }
            }
            i = i + 1;
        }
        Ok(TargetAccessPolicy { allowed_lan_cidrs: nets, allow_domains: true })
    }

    /// Whether some allowed network holds `ip`.
    pub fn allows_ip(&self, ip: IpAddr) -> (r: bool)
        ensures
            r == networks_allow(self@.networks, ip),
    {
        let mut i: usize = 0;
        while i < self.allowed_lan_cidrs.len()
            invariant
                i <= self.allowed_lan_cidrs@.len(),
                forall|j: int| 0 <= j < i ==> !network_contains(
                    (#[trigger] networks_view(self.allowed_lan_cidrs@)[j]).0,
                    networks_view(self.allowed_lan_cidrs@)[j].1,
                    ip,
                ),
            decreases self.allowed_lan_cidrs@.len() - i,
        {
            if self.allowed_lan_cidrs[i].contains(ip) {
                assert(networks_view(self.allowed_lan_cidrs@)[i as int] == (
                    self.allowed_lan_cidrs@[i as int].addr_spec(),
                    self.allowed_lan_cidrs@[i as int].prefix_spec(),
                ));
                return true;
            }
            i = i + 1;
        }
        false
    }

    /// The resolved addresses of `target_host` that a stream may be
    /// forwarded to.
    pub fn allowed_target_addrs(&self, target_host: &str, target_addrs: Vec<SocketAddr>) -> (r: Result<
        Vec<SocketAddr>,
        TargetAccessPolicyError,
    >)
        ensures
            match allowed_targets(self@, target_host@, target_addrs@) {
                Ok(a) => r matches Ok(v) && v@ == a,
                Err(e) => r == Err::<Vec<SocketAddr>, TargetAccessPolicyError>(e),
            },
    {
        let host = trimmed(target_host);
        match crate::ip::parse_ip_str(host.as_str()) {
            Some(ip) => {
                if self.allows_ip(ip) {
                    let mut out: Vec<SocketAddr> = Vec::new();
                    let mut i: usize = 0;
                    let ghost pred = |a: SocketAddr| a.ip == ip;
                    proof {
                        reveal(Seq::filter);
                        assert(target_addrs@.take(0) =~= Seq::<SocketAddr>::empty());
                    }
                    while i < target_addrs.len()
                        invariant
                            i <= target_addrs@.len(),
                            pred == (|a: SocketAddr| a.ip == ip),
                            out@ == target_addrs@.take(i as int).filter(pred),
                        decreases target_addrs@.len() - i,
                    {
                        let a = target_addrs[i];
                        proof {
                            reveal(Seq::filter);
                            assert(target_addrs@.take(i + 1).drop_last() =~= target_addrs@.take(i as int));
                        }
                        if a.ip == ip {
                            out.push(a);
                        }
                        i = i + 1;
                    }
                    assert(target_addrs@.take(i as int) =~= target_addrs@);
                    return Ok(out);
                }
                return Err(TargetAccessPolicyError::Denied);
            },
            None => {},
        }
        if self.allow_domains && is_domain_name(host.as_str()) {
            let mut out: Vec<SocketAddr> = Vec::new();
            let mut i: usize = 0;
            let ghost nets = self@.networks;
            let ghost pred = |a: SocketAddr| networks_allow(nets, a.ip);
            proof {
                reveal(Seq::filter);
                assert(target_addrs@.take(0) =~= Seq::<SocketAddr>::empty());
            }
            while i < target_addrs.len()
                invariant
                    i <= target_addrs@.len(),
                    nets == self@.networks,
                    pred == (|a: SocketAddr| networks_allow(nets, a.ip)),
                    out@ == target_addrs@.take(i as int).filter(pred),
                decreases target_addrs@.len() - i,
            {
                let a = target_addrs[i];
                proof {
                    reveal(Seq::filter);
                    assert(target_addrs@.take(i + 1).drop_last() =~= target_addrs@.take(i as int));
                }
                if self.allows_ip(a.ip) {
                    out.push(a);
                }
                i = i + 1;
            }
            assert(target_addrs@.take(i as int) =~= target_addrs@);
            if out.len() == 0 {
                return Err(TargetAccessPolicyError::Denied);
            }
            return Ok(out);
        }
        Err(TargetAccessPolicyError::Denied)
    }
}

// ---------------------------------------------------------------------------
// Networks of the host's interfaces.

/// The mask of a `p`-bit IPv4 prefix.
pub open spec fn prefix_mask(p: nat) -> u32 {
    if p == 0 {
        0
    } else {
        (!0u32) << ((32 - p) as u32)
    }
}

/// The prefix length of a mask, at least `p`, if the mask is a prefix mask.
pub open spec fn mask_prefix_from(mask: u32, p: nat) -> Option<nat>
    decreases 33 - p,
{
    if p > 32 {
        None
    } else if mask == prefix_mask(p) {
        Some(p)
    } else {
        mask_prefix_from(mask, p + 1)
    }
}

/// Dotted-quad text of an IPv4 address.
pub open spec fn ipv4_text(a: u32) -> Seq<char> {
    decimal_text(octet(a, 0)) + seq!['.'] + decimal_text(octet(a, 1)) + seq!['.'] + decimal_text(
        octet(a, 2),
    ) + seq!['.'] + decimal_text(octet(a, 3))
}

/// The network of an interface that may be allowed: a loopback, private or
/// link-local IPv4 address with a prefix netmask, written `network/prefix`.
pub open spec fn detected_cidr(ip: Seq<char>, netmask: Seq<char>) -> Option<Seq<char>> {
    match (parse_ipv4(ip), parse_ipv4(netmask)) {
        (Some(a), Some(m)) => if !(v4_is_loopback(a) || v4_is_private(a) || v4_is_link_local(a)) {
            None
        } else {
            match mask_prefix_from(m, 0) {
                None => None,
                Some(p) => Some(ipv4_text(a & m) + seq!['/'] + decimal_text(p)),
            }
        },
        _ => None,
    }
}

fn prefix_mask_of(p: u32) -> (m: u32)
    requires
        p <= 32,
    ensures
        m == prefix_mask(p as nat),
{
    if p == 0 {
        0
    } else {
        (!0u32) << (32 - p)
    }
}

/// Dotted-quad text of an IPv4 address.
pub fn ipv4_string(a: u32) -> (s: String)
    ensures
        s@ == ipv4_text(a),
{
    let mut s = decimal_string(crate::ip::ipv4_octet_of(a, 0) as u64);
    push_char(&mut s, '.');
    let t1 = decimal_string(crate::ip::ipv4_octet_of(a, 1) as u64);
    push_str(&mut s, t1.as_str());
    push_char(&mut s, '.');
    let t2 = decimal_string(crate::ip::ipv4_octet_of(a, 2) as u64);
    push_str(&mut s, t2.as_str());
    push_char(&mut s, '.');
    let t3 = decimal_string(crate::ip::ipv4_octet_of(a, 3) as u64);
    push_str(&mut s, t3.as_str());
    assert(s@ =~= ipv4_text(a));
    s
}

/// The network to allow for an interface with this address and netmask.
pub fn detected_lan_cidr_for_interface(ip: &str, netmask: &str) -> (r: Option<String>)
    ensures
        match detected_cidr(ip@, netmask@) {
            Some(t) => r matches Some(s) && s@ == t,
            None => r is None,
        },
{
    let iv = chars_of(ip);
    let mv = chars_of(netmask);
    assert(iv@.subrange(0, iv@.len() as int) =~= iv@);
    assert(mv@.subrange(0, mv@.len() as int) =~= mv@);
    let a = match parse_ipv4_at(&iv, 0, iv.len()) {
        Some(a) => a,
        None => {
            return None;
        },
    };
    let m = match parse_ipv4_at(&mv, 0, mv.len()) {
        Some(m) => m,
        None => {
            return None;
        },
    };
    if !(is_v4_loopback(a) || is_v4_private(a) || is_v4_link_local(a)) {
        return None;
    }
    let mut p: u32 = 0;
    while p <= 32
        invariant
            p <= 33,
            parse_ipv4(ip@) == Some(a),
            parse_ipv4(netmask@) == Some(m),
            v4_is_loopback(a) || v4_is_private(a) || v4_is_link_local(a),
            mask_prefix_from(m, 0) == mask_prefix_from(m, p as nat),
        decreases 33 - p,
    {
        if m == prefix_mask_of(p) {
            assert(mask_prefix_from(m, p as nat) == Some(p as nat));
            assert(detected_cidr(ip@, netmask@) == Some(ipv4_text(a & m) + seq!['/'] + decimal_text(p as nat)));
            let mut s = ipv4_string(a & m);
            push_char(&mut s, '/');
            let t = decimal_string(p as u64);
            push_str(&mut s, t.as_str());
            assert(s@ =~= ipv4_text(a & m) + seq!['/'] + decimal_text(p as nat));
            return Some(s);
        }
        p = p + 1;
    }
    None
}

// ---------------------------------------------------------------------------
// Forwarding a data stream.

#[derive(Debug)]
pub enum AgentStreamError {
    ServiceNotFound { service_id: ServiceId },
    TargetAccessDenied { service_id: ServiceId, target_host: String },
    TargetResolveFailed { service_id: ServiceId, target_host: String, source: std::io::Error },
    ServiceDialFailed { service_id: ServiceId, target_addr: String, source: std::io::Error },
    Stream(String),
    Io(std::io::Error),
}

/// The service that a stream asks for.
pub fn stream_service<'a>(registry: &'a ServiceRegistry, service_id: &ServiceId) -> (r: Result<
    &'a ServiceConfig,
    AgentStreamError,
>)
    ensures
        registry@.dom().contains(service_id@) ==> (r matches Ok(s) && s@ == registry@[service_id@]),
        !registry@.dom().contains(service_id@) ==> (r matches Err(
            AgentStreamError::ServiceNotFound { service_id: id },
        ) && id@ == service_id@),
{
    match registry.get(service_id) {
        Some(s) => Ok(s),
        None => Err(AgentStreamError::ServiceNotFound { service_id: service_id.copied() }),
    }
}

/// The address to dial for a stream to `service`, from what resolving its
/// host gave: the first address the policy allows.
pub fn stream_target(
    policy: &TargetAccessPolicy,
    service_id: &ServiceId,
    service: &ServiceConfig,
    resolved: Result<Vec<SocketAddr>, std::io::Error>,
) -> (r: Result<SocketAddr, AgentStreamError>)
    ensures
        match resolved {
            Err(e) => r matches Err(AgentStreamError::TargetResolveFailed { service_id: id, target_host, source })
                && id@ == service_id@ && target_host@ == service@.target_host && source == e,
            Ok(addrs) => match allowed_targets(policy@, service@.target_host, addrs@) {
                Ok(a) if a.len() > 0 => r == Ok::<SocketAddr, AgentStreamError>(a[0]),
                _ => r matches Err(AgentStreamError::TargetAccessDenied { service_id: id, target_host })
                    && id@ == service_id@ && target_host@ == service@.target_host,
            },
        },
{
    let addrs = match resolved {
        Ok(a) => a,
        Err(source) => {
            return Err(
                AgentStreamError::TargetResolveFailed {
                    service_id: service_id.copied(),
                    target_host: copy_string(&service.target_host),
                    source,
                },
            );
        },
    };
    match policy.allowed_target_addrs(service.target_host.as_str(), addrs) {
        Ok(allowed) => {
            if allowed.len() > 0 {
                Ok(allowed[0])
            } else {
                Err(
                    AgentStreamError::TargetAccessDenied {
                        service_id: service_id.copied(),
                        target_host: copy_string(&service.target_host),
                    },
                )
            }
        },
        Err(_) => Err(
            AgentStreamError::TargetAccessDenied {
                service_id: service_id.copied(),
                target_host: copy_string(&service.target_host),
            },
        ),
    }
}

} // verus!
