//! The agent's registry of local services, and which targets a service may
//! point at: a local or private address, or a domain name.
use vstd::prelude::*;
use crate::config::{ServiceConfig, ServiceConfigView};
use crate::ids::ServiceId;
use crate::ip::{
    is_v4_link_local, is_v4_loopback, is_v4_private, is_v4_shared, is_v6_loopback,
    is_v6_unicast_link_local, is_v6_unique_local, parse_ip, parse_ip_str, v4_is_link_local,
    v4_is_loopback, v4_is_private, v4_is_shared, v6_is_loopback, v6_is_unicast_link_local,
    v6_is_unique_local, IpAddr,
};
use crate::table::Table;
use crate::text::{chars_of, copy_string, is_blank, ranges_are_parts, split_all, split_ranges, trim, trimmed};

verus! {

pub open spec fn is_label_char(c: char) -> bool {
    ('A' <= c && c <= 'Z') || ('a' <= c && c <= 'z') || ('0' <= c && c <= '9') || c == '-'
}

/// A label of a domain name: 1 to 63 letters, digits or hyphens, not
/// starting or ending with a hyphen.
pub open spec fn valid_label(l: Seq<char>) -> bool {
    &&& 0 < l.len() <= 63
    &&& l[0] != '-'
    &&& l.last() != '-'
    &&& forall|i: int| 0 <= i < l.len() ==> is_label_char(#[trigger] l[i])
}

/// A domain name: at most 253 characters, no leading or trailing dot, and
/// valid labels between the dots. (A name with a character outside ASCII is
/// never one, so counting characters here is counting its bytes.)
pub open spec fn is_domain(s: Seq<char>) -> bool {
    &&& s.len() <= 253
    &&& !(s.len() > 0 && s[0] == '.')
    &&& !(s.len() > 0 && s.last() == '.')
    &&& forall|i: int| 0 <= i < split_all(s, '.').len() ==> valid_label(#[trigger] split_all(s, '.')[i])
}

fn label_ok(v: &Vec<char>, a: usize, b: usize) -> (r: bool)
    requires
        a <= b <= v@.len(),
    ensures
        r == valid_label(v@.subrange(a as int, b as int)),
{
    let ghost l = v@.subrange(a as int, b as int);
    if a == b || b - a > 63 || v[a] == '-' || v[b - 1] == '-' {
        return false;
    }
    let mut i = a;
    while i < b
        invariant
            a <= i <= b <= v@.len(),
            l == v@.subrange(a as int, b as int),
            forall|j: int| 0 <= j < i - a ==> is_label_char(#[trigger] l[j]),
        decreases b - i,
    {
        let c = v[i];
        if !(('A' <= c && c <= 'Z') || ('a' <= c && c <= 'z') || ('0' <= c && c <= '9') || c == '-') {
            assert(l[i - a] == c);
            return false;
        }
        i = i + 1;
    }
    true
}

/// Whether `host` is a domain name.
pub fn is_domain_name(host: &str) -> (r: bool)
    ensures
        r == is_domain(host@),
{
    let v = chars_of(host);
    let n = v.len();
    if n > 253 || (n > 0 && v[0] == '.') || (n > 0 && v[n - 1] == '.') {
        return false;
    }
    let ranges = split_ranges(&v, 0, n, '.');
    assert(v@.subrange(0, n as int) =~= v@);
    let ghost parts = split_all(v@, '.');
    let mut i: usize = 0;
    while i < ranges.len()
        invariant
            i <= ranges@.len(),
            v@ == host@,
            parts == split_all(v@, '.'),
            ranges_are_parts(v@, ranges@, parts),
            forall|j: int| 0 <= j < i ==> valid_label(#[trigger] parts[j]),
        decreases ranges@.len() - i,
    {
        let (a, b) = ranges[i];
        assert(ranges@[i as int] == (a, b));
        assert(v@.subrange(a as int, b as int) == parts[i as int]);
        if !label_ok(&v, a, b) {
            assert(!valid_label(split_all(host@, '.')[i as int]));
            return false;
        }
        i = i + 1;
    }
    true
}

/// Whether an address may be a service's target: loopback, private,
/// link-local or shared (100.64.0.0/10) IPv4; loopback, unique local or
/// link-local IPv6.
pub open spec fn allowed_target_ip(ip: IpAddr) -> bool {
    match ip {
        IpAddr::V4(a) => v4_is_loopback(a) || v4_is_private(a) || v4_is_link_local(a) || v4_is_shared(a),
        IpAddr::V6(a) => v6_is_loopback(a) || v6_is_unique_local(a) || v6_is_unicast_link_local(a),
    }
}

/// Whether a host may be a service's target: an allowed address, or, if it
/// is not an address, a domain name.
pub open spec fn allowed_target_host(host: Seq<char>) -> bool {
    let h = trim(host);
    match parse_ip(h) {
        Some(ip) => allowed_target_ip(ip),
        None => is_domain(h),
    }
}

/// Whether a service's target is acceptable: a host that is not blank and
/// allowed, and a port that is not 0.
pub open spec fn valid_target(s: ServiceConfigView) -> bool {
    trim(s.target_host).len() > 0 && s.target_port != 0 && allowed_target_host(s.target_host)
}

pub fn is_allowed_target_ip(ip: IpAddr) -> (r: bool)
    ensures
        r == allowed_target_ip(ip),
{
    match ip {
        IpAddr::V4(a) => is_v4_loopback(a) || is_v4_private(a) || is_v4_link_local(a) || is_v4_shared(a),
        IpAddr::V6(a) => is_v6_loopback(a) || is_v6_unique_local(a) || is_v6_unicast_link_local(a),
    }
}

pub fn is_allowed_target_host(target_host: &str) -> (r: bool)
    ensures
        r == allowed_target_host(target_host@),
{
    let host = trimmed(target_host);
    match parse_ip_str(host.as_str()) {
        Some(ip) => is_allowed_target_ip(ip),
        None => is_domain_name(host.as_str()),
    }
}

#[derive(Debug)]
pub enum ServiceRegistryError {
    DuplicateServiceId { service_id: ServiceId },
    InvalidTarget { service_id: ServiceId, target_host: String, target_port: u16 },
}

/// Refuses a service whose target is not acceptable.
pub fn validate_target(service: &ServiceConfig) -> (r: Result<(), ServiceRegistryError>)
    ensures
        valid_target(service@) ==> r is Ok,
        !valid_target(service@) ==> (r matches Err(
            ServiceRegistryError::InvalidTarget { service_id, target_host, target_port },
        ) && service_id@ == service@.service_id && target_host@ == service@.target_host
            && target_port == service@.target_port),
{
    if is_blank(service.target_host.as_str()) || service.target_port == 0 || !is_allowed_target_host(
        service.target_host.as_str(),
    ) {
        return Err(
            ServiceRegistryError::InvalidTarget {
                service_id: service.service_id.copied(),
                target_host: copy_string(&service.target_host),
                target_port: service.target_port,
            },
        );
    }
    Ok(())
}

/// Where building a registry from a list of services fails, if it does: the
/// position of the first service with an unacceptable target or with an id
/// that an earlier service already has, and whether it was the id.
pub open spec fn first_refusal(s: Seq<ServiceConfigView>, i: nat, seen: Set<Seq<char>>) -> Option<(nat, bool)>
    decreases s.len() - i,
{
    if i >= s.len() {
        None
    } else if !valid_target(s[i as int]) {
        Some((i, false))
    } else if seen.contains(s[i as int].service_id) {
        Some((i, true))
    } else {
        first_refusal(s, i + 1, seen.insert(s[i as int].service_id))
    }
}

pub open spec fn service_views(v: Seq<ServiceConfig>) -> Seq<ServiceConfigView> {
    v.map_values(|s: ServiceConfig| s@)
}

/// The services by id.
pub open spec fn services_by_id(s: Seq<ServiceConfigView>) -> Map<Seq<char>, ServiceConfigView> {
    Map::new(
        |k: Seq<char>| exists|i: int| 0 <= i < s.len() && (#[trigger] s[i]).service_id == k,
        |k: Seq<char>| s[choose|i: int| 0 <= i < s.len() && (#[trigger] s[i]).service_id == k],
    )
}

/// Whether no two services share an id.
pub open spec fn ids_distinct(s: Seq<ServiceConfigView>) -> bool {
    forall|a: int, b: int| 0 <= a < b < s.len() ==> (#[trigger] s[a]).service_id != (#[trigger] s[b]).service_id
}

proof fn lemma_by_id_push(s: Seq<ServiceConfigView>, x: ServiceConfigView)
    requires
        ids_distinct(s),
        forall|j: int| 0 <= j < s.len() ==> (#[trigger] s[j]).service_id != x.service_id,
    ensures
        ids_distinct(s.push(x)),
        services_by_id(s.push(x)) == services_by_id(s).insert(x.service_id, x),
{
    let t = s.push(x);
    assert(ids_distinct(t)) by {
        assert forall|a: int, b: int| 0 <= a < b < t.len() implies (#[trigger] t[a]).service_id != (#[trigger] t[b]).service_id by {
            if b == s.len() {
                assert(t[a] == s[a]);
            } else {
                assert(t[a] == s[a] && t[b] == s[b]);
            }
        }
    }
    let m = services_by_id(s).insert(x.service_id, x);
    assert forall|k: Seq<char>| #[trigger] services_by_id(t).dom().contains(k) <==> m.dom().contains(k) by {
        if services_by_id(t).dom().contains(k) {
            let j = choose|j: int| 0 <= j < t.len() && (#[trigger] t[j]).service_id == k;
            if j < s.len() {
                assert(t[j] == s[j]);
            }
        }
        if services_by_id(s).dom().contains(k) {
            let j = choose|j: int| 0 <= j < s.len() && (#[trigger] s[j]).service_id == k;
            assert(t[j] == s[j]);
        }
        if k == x.service_id {
            assert(t[s.len() as int] == x);
        }
    }
    assert forall|k: Seq<char>| #[trigger] services_by_id(t).dom().contains(k) implies services_by_id(t)[k] == m[k] by {
        let j = choose|j: int| 0 <= j < t.len() && (#[trigger] t[j]).service_id == k;
        if j == s.len() {
            assert(k == x.service_id);
        } else {
            assert(t[j] == s[j]);
            assert(k != x.service_id);
            let j2 = choose|j2: int| 0 <= j2 < s.len() && (#[trigger] s[j2]).service_id == k;
            if j != j2 {
                if j < j2 {
                    assert(s[j].service_id != s[j2].service_id);
                } else {
                    assert(s[j2].service_id != s[j].service_id);
                }
            }
        }
    }
    assert(services_by_id(t) =~= m);
}

proof fn lemma_registry_step(sv: Seq<ServiceConfigView>, i: int)
    requires
        0 <= i < sv.len(),
        ids_distinct(sv.take(i)),
        !services_by_id(sv.take(i)).dom().contains(sv[i].service_id),
    ensures
        ids_distinct(sv.take(i + 1)),
        services_by_id(sv.take(i + 1)) == services_by_id(sv.take(i)).insert(sv[i].service_id, sv[i]),
{
    let s = sv.take(i);
    assert(sv.take(i + 1) =~= s.push(sv[i]));
    assert forall|j: int| 0 <= j < s.len() implies (#[trigger] s[j]).service_id != sv[i].service_id by {
        if s[j].service_id == sv[i].service_id {
            assert(services_by_id(s).dom().contains(sv[i].service_id));
        }
    }
    lemma_by_id_push(s, sv[i]);
}

/// The local services that the agent exposes, by id.
#[derive(Clone, Debug)]
pub struct ServiceRegistry {
    services: Table<ServiceConfig>,
}

impl View for ServiceRegistry {
    type V = Map<Seq<char>, ServiceConfigView>;

    closed spec fn view(&self) -> Map<Seq<char>, ServiceConfigView> {
        self.services@
    }
}

impl ServiceRegistry {
    /// A registry of the services, each checked: the first service with an
    /// unacceptable target, or with the id of an earlier one, is refused.
    pub fn new(services: Vec<ServiceConfig>) -> (r: Result<Self, ServiceRegistryError>)
        ensures
            match first_refusal(service_views(services@), 0, Set::empty()) {
                None => r matches Ok(reg) && reg@ == services_by_id(service_views(services@)),
                Some((i, true)) => r matches Err(ServiceRegistryError::DuplicateServiceId { service_id })
                    && service_id@ == services@[i as int].service_id@,
                Some((i, false)) => r matches Err(
                    ServiceRegistryError::InvalidTarget { service_id, target_host, target_port },
                ) && service_id@ == services@[i as int].service_id@ && target_host@
                    == services@[i as int].target_host@ && target_port == services@[i as int].target_port,
            },
    {
        let ghost sv = service_views(services@);
        let mut table: Table<ServiceConfig> = Table::new();
        let mut i: usize = 0;
        assert(table@ =~= services_by_id(sv.take(0)));
        while i < services.len()
            invariant
                i <= services@.len(),
                sv == service_views(services@),
                first_refusal(sv, 0, Set::empty()) == first_refusal(sv, i as nat, table@.dom()),
                table@ == services_by_id(sv.take(i as int)),
                ids_distinct(sv.take(i as int)),
            decreases services@.len() - i,
        {
            let service = &services[i];
            assert(sv[i as int] == service@);
            validate_target(service)?;
            let key = copy_string(&service.service_id.0);
            if table.index_of(key.as_str()).is_some() {
                return Err(ServiceRegistryError::DuplicateServiceId { service_id: service.service_id.copied() });
            }
            proof {
                lemma_registry_step(sv, i as int);
            }
            table.insert(key, service.copied());
            i = i + 1;
        }
        assert(sv.take(i as int) =~= sv);
        Ok(ServiceRegistry { services: table })
    }

    /// The service with this id, if there is one.
    pub fn get(&self, service_id: &ServiceId) -> (r: Option<&ServiceConfig>)
        ensures
            match r {
                Some(s) => self@.dom().contains(service_id@) && s@ == self@[service_id@],
                None => !self@.dom().contains(service_id@),
            },
    {
        self.services.get(service_id.as_str())
    }
}

} // verus!
