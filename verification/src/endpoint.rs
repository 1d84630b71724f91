//! What the gateway reads from, and decides about, its iroh endpoint.

use vstd::prelude::*;

use crate::config::{Config, DiscoveryMode};

verus! {

/// The gateway's iroh endpoint.
#[verifier::external_type_specification]
#[verifier::external_body]
pub struct ExEndpoint(iroh::Endpoint);

/// The endpoint socket's counters that the gateway reports.
#[derive(Clone, Copy, Debug)]
pub struct SocketStats {
    /// Data bytes received over IPv4.
    pub recv_ipv4: u64,
    /// Data bytes received over IPv6.
    pub recv_ipv6: u64,
    /// Data bytes received over relays.
    pub recv_relay: u64,
    /// Bytes sent over IPv4.
    pub send_ipv4: u64,
    /// Bytes sent over IPv6.
    pub send_ipv6: u64,
    /// Bytes sent over relays.
    pub send_relay: u64,
    /// Direct (IP) transport paths opened.
    pub ip_paths_added: u64,
    /// Direct (IP) transport paths closed.
    pub ip_paths_removed: u64,
    /// Relay transport paths opened.
    pub relay_paths_added: u64,
    /// Relay transport paths closed.
    pub relay_paths_removed: u64,
    /// Changes of the home relay.
    pub relay_home_change: u64,
    /// Peer connections opened (handshake completed).
    pub conns_opened: u64,
    /// Peer connections closed.
    pub conns_closed: u64,
    /// Peer connections that went direct.
    pub conns_direct: u64,
}

/// Reads the socket counters of `Endpoint::metrics()`.
///
/// Trusted, with nothing stated of the result: the counters change as traffic
/// flows and peers come and go. Each field is read from the counter of the same
/// meaning (`recv_data_ipv4`, ..., `transport_ip_paths_added`, ...,
/// `num_conns_opened`, `num_conns_closed`, `num_conns_direct`).
#[verifier::external_body]
pub(crate) fn read_socket_stats(endpoint: &iroh::Endpoint) -> SocketStats {
    let m = &endpoint.metrics().socket;
    SocketStats {
        recv_ipv4: m.recv_data_ipv4.get(), recv_ipv6: m.recv_data_ipv6.get(), recv_relay: m.recv_data_relay.get(),
        send_ipv4: m.send_ipv4.get(), send_ipv6: m.send_ipv6.get(), send_relay: m.send_relay.get(),
        ip_paths_added: m.transport_ip_paths_added.get(), ip_paths_removed: m.transport_ip_paths_removed.get(),
        relay_paths_added: m.transport_relay_paths_added.get(),
        relay_paths_removed: m.transport_relay_paths_removed.get(),
        relay_home_change: m.relay_home_change.get(),
        conns_opened: m.num_conns_opened.get(), conns_closed: m.num_conns_closed.get(),
        conns_direct: m.num_conns_direct.get(),
    }
}

/// Whether a peer connection is open, given how many were opened and closed:
/// `opened.saturating_sub(closed) > 0`.
pub fn peer_conn_open(opened: u64, closed: u64) -> (r: bool)
    ensures
        r == (opened > closed),
{
    opened.saturating_sub(closed) > 0
}

/// Whether the endpoint currently holds at least one peer connection.
///
/// The answer comes from live counters, so nothing is promised of it beyond
/// what [`peer_conn_open`] states of the counts that were read.
pub fn has_existing_peer_conn(endpoint: &iroh::Endpoint) -> bool {
    let stats = read_socket_stats(endpoint);
    peer_conn_open(stats.conns_opened, stats.conns_closed)
}

/// The endpoint preset a build starts from.
#[derive(Clone, Copy, Debug, PartialEq, Eq, Structural)]
pub enum EndpointPreset {
    /// The n0 preset, with its own address lookup.
    N0,
    /// Only the settings an endpoint cannot do without: no address lookup
    /// unless one is added.
    Minimal,
}

/// DNS address lookup to add to the endpoint.
#[derive(Debug)]
pub struct DnsLookup<R> {
    /// Origin for `_iroh.<endpoint-id>.<origin>` lookups.
    pub origin: String,
    /// Nameserver to query over UDP, instead of the system's.
    pub resolver: Option<R>,
}

/// Why an endpoint cannot be built from a configuration.
#[derive(Clone, Copy, Debug, PartialEq, Eq, Structural)]
pub enum EndpointConfigError {
    /// DNS or hybrid discovery was asked for without a DNS origin.
    MissingDnsOrigin,
}

/// How to build the endpoint, step by step: the preset, the addresses to bind
/// (IPv4 first), then the DNS lookup to add, or why there can be none.
#[derive(Debug)]
pub struct EndpointPlan<A4, A6, R> {
    pub preset: EndpointPreset,
    pub bind_ipv4: Option<A4>,
    pub bind_ipv6: Option<A6>,
    pub dns_lookup: Result<Option<DnsLookup<R>>, EndpointConfigError>,
}

/// The plan for building the endpoint from `config`: DNS-only discovery starts
/// from the minimal preset, the other modes from the n0 preset; the configured bind
/// addresses are bound; DNS and hybrid discovery add a DNS lookup under the
/// configured origin (with the configured nameserver, if any), and fail without one.
pub fn endpoint_plan<A4: Copy, A6: Copy, R: Copy>(config: &Config<A4, A6, R>) -> (p: EndpointPlan<A4, A6, R>)
    ensures
        p.preset == (if config.discovery_mode == DiscoveryMode::Dns { EndpointPreset::Minimal } else { EndpointPreset::N0 }),
        p.bind_ipv4 == config.ipv4_addr,
        p.bind_ipv6 == config.ipv6_addr,
        config.discovery_mode == DiscoveryMode::Default ==> p.dns_lookup == Ok::<Option<DnsLookup<R>>, EndpointConfigError>(None),
        config.discovery_mode != DiscoveryMode::Default ==> match config.dns_origin {
            None => p.dns_lookup == Err::<Option<DnsLookup<R>>, EndpointConfigError>(EndpointConfigError::MissingDnsOrigin),
            Some(origin) => p.dns_lookup matches Ok(Some(lookup)) && lookup.origin@ == origin@
                && lookup.resolver == config.dns_resolver,
        },
{
    let preset = match config.discovery_mode {
        DiscoveryMode::Dns => EndpointPreset::Minimal,
        DiscoveryMode::Default | DiscoveryMode::Hybrid => EndpointPreset::N0,
    };
    let dns_lookup = match config.discovery_mode {
        DiscoveryMode::Default => Ok(None),
        DiscoveryMode::Dns | DiscoveryMode::Hybrid => match &config.dns_origin {
            Some(origin) => Ok(Some(DnsLookup { origin: origin.clone(), resolver: config.dns_resolver })),
            None => Err(EndpointConfigError::MissingDnsOrigin),
        },
    };
    EndpointPlan { preset, bind_ipv4: config.ipv4_addr, bind_ipv6: config.ipv6_addr, dns_lookup }
}

} // verus!
