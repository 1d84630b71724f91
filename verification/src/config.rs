//! Gateway configuration, and how command-line flags override it.

use vstd::prelude::*;

verus! {

/// How the gateway finds out where an endpoint id can be reached.
#[derive(Clone, Copy, Debug, PartialEq, Eq, Structural)]
pub enum DiscoveryMode {
    /// The n0 preset's address lookup.
    Default,
    /// DNS lookups under a configured origin only.
    Dns,
    /// The n0 preset's address lookup plus DNS lookups under a configured origin.
    Hybrid,
}

/// Endpoint settings: `A4` and `A6` are the IPv4 and IPv6 socket address
/// types the endpoint binds to, `R` the socket address type of a nameserver.
#[derive(Debug)]
pub struct Config<A4, A6, R> {
    pub discovery_mode: DiscoveryMode,
    /// Origin for `_iroh.<endpoint-id>.<origin>` DNS lookups.
    pub dns_origin: Option<String>,
    /// Nameserver for those lookups, instead of the system's.
    pub dns_resolver: Option<R>,
    /// IPv4 address to bind the endpoint to.
    pub ipv4_addr: Option<A4>,
    /// IPv6 address to bind the endpoint to.
    pub ipv6_addr: Option<A6>,
}

/// The gateway's configuration.
#[derive(Debug)]
pub struct GatewayConfig<A4, A6, R> {
    pub common: Config<A4, A6, R>,
}

impl<A4, A6, R> Config<A4, A6, R> {
    /// Default discovery, no DNS origin or resolver, default bind addresses.
    pub fn new() -> (c: Config<A4, A6, R>)
        ensures
            c.discovery_mode == DiscoveryMode::Default,
            c.dns_origin is None,
            c.dns_resolver is None,
            c.ipv4_addr is None,
            c.ipv6_addr is None,
    {
        Config {
            discovery_mode: DiscoveryMode::Default,
            dns_origin: None,
            dns_resolver: None,
            ipv4_addr: None,
            ipv6_addr: None,
        }
    }
}

impl<A4, A6, R> Default for GatewayConfig<A4, A6, R> {
    fn default() -> (c: GatewayConfig<A4, A6, R>)
        ensures
            c.common.discovery_mode == DiscoveryMode::Default,
            c.common.dns_origin is None,
            c.common.dns_resolver is None,
            c.common.ipv4_addr is None,
            c.common.ipv6_addr is None,
    {
        GatewayConfig { common: Config::new() }
    }
}

impl<A4, A6, R> GatewayConfig<A4, A6, R> {
    /// The configuration with the command-line overrides applied: each flag
    /// that was given replaces the configured value; the others leave it.
    pub fn with_overrides(
        self,
        discovery: Option<DiscoveryMode>,
        dns_origin: Option<String>,
        dns_resolver: Option<R>,
    ) -> (c: GatewayConfig<A4, A6, R>)
        ensures
            c.common.discovery_mode == match discovery {
                Some(mode) => mode,
                None => self.common.discovery_mode,
            },
            c.common.dns_origin == match dns_origin {
                Some(origin) => Some(origin),
                None => self.common.dns_origin,
            },
            c.common.dns_resolver == match dns_resolver {
                Some(resolver) => Some(resolver),
                None => self.common.dns_resolver,
            },
            c.common.ipv4_addr == self.common.ipv4_addr,
            c.common.ipv6_addr == self.common.ipv6_addr,
    {
        let mut config = self;
        if let Some(mode) = discovery {
            config.common.discovery_mode = mode;
        }
        if let Some(origin) = dns_origin {
            config.common.dns_origin = Some(origin);
        }
        if let Some(resolver) = dns_resolver {
            config.common.dns_resolver = Some(resolver);
        }
        config
    }
}

/// Port of the metrics listener when only its address is given.
pub const DEFAULT_METRICS_PORT: u16 = 9090;

/// Where the metrics listener binds, given the proxy's bind address and the
/// metrics flags: nowhere when neither flag is given; a missing address is
/// the proxy's, a missing port is [`DEFAULT_METRICS_PORT`].
pub fn metrics_bind_addr<A>(bind_addr: A, metrics_addr: Option<A>, metrics_port: Option<u16>) -> (r: Option<(A, u16)>)
    ensures
        r == match (metrics_addr, metrics_port) {
            (None, None) => None,
            (Some(addr), Some(port)) => Some((addr, port)),
            (Some(addr), None) => Some((addr, DEFAULT_METRICS_PORT)),
            (None, Some(port)) => Some((bind_addr, port)),
        },
{
    match (metrics_addr, metrics_port) {
        (None, None) => None,
        (Some(addr), Some(port)) => Some((addr, port)),
        (Some(addr), None) => Some((addr, DEFAULT_METRICS_PORT)),
        (None, Some(port)) => Some((bind_addr, port)),
    }
}

} // verus!
