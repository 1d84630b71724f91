//! The gateway's own request, denial and error-response counters.

use vstd::prelude::*;
use vstd::string::*;

use std::sync::Arc;

use iroh_proxy_utils::downstream::DownstreamMetrics;

use crate::endpoint::{read_socket_stats, SocketStats};
use crate::resolver::HEADER_NODE_ID;
use crate::text::{decimal, push_decimal, text_eq};

verus! {

/// One counter of [`GatewayMetrics`].
#[derive(Clone, Copy, Debug, PartialEq, Eq, Structural)]
pub enum Counter {
    RequestsTunnel,
    RequestsOrigin,
    RequestsTcp,
    RequestsUds,
    RequestsTunnelTcp,
    RequestsTunnelUds,
    RequestsOriginTcp,
    RequestsOriginUds,
    TunnelReuseWithPeerConn,
    TunnelReuseWithoutPeerConn,
    OriginReuseWithPeerConn,
    OriginReuseWithoutPeerConn,
    DeniedMissingHeader,
    DeniedMissingHeaderNodeId,
    DeniedInvalidEndpoint,
    DeniedInvalidTargetPort,
    Responses4xx,
    Responses5xx,
    Responses500,
    Responses502,
    Responses503,
    Responses504,
    ResponsesOther5xx,
    Failures5xxWithPeerConn,
    Failures5xxWithoutPeerConn,
}

/// Counters of the gateway's request handling and error responses.
///
/// Every counter starts at zero and is raised by one at a time; like an atomic
/// `fetch_add`, a counter at `u64::MAX` wraps around to zero.
#[derive(Debug)]
pub struct GatewayMetrics {
    requests_tunnel_total: u64,
    requests_origin_total: u64,
    requests_tcp_total: u64,
    requests_uds_total: u64,
    requests_tunnel_tcp_total: u64,
    requests_tunnel_uds_total: u64,
    requests_origin_tcp_total: u64,
    requests_origin_uds_total: u64,
    tunnel_reuse_attempts_with_existing_peer_conn_total: u64,
    tunnel_reuse_attempts_without_existing_peer_conn_total: u64,
    origin_reuse_attempts_with_existing_peer_conn_total: u64,
    origin_reuse_attempts_without_existing_peer_conn_total: u64,
    denied_missing_header_total: u64,
    denied_missing_header_node_id_total: u64,
    denied_invalid_endpoint_total: u64,
    denied_invalid_target_port_total: u64,
    responses_4xx_total: u64,
    responses_5xx_total: u64,
    responses_500_total: u64,
    responses_502_total: u64,
    responses_503_total: u64,
    responses_504_total: u64,
    responses_other_5xx_total: u64,
    failures_5xx_with_existing_peer_conn_total: u64,
    failures_5xx_without_existing_peer_conn_total: u64,
}

/// The value a counter holds after one increment.
pub open spec fn bumped(x: u64) -> u64 {
    if x == u64::MAX {
        0
    } else {
        (x + 1) as u64
    }
}

/// `after` is `before` with each counter in `raised` incremented once and every
/// other counter unchanged.
pub open spec fn advanced(before: GatewayMetrics, after: GatewayMetrics, raised: Set<Counter>) -> bool {
    forall|c: Counter|
        #[trigger] after.count(c) == if raised.contains(c) {
            bumped(before.count(c))
        } else {
            before.count(c)
        }
}

impl GatewayMetrics {
    /// The current value of counter `c`.
    pub closed spec fn count(self, c: Counter) -> u64 {
        match c {
            Counter::RequestsTunnel => self.requests_tunnel_total,
            Counter::RequestsOrigin => self.requests_origin_total,
            Counter::RequestsTcp => self.requests_tcp_total,
            Counter::RequestsUds => self.requests_uds_total,
            Counter::RequestsTunnelTcp => self.requests_tunnel_tcp_total,
            Counter::RequestsTunnelUds => self.requests_tunnel_uds_total,
            Counter::RequestsOriginTcp => self.requests_origin_tcp_total,
            Counter::RequestsOriginUds => self.requests_origin_uds_total,
            Counter::TunnelReuseWithPeerConn => self.tunnel_reuse_attempts_with_existing_peer_conn_total,
            Counter::TunnelReuseWithoutPeerConn => self.tunnel_reuse_attempts_without_existing_peer_conn_total,
            Counter::OriginReuseWithPeerConn => self.origin_reuse_attempts_with_existing_peer_conn_total,
            Counter::OriginReuseWithoutPeerConn => self.origin_reuse_attempts_without_existing_peer_conn_total,
            Counter::DeniedMissingHeader => self.denied_missing_header_total,
            Counter::DeniedMissingHeaderNodeId => self.denied_missing_header_node_id_total,
            Counter::DeniedInvalidEndpoint => self.denied_invalid_endpoint_total,
            Counter::DeniedInvalidTargetPort => self.denied_invalid_target_port_total,
            Counter::Responses4xx => self.responses_4xx_total,
            Counter::Responses5xx => self.responses_5xx_total,
            Counter::Responses500 => self.responses_500_total,
            Counter::Responses502 => self.responses_502_total,
            Counter::Responses503 => self.responses_503_total,
            Counter::Responses504 => self.responses_504_total,
            Counter::ResponsesOther5xx => self.responses_other_5xx_total,
            Counter::Failures5xxWithPeerConn => self.failures_5xx_with_existing_peer_conn_total,
            Counter::Failures5xxWithoutPeerConn => self.failures_5xx_without_existing_peer_conn_total,
        }
    }

    /// The current value of counter `c`.
    pub fn value(&self, c: Counter) -> (r: u64)
        ensures
            r == self.count(c),
    {
        match c {
            Counter::RequestsTunnel => self.requests_tunnel_total,
            Counter::RequestsOrigin => self.requests_origin_total,
            Counter::RequestsTcp => self.requests_tcp_total,
            Counter::RequestsUds => self.requests_uds_total,
            Counter::RequestsTunnelTcp => self.requests_tunnel_tcp_total,
            Counter::RequestsTunnelUds => self.requests_tunnel_uds_total,
            Counter::RequestsOriginTcp => self.requests_origin_tcp_total,
            Counter::RequestsOriginUds => self.requests_origin_uds_total,
            Counter::TunnelReuseWithPeerConn => self.tunnel_reuse_attempts_with_existing_peer_conn_total,
            Counter::TunnelReuseWithoutPeerConn => self.tunnel_reuse_attempts_without_existing_peer_conn_total,
            Counter::OriginReuseWithPeerConn => self.origin_reuse_attempts_with_existing_peer_conn_total,
            Counter::OriginReuseWithoutPeerConn => self.origin_reuse_attempts_without_existing_peer_conn_total,
            Counter::DeniedMissingHeader => self.denied_missing_header_total,
            Counter::DeniedMissingHeaderNodeId => self.denied_missing_header_node_id_total,
            Counter::DeniedInvalidEndpoint => self.denied_invalid_endpoint_total,
            Counter::DeniedInvalidTargetPort => self.denied_invalid_target_port_total,
            Counter::Responses4xx => self.responses_4xx_total,
            Counter::Responses5xx => self.responses_5xx_total,
            Counter::Responses500 => self.responses_500_total,
            Counter::Responses502 => self.responses_502_total,
            Counter::Responses503 => self.responses_503_total,
            Counter::Responses504 => self.responses_504_total,
            Counter::ResponsesOther5xx => self.responses_other_5xx_total,
            Counter::Failures5xxWithPeerConn => self.failures_5xx_with_existing_peer_conn_total,
            Counter::Failures5xxWithoutPeerConn => self.failures_5xx_without_existing_peer_conn_total,
        }
    }

    /// A fresh set of counters, all zero.
    pub fn new() -> (m: GatewayMetrics)
        ensures
            forall|c: Counter| #[trigger] m.count(c) == 0,
    {
        GatewayMetrics {
            requests_tunnel_total: 0,
            requests_origin_total: 0,
            requests_tcp_total: 0,
            requests_uds_total: 0,
            requests_tunnel_tcp_total: 0,
            requests_tunnel_uds_total: 0,
            requests_origin_tcp_total: 0,
            requests_origin_uds_total: 0,
            tunnel_reuse_attempts_with_existing_peer_conn_total: 0,
            tunnel_reuse_attempts_without_existing_peer_conn_total: 0,
            origin_reuse_attempts_with_existing_peer_conn_total: 0,
            origin_reuse_attempts_without_existing_peer_conn_total: 0,
            denied_missing_header_total: 0,
            denied_missing_header_node_id_total: 0,
            denied_invalid_endpoint_total: 0,
            denied_invalid_target_port_total: 0,
            responses_4xx_total: 0,
            responses_5xx_total: 0,
            responses_500_total: 0,
            responses_502_total: 0,
            responses_503_total: 0,
            responses_504_total: 0,
            responses_other_5xx_total: 0,
            failures_5xx_with_existing_peer_conn_total: 0,
            failures_5xx_without_existing_peer_conn_total: 0,
        }
    }

    /// Counts a CONNECT (tunnel) request.
    pub fn inc_tunnel_requests(&mut self)
        ensures
            advanced(*old(self), *final(self), set![Counter::RequestsTunnel]),
    {
        self.requests_tunnel_total = self.requests_tunnel_total.wrapping_add(1);
    }

    /// Counts an origin (header-routed) request.
    pub fn inc_origin_requests(&mut self)
        ensures
            advanced(*old(self), *final(self), set![Counter::RequestsOrigin]),
    {
        self.requests_origin_total = self.requests_origin_total.wrapping_add(1);
    }

    /// Counts a tunnel request that arrived over TCP.
    pub fn inc_tunnel_tcp_requests(&mut self)
        ensures
            advanced(*old(self), *final(self), set![Counter::RequestsTunnelTcp]),
    {
        self.requests_tunnel_tcp_total = self.requests_tunnel_tcp_total.wrapping_add(1);
    }

    /// Counts a tunnel request that arrived over a Unix domain socket.
    pub fn inc_tunnel_uds_requests(&mut self)
        ensures
            advanced(*old(self), *final(self), set![Counter::RequestsTunnelUds]),
    {
        self.requests_tunnel_uds_total = self.requests_tunnel_uds_total.wrapping_add(1);
    }

    /// Counts an origin request that arrived over TCP.
    pub fn inc_origin_tcp_requests(&mut self)
        ensures
            advanced(*old(self), *final(self), set![Counter::RequestsOriginTcp]),
    {
        self.requests_origin_tcp_total = self.requests_origin_tcp_total.wrapping_add(1);
    }

    /// Counts an origin request that arrived over a Unix domain socket.
    pub fn inc_origin_uds_requests(&mut self)
        ensures
            advanced(*old(self), *final(self), set![Counter::RequestsOriginUds]),
    {
        self.requests_origin_uds_total = self.requests_origin_uds_total.wrapping_add(1);
    }

    /// Counts a request that arrived over TCP.
    pub fn inc_tcp_requests(&mut self)
        ensures
            advanced(*old(self), *final(self), set![Counter::RequestsTcp]),
    {
        self.requests_tcp_total = self.requests_tcp_total.wrapping_add(1);
    }

    /// Counts a request that arrived over a Unix domain socket.
    pub fn inc_uds_requests(&mut self)
        ensures
            advanced(*old(self), *final(self), set![Counter::RequestsUds]),
    {
        self.requests_uds_total = self.requests_uds_total.wrapping_add(1);
    }

    /// Counts a request denied for a missing routing header.
    pub fn inc_denied_missing_header(&mut self)
        ensures
            advanced(*old(self), *final(self), set![Counter::DeniedMissingHeader]),
    {
        self.denied_missing_header_total = self.denied_missing_header_total.wrapping_add(1);
    }

    /// Counts a request denied for an unparsable endpoint id.
    pub fn inc_denied_invalid_endpoint(&mut self)
        ensures
            advanced(*old(self), *final(self), set![Counter::DeniedInvalidEndpoint]),
    {
        self.denied_invalid_endpoint_total = self.denied_invalid_endpoint_total.wrapping_add(1);
    }

    /// Counts a request denied for an unparsable target port.
    pub fn inc_denied_invalid_target_port(&mut self)
        ensures
            advanced(*old(self), *final(self), set![Counter::DeniedInvalidTargetPort]),
    {
        self.denied_invalid_target_port_total = self.denied_invalid_target_port_total.wrapping_add(1);
    }

    /// Counts an upstream attempt for a tunnel request, split by whether a peer
    /// connection already existed.
    pub fn inc_tunnel_reuse_attempt(&mut self, has_existing_peer_conn: bool)
        ensures
            advanced(
                *old(self),
                *final(self),
                if has_existing_peer_conn {
                    set![Counter::TunnelReuseWithPeerConn]
                } else {
                    set![Counter::TunnelReuseWithoutPeerConn]
                },
            ),
    {
        if has_existing_peer_conn {
            self.tunnel_reuse_attempts_with_existing_peer_conn_total = self.tunnel_reuse_attempts_with_existing_peer_conn_total.wrapping_add(1);
        } else {
            self.tunnel_reuse_attempts_without_existing_peer_conn_total = self.tunnel_reuse_attempts_without_existing_peer_conn_total.wrapping_add(1);
        }
    }

    /// Counts an upstream attempt for an origin request, split by whether a peer
    /// connection already existed.
    pub fn inc_origin_reuse_attempt(&mut self, has_existing_peer_conn: bool)
        ensures
            advanced(
                *old(self),
                *final(self),
                if has_existing_peer_conn {
                    set![Counter::OriginReuseWithPeerConn]
                } else {
                    set![Counter::OriginReuseWithoutPeerConn]
                },
            ),
    {
        if has_existing_peer_conn {
            self.origin_reuse_attempts_with_existing_peer_conn_total = self.origin_reuse_attempts_with_existing_peer_conn_total.wrapping_add(1);
        } else {
            self.origin_reuse_attempts_without_existing_peer_conn_total = self.origin_reuse_attempts_without_existing_peer_conn_total.wrapping_add(1);
        }
    }

    /// Counts a 5xx response, split by whether a peer connection already existed.
    pub fn inc_5xx_failure_by_peer_conn_state(&mut self, has_existing_peer_conn: bool)
        ensures
            advanced(
                *old(self),
                *final(self),
                if has_existing_peer_conn {
                    set![Counter::Failures5xxWithPeerConn]
                } else {
                    set![Counter::Failures5xxWithoutPeerConn]
                },
            ),
    {
        if has_existing_peer_conn {
            self.failures_5xx_with_existing_peer_conn_total = self.failures_5xx_with_existing_peer_conn_total.wrapping_add(1);
        } else {
            self.failures_5xx_without_existing_peer_conn_total = self.failures_5xx_without_existing_peer_conn_total.wrapping_add(1);
        }
    }

    /// Counts a request denied because header `name` was missing or not text;
    /// a missing endpoint-id header is also counted on its own.
    pub fn inc_denied_missing_header_name(&mut self, name: &str)
        ensures
            advanced(
                *old(self),
                *final(self),
                if name@ == HEADER_NODE_ID@ {
                    set![Counter::DeniedMissingHeader, Counter::DeniedMissingHeaderNodeId]
                } else {
                    set![Counter::DeniedMissingHeader]
                },
            ),
    {
        self.denied_missing_header_total = self.denied_missing_header_total.wrapping_add(1);
        if text_eq(name, HEADER_NODE_ID) {
            self.denied_missing_header_node_id_total = self.denied_missing_header_node_id_total.wrapping_add(1);
        }
    }

    /// Counts an error response with HTTP status `status` (a valid status code,
    /// `100..=999`): a 4xx raises the 4xx total; a 5xx raises the 5xx total and
    /// the counter of its exact code (500, 502, 503, 504, or the rest).
    pub fn inc_status_code(&mut self, status: u16)
        requires
            100 <= status <= 999,
        ensures
            advanced(*old(self), *final(self), status_counters(status)),
    {
        if is_client_error(status) {
            self.responses_4xx_total = self.responses_4xx_total.wrapping_add(1);
        } else if is_server_error(status) {
            self.responses_5xx_total = self.responses_5xx_total.wrapping_add(1);
            if status == 500 {
                self.responses_500_total = self.responses_500_total.wrapping_add(1);
            } else if status == 502 {
                self.responses_502_total = self.responses_502_total.wrapping_add(1);
            } else if status == 503 {
                self.responses_503_total = self.responses_503_total.wrapping_add(1);
            } else if status == 504 {
                self.responses_504_total = self.responses_504_total.wrapping_add(1);
            } else {
                self.responses_other_5xx_total = self.responses_other_5xx_total.wrapping_add(1);
            }
        }
    }
}

/// Raising two disjoint sets of counters one after the other raises their union.
pub proof fn lemma_advanced_compose(
    a: GatewayMetrics,
    b: GatewayMetrics,
    c: GatewayMetrics,
    first: Set<Counter>,
    second: Set<Counter>,
)
    requires
        advanced(a, b, first),
        advanced(b, c, second),
        first.disjoint(second),
    ensures
        advanced(a, c, first.union(second)),
{
    assert forall|x: Counter| #[trigger] c.count(x) == if first.union(second).contains(x) {
        bumped(a.count(x))
    } else {
        a.count(x)
    } by {
        assert(b.count(x) == if first.contains(x) { bumped(a.count(x)) } else { a.count(x) });
        assert(c.count(x) == if second.contains(x) { bumped(b.count(x)) } else { b.count(x) });
    }
}

/// Raising no counter leaves every counter as it was.
pub proof fn lemma_advanced_none(a: GatewayMetrics)
    ensures
        advanced(a, a, Set::empty()),
{
}

/// The counters that an error response with status `status` raises.
pub open spec fn status_counters(status: u16) -> Set<Counter> {
    if 400 <= status < 500 {
        set![Counter::Responses4xx]
    } else if 500 <= status < 600 {
        set![
            Counter::Responses5xx,
            if status == 500 {
                Counter::Responses500
            } else if status == 502 {
                Counter::Responses502
            } else if status == 503 {
                Counter::Responses503
            } else if status == 504 {
                Counter::Responses504
            } else {
                Counter::ResponsesOther5xx
            },
        ]
    } else {
        Set::empty()
    }
}

/// Whether `status` is a client error (`400..=499`).
pub fn is_client_error(status: u16) -> (r: bool)
    ensures
        r == (400 <= status < 500),
{
    400 <= status && status < 500
}

/// Whether `status` is a server error (`500..=599`).
pub fn is_server_error(status: u16) -> (r: bool)
    ensures
        r == (500 <= status < 600),
{
    500 <= status && status < 600
}


/// `text`, a line break, then `line`.
pub open spec fn and_line(text: Seq<char>, line: Seq<char>) -> Seq<char> {
    text + "\n"@ + line
}

/// `text`, a line break, then the sample of `series` with value `v`.
pub open spec fn and_sample(text: Seq<char>, series: Seq<char>, v: nat) -> Seq<char> {
    text + "\n"@ + series + decimal(v)
}

/// The lines of the gateway's own counters, in exposition order, after
/// `prefix`, where counter `c` holds `n(c)`.
pub open spec fn counter_lines(prefix: Seq<char>, n: spec_fn(Counter) -> nat) -> Seq<char> {
    let t = prefix + "# HELP iroh_gateway_requests_total Gateway request count by proxy request kind.\n# TYPE iroh_gateway_requests_total counter"@;
    let t = and_sample(t, "iroh_gateway_requests_total{kind=\"tunnel\"} "@, n(Counter::RequestsTunnel));
    let t = and_sample(t, "iroh_gateway_requests_total{kind=\"origin\"} "@, n(Counter::RequestsOrigin));
    let t = and_line(t, "# HELP iroh_gateway_requests_by_source_total Gateway request count by ingress source.\n# TYPE iroh_gateway_requests_by_source_total counter"@);
    let t = and_sample(t, "iroh_gateway_requests_by_source_total{source=\"tcp\"} "@, n(Counter::RequestsTcp));
    let t = and_sample(t, "iroh_gateway_requests_by_source_total{source=\"uds\"} "@, n(Counter::RequestsUds));
    let t = and_line(t, "# HELP iroh_gateway_requests_by_source_and_kind_total Gateway request count by ingress source and request kind.\n# TYPE iroh_gateway_requests_by_source_and_kind_total counter"@);
    let t = and_sample(t, "iroh_gateway_requests_by_source_and_kind_total{source=\"tcp\",kind=\"tunnel\"} "@, n(Counter::RequestsTunnelTcp));
    let t = and_sample(t, "iroh_gateway_requests_by_source_and_kind_total{source=\"uds\",kind=\"tunnel\"} "@, n(Counter::RequestsTunnelUds));
    let t = and_sample(t, "iroh_gateway_requests_by_source_and_kind_total{source=\"tcp\",kind=\"origin\"} "@, n(Counter::RequestsOriginTcp));
    let t = and_sample(t, "iroh_gateway_requests_by_source_and_kind_total{source=\"uds\",kind=\"origin\"} "@, n(Counter::RequestsOriginUds));
    let t = and_line(t, "# HELP iroh_gateway_upstream_reuse_attempts_total Gateway upstream attempt count by request kind and whether a peer connection already existed.\n# TYPE iroh_gateway_upstream_reuse_attempts_total counter"@);
    let t = and_sample(t, "iroh_gateway_upstream_reuse_attempts_total{kind=\"tunnel\",peer_conn_state=\"with_existing\"} "@, n(Counter::TunnelReuseWithPeerConn));
    let t = and_sample(t, "iroh_gateway_upstream_reuse_attempts_total{kind=\"tunnel\",peer_conn_state=\"without_existing\"} "@, n(Counter::TunnelReuseWithoutPeerConn));
    let t = and_sample(t, "iroh_gateway_upstream_reuse_attempts_total{kind=\"origin\",peer_conn_state=\"with_existing\"} "@, n(Counter::OriginReuseWithPeerConn));
    let t = and_sample(t, "iroh_gateway_upstream_reuse_attempts_total{kind=\"origin\",peer_conn_state=\"without_existing\"} "@, n(Counter::OriginReuseWithoutPeerConn));
    let t = and_line(t, "# HELP iroh_gateway_denied_requests_total Gateway denied request count by reason.\n# TYPE iroh_gateway_denied_requests_total counter"@);
    let t = and_sample(t, "iroh_gateway_denied_requests_total{reason=\"missing_header\"} "@, n(Counter::DeniedMissingHeader));
    let t = and_sample(t, "iroh_gateway_denied_requests_total{reason=\"missing_header_node_id\"} "@, n(Counter::DeniedMissingHeaderNodeId));
    let t = and_sample(t, "iroh_gateway_denied_requests_total{reason=\"invalid_endpoint_id\"} "@, n(Counter::DeniedInvalidEndpoint));
    let t = and_sample(t, "iroh_gateway_denied_requests_total{reason=\"invalid_target_port\"} "@, n(Counter::DeniedInvalidTargetPort));
    let t = and_line(t, "# HELP iroh_gateway_error_responses_total Gateway error response count grouped by status class.\n# TYPE iroh_gateway_error_responses_total counter"@);
    let t = and_sample(t, "iroh_gateway_error_responses_total{class=\"4xx\"} "@, n(Counter::Responses4xx));
    let t = and_sample(t, "iroh_gateway_error_responses_total{class=\"5xx\"} "@, n(Counter::Responses5xx));
    let t = and_line(t, "# HELP iroh_gateway_error_responses_by_status_total Gateway 5xx response count grouped by exact status code.\n# TYPE iroh_gateway_error_responses_by_status_total counter"@);
    let t = and_sample(t, "iroh_gateway_error_responses_by_status_total{status=\"500\"} "@, n(Counter::Responses500));
    let t = and_sample(t, "iroh_gateway_error_responses_by_status_total{status=\"502\"} "@, n(Counter::Responses502));
    let t = and_sample(t, "iroh_gateway_error_responses_by_status_total{status=\"503\"} "@, n(Counter::Responses503));
    let t = and_sample(t, "iroh_gateway_error_responses_by_status_total{status=\"504\"} "@, n(Counter::Responses504));
    let t = and_sample(t, "iroh_gateway_error_responses_by_status_total{status=\"other_5xx\"} "@, n(Counter::ResponsesOther5xx));
    let t = and_line(t, "# HELP iroh_gateway_upstream_failures_total Gateway upstream 5xx failures grouped by whether a peer connection existed when the error was generated.\n# TYPE iroh_gateway_upstream_failures_total counter"@);
    let t = and_sample(t, "iroh_gateway_upstream_failures_total{class=\"5xx\",peer_conn_state=\"with_existing\"} "@, n(Counter::Failures5xxWithPeerConn));
    let t = and_sample(t, "iroh_gateway_upstream_failures_total{class=\"5xx\",peer_conn_state=\"without_existing\"} "@, n(Counter::Failures5xxWithoutPeerConn));
    t
}

/// The lines of the gateway's own counters in `m`, in exposition order, after `prefix`.
pub open spec fn gateway_lines(prefix: Seq<char>, m: GatewayMetrics) -> Seq<char> {
    counter_lines(prefix, |c: Counter| m.count(c) as nat)
}

/// Total bytes received over IPv4, IPv6 and relays, wrapping like `+` in a
/// release build.
pub open spec fn spec_recv_total(s: SocketStats) -> u64 {
    s.recv_ipv4.wrapping_add(s.recv_ipv6).wrapping_add(s.recv_relay)
}

/// Total bytes sent over IPv4, IPv6 and relays, wrapping like `+` in a release build.
pub open spec fn spec_send_total(s: SocketStats) -> u64 {
    s.send_ipv4.wrapping_add(s.send_ipv6).wrapping_add(s.send_relay)
}

/// The lines of the endpoint's socket counters, after `prefix`. Tunnel events
/// that the endpoint's socket does not count (relay send errors, endpoints contacted,
/// path ping failures, paths marked outdated, path failure resets) read zero;
/// connection handshakes are the connections opened, and direct contacts the
/// connections that went direct.
pub open spec fn socket_lines(prefix: Seq<char>, s: SocketStats) -> Seq<char> {
    and_line(prefix, "# HELP iroh_gateway_iroh_recv_bytes_total Total iroh magicsock bytes received.\n# TYPE iroh_gateway_iroh_recv_bytes_total counter\niroh_gateway_iroh_recv_bytes_total "@)
        + decimal(spec_recv_total(s) as nat)
        + "\n# HELP iroh_gateway_iroh_send_bytes_total Total iroh magicsock bytes sent.\n# TYPE iroh_gateway_iroh_send_bytes_total counter\niroh_gateway_iroh_send_bytes_total "@
        + decimal(spec_send_total(s) as nat)
        + "\n\n# HELP iroh_gateway_quic_connections_opened_total QUIC peer connections opened by transport path.\n# TYPE iroh_gateway_quic_connections_opened_total counter\niroh_gateway_quic_connections_opened_total{path=\"direct\"} "@
        + decimal(s.ip_paths_added as nat)
        + "\niroh_gateway_quic_connections_opened_total{path=\"relay\"} "@
        + decimal(s.relay_paths_added as nat)
        + "\n# HELP iroh_gateway_quic_connections_closed_total QUIC peer connections closed by transport path.\n# TYPE iroh_gateway_quic_connections_closed_total counter\niroh_gateway_quic_connections_closed_total{path=\"direct\"} "@
        + decimal(s.ip_paths_removed as nat)
        + "\niroh_gateway_quic_connections_closed_total{path=\"relay\"} "@
        + decimal(s.relay_paths_removed as nat)
        + "\n# HELP iroh_gateway_quic_connections_current Current QUIC peer connections by transport path.\n# TYPE iroh_gateway_quic_connections_current gauge\niroh_gateway_quic_connections_current{path=\"direct\"} "@
        + decimal(s.ip_paths_added.saturating_sub(s.ip_paths_removed) as nat)
        + "\niroh_gateway_quic_connections_current{path=\"relay\"} "@
        + decimal(s.relay_paths_added.saturating_sub(s.relay_paths_removed) as nat)
        + "\n\n# HELP iroh_gateway_tunnel_connectivity_events_total Tunnel connectivity events from iroh magicsock state.\n# TYPE iroh_gateway_tunnel_connectivity_events_total counter\niroh_gateway_tunnel_connectivity_events_total{event=\"relay_send_error\"} "@
        + decimal(0u64 as nat)
        + "\niroh_gateway_tunnel_connectivity_events_total{event=\"relay_home_change\"} "@
        + decimal(s.relay_home_change as nat)
        + "\niroh_gateway_tunnel_connectivity_events_total{event=\"connection_handshake_success\"} "@
        + decimal(s.conns_opened as nat)
        + "\niroh_gateway_tunnel_connectivity_events_total{event=\"endpoints_contacted\"} "@
        + decimal(0u64 as nat)
        + "\niroh_gateway_tunnel_connectivity_events_total{event=\"endpoints_contacted_directly\"} "@
        + decimal(s.conns_direct as nat)
        + "\niroh_gateway_tunnel_connectivity_events_total{event=\"path_ping_failures\"} "@
        + decimal(0u64 as nat)
        + "\niroh_gateway_tunnel_connectivity_events_total{event=\"path_marked_outdated\"} "@
        + decimal(0u64 as nat)
        + "\niroh_gateway_tunnel_connectivity_events_total{event=\"path_failure_resets\"} "@
        + decimal(0u64 as nat)
        + "\n\n"@
}

/// The whole metrics exposition: the gateway's counters, the endpoint's socket
/// counters, then the proxy's own metrics text as given.
pub open spec fn spec_render(m: GatewayMetrics, s: SocketStats, downstream: Seq<char>) -> Seq<char> {
    socket_lines(gateway_lines(Seq::empty(), m), s) + downstream
}

/// The series of counter `c` in the metrics exposition: the metric name and its
/// labels, then the space before the value.
pub open spec fn series_of(c: Counter) -> Seq<char> {
    match c {
        Counter::RequestsTunnel => "iroh_gateway_requests_total{kind=\"tunnel\"} "@,
        Counter::RequestsOrigin => "iroh_gateway_requests_total{kind=\"origin\"} "@,
        Counter::RequestsTcp => "iroh_gateway_requests_by_source_total{source=\"tcp\"} "@,
        Counter::RequestsUds => "iroh_gateway_requests_by_source_total{source=\"uds\"} "@,
        Counter::RequestsTunnelTcp => "iroh_gateway_requests_by_source_and_kind_total{source=\"tcp\",kind=\"tunnel\"} "@,
        Counter::RequestsTunnelUds => "iroh_gateway_requests_by_source_and_kind_total{source=\"uds\",kind=\"tunnel\"} "@,
        Counter::RequestsOriginTcp => "iroh_gateway_requests_by_source_and_kind_total{source=\"tcp\",kind=\"origin\"} "@,
        Counter::RequestsOriginUds => "iroh_gateway_requests_by_source_and_kind_total{source=\"uds\",kind=\"origin\"} "@,
        Counter::TunnelReuseWithPeerConn => "iroh_gateway_upstream_reuse_attempts_total{kind=\"tunnel\",peer_conn_state=\"with_existing\"} "@,
        Counter::TunnelReuseWithoutPeerConn => "iroh_gateway_upstream_reuse_attempts_total{kind=\"tunnel\",peer_conn_state=\"without_existing\"} "@,
        Counter::OriginReuseWithPeerConn => "iroh_gateway_upstream_reuse_attempts_total{kind=\"origin\",peer_conn_state=\"with_existing\"} "@,
        Counter::OriginReuseWithoutPeerConn => "iroh_gateway_upstream_reuse_attempts_total{kind=\"origin\",peer_conn_state=\"without_existing\"} "@,
        Counter::DeniedMissingHeader => "iroh_gateway_denied_requests_total{reason=\"missing_header\"} "@,
        Counter::DeniedMissingHeaderNodeId => "iroh_gateway_denied_requests_total{reason=\"missing_header_node_id\"} "@,
        Counter::DeniedInvalidEndpoint => "iroh_gateway_denied_requests_total{reason=\"invalid_endpoint_id\"} "@,
        Counter::DeniedInvalidTargetPort => "iroh_gateway_denied_requests_total{reason=\"invalid_target_port\"} "@,
        Counter::Responses4xx => "iroh_gateway_error_responses_total{class=\"4xx\"} "@,
        Counter::Responses5xx => "iroh_gateway_error_responses_total{class=\"5xx\"} "@,
        Counter::Responses500 => "iroh_gateway_error_responses_by_status_total{status=\"500\"} "@,
        Counter::Responses502 => "iroh_gateway_error_responses_by_status_total{status=\"502\"} "@,
        Counter::Responses503 => "iroh_gateway_error_responses_by_status_total{status=\"503\"} "@,
        Counter::Responses504 => "iroh_gateway_error_responses_by_status_total{status=\"504\"} "@,
        Counter::ResponsesOther5xx => "iroh_gateway_error_responses_by_status_total{status=\"other_5xx\"} "@,
        Counter::Failures5xxWithPeerConn => "iroh_gateway_upstream_failures_total{class=\"5xx\",peer_conn_state=\"with_existing\"} "@,
        Counter::Failures5xxWithoutPeerConn => "iroh_gateway_upstream_failures_total{class=\"5xx\",peer_conn_state=\"without_existing\"} "@,
    }
}

/// Whether `w` occurs in `t` as a contiguous run of characters.
pub open spec fn occurs_in(w: Seq<char>, t: Seq<char>) -> bool {
    exists|i: int| 0 <= i && i + w.len() <= t.len() && #[trigger] t.subrange(i, i + w.len()) == w
}

proof fn lemma_occurs_extend(w: Seq<char>, x: Seq<char>, y: Seq<char>)
    requires
        occurs_in(w, x),
    ensures
        occurs_in(w, x + y),
{
    let i = choose|i: int| 0 <= i && i + w.len() <= x.len() && #[trigger] x.subrange(i, i + w.len()) == w;
    assert((x + y).subrange(i, i + w.len()) =~= x.subrange(i, i + w.len()));
}

proof fn lemma_sample_line(t: Seq<char>, series: Seq<char>, v: nat)
    ensures
        occurs_in("\n"@ + series + decimal(v) + "\n"@, and_sample(t, series, v) + "\n"@),
{
    let w = "\n"@ + series + decimal(v) + "\n"@;
    let whole = and_sample(t, series, v) + "\n"@;
    assert(whole.subrange(t.len() as int, (t.len() + w.len()) as int) =~= w);
}

proof fn lemma_occurs_extend_all()
    ensures
        forall|w: Seq<char>, x: Seq<char>, y: Seq<char>| occurs_in(w, x) ==> #[trigger] occurs_in(w, x + y),
{
    assert forall|w: Seq<char>, x: Seq<char>, y: Seq<char>| occurs_in(w, x) implies #[trigger] occurs_in(w, x + y) by {
        lemma_occurs_extend(w, x, y);
    }
}

proof fn lemma_sample_line_all()
    ensures
        forall|t: Seq<char>, series: Seq<char>, v: nat|
            #[trigger] occurs_in("\n"@ + series + decimal(v) + "\n"@, and_sample(t, series, v) + "\n"@),
{
    assert forall|t: Seq<char>, series: Seq<char>, v: nat|
        #[trigger] occurs_in("\n"@ + series + decimal(v) + "\n"@, and_sample(t, series, v) + "\n"@) by {
        lemma_sample_line(t, series, v);
    }
}

/// The line of counter `c` in the gateway's own lines, with the line break that
/// follows them.
#[verifier::rlimit(100)]
proof fn lemma_counter_line(m: GatewayMetrics, c: Counter)
    ensures
        occurs_in("\n"@ + series_of(c) + decimal(m.count(c) as nat) + "\n"@, gateway_lines(Seq::empty(), m) + "\n"@),
{
    lemma_occurs_extend_all();
    lemma_sample_line_all();
    match c {
        Counter::RequestsTunnel => {},
        Counter::RequestsOrigin => {},
        Counter::RequestsTcp => {},
        Counter::RequestsUds => {},
        Counter::RequestsTunnelTcp => {},
        Counter::RequestsTunnelUds => {},
        Counter::RequestsOriginTcp => {},
        Counter::RequestsOriginUds => {},
        Counter::TunnelReuseWithPeerConn => {},
        Counter::TunnelReuseWithoutPeerConn => {},
        Counter::OriginReuseWithPeerConn => {},
        Counter::OriginReuseWithoutPeerConn => {},
        Counter::DeniedMissingHeader => {},
        Counter::DeniedMissingHeaderNodeId => {},
        Counter::DeniedInvalidEndpoint => {},
        Counter::DeniedInvalidTargetPort => {},
        Counter::Responses4xx => {},
        Counter::Responses5xx => {},
        Counter::Responses500 => {},
        Counter::Responses502 => {},
        Counter::Responses503 => {},
        Counter::Responses504 => {},
        Counter::ResponsesOther5xx => {},
        Counter::Failures5xxWithPeerConn => {},
        Counter::Failures5xxWithoutPeerConn => {},
    }
}

/// Each counter's line of the metrics exposition shows that counter: the text
/// holds a line that is the counter's series (metric name and labels) followed
/// by the counter's own value, whatever the socket counters and the proxy's
/// metrics text.
pub proof fn lemma_exposition_shows_each_counter(m: GatewayMetrics, s: SocketStats, downstream: Seq<char>)
    ensures
        forall|c: Counter|
            #[trigger] occurs_in(
                "\n"@ + series_of(c) + decimal(m.count(c) as nat) + "\n"@,
                spec_render(m, s, downstream),
            ),
{
    lemma_occurs_extend_all();
    assert forall|c: Counter|
        #[trigger] occurs_in("\n"@ + series_of(c) + decimal(m.count(c) as nat) + "\n"@, spec_render(m, s, downstream)) by {
        lemma_counter_line(m, c);
    }
}

impl GatewayMetrics {
    fn push_gateway_lines(&self, out: &mut String)
        ensures
            final(out)@ == gateway_lines(old(out)@, *self),
    {
        out.append("# HELP iroh_gateway_requests_total Gateway request count by proxy request kind.\n# TYPE iroh_gateway_requests_total counter");
        out.append("\n");
        out.append("iroh_gateway_requests_total{kind=\"tunnel\"} ");
        push_decimal(out, self.requests_tunnel_total);
        out.append("\n");
        out.append("iroh_gateway_requests_total{kind=\"origin\"} ");
        push_decimal(out, self.requests_origin_total);
        out.append("\n");
        out.append("# HELP iroh_gateway_requests_by_source_total Gateway request count by ingress source.\n# TYPE iroh_gateway_requests_by_source_total counter");
        out.append("\n");
        out.append("iroh_gateway_requests_by_source_total{source=\"tcp\"} ");
        push_decimal(out, self.requests_tcp_total);
        out.append("\n");
        out.append("iroh_gateway_requests_by_source_total{source=\"uds\"} ");
        push_decimal(out, self.requests_uds_total);
        out.append("\n");
        out.append("# HELP iroh_gateway_requests_by_source_and_kind_total Gateway request count by ingress source and request kind.\n# TYPE iroh_gateway_requests_by_source_and_kind_total counter");
        out.append("\n");
        out.append("iroh_gateway_requests_by_source_and_kind_total{source=\"tcp\",kind=\"tunnel\"} ");
        push_decimal(out, self.requests_tunnel_tcp_total);
        out.append("\n");
        out.append("iroh_gateway_requests_by_source_and_kind_total{source=\"uds\",kind=\"tunnel\"} ");
        push_decimal(out, self.requests_tunnel_uds_total);
        out.append("\n");
        out.append("iroh_gateway_requests_by_source_and_kind_total{source=\"tcp\",kind=\"origin\"} ");
        push_decimal(out, self.requests_origin_tcp_total);
        out.append("\n");
        out.append("iroh_gateway_requests_by_source_and_kind_total{source=\"uds\",kind=\"origin\"} ");
        push_decimal(out, self.requests_origin_uds_total);
        out.append("\n");
        out.append("# HELP iroh_gateway_upstream_reuse_attempts_total Gateway upstream attempt count by request kind and whether a peer connection already existed.\n# TYPE iroh_gateway_upstream_reuse_attempts_total counter");
        out.append("\n");
        out.append("iroh_gateway_upstream_reuse_attempts_total{kind=\"tunnel\",peer_conn_state=\"with_existing\"} ");
        push_decimal(out, self.tunnel_reuse_attempts_with_existing_peer_conn_total);
        out.append("\n");
        out.append("iroh_gateway_upstream_reuse_attempts_total{kind=\"tunnel\",peer_conn_state=\"without_existing\"} ");
        push_decimal(out, self.tunnel_reuse_attempts_without_existing_peer_conn_total);
        out.append("\n");
        out.append("iroh_gateway_upstream_reuse_attempts_total{kind=\"origin\",peer_conn_state=\"with_existing\"} ");
        push_decimal(out, self.origin_reuse_attempts_with_existing_peer_conn_total);
        out.append("\n");
        out.append("iroh_gateway_upstream_reuse_attempts_total{kind=\"origin\",peer_conn_state=\"without_existing\"} ");
        push_decimal(out, self.origin_reuse_attempts_without_existing_peer_conn_total);
        out.append("\n");
        out.append("# HELP iroh_gateway_denied_requests_total Gateway denied request count by reason.\n# TYPE iroh_gateway_denied_requests_total counter");
        out.append("\n");
        out.append("iroh_gateway_denied_requests_total{reason=\"missing_header\"} ");
        push_decimal(out, self.denied_missing_header_total);
        out.append("\n");
        out.append("iroh_gateway_denied_requests_total{reason=\"missing_header_node_id\"} ");
        push_decimal(out, self.denied_missing_header_node_id_total);
        out.append("\n");
        out.append("iroh_gateway_denied_requests_total{reason=\"invalid_endpoint_id\"} ");
        push_decimal(out, self.denied_invalid_endpoint_total);
        out.append("\n");
        out.append("iroh_gateway_denied_requests_total{reason=\"invalid_target_port\"} ");
        push_decimal(out, self.denied_invalid_target_port_total);
        out.append("\n");
        out.append("# HELP iroh_gateway_error_responses_total Gateway error response count grouped by status class.\n# TYPE iroh_gateway_error_responses_total counter");
        out.append("\n");
        out.append("iroh_gateway_error_responses_total{class=\"4xx\"} ");
        push_decimal(out, self.responses_4xx_total);
        out.append("\n");
        out.append("iroh_gateway_error_responses_total{class=\"5xx\"} ");
        push_decimal(out, self.responses_5xx_total);
        out.append("\n");
        out.append("# HELP iroh_gateway_error_responses_by_status_total Gateway 5xx response count grouped by exact status code.\n# TYPE iroh_gateway_error_responses_by_status_total counter");
        out.append("\n");
        out.append("iroh_gateway_error_responses_by_status_total{status=\"500\"} ");
        push_decimal(out, self.responses_500_total);
        out.append("\n");
        out.append("iroh_gateway_error_responses_by_status_total{status=\"502\"} ");
        push_decimal(out, self.responses_502_total);
        out.append("\n");
        out.append("iroh_gateway_error_responses_by_status_total{status=\"503\"} ");
        push_decimal(out, self.responses_503_total);
        out.append("\n");
        out.append("iroh_gateway_error_responses_by_status_total{status=\"504\"} ");
        push_decimal(out, self.responses_504_total);
        out.append("\n");
        out.append("iroh_gateway_error_responses_by_status_total{status=\"other_5xx\"} ");
        push_decimal(out, self.responses_other_5xx_total);
        out.append("\n");
        out.append("# HELP iroh_gateway_upstream_failures_total Gateway upstream 5xx failures grouped by whether a peer connection existed when the error was generated.\n# TYPE iroh_gateway_upstream_failures_total counter");
        out.append("\n");
        out.append("iroh_gateway_upstream_failures_total{class=\"5xx\",peer_conn_state=\"with_existing\"} ");
        push_decimal(out, self.failures_5xx_with_existing_peer_conn_total);
        out.append("\n");
        out.append("iroh_gateway_upstream_failures_total{class=\"5xx\",peer_conn_state=\"without_existing\"} ");
        push_decimal(out, self.failures_5xx_without_existing_peer_conn_total);
    }

    /// The metrics exposition for these counters, the endpoint's socket
    /// counters `stats`, and the proxy's metrics text `downstream`.
    pub fn render_text(&self, stats: &SocketStats, downstream: &str) -> (r: String)
        ensures
            r@ == spec_render(*self, *stats, downstream@),
    {
        let mut out = String::new();
        self.push_gateway_lines(&mut out);
        push_socket_lines(&mut out, stats);
        out.append(downstream);
        out
    }

    /// The metrics exposition, reading the endpoint's socket counters and the
    /// proxy's metrics as they are now (see [`GatewayMetrics::render_text`]):
    /// the gateway's own counters are rendered exactly; the rest is whatever the
    /// live counters read.
    pub fn render(&self, endpoint: &iroh::Endpoint, downstream: &Arc<DownstreamMetrics>) -> (r: String)
        ensures
            exists|stats: SocketStats, text: Seq<char>| r@ == #[trigger] spec_render(*self, stats, text),
    {
        let stats = read_socket_stats(endpoint);
        let text = encode_downstream_metrics(downstream);
        self.render_text(&stats, text.as_str())
    }
}

fn push_socket_lines(out: &mut String, stats: &SocketStats)
    ensures
        final(out)@ == socket_lines(old(out)@, *stats),
{
    let recv_total = stats.recv_ipv4.wrapping_add(stats.recv_ipv6).wrapping_add(stats.recv_relay);
    let send_total = stats.send_ipv4.wrapping_add(stats.send_ipv6).wrapping_add(stats.send_relay);
    let direct_current = stats.ip_paths_added.saturating_sub(stats.ip_paths_removed);
    let relay_current = stats.relay_paths_added.saturating_sub(stats.relay_paths_removed);
    out.append("\n");
    out.append("# HELP iroh_gateway_iroh_recv_bytes_total Total iroh magicsock bytes received.\n# TYPE iroh_gateway_iroh_recv_bytes_total counter\niroh_gateway_iroh_recv_bytes_total ");
    push_decimal(out, recv_total);
    out.append("\n# HELP iroh_gateway_iroh_send_bytes_total Total iroh magicsock bytes sent.\n# TYPE iroh_gateway_iroh_send_bytes_total counter\niroh_gateway_iroh_send_bytes_total ");
    push_decimal(out, send_total);
    out.append("\n\n# HELP iroh_gateway_quic_connections_opened_total QUIC peer connections opened by transport path.\n# TYPE iroh_gateway_quic_connections_opened_total counter\niroh_gateway_quic_connections_opened_total{path=\"direct\"} ");
    push_decimal(out, stats.ip_paths_added);
    out.append("\niroh_gateway_quic_connections_opened_total{path=\"relay\"} ");
    push_decimal(out, stats.relay_paths_added);
    out.append("\n# HELP iroh_gateway_quic_connections_closed_total QUIC peer connections closed by transport path.\n# TYPE iroh_gateway_quic_connections_closed_total counter\niroh_gateway_quic_connections_closed_total{path=\"direct\"} ");
    push_decimal(out, stats.ip_paths_removed);
    out.append("\niroh_gateway_quic_connections_closed_total{path=\"relay\"} ");
    push_decimal(out, stats.relay_paths_removed);
    out.append("\n# HELP iroh_gateway_quic_connections_current Current QUIC peer connections by transport path.\n# TYPE iroh_gateway_quic_connections_current gauge\niroh_gateway_quic_connections_current{path=\"direct\"} ");
    push_decimal(out, direct_current);
    out.append("\niroh_gateway_quic_connections_current{path=\"relay\"} ");
    push_decimal(out, relay_current);
    out.append("\n\n# HELP iroh_gateway_tunnel_connectivity_events_total Tunnel connectivity events from iroh magicsock state.\n# TYPE iroh_gateway_tunnel_connectivity_events_total counter\niroh_gateway_tunnel_connectivity_events_total{event=\"relay_send_error\"} ");
    push_decimal(out, 0);
    out.append("\niroh_gateway_tunnel_connectivity_events_total{event=\"relay_home_change\"} ");
    push_decimal(out, stats.relay_home_change);
    out.append("\niroh_gateway_tunnel_connectivity_events_total{event=\"connection_handshake_success\"} ");
    push_decimal(out, stats.conns_opened);
    out.append("\niroh_gateway_tunnel_connectivity_events_total{event=\"endpoints_contacted\"} ");
    push_decimal(out, 0);
    out.append("\niroh_gateway_tunnel_connectivity_events_total{event=\"endpoints_contacted_directly\"} ");
    push_decimal(out, stats.conns_direct);
    out.append("\niroh_gateway_tunnel_connectivity_events_total{event=\"path_ping_failures\"} ");
    push_decimal(out, 0);
    out.append("\niroh_gateway_tunnel_connectivity_events_total{event=\"path_marked_outdated\"} ");
    push_decimal(out, 0);
    out.append("\niroh_gateway_tunnel_connectivity_events_total{event=\"path_failure_resets\"} ");
    push_decimal(out, 0);
    out.append("\n\n");
}

/// The proxy's downstream metrics group.
#[verifier::external_type_specification]
#[verifier::external_body]
pub struct ExDownstreamMetrics(DownstreamMetrics);

/// Encodes the proxy's downstream metrics in the OpenMetrics text format, through
/// an `iroh_metrics::Registry` that holds only them
/// (`Registry::encode_openmetrics_to_writer`).
///
/// Trusted, with nothing stated of the text: it reflects live counters. An
/// encoding error leaves whatever text was written before it.
#[verifier::external_body]
fn encode_downstream_metrics(downstream: &Arc<DownstreamMetrics>) -> String {
    let mut text = String::new();
    let mut registry = iroh_metrics::Registry::default();
    registry.register(downstream.clone());
    let _ = registry.encode_openmetrics_to_writer(&mut text);
    text
}

} // verus!
