//! Routing policy for proxied requests: which iroh endpoint a request goes to,
//! and which requests are turned away.

use std::str::FromStr;

use vstd::prelude::*;
use vstd::string::*;

use crate::endpoint::{peer_conn_open, read_socket_stats, SocketStats};
use crate::metrics::{advanced, lemma_advanced_compose, lemma_advanced_none, Counter, GatewayMetrics};
use crate::text::{parse_u16, parse_u16_text};

verus! {

/// Header naming the iroh endpoint a request is routed to.
pub const HEADER_NODE_ID: &'static str = "x-iroh-endpoint-id";

/// Header naming the target host of an origin request.
pub const HEADER_TARGET_HOST: &'static str = "x-datum-target-host";

/// Header naming the target port of an origin request.
pub const HEADER_TARGET_PORT: &'static str = "x-datum-target-port";

/// The routing headers, all of which are stripped before a request is forwarded.
pub const DATUM_HEADERS: [&'static str; 3] = [HEADER_NODE_ID, HEADER_TARGET_HOST, HEADER_TARGET_PORT];

/// Where a proxied request came in.
#[derive(Clone, Copy, Debug, PartialEq, Eq, Structural)]
pub enum RequestSource {
    /// The TCP listener.
    Tcp,
    /// The Unix domain socket listener.
    Unix,
}

/// The shape of a proxied HTTP request.
#[derive(Clone, Copy, Debug, PartialEq, Eq, Structural)]
pub enum RequestKind {
    /// A `CONNECT` request, upgraded to a raw tunnel.
    Tunnel,
    /// An origin-form request (`GET /path`), routed by the target headers.
    Origin,
    /// An HTTP/1 request in absolute form, routed like an origin request.
    Http1Absolute,
}

/// One of the routing headers.
#[derive(Clone, Copy, Debug, PartialEq, Eq, Structural)]
pub enum DatumHeader {
    /// `x-iroh-endpoint-id`
    EndpointId,
    /// `x-datum-target-host`
    TargetHost,
    /// `x-datum-target-port`
    TargetPort,
}

/// The text of the routing headers of a request: `None` where the header is
/// absent or its value is not visible ASCII text.
#[derive(Debug)]
pub struct DatumHeaders {
    pub endpoint_id: Option<String>,
    pub target_host: Option<String>,
    pub target_port: Option<String>,
}

/// Why a request is turned away with `400 Bad Request`.
#[derive(Clone, Copy, Debug, PartialEq, Eq, Structural)]
pub enum Denial {
    /// The request could not be classified as a tunnel or origin request.
    Unclassified,
    /// A routing header is missing or is not text.
    MissingHeader(DatumHeader),
    /// `x-iroh-endpoint-id` does not name a valid endpoint.
    InvalidEndpointId,
    /// `x-datum-target-port` is not a port number.
    InvalidTargetPort,
}

/// Where an accepted request is forwarded.
#[derive(Debug)]
pub struct Route {
    /// The 32 bytes of the target endpoint's public key.
    pub endpoint_id: Vec<u8>,
    /// For origin requests, the `host:port` the request is rewritten to.
    pub authority: Option<(String, u16)>,
}

/// The abstract value of a [`Route`].
pub struct RouteSpec {
    pub endpoint_id: Seq<u8>,
    pub authority: Option<(Seq<char>, u16)>,
}

/// The 32 key bytes of the endpoint id that `text` denotes, if it denotes one
/// (hex or base32 of a valid ed25519 public key).
pub uninterp spec fn endpoint_id_from_text(text: Seq<char>) -> Option<Seq<u8>>;

/// Parses an endpoint id with `iroh::EndpointId::from_str`.
///
/// Trusted: the result is `endpoint_id_from_text` of the text, and the key
/// bytes of a parsed id are 32 long (`PublicKey::as_bytes` returns `&[u8; 32]`).
#[verifier::external_body]
fn parse_endpoint_id(text: &str) -> (r: Option<Vec<u8>>)
    ensures
        r is Some <==> endpoint_id_from_text(text@) is Some,
        r matches Some(bytes) ==> Some(bytes@) == endpoint_id_from_text(text@) && bytes@.len() == 32,
{
    match iroh::EndpointId::from_str(text) {
        Ok(id) => Some(id.as_bytes().to_vec()),
        Err(_) => None,
    }
}

impl DatumHeader {
    /// The header's name.
    pub open spec fn spec_name(self) -> Seq<char> {
        match self {
            DatumHeader::EndpointId => HEADER_NODE_ID@,
            DatumHeader::TargetHost => HEADER_TARGET_HOST@,
            DatumHeader::TargetPort => HEADER_TARGET_PORT@,
        }
    }

    /// The header's name.
    pub fn name(self) -> (r: &'static str)
        ensures
            r@ == self.spec_name(),
    {
        match self {
            DatumHeader::EndpointId => HEADER_NODE_ID,
            DatumHeader::TargetHost => HEADER_TARGET_HOST,
            DatumHeader::TargetPort => HEADER_TARGET_PORT,
        }
    }
}

/// The names of the routing headers, which are removed from every request
/// before it is forwarded: all three of them, whatever the request's kind.
pub open spec fn stripped_header_names() -> Seq<Seq<char>> {
    seq![
        DatumHeader::EndpointId.spec_name(),
        DatumHeader::TargetHost.spec_name(),
        DatumHeader::TargetPort.spec_name(),
    ]
}

/// The names of the headers to remove from a routed request before it is
/// forwarded (see [`stripped_header_names`]).
pub fn headers_to_strip() -> (r: Vec<&'static str>)
    ensures
        r@.len() == 3,
        forall|i: int| 0 <= i < 3 ==> (#[trigger] r@[i])@ == stripped_header_names()[i],
{
    let mut r: Vec<&'static str> = Vec::new();
    r.push(DatumHeader::EndpointId.name());
    r.push(DatumHeader::TargetHost.name());
    r.push(DatumHeader::TargetPort.name());
    r
}

/// Every routing header is among the headers removed before forwarding.
pub proof fn lemma_every_routing_header_stripped(h: DatumHeader)
    ensures
        stripped_header_names().contains(h.spec_name()),
{
    let names = stripped_header_names();
    match h {
        DatumHeader::EndpointId => assert(names[0] == h.spec_name()),
        DatumHeader::TargetHost => assert(names[1] == h.spec_name()),
        DatumHeader::TargetPort => assert(names[2] == h.spec_name()),
    }
}

/// The text of an optional header value.
pub open spec fn opt_text(v: Option<String>) -> Option<Seq<char>> {
    match v {
        Some(s) => Some(s@),
        None => None,
    }
}

impl DatumHeaders {
    /// The text of header `h`, if present.
    pub open spec fn spec_get(self, h: DatumHeader) -> Option<Seq<char>> {
        match h {
            DatumHeader::EndpointId => opt_text(self.endpoint_id),
            DatumHeader::TargetHost => opt_text(self.target_host),
            DatumHeader::TargetPort => opt_text(self.target_port),
        }
    }

    /// The text of header `h`, if present.
    pub fn get(&self, h: DatumHeader) -> (r: Option<&String>)
        ensures
            match r {
                Some(s) => self.spec_get(h) == Some(s@),
                None => self.spec_get(h) is None,
            },
    {
        match h {
            DatumHeader::EndpointId => self.endpoint_id.as_ref(),
            DatumHeader::TargetHost => self.target_host.as_ref(),
            DatumHeader::TargetPort => self.target_port.as_ref(),
        }
    }
}

/// The abstract value of a routing result.
pub open spec fn outcome_view(r: Result<Route, Denial>) -> Result<RouteSpec, Denial> {
    match r {
        Ok(route) => Ok(
            RouteSpec {
                endpoint_id: route.endpoint_id@,
                authority: match route.authority {
                    Some((host, port)) => Some((host@, port)),
                    None => None,
                },
            },
        ),
        Err(d) => Err(d),
    }
}

/// The endpoint id a request names, or why it names none.
pub open spec fn spec_endpoint_id(h: DatumHeaders) -> Result<Seq<u8>, Denial> {
    match h.spec_get(DatumHeader::EndpointId) {
        None => Err(Denial::MissingHeader(DatumHeader::EndpointId)),
        Some(text) => match endpoint_id_from_text(text) {
            None => Err(Denial::InvalidEndpointId),
            Some(id) => Ok(id),
        },
    }
}

/// Where a request of kind `kind` with routing headers `h` goes, or why it is
/// turned away. Tunnel requests need only a valid endpoint id; origin requests
/// also need a target host and a target port that parses as a `u16`, checked
/// in that order.
pub open spec fn spec_route(kind: Option<RequestKind>, h: DatumHeaders) -> Result<RouteSpec, Denial> {
    match kind {
        None => Err(Denial::Unclassified),
        Some(RequestKind::Tunnel) => match spec_endpoint_id(h) {
            Err(d) => Err(d),
            Ok(id) => Ok(RouteSpec { endpoint_id: id, authority: None }),
        },
        Some(_) => match spec_endpoint_id(h) {
            Err(d) => Err(d),
            Ok(id) => match h.spec_get(DatumHeader::TargetHost) {
                None => Err(Denial::MissingHeader(DatumHeader::TargetHost)),
                Some(host) => match h.spec_get(DatumHeader::TargetPort) {
                    None => Err(Denial::MissingHeader(DatumHeader::TargetPort)),
                    Some(port_text) => match parse_u16(port_text) {
                        None => Err(Denial::InvalidTargetPort),
                        Some(port) => Ok(RouteSpec { endpoint_id: id, authority: Some((host, port)) }),
                    },
                },
            },
        },
    }
}

/// The counters that a denial raises.
pub open spec fn denial_counters(d: Denial) -> Set<Counter> {
    match d {
        Denial::Unclassified => Set::empty(),
        Denial::MissingHeader(DatumHeader::EndpointId) => set![
            Counter::DeniedMissingHeader,
            Counter::DeniedMissingHeaderNodeId,
        ],
        Denial::MissingHeader(_) => set![Counter::DeniedMissingHeader],
        Denial::InvalidEndpointId => set![Counter::DeniedInvalidEndpoint],
        Denial::InvalidTargetPort => set![Counter::DeniedInvalidTargetPort],
    }
}

/// The counters that the ingress source of a request raises.
pub open spec fn source_counters(source: RequestSource) -> Set<Counter> {
    match source {
        RequestSource::Tcp => set![Counter::RequestsTcp],
        RequestSource::Unix => set![Counter::RequestsUds],
    }
}

/// The counters that a classified request raises before its headers are read.
pub open spec fn kind_counters(source: RequestSource, kind: Option<RequestKind>, peer_conn: bool) -> Set<Counter> {
    match kind {
        None => Set::empty(),
        Some(RequestKind::Tunnel) => set![
            Counter::RequestsTunnel,
            if peer_conn { Counter::TunnelReuseWithPeerConn } else { Counter::TunnelReuseWithoutPeerConn },
            if source == RequestSource::Tcp { Counter::RequestsTunnelTcp } else { Counter::RequestsTunnelUds },
        ],
        Some(_) => set![
            Counter::RequestsOrigin,
            if peer_conn { Counter::OriginReuseWithPeerConn } else { Counter::OriginReuseWithoutPeerConn },
            if source == RequestSource::Tcp { Counter::RequestsOriginTcp } else { Counter::RequestsOriginUds },
        ],
    }
}

/// All counters that handling one request raises.
pub open spec fn request_counters(
    source: RequestSource,
    kind: Option<RequestKind>,
    h: DatumHeaders,
    peer_conn: bool,
) -> Set<Counter> {
    source_counters(source).union(kind_counters(source, kind, peer_conn)).union(
        match spec_route(kind, h) {
            Err(d) => denial_counters(d),
            Ok(_) => Set::empty(),
        },
    )
}

/// The text of routing header `header`, counting a denial when it is missing.
pub fn header_value<'a>(metrics: &mut GatewayMetrics, headers: &'a DatumHeaders, header: DatumHeader) -> (r: Result<&'a String, Denial>)
    ensures
        match r {
            Ok(s) => headers.spec_get(header) == Some(s@) && advanced(
                *old(metrics),
                *final(metrics),
                Set::empty(),
            ),
            Err(d) => headers.spec_get(header) is None && d == Denial::MissingHeader(header)
                && advanced(*old(metrics), *final(metrics), denial_counters(d)),
        },
{
    match headers.get(header) {
        Some(s) => {
            proof {
                lemma_advanced_none(*metrics);
            }
            Ok(s)
        },
        None => {
            metrics.inc_denied_missing_header_name(header.name());
            proof {
                // The names differ in their third character: `x-iroh...` and `x-datum...`.
                reveal_strlit("x-iroh-endpoint-id");
                reveal_strlit("x-datum-target-host");
                reveal_strlit("x-datum-target-port");
                if header != DatumHeader::EndpointId {
                    assert(header.spec_name()[2] != HEADER_NODE_ID@[2]);
                }
            }
            Err(Denial::MissingHeader(header))
        },
    }
}

/// The endpoint id that the request's `x-iroh-endpoint-id` header names,
/// counting a denial when it is missing or invalid.
pub fn endpoint_id_from_headers(metrics: &mut GatewayMetrics, headers: &DatumHeaders) -> (r: Result<Vec<u8>, Denial>)
    ensures
        match r {
            Ok(id) => spec_endpoint_id(*headers) == Ok::<Seq<u8>, Denial>(id@) && id@.len() == 32,
            Err(d) => spec_endpoint_id(*headers) == Err::<Seq<u8>, Denial>(d),
        },
        advanced(
            *old(metrics),
            *final(metrics),
            match spec_endpoint_id(*headers) {
                Ok(_) => Set::empty(),
                Err(d) => denial_counters(d),
            },
        ),
{
    let text = header_value(metrics, headers, DatumHeader::EndpointId)?;
    match parse_endpoint_id(text.as_str()) {
        Some(id) => Ok(id),
        None => {
            let ghost before = *metrics;
            metrics.inc_denied_invalid_endpoint();
            proof {
                lemma_advanced_compose(*old(metrics), before, *metrics, Set::empty(), set![Counter::DeniedInvalidEndpoint]);
                assert(Set::<Counter>::empty().union(set![Counter::DeniedInvalidEndpoint]) =~= set![Counter::DeniedInvalidEndpoint]);
            }
            Err(Denial::InvalidEndpointId)
        },
    }
}

impl Denial {
    /// The reason given with the `400 Bad Request` answer; `None` for a request
    /// that could not be classified, which is answered with the classifier's own.
    pub open spec fn spec_reason(self) -> Option<Seq<char>> {
        match self {
            Denial::Unclassified => None,
            Denial::MissingHeader(h) => Some("Missing header "@ + h.spec_name()),
            Denial::InvalidEndpointId => Some("invalid x-iroh-endpoint-id value"@),
            Denial::InvalidTargetPort => Some("invalid x-datum-target-port header"@),
        }
    }

    /// The reason given with the `400 Bad Request` answer (see [`Denial::spec_reason`]).
    pub fn reason(&self) -> (r: Option<String>)
        ensures
            match r {
                Some(text) => self.spec_reason() == Some(text@),
                None => self.spec_reason() is None,
            },
    {
        match self {
            Denial::Unclassified => None,
            Denial::MissingHeader(h) => {
                let mut text = "Missing header ".to_owned();
                text.append(h.name());
                Some(text)
            },
            Denial::InvalidEndpointId => Some("invalid x-iroh-endpoint-id value".to_owned()),
            Denial::InvalidTargetPort => Some("invalid x-datum-target-port header".to_owned()),
        }
    }
}

/// An origin request needs all a tunnel request needs: when an origin request
/// is routed, a tunnel request with the same headers goes to the same endpoint.
pub proof fn lemma_origin_routes_imply_tunnel_routes(kind: RequestKind, h: DatumHeaders)
    requires
        kind != RequestKind::Tunnel,
        spec_route(Some(kind), h) is Ok,
    ensures
        spec_route(Some(RequestKind::Tunnel), h) == Ok::<RouteSpec, Denial>(
            RouteSpec { endpoint_id: spec_route(Some(kind), h)->Ok_0.endpoint_id, authority: None },
        ),
{
}

/// Each request is counted once by where it came in; once classified, once by
/// its kind; and it is counted as denied exactly when it is turned away for a
/// reason of its own (not for being unclassifiable).
pub proof fn lemma_request_counted_once(
    source: RequestSource,
    kind: Option<RequestKind>,
    h: DatumHeaders,
    has_existing_peer_conn: bool,
)
    ensures
        ({
            let raised = request_counters(source, kind, h, has_existing_peer_conn);
            &&& raised.contains(Counter::RequestsTcp) == (source == RequestSource::Tcp)
            &&& raised.contains(Counter::RequestsUds) == (source == RequestSource::Unix)
            &&& raised.contains(Counter::RequestsTunnel) == (kind == Some(RequestKind::Tunnel))
            &&& raised.contains(Counter::RequestsOrigin) == (kind is Some && kind != Some(RequestKind::Tunnel))
            &&& (raised.contains(Counter::DeniedMissingHeader) || raised.contains(Counter::DeniedInvalidEndpoint)
                || raised.contains(Counter::DeniedInvalidTargetPort)) == (spec_route(kind, h) is Err && kind is Some)
        }),
{
}

/// Routes a request of kind `kind` (`None` when it could not be classified)
/// that came in over `source`, given whether a peer connection already exists,
/// and counts it: by source, by kind, by peer-connection state, and by the
/// reason it was turned away, if it was.
pub fn route_request(
    metrics: &mut GatewayMetrics,
    source: RequestSource,
    kind: Option<RequestKind>,
    headers: &DatumHeaders,
    has_existing_peer_conn: bool,
) -> (r: Result<Route, Denial>)
    ensures
        outcome_view(r) == spec_route(kind, *headers),
        r matches Ok(route) ==> route.endpoint_id@.len() == 32,
        advanced(*old(metrics), *final(metrics), request_counters(source, kind, *headers, has_existing_peer_conn)),
{
    let ghost start = *metrics;
    let ghost route = spec_route(kind, *headers);
    let ghost all = request_counters(source, kind, *headers, has_existing_peer_conn);
    match source {
        RequestSource::Tcp => metrics.inc_tcp_requests(),
        RequestSource::Unix => metrics.inc_uds_requests(),
    }
    let ghost s1 = source_counters(source);
    let k = match kind {
        None => {
            proof {
                assert(all =~= s1);
            }
            return Err(Denial::Unclassified);
        },
        Some(k) => k,
    };
    let is_tcp = match source {
        RequestSource::Tcp => true,
        RequestSource::Unix => false,
    };
    let ghost s2 = kind_counters(source, kind, has_existing_peer_conn);
    match k {
        RequestKind::Tunnel => {
            let ghost m0 = *metrics;
            metrics.inc_tunnel_requests();
            let ghost m1 = *metrics;
            metrics.inc_tunnel_reuse_attempt(has_existing_peer_conn);
            let ghost m2 = *metrics;
            if is_tcp {
                metrics.inc_tunnel_tcp_requests();
            } else {
                metrics.inc_tunnel_uds_requests();
            }
            let ghost m3 = *metrics;
            proof {
                let a = set![Counter::RequestsTunnel];
                let b = if has_existing_peer_conn { set![Counter::TunnelReuseWithPeerConn] } else { set![Counter::TunnelReuseWithoutPeerConn] };
                let c = if is_tcp { set![Counter::RequestsTunnelTcp] } else { set![Counter::RequestsTunnelUds] };
                lemma_advanced_compose(start, m0, m1, s1, a);
                lemma_advanced_compose(start, m1, m2, s1.union(a), b);
                lemma_advanced_compose(start, m2, m3, s1.union(a).union(b), c);
                assert(s1.union(a).union(b).union(c) =~= s1.union(s2));
            }
            match endpoint_id_from_headers(metrics, headers) {
                Ok(id) => {
                    proof {
                        lemma_advanced_compose(start, m3, *metrics, s1.union(s2), Set::empty());
                        assert(s1.union(s2).union(Set::empty()) =~= all);
                    }
                    Ok(Route { endpoint_id: id, authority: None })
                },
                Err(d) => {
                    proof {
                        lemma_advanced_compose(start, m3, *metrics, s1.union(s2), denial_counters(d));
                        assert(s1.union(s2).union(denial_counters(d)) =~= all);
                    }
                    Err(d)
                },
            }
        },
        _ => {
            let ghost m0 = *metrics;
            metrics.inc_origin_requests();
            let ghost m1 = *metrics;
            metrics.inc_origin_reuse_attempt(has_existing_peer_conn);
            let ghost m2 = *metrics;
            if is_tcp {
                metrics.inc_origin_tcp_requests();
            } else {
                metrics.inc_origin_uds_requests();
            }
            let ghost m3 = *metrics;
            proof {
                let a = set![Counter::RequestsOrigin];
                let b = if has_existing_peer_conn { set![Counter::OriginReuseWithPeerConn] } else { set![Counter::OriginReuseWithoutPeerConn] };
                let c = if is_tcp { set![Counter::RequestsOriginTcp] } else { set![Counter::RequestsOriginUds] };
                lemma_advanced_compose(start, m0, m1, s1, a);
                lemma_advanced_compose(start, m1, m2, s1.union(a), b);
                lemma_advanced_compose(start, m2, m3, s1.union(a).union(b), c);
                assert(s1.union(a).union(b).union(c) =~= s1.union(s2));
            }
            let id = match endpoint_id_from_headers(metrics, headers) {
                Ok(id) => id,
                Err(d) => {
                    proof {
                        lemma_advanced_compose(start, m3, *metrics, s1.union(s2), denial_counters(d));
                        assert(s1.union(s2).union(denial_counters(d)) =~= all);
                    }
                    return Err(d);
                },
            };
            let ghost m4 = *metrics;
            proof {
                lemma_advanced_compose(start, m3, m4, s1.union(s2), Set::empty());
                assert(s1.union(s2).union(Set::empty()) =~= s1.union(s2));
            }
            let host = match header_value(metrics, headers, DatumHeader::TargetHost) {
                Ok(host) => host,
                Err(d) => {
                    proof {
                        lemma_advanced_compose(start, m4, *metrics, s1.union(s2), denial_counters(d));
                        assert(s1.union(s2).union(denial_counters(d)) =~= all);
                    }
                    return Err(d);
                },
            };
            let ghost m5 = *metrics;
            proof {
                lemma_advanced_compose(start, m4, m5, s1.union(s2), Set::empty());
                assert(s1.union(s2).union(Set::empty()) =~= s1.union(s2));
            }
            let port_text = match header_value(metrics, headers, DatumHeader::TargetPort) {
                Ok(text) => text,
                Err(d) => {
                    proof {
                        lemma_advanced_compose(start, m5, *metrics, s1.union(s2), denial_counters(d));
                        assert(s1.union(s2).union(denial_counters(d)) =~= all);
                    }
                    return Err(d);
                },
            };
            let ghost m6 = *metrics;
            proof {
                lemma_advanced_compose(start, m5, m6, s1.union(s2), Set::empty());
                assert(s1.union(s2).union(Set::empty()) =~= s1.union(s2));
            }
            match parse_u16_text(port_text.as_str()) {
                Some(port) => {
                    proof {
                        assert(s1.union(s2).union(Set::empty()) =~= all);
                    }
                    Ok(Route { endpoint_id: id, authority: Some((host.clone(), port)) })
                },
                None => {
                    metrics.inc_denied_invalid_target_port();
                    proof {
                        lemma_advanced_compose(start, m6, *metrics, s1.union(s2), set![Counter::DeniedInvalidTargetPort]);
                        assert(s1.union(s2).union(set![Counter::DeniedInvalidTargetPort]) =~= all);
                    }
                    Err(Denial::InvalidTargetPort)
                },
            }
        },
    }
}

/// Routes and counts a request (see [`route_request`]) given the endpoint's
/// connection counts `stats` as read: a classified request is counted as an
/// upstream attempt with an existing peer connection exactly when more peer
/// connections were opened than closed.
pub fn handle_request_with_stats(
    metrics: &mut GatewayMetrics,
    stats: &SocketStats,
    source: RequestSource,
    kind: Option<RequestKind>,
    headers: &DatumHeaders,
) -> (r: Result<Route, Denial>)
    ensures
        outcome_view(r) == spec_route(kind, *headers),
        r matches Ok(route) ==> route.endpoint_id@.len() == 32,
        advanced(
            *old(metrics),
            *final(metrics),
            request_counters(source, kind, *headers, stats.conns_opened > stats.conns_closed),
        ),
{
    let peer_conn = peer_conn_open(stats.conns_opened, stats.conns_closed);
    route_request(metrics, source, kind, headers, peer_conn)
}

/// Routes and counts a request (see [`handle_request_with_stats`]), reading the
/// endpoint's connection counts.
///
/// The counts are live, so which of the two peer-connection counters is raised
/// is stated of the counts read, in [`handle_request_with_stats`]; the routing
/// decision does not depend on them.
pub fn handle_request(
    metrics: &mut GatewayMetrics,
    endpoint: &iroh::Endpoint,
    source: RequestSource,
    kind: Option<RequestKind>,
    headers: &DatumHeaders,
) -> (r: Result<Route, Denial>)
    ensures
        outcome_view(r) == spec_route(kind, *headers),
        r matches Ok(route) ==> route.endpoint_id@.len() == 32,
        advanced(*old(metrics), *final(metrics), request_counters(source, kind, *headers, true))
            || advanced(*old(metrics), *final(metrics), request_counters(source, kind, *headers, false)),
{
    let stats = read_socket_stats(endpoint);
    handle_request_with_stats(metrics, &stats, source, kind, headers)
}

/// A classified request raises the upstream-attempt counter of its own kind
/// with an existing peer connection exactly when the connection counts show
/// more opened than closed, and the one without otherwise; an unclassified
/// request raises neither.
pub proof fn lemma_attempt_follows_connection_counts(
    source: RequestSource,
    kind: Option<RequestKind>,
    h: DatumHeaders,
    opened: u64,
    closed: u64,
)
    ensures
        ({
            let raised = request_counters(source, kind, h, opened > closed);
            &&& raised.contains(Counter::TunnelReuseWithPeerConn) == (kind == Some(RequestKind::Tunnel) && opened > closed)
            &&& raised.contains(Counter::TunnelReuseWithoutPeerConn) == (kind == Some(RequestKind::Tunnel) && opened <= closed)
            &&& raised.contains(Counter::OriginReuseWithPeerConn) == (kind is Some && kind != Some(RequestKind::Tunnel)
                && opened > closed)
            &&& raised.contains(Counter::OriginReuseWithoutPeerConn) == (kind is Some && kind != Some(RequestKind::Tunnel)
                && opened <= closed)
        }),
{
    match spec_route(kind, h) {
        Err(d) => match d {
            Denial::MissingHeader(DatumHeader::EndpointId) => {},
            _ => {},
        },
        Ok(_) => {},
    }
}

} // verus!
