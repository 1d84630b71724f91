//! How the gateway's counters stay in step with one another.

use vstd::prelude::*;

use crate::error_page::response_counters;
use crate::metrics::{advanced, bumped, Counter, GatewayMetrics};
use crate::resolver::{
    denial_counters, kind_counters, request_counters, source_counters, spec_route, DatumHeader, DatumHeaders, Denial,
    RequestKind, RequestSource,
};

verus! {

/// The sum of two counters, wrapping as the counters do.
pub open spec fn sum(a: u64, b: u64) -> u64 {
    a.wrapping_add(b)
}

/// The relations between counters that request handling and error responses
/// keep (modulo 2^64, as the counters wrap):
/// - tunnel requests = tunnel requests over TCP + over UDS, and the same for origin requests;
/// - tunnel requests = tunnel attempts with + without an existing peer connection,
///   and the same for origin requests;
/// - 5xx responses = 500 + 502 + 503 + 504 + other 5xx responses;
/// - 5xx responses = 5xx failures with + without an existing peer connection.
pub open spec fn well_accounted(m: GatewayMetrics) -> bool {
    &&& m.count(Counter::RequestsTunnel) == sum(m.count(Counter::RequestsTunnelTcp), m.count(Counter::RequestsTunnelUds))
    &&& m.count(Counter::RequestsOrigin) == sum(m.count(Counter::RequestsOriginTcp), m.count(Counter::RequestsOriginUds))
    &&& m.count(Counter::RequestsTunnel) == sum(
        m.count(Counter::TunnelReuseWithPeerConn),
        m.count(Counter::TunnelReuseWithoutPeerConn),
    )
    &&& m.count(Counter::RequestsOrigin) == sum(
        m.count(Counter::OriginReuseWithPeerConn),
        m.count(Counter::OriginReuseWithoutPeerConn),
    )
    &&& m.count(Counter::Responses5xx) == sum(
        sum(
            sum(sum(m.count(Counter::Responses500), m.count(Counter::Responses502)), m.count(Counter::Responses503)),
            m.count(Counter::Responses504),
        ),
        m.count(Counter::ResponsesOther5xx),
    )
    &&& m.count(Counter::Responses5xx) == sum(
        m.count(Counter::Failures5xxWithPeerConn),
        m.count(Counter::Failures5xxWithoutPeerConn),
    )
}

/// Fresh counters are well accounted.
pub proof fn lemma_fresh_metrics_accounted(m: GatewayMetrics)
    requires
        forall|c: Counter| #[trigger] m.count(c) == 0,
    ensures
        well_accounted(m),
{
    assert(m.count(Counter::RequestsTunnel) == 0);
    assert(m.count(Counter::RequestsTunnelTcp) == 0);
    assert(m.count(Counter::RequestsTunnelUds) == 0);
    assert(m.count(Counter::RequestsOrigin) == 0);
    assert(m.count(Counter::RequestsOriginTcp) == 0);
    assert(m.count(Counter::RequestsOriginUds) == 0);
    assert(m.count(Counter::TunnelReuseWithPeerConn) == 0);
    assert(m.count(Counter::TunnelReuseWithoutPeerConn) == 0);
    assert(m.count(Counter::OriginReuseWithPeerConn) == 0);
    assert(m.count(Counter::OriginReuseWithoutPeerConn) == 0);
    assert(m.count(Counter::Responses5xx) == 0);
    assert(m.count(Counter::Responses500) == 0);
    assert(m.count(Counter::Responses502) == 0);
    assert(m.count(Counter::Responses503) == 0);
    assert(m.count(Counter::Responses504) == 0);
    assert(m.count(Counter::ResponsesOther5xx) == 0);
    assert(m.count(Counter::Failures5xxWithPeerConn) == 0);
    assert(m.count(Counter::Failures5xxWithoutPeerConn) == 0);
}

/// Counter `total` is raised exactly when one of `a` and `b` is.
pub open spec fn splits(raised: Set<Counter>, total: Counter, a: Counter, b: Counter) -> bool {
    &&& raised.contains(total) == (raised.contains(a) || raised.contains(b))
    &&& !(raised.contains(a) && raised.contains(b))
}

/// Raising the counters in `raised` together keeps the relations of
/// [`well_accounted`]: each total goes up exactly when one of its parts does.
pub open spec fn keeps_accounting(raised: Set<Counter>) -> bool {
    &&& splits(raised, Counter::RequestsTunnel, Counter::RequestsTunnelTcp, Counter::RequestsTunnelUds)
    &&& splits(raised, Counter::RequestsOrigin, Counter::RequestsOriginTcp, Counter::RequestsOriginUds)
    &&& splits(raised, Counter::RequestsTunnel, Counter::TunnelReuseWithPeerConn, Counter::TunnelReuseWithoutPeerConn)
    &&& splits(raised, Counter::RequestsOrigin, Counter::OriginReuseWithPeerConn, Counter::OriginReuseWithoutPeerConn)
    &&& splits(raised, Counter::Responses5xx, Counter::Failures5xxWithPeerConn, Counter::Failures5xxWithoutPeerConn)
    &&& raised.contains(Counter::Responses5xx) == (raised.contains(Counter::Responses500)
        || raised.contains(Counter::Responses502) || raised.contains(Counter::Responses503)
        || raised.contains(Counter::Responses504) || raised.contains(Counter::ResponsesOther5xx))
    &&& (raised.contains(Counter::Responses500) as int) + (raised.contains(Counter::Responses502) as int)
        + (raised.contains(Counter::Responses503) as int) + (raised.contains(Counter::Responses504) as int)
        + (raised.contains(Counter::ResponsesOther5xx) as int) <= 1
}

/// A total and its two parts stay in step over one step that raises the total
/// exactly when it raises one of the parts.
proof fn lemma_split_step(
    before: GatewayMetrics,
    after: GatewayMetrics,
    raised: Set<Counter>,
    total: Counter,
    a: Counter,
    b: Counter,
)
    requires
        before.count(total) == sum(before.count(a), before.count(b)),
        advanced(before, after, raised),
        splits(raised, total, a, b),
        total != a && total != b && a != b,
    ensures
        after.count(total) == sum(after.count(a), after.count(b)),
{
    assert(after.count(total) == if raised.contains(total) { bumped(before.count(total)) } else { before.count(total) });
    assert(after.count(a) == if raised.contains(a) { bumped(before.count(a)) } else { before.count(a) });
    assert(after.count(b) == if raised.contains(b) { bumped(before.count(b)) } else { before.count(b) });
}

/// One step that raises counters in a balanced way keeps them well accounted.
proof fn lemma_step_keeps_accounting(before: GatewayMetrics, after: GatewayMetrics, raised: Set<Counter>)
    requires
        well_accounted(before),
        advanced(before, after, raised),
        keeps_accounting(raised),
    ensures
        well_accounted(after),
{
    lemma_split_step(before, after, raised, Counter::RequestsTunnel, Counter::RequestsTunnelTcp, Counter::RequestsTunnelUds);
    lemma_split_step(before, after, raised, Counter::RequestsOrigin, Counter::RequestsOriginTcp, Counter::RequestsOriginUds);
    lemma_split_step(before, after, raised, Counter::RequestsTunnel, Counter::TunnelReuseWithPeerConn, Counter::TunnelReuseWithoutPeerConn);
    lemma_split_step(before, after, raised, Counter::RequestsOrigin, Counter::OriginReuseWithPeerConn, Counter::OriginReuseWithoutPeerConn);
    lemma_split_step(before, after, raised, Counter::Responses5xx, Counter::Failures5xxWithPeerConn, Counter::Failures5xxWithoutPeerConn);
    lemma_five_way_step(before, after, raised);
}

/// The 5xx total and its five parts by exact status stay in step over one step
/// that raises the total exactly when it raises one of the parts.
#[verifier::rlimit(30)]
proof fn lemma_five_way_step(before: GatewayMetrics, after: GatewayMetrics, raised: Set<Counter>)
    requires
        well_accounted(before),
        advanced(before, after, raised),
        keeps_accounting(raised),
    ensures
        after.count(Counter::Responses5xx) == sum(
            sum(
                sum(sum(after.count(Counter::Responses500), after.count(Counter::Responses502)), after.count(Counter::Responses503)),
                after.count(Counter::Responses504),
            ),
            after.count(Counter::ResponsesOther5xx),
        ),
{
    let c500 = Counter::Responses500;
    let c502 = Counter::Responses502;
    let c503 = Counter::Responses503;
    let c504 = Counter::Responses504;
    let other = Counter::ResponsesOther5xx;
    let all = Counter::Responses5xx;
    assert(after.count(all) == if raised.contains(all) { bumped(before.count(all)) } else { before.count(all) });
    assert(after.count(c500) == if raised.contains(c500) { bumped(before.count(c500)) } else { before.count(c500) });
    assert(after.count(c502) == if raised.contains(c502) { bumped(before.count(c502)) } else { before.count(c502) });
    assert(after.count(c503) == if raised.contains(c503) { bumped(before.count(c503)) } else { before.count(c503) });
    assert(after.count(c504) == if raised.contains(c504) { bumped(before.count(c504)) } else { before.count(c504) });
    assert(after.count(other) == if raised.contains(other) { bumped(before.count(other)) } else { before.count(other) });
}

/// The counters that the relations of [`well_accounted`] speak of.
pub open spec fn accounted(c: Counter) -> bool {
    !(c == Counter::RequestsTcp || c == Counter::RequestsUds || c == Counter::DeniedMissingHeader
        || c == Counter::DeniedMissingHeaderNodeId || c == Counter::DeniedInvalidEndpoint
        || c == Counter::DeniedInvalidTargetPort || c == Counter::Responses4xx)
}

/// Two sets that agree on the accounted counters keep accounting alike.
proof fn lemma_keeps_accounting_agree(r: Set<Counter>, k: Set<Counter>)
    requires
        forall|c: Counter| accounted(c) ==> (r.contains(c) == k.contains(c)),
        keeps_accounting(k),
    ensures
        keeps_accounting(r),
{
    assert(accounted(Counter::RequestsTunnel) && accounted(Counter::RequestsTunnelTcp) && accounted(Counter::RequestsTunnelUds));
    assert(accounted(Counter::RequestsOrigin) && accounted(Counter::RequestsOriginTcp) && accounted(Counter::RequestsOriginUds));
    assert(accounted(Counter::TunnelReuseWithPeerConn) && accounted(Counter::TunnelReuseWithoutPeerConn));
    assert(accounted(Counter::OriginReuseWithPeerConn) && accounted(Counter::OriginReuseWithoutPeerConn));
    assert(accounted(Counter::Responses5xx) && accounted(Counter::Failures5xxWithPeerConn) && accounted(Counter::Failures5xxWithoutPeerConn));
    assert(accounted(Counter::Responses500) && accounted(Counter::Responses502) && accounted(Counter::Responses503));
    assert(accounted(Counter::Responses504) && accounted(Counter::ResponsesOther5xx));
}

/// Handling one request raises the counters in a balanced way.
pub proof fn lemma_request_balanced(source: RequestSource, kind: Option<RequestKind>, h: DatumHeaders, p: bool)
    ensures
        keeps_accounting(request_counters(source, kind, h, p)),
{
    let k = kind_counters(source, kind, p);
    let d = match spec_route(kind, h) {
        Err(e) => denial_counters(e),
        Ok(_) => Set::empty(),
    };
    let r = request_counters(source, kind, h, p);
    assert(r == source_counters(source).union(k).union(d));
    assert forall|c: Counter| accounted(c) implies !(#[trigger] d.contains(c)) && !source_counters(source).contains(c) by {
        match spec_route(kind, h) {
            Err(e) => match e {
                Denial::MissingHeader(DatumHeader::EndpointId) => {},
                _ => {},
            },
            Ok(_) => {},
        }
    }
    match kind {
        None => {},
        Some(RequestKind::Tunnel) => {},
        Some(_) => {},
    }
    assert(keeps_accounting(k));
    lemma_keeps_accounting_agree(r, k);
}

/// Answering with one error page raises the counters in a balanced way.
proof fn lemma_response_balanced(code: u16, p: bool)
    ensures
        keeps_accounting(response_counters(code, p)),
{
    if 500 <= code < 600 {
        if code == 500 {
        } else if code == 502 {
        } else if code == 503 {
        } else if code == 504 {
        } else {
        }
    }
}

/// Handling a request (routing it and counting it, see `route_request`) keeps
/// the counters well accounted, whatever the request and its outcome.
pub proof fn lemma_request_keeps_accounting(
    before: GatewayMetrics,
    after: GatewayMetrics,
    source: RequestSource,
    kind: Option<RequestKind>,
    headers: DatumHeaders,
    has_existing_peer_conn: bool,
)
    requires
        well_accounted(before),
        advanced(before, after, request_counters(source, kind, headers, has_existing_peer_conn)),
    ensures
        well_accounted(after),
{
    lemma_request_balanced(source, kind, headers, has_existing_peer_conn);
    lemma_step_keeps_accounting(before, after, request_counters(source, kind, headers, has_existing_peer_conn));
}

/// Answering with an error page (see `error_page_for`) keeps the counters well
/// accounted, whatever the status and the peer-connection state.
pub proof fn lemma_response_keeps_accounting(
    before: GatewayMetrics,
    after: GatewayMetrics,
    code: u16,
    has_existing_peer_conn: bool,
)
    requires
        well_accounted(before),
        advanced(before, after, response_counters(code, has_existing_peer_conn)),
    ensures
        well_accounted(after),
{
    lemma_response_balanced(code, has_existing_peer_conn);
    lemma_step_keeps_accounting(before, after, response_counters(code, has_existing_peer_conn));
}

/// Every request denied for a missing endpoint-id header is also counted as
/// denied for a missing header: handling a request keeps the missing-header
/// count at least the missing-endpoint-id count, as long as it does not wrap.
pub proof fn lemma_request_keeps_denial_order(
    before: GatewayMetrics,
    after: GatewayMetrics,
    source: RequestSource,
    kind: Option<RequestKind>,
    headers: DatumHeaders,
    has_existing_peer_conn: bool,
)
    requires
        before.count(Counter::DeniedMissingHeaderNodeId) <= before.count(Counter::DeniedMissingHeader),
        before.count(Counter::DeniedMissingHeader) < u64::MAX,
        advanced(before, after, request_counters(source, kind, headers, has_existing_peer_conn)),
    ensures
        after.count(Counter::DeniedMissingHeaderNodeId) <= after.count(Counter::DeniedMissingHeader),
{
    let raised = request_counters(source, kind, headers, has_existing_peer_conn);
    assert(after.count(Counter::DeniedMissingHeader) == if raised.contains(Counter::DeniedMissingHeader) { bumped(before.count(Counter::DeniedMissingHeader)) } else { before.count(Counter::DeniedMissingHeader) });
    assert(after.count(Counter::DeniedMissingHeaderNodeId) == if raised.contains(Counter::DeniedMissingHeaderNodeId) { bumped(before.count(Counter::DeniedMissingHeaderNodeId)) } else { before.count(Counter::DeniedMissingHeaderNodeId) });
}

} // verus!
