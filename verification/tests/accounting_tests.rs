use iroh_gateway::error_page::error_page_for;
use iroh_gateway::metrics::{Counter, GatewayMetrics};
use iroh_gateway::resolver::{route_request, DatumHeaders, RequestKind, RequestSource};

fn id_text() -> String {
    iroh::SecretKey::from_bytes(&[3u8; 32]).public().to_string()
}

fn headers(id: Option<String>, host: Option<&str>, port: Option<&str>) -> DatumHeaders {
    DatumHeaders {
        endpoint_id: id,
        target_host: host.map(str::to_string),
        target_port: port.map(str::to_string),
    }
}

fn well_accounted(m: &GatewayMetrics) -> bool {
    let v = |c| m.value(c);
    v(Counter::RequestsTunnel) == v(Counter::RequestsTunnelTcp) + v(Counter::RequestsTunnelUds)
        && v(Counter::RequestsOrigin) == v(Counter::RequestsOriginTcp) + v(Counter::RequestsOriginUds)
        && v(Counter::RequestsTunnel) == v(Counter::TunnelReuseWithPeerConn) + v(Counter::TunnelReuseWithoutPeerConn)
        && v(Counter::RequestsOrigin) == v(Counter::OriginReuseWithPeerConn) + v(Counter::OriginReuseWithoutPeerConn)
        && v(Counter::Responses5xx)
            == v(Counter::Responses500)
                + v(Counter::Responses502)
                + v(Counter::Responses503)
                + v(Counter::Responses504)
                + v(Counter::ResponsesOther5xx)
        && v(Counter::Responses5xx) == v(Counter::Failures5xxWithPeerConn) + v(Counter::Failures5xxWithoutPeerConn)
        && v(Counter::DeniedMissingHeaderNodeId) <= v(Counter::DeniedMissingHeader)
}

#[test]
fn counters_stay_in_step() {
    let mut m = GatewayMetrics::new();
    assert!(well_accounted(&m));
    let kinds = [None, Some(RequestKind::Tunnel), Some(RequestKind::Origin), Some(RequestKind::Http1Absolute)];
    let header_sets = [
        headers(None, None, None),
        headers(Some(id_text()), None, None),
        headers(Some("bogus".to_string()), Some("h"), Some("1")),
        headers(Some(id_text()), Some("h"), Some("x")),
        headers(Some(id_text()), Some("h"), Some("443")),
    ];
    let mut n = 0;
    for source in [RequestSource::Tcp, RequestSource::Unix] {
        for kind in kinds {
            for h in &header_sets {
                n += 1;
                let _ = route_request(&mut m, source, kind, h, n % 3 == 0);
                assert!(well_accounted(&m));
            }
        }
    }
    for (i, code) in [400u16, 404, 500, 501, 502, 503, 504, 599, 200].into_iter().enumerate() {
        let _ = error_page_for(&mut m, code, i % 2 == 0);
        assert!(well_accounted(&m));
    }
    assert_eq!(m.value(Counter::RequestsTcp) + m.value(Counter::RequestsUds), n);
    assert!(m.value(Counter::RequestsTunnel) + m.value(Counter::RequestsOrigin) < n);
}

#[test]
fn origin_route_implies_tunnel_route() {
    let h = headers(Some(id_text()), Some("10.1.2.3"), Some("80"));
    let mut m = GatewayMetrics::new();
    let origin = route_request(&mut m, RequestSource::Tcp, Some(RequestKind::Origin), &h, false).unwrap();
    let tunnel = route_request(&mut m, RequestSource::Tcp, Some(RequestKind::Tunnel), &h, false).unwrap();
    assert_eq!(origin.endpoint_id, tunnel.endpoint_id);
    assert!(tunnel.authority.is_none());
}
