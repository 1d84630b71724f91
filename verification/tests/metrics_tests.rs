
use iroh_gateway::endpoint::SocketStats;
use iroh_gateway::metrics::{is_client_error, is_server_error, Counter, GatewayMetrics};

const ALL: [Counter; 25] = [
    Counter::RequestsTunnel,
    Counter::RequestsOrigin,
    Counter::RequestsTcp,
    Counter::RequestsUds,
    Counter::RequestsTunnelTcp,
    Counter::RequestsTunnelUds,
    Counter::RequestsOriginTcp,
    Counter::RequestsOriginUds,
    Counter::TunnelReuseWithPeerConn,
    Counter::TunnelReuseWithoutPeerConn,
    Counter::OriginReuseWithPeerConn,
    Counter::OriginReuseWithoutPeerConn,
    Counter::DeniedMissingHeader,
    Counter::DeniedMissingHeaderNodeId,
    Counter::DeniedInvalidEndpoint,
    Counter::DeniedInvalidTargetPort,
    Counter::Responses4xx,
    Counter::Responses5xx,
    Counter::Responses500,
    Counter::Responses502,
    Counter::Responses503,
    Counter::Responses504,
    Counter::ResponsesOther5xx,
    Counter::Failures5xxWithPeerConn,
    Counter::Failures5xxWithoutPeerConn,
];

fn raised(m: &GatewayMetrics) -> Vec<Counter> {
    ALL.iter().copied().filter(|c| m.value(*c) != 0).collect()
}

#[test]
fn fresh_metrics_are_zero() {
    let m = GatewayMetrics::new();
    assert!(raised(&m).is_empty());
}

#[test]
fn simple_increments_raise_one_counter() {
    let cases: Vec<(fn(&mut GatewayMetrics), Counter)> = vec![
        (GatewayMetrics::inc_tunnel_requests, Counter::RequestsTunnel),
        (GatewayMetrics::inc_origin_requests, Counter::RequestsOrigin),
        (GatewayMetrics::inc_tunnel_tcp_requests, Counter::RequestsTunnelTcp),
        (GatewayMetrics::inc_tunnel_uds_requests, Counter::RequestsTunnelUds),
        (GatewayMetrics::inc_origin_tcp_requests, Counter::RequestsOriginTcp),
        (GatewayMetrics::inc_origin_uds_requests, Counter::RequestsOriginUds),
        (GatewayMetrics::inc_tcp_requests, Counter::RequestsTcp),
        (GatewayMetrics::inc_uds_requests, Counter::RequestsUds),
        (GatewayMetrics::inc_denied_missing_header, Counter::DeniedMissingHeader),
        (GatewayMetrics::inc_denied_invalid_endpoint, Counter::DeniedInvalidEndpoint),
        (GatewayMetrics::inc_denied_invalid_target_port, Counter::DeniedInvalidTargetPort),
    ];
    for (inc, counter) in cases {
        let mut m = GatewayMetrics::new();
        inc(&mut m);
        inc(&mut m);
        assert_eq!(raised(&m), vec![counter]);
        assert_eq!(m.value(counter), 2);
    }
}

#[test]
fn reuse_attempts_split_by_peer_conn() {
    let mut m = GatewayMetrics::new();
    m.inc_tunnel_reuse_attempt(true);
    m.inc_tunnel_reuse_attempt(false);
    m.inc_tunnel_reuse_attempt(false);
    m.inc_origin_reuse_attempt(true);
    m.inc_5xx_failure_by_peer_conn_state(false);
    assert_eq!(m.value(Counter::TunnelReuseWithPeerConn), 1);
    assert_eq!(m.value(Counter::TunnelReuseWithoutPeerConn), 2);
    assert_eq!(m.value(Counter::OriginReuseWithPeerConn), 1);
    assert_eq!(m.value(Counter::OriginReuseWithoutPeerConn), 0);
    assert_eq!(m.value(Counter::Failures5xxWithoutPeerConn), 1);
    assert_eq!(m.value(Counter::Failures5xxWithPeerConn), 0);
}

#[test]
fn missing_endpoint_header_counts_twice() {
    let mut m = GatewayMetrics::new();
    m.inc_denied_missing_header_name("x-iroh-endpoint-id");
    assert_eq!(raised(&m), vec![Counter::DeniedMissingHeader, Counter::DeniedMissingHeaderNodeId]);
    let mut m = GatewayMetrics::new();
    m.inc_denied_missing_header_name("x-datum-target-host");
    assert_eq!(raised(&m), vec![Counter::DeniedMissingHeader]);
}

#[test]
fn status_codes_are_grouped() {
    let expect = |code: u16, counters: Vec<Counter>| {
        let mut m = GatewayMetrics::new();
        m.inc_status_code(code);
        assert_eq!(raised(&m), counters, "status {code}");
    };
    expect(200, vec![]);
    expect(302, vec![]);
    expect(400, vec![Counter::Responses4xx]);
    expect(499, vec![Counter::Responses4xx]);
    expect(500, vec![Counter::Responses5xx, Counter::Responses500]);
    expect(501, vec![Counter::Responses5xx, Counter::ResponsesOther5xx]);
    expect(502, vec![Counter::Responses5xx, Counter::Responses502]);
    expect(503, vec![Counter::Responses5xx, Counter::Responses503]);
    expect(504, vec![Counter::Responses5xx, Counter::Responses504]);
    expect(599, vec![Counter::Responses5xx, Counter::ResponsesOther5xx]);
    expect(600, vec![]);
    assert!(is_client_error(404) && !is_client_error(500));
    assert!(is_server_error(500) && !is_server_error(600));
}

fn stats() -> SocketStats {
    SocketStats {
        recv_ipv4: 1,
        recv_ipv6: 2,
        recv_relay: 3,
        send_ipv4: 10,
        send_ipv6: 20,
        send_relay: 30,
        ip_paths_added: 5,
        ip_paths_removed: 2,
        relay_paths_added: 1,
        relay_paths_removed: 4,
        relay_home_change: 7,
        conns_opened: 8,
        conns_closed: 3,
        conns_direct: 6,
    }
}

#[test]
fn render_text_lists_every_counter() {
    let mut m = GatewayMetrics::new();
    m.inc_tunnel_requests();
    m.inc_origin_requests();
    m.inc_origin_requests();
    m.inc_status_code(503);
    let text = m.render_text(&stats(), "# downstream\n");
    assert!(text.starts_with(
        "# HELP iroh_gateway_requests_total Gateway request count by proxy request kind.\n\
         # TYPE iroh_gateway_requests_total counter\n\
         iroh_gateway_requests_total{kind=\"tunnel\"} 1\n\
         iroh_gateway_requests_total{kind=\"origin\"} 2\n"
    ));
    assert!(text.contains("iroh_gateway_error_responses_total{class=\"5xx\"} 1\n"));
    assert!(text.contains("iroh_gateway_error_responses_by_status_total{status=\"503\"} 1\n"));
    assert!(text.contains("iroh_gateway_iroh_recv_bytes_total 6\n"));
    assert!(text.contains("iroh_gateway_iroh_send_bytes_total 60\n\n"));
    assert!(text.contains("iroh_gateway_quic_connections_opened_total{path=\"direct\"} 5\n"));
    assert!(text.contains("iroh_gateway_quic_connections_closed_total{path=\"relay\"} 4\n"));
    assert!(text.contains("iroh_gateway_quic_connections_current{path=\"direct\"} 3\n"));
    assert!(text.contains("iroh_gateway_quic_connections_current{path=\"relay\"} 0\n\n"));
    assert!(text.contains("{event=\"relay_home_change\"} 7\n"));
    assert!(text.contains("{event=\"connection_handshake_success\"} 8\n"));
    assert!(text.contains("{event=\"endpoints_contacted_directly\"} 6\n"));
    assert!(text.contains("{event=\"path_failure_resets\"} 0\n\n"));
    assert!(text.ends_with("{event=\"path_failure_resets\"} 0\n\n# downstream\n"));
    assert_eq!(text.matches("# HELP").count(), 14);
    assert_eq!(text.matches("# TYPE").count(), 14);
}

#[test]
fn render_text_wraps_byte_totals() {
    let m = GatewayMetrics::new();
    let mut s = stats();
    s.recv_ipv4 = u64::MAX;
    s.recv_ipv6 = 2;
    s.recv_relay = 0;
    let text = m.render_text(&s, "");
    assert!(text.contains("iroh_gateway_iroh_recv_bytes_total 1\n"));
}
