use iroh_gateway::endpoint::SocketStats;
use iroh_gateway::metrics::{Counter, GatewayMetrics};
use iroh_gateway::relays::{parse_relay_urls, relay_probe_url, ProbeError, RelayListError};
use iroh_gateway::resolver::{headers_to_strip, route_request, DatumHeaders, RequestKind, RequestSource};

fn valid_id() -> String {
    iroh::SecretKey::from_bytes(&[7u8; 32]).public().to_string()
}

fn headers(id: Option<&str>, host: Option<&str>, port: Option<&str>) -> DatumHeaders {
    DatumHeaders {
        endpoint_id: id.map(str::to_string),
        target_host: host.map(str::to_string),
        target_port: port.map(str::to_string),
    }
}

fn zero_stats() -> SocketStats {
    SocketStats {
        recv_ipv4: 0,
        recv_ipv6: 0,
        recv_relay: 0,
        send_ipv4: 0,
        send_ipv6: 0,
        send_relay: 0,
        ip_paths_added: 0,
        ip_paths_removed: 0,
        relay_paths_added: 0,
        relay_paths_removed: 0,
        relay_home_change: 0,
        conns_opened: 0,
        conns_closed: 0,
        conns_direct: 0,
    }
}

#[test]
fn probe_url_comes_from_relay_host() {
    assert_eq!(relay_probe_url("https://relay.example.com./"), Ok("https://relay.example.com/ping".to_string()));
    assert_eq!(relay_probe_url("https://Relay.Example.com:8443/path?x=1"), Ok("https://relay.example.com/ping".to_string()));
    assert_eq!(relay_probe_url("http://[::1]:3340/"), Ok("https://[::1]/ping".to_string()));
    assert_eq!(relay_probe_url("mailto:someone"), Err(ProbeError::MissingHost));
    assert_eq!(relay_probe_url("not a url"), Err(ProbeError::MissingHost));
}

#[test]
fn relay_list_error_messages() {
    assert_eq!(parse_relay_urls(" ,;\n "), Err(RelayListError::Empty));
    assert_eq!(RelayListError::Empty.message(), "Relay URL list was provided but empty after parsing");
    assert_eq!(
        RelayListError::InvalidUrl.message(),
        "Failed parsing relay URL list. Expected comma/space/newline separated URLs"
    );
}

#[test]
fn relay_list_separators_do_not_matter() {
    let plain = parse_relay_urls("a.example,b.example");
    assert_eq!(parse_relay_urls("a.example;b.example"), plain);
    assert_eq!(parse_relay_urls(" a.example \n\t b.example ; "), plain);
    assert_eq!(parse_relay_urls(",,a.example,,,b.example,"), plain);
    assert_eq!(parse_relay_urls(" ;\n"), parse_relay_urls(""));
}

#[test]
fn all_routing_headers_are_stripped() {
    assert_eq!(headers_to_strip(), vec!["x-iroh-endpoint-id", "x-datum-target-host", "x-datum-target-port"]);
}

#[test]
fn run_of_requests_is_counted() {
    let id = valid_id();
    let mut m = GatewayMetrics::new();
    let runs: Vec<(RequestSource, Option<RequestKind>, DatumHeaders, bool)> = vec![
        (RequestSource::Tcp, Some(RequestKind::Tunnel), headers(Some(&id), None, None), true),
        (RequestSource::Unix, Some(RequestKind::Origin), headers(Some(&id), Some("h"), Some("80")), false),
        (RequestSource::Tcp, None, headers(None, None, None), false),
        (RequestSource::Unix, Some(RequestKind::Tunnel), headers(None, None, None), false),
        (RequestSource::Tcp, Some(RequestKind::Http1Absolute), headers(Some(&id), Some("h"), Some("x")), true),
    ];
    for (source, kind, h, peer) in &runs {
        let _ = route_request(&mut m, *source, *kind, h, *peer);
    }
    assert_eq!(m.value(Counter::RequestsTcp) + m.value(Counter::RequestsUds), 5);
    assert_eq!(m.value(Counter::RequestsTunnel), 2);
    assert_eq!(m.value(Counter::RequestsOrigin), 2);
    assert_eq!(
        m.value(Counter::RequestsTunnel),
        m.value(Counter::RequestsTunnelTcp) + m.value(Counter::RequestsTunnelUds)
    );
    assert_eq!(
        m.value(Counter::RequestsTunnel),
        m.value(Counter::TunnelReuseWithPeerConn) + m.value(Counter::TunnelReuseWithoutPeerConn)
    );
    assert_eq!(
        m.value(Counter::RequestsOrigin),
        m.value(Counter::OriginReuseWithPeerConn) + m.value(Counter::OriginReuseWithoutPeerConn)
    );
    assert_eq!(m.value(Counter::DeniedMissingHeaderNodeId), 1);
    assert_eq!(m.value(Counter::DeniedMissingHeader), 1);
    assert_eq!(m.value(Counter::DeniedInvalidTargetPort), 1);
}

#[test]
fn run_of_status_codes_is_counted() {
    let mut m = GatewayMetrics::new();
    for code in [400u16, 404, 500, 502, 503, 504, 505, 599, 200, 302] {
        m.inc_status_code(code);
    }
    assert_eq!(m.value(Counter::Responses4xx), 2);
    assert_eq!(m.value(Counter::Responses5xx), 6);
    assert_eq!(
        m.value(Counter::Responses5xx),
        m.value(Counter::Responses500)
            + m.value(Counter::Responses502)
            + m.value(Counter::Responses503)
            + m.value(Counter::Responses504)
            + m.value(Counter::ResponsesOther5xx)
    );
    assert_eq!(m.value(Counter::ResponsesOther5xx), 2);
}

#[test]
fn run_of_reuse_attempts_is_counted() {
    let mut m = GatewayMetrics::new();
    for flag in [true, false, true, true, false] {
        m.inc_origin_reuse_attempt(flag);
    }
    assert_eq!(m.value(Counter::OriginReuseWithPeerConn), 3);
    assert_eq!(m.value(Counter::OriginReuseWithoutPeerConn), 2);
    assert_eq!(m.value(Counter::TunnelReuseWithPeerConn), 0);
    assert_eq!(m.value(Counter::RequestsOrigin), 0);
}

#[test]
fn render_after_run_shows_counts() {
    let mut m = GatewayMetrics::new();
    for _ in 0..3 {
        m.inc_tunnel_requests();
    }
    m.inc_origin_requests();
    for _ in 0..2 {
        m.inc_tcp_requests();
    }
    m.inc_denied_invalid_endpoint();
    let text = m.render_text(&zero_stats(), "");
    assert!(text.contains("iroh_gateway_requests_total{kind=\"tunnel\"} 3\n"));
    assert!(text.contains("iroh_gateway_requests_total{kind=\"origin\"} 1\n"));
    assert!(text.contains("iroh_gateway_requests_by_source_total{source=\"tcp\"} 2\n"));
    assert!(text.contains("iroh_gateway_denied_requests_total{reason=\"invalid_endpoint_id\"} 1\n"));
    assert!(text.contains("iroh_gateway_requests_by_source_total{source=\"uds\"} 0\n"));
    assert!(text.contains("iroh_gateway_error_responses_total{class=\"5xx\"} 0\n"));
}
