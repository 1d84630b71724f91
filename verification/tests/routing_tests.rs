use iroh_gateway::error_page::{body_for_status, error_page_for, title_for_status};
use iroh_gateway::metrics::{Counter, GatewayMetrics};
use iroh_gateway::resolver::{
    endpoint_id_from_headers, header_value, route_request, DatumHeader, DatumHeaders, Denial, RequestKind,
    RequestSource, DATUM_HEADERS, HEADER_NODE_ID, HEADER_TARGET_HOST, HEADER_TARGET_PORT,
};

fn valid_id() -> (String, Vec<u8>) {
    let key = iroh::SecretKey::from_bytes(&[7u8; 32]).public();
    (key.to_string(), key.as_bytes().to_vec())
}

fn headers(id: Option<&str>, host: Option<&str>, port: Option<&str>) -> DatumHeaders {
    DatumHeaders {
        endpoint_id: id.map(str::to_string),
        target_host: host.map(str::to_string),
        target_port: port.map(str::to_string),
    }
}

#[test]
fn header_names() {
    assert_eq!(DATUM_HEADERS, ["x-iroh-endpoint-id", "x-datum-target-host", "x-datum-target-port"]);
    assert_eq!(DatumHeader::EndpointId.name(), HEADER_NODE_ID);
    assert_eq!(DatumHeader::TargetHost.name(), HEADER_TARGET_HOST);
    assert_eq!(DatumHeader::TargetPort.name(), HEADER_TARGET_PORT);
}

#[test]
fn tunnel_request_routes_by_endpoint_id() {
    let (text, bytes) = valid_id();
    let mut m = GatewayMetrics::new();
    let route = route_request(&mut m, RequestSource::Tcp, Some(RequestKind::Tunnel), &headers(Some(&text), None, None), true)
        .unwrap();
    assert_eq!(route.endpoint_id, bytes);
    assert_eq!(route.endpoint_id.len(), 32);
    assert!(route.authority.is_none());
    assert_eq!(m.value(Counter::RequestsTcp), 1);
    assert_eq!(m.value(Counter::RequestsTunnel), 1);
    assert_eq!(m.value(Counter::TunnelReuseWithPeerConn), 1);
    assert_eq!(m.value(Counter::RequestsTunnelTcp), 1);
    assert_eq!(m.value(Counter::RequestsOrigin), 0);
}

#[test]
fn origin_request_routes_to_target() {
    let (text, bytes) = valid_id();
    let mut m = GatewayMetrics::new();
    let h = headers(Some(&text), Some("10.0.4.2"), Some("8080"));
    let route = route_request(&mut m, RequestSource::Unix, Some(RequestKind::Origin), &h, false).unwrap();
    assert_eq!(route.endpoint_id, bytes);
    assert_eq!(route.authority, Some(("10.0.4.2".to_string(), 8080)));
    assert_eq!(m.value(Counter::RequestsUds), 1);
    assert_eq!(m.value(Counter::RequestsOrigin), 1);
    assert_eq!(m.value(Counter::OriginReuseWithoutPeerConn), 1);
    assert_eq!(m.value(Counter::RequestsOriginUds), 1);
    let route = route_request(&mut m, RequestSource::Tcp, Some(RequestKind::Http1Absolute), &h, false).unwrap();
    assert_eq!(route.authority, Some(("10.0.4.2".to_string(), 8080)));
    assert_eq!(m.value(Counter::RequestsOrigin), 2);
    assert_eq!(m.value(Counter::RequestsOriginTcp), 1);
}

#[test]
fn unclassified_request_is_only_counted_by_source() {
    let mut m = GatewayMetrics::new();
    let r = route_request(&mut m, RequestSource::Tcp, None, &headers(None, None, None), true);
    assert_eq!(r.unwrap_err(), Denial::Unclassified);
    assert_eq!(m.value(Counter::RequestsTcp), 1);
    assert_eq!(m.value(Counter::RequestsTunnel) + m.value(Counter::RequestsOrigin), 0);
    assert_eq!(m.value(Counter::DeniedMissingHeader), 0);
}

#[test]
fn missing_endpoint_id_is_denied() {
    let mut m = GatewayMetrics::new();
    let r = route_request(&mut m, RequestSource::Tcp, Some(RequestKind::Tunnel), &headers(None, None, None), false);
    assert_eq!(r.unwrap_err(), Denial::MissingHeader(DatumHeader::EndpointId));
    assert_eq!(m.value(Counter::DeniedMissingHeader), 1);
    assert_eq!(m.value(Counter::DeniedMissingHeaderNodeId), 1);
}

#[test]
fn invalid_endpoint_id_is_denied() {
    let mut m = GatewayMetrics::new();
    let r = route_request(&mut m, RequestSource::Tcp, Some(RequestKind::Origin), &headers(Some("not-a-key"), Some("h"), Some("1")), false);
    assert_eq!(r.unwrap_err(), Denial::InvalidEndpointId);
    assert_eq!(m.value(Counter::DeniedInvalidEndpoint), 1);
    assert_eq!(m.value(Counter::DeniedMissingHeader), 0);
}

#[test]
fn origin_needs_host_then_port() {
    let (text, _) = valid_id();
    let mut m = GatewayMetrics::new();
    let r = route_request(&mut m, RequestSource::Tcp, Some(RequestKind::Origin), &headers(Some(&text), None, None), false);
    assert_eq!(r.unwrap_err(), Denial::MissingHeader(DatumHeader::TargetHost));
    let r = route_request(&mut m, RequestSource::Tcp, Some(RequestKind::Origin), &headers(Some(&text), Some("h"), None), false);
    assert_eq!(r.unwrap_err(), Denial::MissingHeader(DatumHeader::TargetPort));
    assert_eq!(m.value(Counter::DeniedMissingHeader), 2);
    assert_eq!(m.value(Counter::DeniedMissingHeaderNodeId), 0);
}

#[test]
fn target_port_must_be_a_u16() {
    let (text, _) = valid_id();
    for (port, expected) in [
        ("80", Some(80)),
        ("+443", Some(443)),
        ("0065535", Some(65535)),
        ("65536", None),
        ("-1", None),
        ("+", None),
        ("", None),
        ("8 0", None),
        ("99999999999999999999", None),
    ] {
        let mut m = GatewayMetrics::new();
        let r = route_request(&mut m, RequestSource::Tcp, Some(RequestKind::Origin), &headers(Some(&text), Some("h"), Some(port)), false);
        match expected {
            Some(p) => assert_eq!(r.unwrap().authority, Some(("h".to_string(), p)), "port {port:?}"),
            None => {
                assert_eq!(r.unwrap_err(), Denial::InvalidTargetPort, "port {port:?}");
                assert_eq!(m.value(Counter::DeniedInvalidTargetPort), 1);
            }
        }
    }
}

#[test]
fn tunnel_ignores_target_headers() {
    let (text, _) = valid_id();
    let mut m = GatewayMetrics::new();
    let r = route_request(&mut m, RequestSource::Unix, Some(RequestKind::Tunnel), &headers(Some(&text), None, Some("bad")), false);
    assert!(r.unwrap().authority.is_none());
    assert_eq!(m.value(Counter::RequestsTunnelUds), 1);
    assert_eq!(m.value(Counter::TunnelReuseWithoutPeerConn), 1);
}

#[test]
fn header_helpers() {
    let (text, bytes) = valid_id();
    let mut m = GatewayMetrics::new();
    let h = headers(Some(&text), None, None);
    assert_eq!(header_value(&mut m, &h, DatumHeader::EndpointId).unwrap(), &text);
    assert_eq!(header_value(&mut m, &h, DatumHeader::TargetPort).unwrap_err(), Denial::MissingHeader(DatumHeader::TargetPort));
    assert_eq!(endpoint_id_from_headers(&mut m, &h).unwrap(), bytes);
    assert_eq!(m.value(Counter::DeniedMissingHeader), 1);
}

#[test]
fn upper_case_hex_endpoint_id_is_rejected() {
    let key = iroh::SecretKey::from_bytes(&[9u8; 32]).public();
    let hex = key.to_string();
    let bytes: Vec<u8> = (0..32).map(|i| u8::from_str_radix(&hex[2 * i..2 * i + 2], 16).unwrap()).collect();
    assert_eq!(bytes, key.as_bytes().to_vec());
    let mut m = GatewayMetrics::new();
    let h = headers(Some(&hex.to_uppercase()), None, None);
    // Hex is read in lower case only; upper-case hex of the same length is not base32 either.
    assert_eq!(endpoint_id_from_headers(&mut m, &h).unwrap_err(), Denial::InvalidEndpointId);
}

#[test]
fn denial_reasons() {
    assert_eq!(Denial::MissingHeader(DatumHeader::EndpointId).reason().unwrap(), "Missing header x-iroh-endpoint-id");
    assert_eq!(Denial::MissingHeader(DatumHeader::TargetPort).reason().unwrap(), "Missing header x-datum-target-port");
    assert_eq!(Denial::InvalidEndpointId.reason().unwrap(), "invalid x-iroh-endpoint-id value");
    assert_eq!(Denial::InvalidTargetPort.reason().unwrap(), "invalid x-datum-target-port header");
    assert_eq!(Denial::Unclassified.reason(), None);
}

#[test]
fn error_pages() {
    let mut m = GatewayMetrics::new();
    let page = error_page_for(&mut m, 404, true);
    assert_eq!(page.title, "404 Not Found");
    assert_eq!(page.body, "The requested page could not be found through the gateway.");
    assert_eq!(m.value(Counter::Responses4xx), 1);
    assert_eq!(m.value(Counter::Failures5xxWithPeerConn), 0);
    let page = error_page_for(&mut m, 502, true);
    assert_eq!(page.title, "502 Bad Gateway");
    assert_eq!(page.body, "The gateway could not get a valid response from the upstream service.");
    assert_eq!(m.value(Counter::Responses502), 1);
    assert_eq!(m.value(Counter::Failures5xxWithPeerConn), 1);
    let page = error_page_for(&mut m, 599, false);
    assert_eq!(page.title, "599 ");
    assert_eq!(page.body, "The service experienced an unexpected error.");
    assert_eq!(m.value(Counter::ResponsesOther5xx), 1);
    assert_eq!(m.value(Counter::Failures5xxWithoutPeerConn), 1);
    assert_eq!(title_for_status(504), "504 Gateway Timeout");
    assert_eq!(title_for_status(401), "401 Unauthorized");
    assert_eq!(body_for_status(400), "The request could not be understood by the gateway. Please try again.");
    assert_eq!(body_for_status(401), "You are not logged in or your session has expired. Please sign in and try again.");
    assert_eq!(body_for_status(403), "Access to this resource is not allowed through the gateway.");
    assert_eq!(body_for_status(500), "The gateway encountered an internal error. Please try again later.");
    assert_eq!(body_for_status(503), "The service is temporarily unavailable. Please try again shortly.");
    assert_eq!(body_for_status(504), "The upstream service took too long to respond.");
    assert_eq!(body_for_status(418), "The service experienced an unexpected error.");
}
