use iroh_gateway::config::{metrics_bind_addr, Config, DiscoveryMode, GatewayConfig, DEFAULT_METRICS_PORT};
use iroh_gateway::endpoint::{endpoint_plan, peer_conn_open, EndpointConfigError, EndpointPreset};
use iroh_gateway::keys::{api_key_text, secret_key_from_file, KeyFileError, SECRET_KEY_LENGTH};

/// Addresses stand in as numbers here: the library carries them through.
type Cfg = Config<u32, u64, u16>;

fn ip(a: u8) -> [u8; 4] {
    [10, 0, 0, a]
}

#[test]
fn metrics_address_from_flags() {
    assert_eq!(DEFAULT_METRICS_PORT, 9090);
    assert_eq!(metrics_bind_addr(ip(1), None, None), None);
    assert_eq!(metrics_bind_addr(ip(1), Some(ip(2)), Some(7000)), Some((ip(2), 7000)));
    assert_eq!(metrics_bind_addr(ip(1), Some(ip(2)), None), Some((ip(2), 9090)));
    assert_eq!(metrics_bind_addr(ip(1), None, Some(7000)), Some((ip(1), 7000)));
}

#[test]
fn overrides_replace_given_settings() {
    let resolver: u16 = 53535;
    let base: GatewayConfig<u32, u64, u16> = GatewayConfig::default();
    assert_eq!(base.common.discovery_mode, DiscoveryMode::Default);
    let c = base.with_overrides(Some(DiscoveryMode::Dns), Some("iroh.example.com".to_string()), Some(resolver));
    assert_eq!(c.common.discovery_mode, DiscoveryMode::Dns);
    assert_eq!(c.common.dns_origin.as_deref(), Some("iroh.example.com"));
    assert_eq!(c.common.dns_resolver, Some(resolver));
    let c = c.with_overrides(None, None, None);
    assert_eq!(c.common.discovery_mode, DiscoveryMode::Dns);
    assert_eq!(c.common.dns_origin.as_deref(), Some("iroh.example.com"));
    assert_eq!(c.common.dns_resolver, Some(resolver));
}

#[test]
fn endpoint_plans() {
    let mut c: Cfg = Config::new();
    let plan = endpoint_plan(&c);
    assert_eq!(plan.preset, EndpointPreset::N0);
    assert!(matches!(plan.dns_lookup, Ok(None)));
    c.discovery_mode = DiscoveryMode::Dns;
    let plan = endpoint_plan(&c);
    assert_eq!(plan.preset, EndpointPreset::Minimal);
    assert!(matches!(plan.dns_lookup, Err(EndpointConfigError::MissingDnsOrigin)));
    c.discovery_mode = DiscoveryMode::Hybrid;
    c.dns_origin = Some("iroh.example.com".to_string());
    c.ipv4_addr = Some(1234);
    let plan = endpoint_plan(&c);
    assert_eq!(plan.preset, EndpointPreset::N0);
    assert_eq!(plan.bind_ipv4, c.ipv4_addr);
    assert_eq!(plan.bind_ipv6, None);
    let lookup = plan.dns_lookup.unwrap().unwrap();
    assert_eq!(lookup.origin, "iroh.example.com");
    assert_eq!(lookup.resolver, None);
}

#[test]
fn peer_connections() {
    assert!(peer_conn_open(3, 2));
    assert!(!peer_conn_open(2, 2));
    assert!(!peer_conn_open(1, 5));
}

#[test]
fn key_file_holds_raw_key() {
    assert_eq!(SECRET_KEY_LENGTH, 32);
    assert_eq!(secret_key_from_file(vec![1u8; 32]), Ok(vec![1u8; 32]));
    assert_eq!(secret_key_from_file(vec![1u8; 31]), Err(KeyFileError::WrongLength));
    assert_eq!(secret_key_from_file(vec![]), Err(KeyFileError::WrongLength));
}

#[test]
fn api_key_sources() {
    assert_eq!(api_key_text(Some("run".to_string()), Some("build")), Some("run".to_string()));
    assert_eq!(api_key_text(None, Some("build")), Some("build".to_string()));
    assert_eq!(api_key_text(None, None), None);
}
