use iroh_gateway::relays::{
    choose_relay_list, first_relays, normalize_relay_url, parse_relay_urls, ping_succeeded, relay_list_tokens,
    relay_ping_url, shortlist_relays, should_probe_relays, sort_probe_results, ProbeError, RelayListError,
    RelaySource, STARTUP_RELAY_SELECTION_MAX,
};

fn strings(v: &[&str]) -> Vec<String> {
    v.iter().map(|s| s.to_string()).collect()
}

#[test]
fn normalize_adds_https_scheme() {
    assert_eq!(normalize_relay_url("relay.example.com"), "https://relay.example.com");
    assert_eq!(normalize_relay_url("http://relay.example.com"), "http://relay.example.com");
    assert_eq!(normalize_relay_url("wss://r"), "wss://r");
    assert_eq!(normalize_relay_url(":/"), "https://:/");
    assert_eq!(normalize_relay_url(""), "https://");
    let once = normalize_relay_url("a.example");
    assert_eq!(normalize_relay_url(&once), once);
}

#[test]
fn tokens_split_and_trim() {
    assert_eq!(relay_list_tokens("a, b;c\n\td  e"), strings(&["a", "b", "c", "d", "e"]));
    assert_eq!(relay_list_tokens(" ,, ; \n"), Vec::<String>::new());
    assert_eq!(relay_list_tokens(""), Vec::<String>::new());
    assert_eq!(relay_list_tokens("\u{a0}x\u{2003}, \u{0b}y"), strings(&["x", "y"]));
    assert_eq!(relay_list_tokens("a\u{a0}b"), strings(&["a\u{a0}b"]));
}

#[test]
fn relay_list_parses_and_dedups() {
    let relays = parse_relay_urls("relay1.example.com, https://relay2.example.com;relay1.example.com\nhttps://relay1.example.com/").unwrap();
    assert_eq!(relays, strings(&["https://relay1.example.com/", "https://relay2.example.com/"]));
}

#[test]
fn relay_list_errors() {
    assert_eq!(parse_relay_urls(" , ; "), Err(RelayListError::Empty));
    assert_eq!(parse_relay_urls(""), Err(RelayListError::Empty));
    assert_eq!(parse_relay_urls("good.example, http://[::1"), Err(RelayListError::InvalidUrl));
    assert_eq!(parse_relay_urls("https://exa mple.com"), Ok(strings(&["https://exa/", "https://mple.com/"])));
}

#[test]
fn relay_list_choice() {
    let choice = choose_relay_list(Some("a.example"), Some("b.example"));
    assert_eq!(choice.chosen, Some((RelaySource::Environment, strings(&["https://a.example/"]))));
    assert!(choice.rejected.is_empty());
    let choice = choose_relay_list(Some(" ,"), Some("b.example"));
    assert_eq!(choice.chosen, Some((RelaySource::Build, strings(&["https://b.example/"]))));
    assert_eq!(choice.rejected, vec![(RelaySource::Environment, RelayListError::Empty)]);
    let choice = choose_relay_list(None, Some("http://[::1"));
    assert_eq!(choice.chosen, None);
    assert_eq!(choice.rejected, vec![(RelaySource::Build, RelayListError::InvalidUrl)]);
    let choice = choose_relay_list(None, None);
    assert_eq!(choice.chosen, None);
    assert!(choice.rejected.is_empty());
}

#[test]
fn probing_threshold() {
    assert_eq!(STARTUP_RELAY_SELECTION_MAX, 5);
    assert!(!should_probe_relays(5, 5));
    assert!(should_probe_relays(6, 5));
    assert_eq!(first_relays(&strings(&["a", "b", "c"]), 2), strings(&["a", "b"]));
    assert_eq!(first_relays(&strings(&["a"]), 2), strings(&["a"]));
}

#[test]
fn probes_rank_by_latency_then_url() {
    let probes = vec![
        ("c".to_string(), 30u128),
        ("b".to_string(), 10u128),
        ("a".to_string(), 30u128),
        ("d".to_string(), 5u128),
    ];
    let ranked: Vec<String> = sort_probe_results(&probes).into_iter().map(|p| p.0).collect();
    assert_eq!(ranked, strings(&["d", "b", "a", "c"]));
}

#[test]
fn shortlist_prefers_fast_then_failed_then_rest() {
    let relays = strings(&["r1", "r2", "r3", "r4", "r5", "r6", "r7"]);
    let successful = vec![("r6".to_string(), 900u128), ("r2".to_string(), 100u128)];
    let failed = strings(&["r7", "r3"]);
    let shortlist = shortlist_relays(&relays, &successful, &failed, 5);
    assert_eq!(shortlist, strings(&["r2", "r6", "r3", "r7", "r1"]));

    let many: Vec<(String, u128)> = (1..=7).map(|i| (format!("r{i}"), (10 - i) as u128)).collect();
    assert_eq!(shortlist_relays(&relays, &many, &vec![], 5), strings(&["r7", "r6", "r5", "r4", "r3"]));

    assert_eq!(shortlist_relays(&relays, &vec![], &vec![], 5), strings(&["r1", "r2", "r3", "r4", "r5"]));
    assert_eq!(shortlist_relays(&strings(&["r1", "r1"]), &vec![], &vec![], 5), strings(&["r1"]));
}

#[test]
fn ping_urls() {
    assert_eq!(relay_ping_url(Some("relay.example.com.")), Ok("https://relay.example.com/ping".to_string()));
    assert_eq!(relay_ping_url(Some("relay.example.com")), Ok("https://relay.example.com/ping".to_string()));
    assert_eq!(relay_ping_url(Some("..")), Ok("https:///ping".to_string()));
    assert_eq!(relay_ping_url(None), Err(ProbeError::MissingHost));
    assert!(ping_succeeded(200) && ping_succeeded(299));
    assert!(!ping_succeeded(300) && !ping_succeeded(199));
}
