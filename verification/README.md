# iroh_gateway

An HTTP/TCP proxy gateway that forwards CONNECT and header-routed origin
requests through iroh peer-to-peer tunnels. The decisions the gateway makes are
a library whose contracts are machine-checked proofs; the program around it wires that library to
sockets, the iroh endpoint and the proxy.

## Layout

- `src/` — the verified library:
  - `resolver.rs`: where a request goes (`x-iroh-endpoint-id`,
    `x-datum-target-host`, `x-datum-target-port`) or why it is turned away;
  - `error_page.rs`: the title and explanation of error pages;
  - `metrics.rs`: the gateway's counters and their Prometheus text exposition;
  - `accounting.rs`: how the counters stay in step with one another;
  - `relays.rs`: parsing the relay list and choosing the startup shortlist
    from latency probes;
  - `endpoint.rs`, `config.rs`, `keys.rs`: endpoint settings, flag overrides,
    key file format;
  - `text.rs`: decimal rendering and parsing, trimming, ordering of text.
- `app/` — the program: command line, listeners, the proxy's request handler
  and error responder, the metrics HTTP server, relay probing, configuration
  file loading.
- `tests/` — tests of the library on concrete values.
