# hyper_http_connector

The logic of a connector for `hyper`, verified with Verus.

- `src/dns`: hosts that are written as addresses, address records, and the order in which the
  addresses of a host are handed out.
- `src/timed_cache.rs`: a cache of values that are valid for a limited time.
- `src/http_connector`: the connector and its settings, the counters by which connections take
  turns among addresses, and the decisions that lead from a URL to a connected socket. Its `laws`
  module states what holds of these together.
- `src/net.rs`, `src/time.rs`: addresses and spans of time as plain values.
- `app`: the connector as `hyper` takes it. It runs queries through `c-ares`, opens the sockets, and
  does what the library decides.
