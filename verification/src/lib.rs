//! A connector for the `http` scheme: the addresses of hosts, the cache that keeps them, the turns
//! that are taken among them, and the decisions on the way from a URL to a connected socket.
pub mod dns;
pub mod http_connector;
pub mod net;
pub mod time;
pub mod timed_cache;
