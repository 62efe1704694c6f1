//! The connector and the connections that it makes.
pub mod connecting_tcp;
pub mod connections;
pub mod connector;
pub mod http_connecting;
pub mod invalid_url;
pub mod laws;
pub mod round_robin;
pub mod shared;
