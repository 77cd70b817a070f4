//! The decisions of a small home gateway: an HTTPS reverse proxy, TCP forwarding and DDNS.
//!
//! Everything here computes on plain values; sockets, files and timers belong to the program around
//! it. Where the gateway alternates decisions and input or output, a function here takes what
//! happened and gives what to do next.

pub mod cloudflare;
pub mod cloudflare_laws;
pub mod config;
pub mod config_laws;
pub mod ddns;
pub mod ddns_laws;
pub mod headers;
pub mod http_laws;
pub mod http_proxy;
pub mod json;
pub mod status;
pub mod tcp_proxy;
pub mod text;
pub mod text_laws;
pub mod tls;
pub mod tls_laws;
