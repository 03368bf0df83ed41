//! Proxy configuration: how an outbound connection is tunnelled.

use vstd::prelude::*;

verus! {

/// A configured proxy for outbound connections.
#[derive(Debug, Clone, PartialEq, Eq)]
pub enum Proxy {
    Http { host: String, port: u16, username: Option<String>, password: Option<String> },
    Socks5 { host: String, port: u16, username: Option<String>, password: Option<String> },
    Tor,
}

} // verus!
