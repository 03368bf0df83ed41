//! Server buffer state: which upstream target a server pane speaks to.

use vstd::prelude::*;

verus! {

/// The upstream target a buffer sends to, named by server.
#[derive(Debug, Clone, PartialEq, Eq)]
pub enum Upstream {
    Server(String),
}

/// A server pane's state: its upstream buffer target and the server name.
#[derive(Debug, Clone)]
pub struct Server {
    /// The buffer this pane posts to.
    pub buffer: Upstream,
    /// The server the pane belongs to.
    pub server: String,
}

impl Server {
    /// A pane for the given server, with the buffer aimed at that server.
    pub fn new(server: String) -> (s: Self)
        ensures
            s.server == server,
            s.buffer == Upstream::Server(server),
    {
        Server { buffer: Upstream::Server(server.clone()), server }
    }
}

} // verus!
