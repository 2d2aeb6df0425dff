//! The server configuration: the listen address. The accept loop itself is
//! an outside collaborator that binds the address, reads each connection's
//! bytes, hands them to the parser, and writes the serialized response back.

use vstd::prelude::*;
use vstd::string::*;

verus! {

/// A server, configured with the address it listens on.
#[derive(Debug, PartialEq, Clone)]
pub struct Server {
    server_addr: String,
}

impl View for Server {
    type V = Seq<char>;

    closed spec fn view(&self) -> Seq<char> {
        self.server_addr@
    }
}

impl Default for Server {
    /// A server on the default listen address.
    fn default() -> (r: Server)
        ensures
            r@ == "127.0.0.1:8000"@,
    {
        Server { server_addr: String::from_str("127.0.0.1:8000") }
    }
}

impl Server {
    /// A server bound to the given listen address.
    pub fn new(addr: &str) -> (r: Server)
        ensures
            r@ == addr@,
    {
        Server { server_addr: addr.to_owned() }
    }

    /// The configured listen address.
    pub fn server_addr(&self) -> (r: &str)
        ensures
            r@ == self@,
    {
        self.server_addr.as_str()
    }
}

} // verus!
