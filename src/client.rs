//! The caller's side of the socket.
use vstd::prelude::*;

verus! {

/// A caller of the service at `socket`.
#[derive(Debug, Clone)]
pub struct Client {
    socket: String,
}

impl Client {
    /// A caller of the service at the socket path `socket`.
    pub fn new(socket: String) -> (r: Client)
        ensures
            r.socket() == socket@,
    {
        Client { socket }
    }

    pub closed spec fn socket(&self) -> Seq<char> {
        self.socket@
    }

    /// The socket path.
    pub fn socket_path(&self) -> (r: &str)
        ensures
            r@ == self.socket(),
    {
        self.socket.as_str()
    }
}

} // verus!
