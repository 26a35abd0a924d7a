//! An outer-to-inner port binding, rendered as `"<outer>:<inner socket>"`
//! for the runtime's publish-flag syntax.

use vstd::prelude::*;
use vstd::string::*;
use crate::socket::format_socket;
use crate::socket::Socket;
use crate::socket::SocketView;
use crate::text::dec_str;
use crate::text::u16_to_string;

verus! {

#[derive(Debug, PartialEq, Eq, Clone)]
pub struct SocketMap {
    pub outer_port: u16,
    pub inner_socket: Socket,
}

pub ghost struct SocketMapView {
    pub outer_port: u16,
    pub inner_socket: SocketView,
}

impl View for SocketMap {
    type V = SocketMapView;

    open spec fn view(&self) -> SocketMapView {
        SocketMapView { outer_port: self.outer_port, inner_socket: self.inner_socket@ }
    }
}

impl DeepView for SocketMap {
    type V = SocketMapView;

    open spec fn deep_view(&self) -> SocketMapView {
        self@
    }
}

/// The publish-flag text of a binding: the outer port, a colon, then the
/// inner socket's own publish text.
pub open spec fn format_socket_map(m: SocketMapView) -> Seq<char> {
    dec_str(m.outer_port as int) + ":"@ + format_socket(m.inner_socket)
}

impl SocketMap {
    pub fn new(outer_port: u16, inner_socket: Socket) -> (r: Self)
        ensures
            r.outer_port == outer_port,
            r.inner_socket == inner_socket,
    {
        SocketMap { outer_port, inner_socket }
    }

    /// Binds a socket to the same outer port as its own: the outer port of
    /// the result always equals the socket's port.
    pub fn self_bound(socket: Socket) -> (r: Self)
        ensures
            r.outer_port == socket.port,
            r.inner_socket == socket,
    {
        let port = socket.port;
        Self::new(port, socket)
    }

    /// Renders the binding for the runtime's publish flag.
    pub fn format(&self) -> (r: String)
        ensures
            r@ == format_socket_map(self@),
    {
        let mut r = u16_to_string(self.outer_port);
        r.append(":");
        let inner = self.inner_socket.format_protocol();
        r.append(inner.as_str());
        r
    }
}

} // verus!
