//! The UDP port simapi asks for, remembered for the receive socket.
use vstd::prelude::*;
use crate::games::bind_port;

verus! {

/// The port the receive socket binds, as simapi last requested it
/// (0 until a valid request arrives).
#[derive(Clone, Copy, Debug)]
pub struct UdpPorts {
    requested: u16,
}

impl UdpPorts {
    pub closed spec fn port(self) -> u16 {
        self.requested
    }

    /// No port requested yet.
    pub fn new() -> (p: Self)
        ensures
            p.port() == 0,
    {
        UdpPorts { requested: 0 }
    }

    /// The port to bind, 0 when none was requested.
    pub fn requested_port(&self) -> (r: u16)
        ensures
            r == self.port(),
    {
        self.requested
    }

    /// Takes a port request from simapi. A request outside 0..=65535 is
    /// refused with -1 and changes nothing; otherwise the port to bind for it
    /// is remembered (the DiRT Rally 2 game port maps to its bind port) and
    /// 0 is returned.
    pub fn remember_port(&mut self, port: i32) -> (r: i32)
        ensures
            (port < 0 || port > 65535) ==> r == -1 && final(self).port() == old(self).port(),
            (0 <= port <= 65535) ==> r == 0 && final(self).port() == bind_port_spec(port as u16),
    {
        if port < 0 || port > 65535 {
            return -1;
        }
        self.requested = bind_port(port as u16);
        0
    }
}

/// The port bound for a requested one.
pub open spec fn bind_port_spec(requested: u16) -> u16 {
    if requested == crate::games::DR2_GAME_PORT { crate::games::DR2_BIND_PORT } else { requested }
}

} // verus!
