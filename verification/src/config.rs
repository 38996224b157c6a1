//! The settings of the reflector.

use vstd::prelude::*;

verus! {

/// All settings.
#[derive(Debug)]
pub struct Config {
    pub transport: TransportConfig,
}

/// The settings of the UDP transport: the reflector's hardware id, the address to listen on,
/// and the address to announce, if it differs.
#[derive(Debug)]
pub struct TransportConfig {
    pub hid: String,
    pub bind_addr: SocketAddrConfig,
    pub advertise_addr: Option<SocketAddrConfig>,
}

/// An IP address in text and a port.
#[derive(Debug)]
pub struct SocketAddrConfig {
    pub ip: String,
    pub port: u16,
}

impl TransportConfig {
    /// The address that the reflector announces: the advertised one when it is set, else the
    /// one it listens on.
    pub fn announced_addr(&self) -> (r: &SocketAddrConfig)
        ensures
            r == (match &self.advertise_addr {
                Some(a) => a,
                None => &self.bind_addr,
            }),
    {
        match &self.advertise_addr {
            Some(a) => a,
            None => &self.bind_addr,
        }
    }
}

} // verus!
