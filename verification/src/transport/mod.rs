//! The transport's logic: where each device is reached, and what the reflector announces.

pub mod udp2;
pub mod udp_transport;

pub use udp2::UdpTransport2;
pub use udp_transport::{AddressBook, Endpoint, IpAddress};
