use std::sync::atomic::{AtomicBool, Ordering};

use vstd::prelude::*;

use crate::api::infra::Stoppable;
use crate::transport::udp_transport::{Endpoint, Frame};

verus! {

/// A transport that answers every datagram on its own socket; it can be asked to stop.
pub struct UdpTransport2 {
    shutting_down: AtomicBool,
}

impl UdpTransport2 {
    pub fn new() -> Self {
        UdpTransport2 { shutting_down: AtomicBool::new(false) }
    }
}

impl Stoppable for UdpTransport2 {
    fn stop(&self) {
        self.shutting_down.store(true, Ordering::Relaxed);
    }
}

/// The text with which the answering transport answers: "test123" and a line feed.
pub open spec fn answer_bytes() -> Seq<u8> {
    seq![116u8, 101u8, 115u8, 116u8, 49u8, 50u8, 51u8, 10u8]
}

/// What the answering transport does with a datagram whose first control message is, or is
/// not, the packet information of an IPv4 datagram from `sender`: it answers the sender with
/// its text, or, for any other control message, it stops (`None`).
pub fn answer(is_pktinfo: bool, sender: Endpoint) -> (r: Option<Frame>)
    ensures
        is_pktinfo ==> (r matches Some(f) && f.0 == sender && f.1@ == answer_bytes()),
        !is_pktinfo ==> r is None,
{
    if is_pktinfo {
        let text: Vec<u8> = vec![116u8, 101u8, 115u8, 116u8, 49u8, 50u8, 51u8, 10u8];
        assert(text@ =~= answer_bytes());
        Some(Frame(sender, text))
    } else {
        None
    }
}

} // verus!
