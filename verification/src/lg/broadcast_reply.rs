use vstd::prelude::*;

use super::{SocketAddr, SocketAddrView};

verus! {

/// Where the reflector can reach the device that answered a broadcast.
#[derive(Debug)]
pub enum ClientAddr {
    SocketAddr(SocketAddr),
}

pub enum ClientAddrView {
    SocketAddr(SocketAddrView),
}

impl View for ClientAddr {
    type V = ClientAddrView;

    open spec fn view(&self) -> ClientAddrView {
        match self {
            ClientAddr::SocketAddr(a) => ClientAddrView::SocketAddr(a@),
        }
    }
}

impl Clone for ClientAddr {
    fn clone(&self) -> (res: Self)
        ensures
            res@ == self@,
    {
        match self {
            ClientAddr::SocketAddr(a) => ClientAddr::SocketAddr(a.clone()),
        }
    }
}

} // verus!
