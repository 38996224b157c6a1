use vstd::prelude::*;

use super::{SocketAddr, SocketAddrView};

verus! {

/// Where devices can reach the reflector that sent a broadcast.
#[derive(Debug)]
pub enum ReflectorAddr {
    SocketAddr(SocketAddr),
}

pub enum ReflectorAddrView {
    SocketAddr(SocketAddrView),
}

impl View for ReflectorAddr {
    type V = ReflectorAddrView;

    open spec fn view(&self) -> ReflectorAddrView {
        match self {
            ReflectorAddr::SocketAddr(a) => ReflectorAddrView::SocketAddr(a@),
        }
    }
}

} // verus!
