use vstd::prelude::*;

verus! {

/// The address part of a socket address: four bytes of IPv4 as a number, or the bytes of IPv6.
#[derive(Debug)]
pub enum Ip {
    V4(u32),
    V6(Vec<u8>),
}

pub enum IpView {
    V4(u32),
    V6(Seq<u8>),
}

impl View for Ip {
    type V = IpView;

    open spec fn view(&self) -> IpView {
        match self {
            Ip::V4(a) => IpView::V4(*a),
            Ip::V6(b) => IpView::V6(b@),
        }
    }
}

impl Clone for Ip {
    fn clone(&self) -> (res: Self)
        ensures
            res@ == self@,
    {
        match self {
            Ip::V4(a) => Ip::V4(*a),
            Ip::V6(b) => Ip::V6(b.clone()),
        }
    }
}

} // verus!
