use std::sync::mpsc::{RecvError, SendError};

use vstd::prelude::*;

use crate::lg::broadcast_reply::ClientAddr;

verus! {

#[verifier::external_type_specification]
#[verifier::external_body]
#[verifier::reject_recursive_types(T)]
pub struct ExSendError<T>(SendError<T>);

#[verifier::external_type_specification]
#[verifier::external_body]
pub struct ExRecvError(RecvError);

/// Both ends of a channel: sends values of type `T` and receives values of type `R`.
pub trait Duplex<T, R> {
    fn send(&self, t: T) -> Result<(), SendError<T>>;

    fn recv(&mut self) -> Result<R, RecvError>;
}

/// Lets the core tell the transport where a device can be reached.
pub trait TransportHandle {
    fn add_address_entry(&self, hid: String, addr: ClientAddr);
}

} // verus!
