use vstd::prelude::*;

use super::{Broadcast, BroadcastReply, BroadcastReplyView, BroadcastView, TargetHit};

verus! {

/// The payload of a message.
#[derive(Debug)]
pub enum Inner {
    Broadcast(Broadcast),
    BroadcastReply(BroadcastReply),
    TargetHit(TargetHit),
}

pub enum InnerView {
    Broadcast(BroadcastView),
    BroadcastReply(BroadcastReplyView),
    TargetHit(i32),
}

impl View for Inner {
    type V = InnerView;

    open spec fn view(&self) -> InnerView {
        match self {
            Inner::Broadcast(b) => InnerView::Broadcast(b@),
            Inner::BroadcastReply(r) => InnerView::BroadcastReply(r@),
            Inner::TargetHit(h) => InnerView::TargetHit(h.from_id),
        }
    }
}

} // verus!
