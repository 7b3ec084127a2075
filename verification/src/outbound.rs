//! What the tick hands back to the I/O layer: raw packet bytes for a
//! connection's outbound stream, and structured disconnect notices. The tick
//! never performs I/O itself; it returns these and the caller sends them,
//! treating each send as best-effort.

use vstd::prelude::*;

verus! {

/// Raw bytes to hand to one connection's outbound stream.
#[derive(Debug)]
pub struct Send {
    pub target: u64,
    pub bytes: Vec<u8>,
}

pub ghost struct SendV {
    pub target: u64,
    pub bytes: Seq<u8>,
}

impl View for Send {
    type V = SendV;

    open spec fn view(&self) -> SendV {
        SendV { target: self.target, bytes: self.bytes@ }
    }
}

/// A disconnect notice for the departing connection itself.
#[derive(Debug)]
pub struct DisconnectNotice {
    pub target: u64,
    pub reason: String,
}

pub ghost struct DisconnectNoticeV {
    pub target: u64,
    pub reason: Seq<char>,
}

impl View for DisconnectNotice {
    type V = DisconnectNoticeV;

    open spec fn view(&self) -> DisconnectNoticeV {
        DisconnectNoticeV { target: self.target, reason: self.reason@ }
    }
}

} // verus!
