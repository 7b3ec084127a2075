//! The disconnection queue: a FIFO of `(entity, optional reason)` pairs.
//! Producers on any thread push; the tick's disconnection processor drains it
//! completely. The crate models the queue's contents; the cross-thread
//! handoff wraps this structure outside the verified core.

use vstd::prelude::*;

verus! {

/// One pending disconnect: the entity and an optional reason string.
pub struct DisconnectRequest {
    pub entity: u64,
    pub reason: Option<String>,
}

pub ghost struct DisconnectRequestV {
    pub entity: u64,
    pub reason: Option<Seq<char>>,
}

impl View for DisconnectRequest {
    type V = DisconnectRequestV;

    open spec fn view(&self) -> DisconnectRequestV {
        DisconnectRequestV {
            entity: self.entity,
            reason: match self.reason {
                Some(r) => Some(r@),
                None => None,
            },
        }
    }
}

/// An unbounded FIFO of pending disconnects.
pub struct DisconnectionQueue {
    items: Vec<DisconnectRequest>,
}

impl View for DisconnectionQueue {
    type V = Seq<DisconnectRequestV>;

    closed spec fn view(&self) -> Seq<DisconnectRequestV> {
        self.items@.map_values(|r: DisconnectRequest| r@)
    }
}

impl DisconnectionQueue {
    pub fn new() -> (r: DisconnectionQueue)
        ensures
            r@ == Seq::<DisconnectRequestV>::empty(),
    {
        let q = DisconnectionQueue { items: Vec::new() };
        proof {
            assert(q@ =~= Seq::<DisconnectRequestV>::empty());
        }
        q
    }

    /// Enqueues a disconnect request at the back.
    pub fn push(&mut self, entity: u64, reason: Option<String>)
        ensures
            final(self)@ == old(self)@.push(
                DisconnectRequestV {
                    entity,
                    reason: match reason {
                        Some(r) => Some(r@),
                        None => None,
                    },
                },
            ),
    {
        let ghost r_view = match &reason {
            Some(r) => Some(r@),
            None => None,
        };
        self.items.push(DisconnectRequest { entity, reason });
        proof {
            assert(self@ =~= old(self)@.push(DisconnectRequestV { entity, reason: r_view }));
        }
    }

    /// Dequeues the oldest request, if any.
    pub fn pop(&mut self) -> (r: Option<DisconnectRequest>)
        ensures
            old(self)@.len() == 0 ==> r is None && final(self)@ == old(self)@,
            old(self)@.len() > 0 ==> (r matches Some(req) && req@ == old(self)@[0] && final(self)@
                == old(self)@.drop_first()),
    {
        if self.items.len() == 0 {
            None
        } else {
            let req = self.items.remove(0);
            proof {
                assert(self@ =~= old(self)@.drop_first());
            }
            Some(req)
        }
    }

    pub fn len(&self) -> (r: usize)
        ensures
            r == self@.len(),
    {
        self.items.len()
    }

    pub fn is_empty(&self) -> (r: bool)
        ensures
            r == (self@.len() == 0),
    {
        self.items.len() == 0
    }
}

} // verus!
