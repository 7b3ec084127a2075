//! Handles incoming keep-alive responses for a tick: a matching token updates
//! the connection's tracker and latency; a mismatched token is a protocol
//! violation that queues the connection for disconnection; an event for an
//! entity that no longer exists is discarded as a race with disconnection.

use vstd::prelude::*;

verus! {

use crate::keepalive::tracker_after_response;
use crate::sessions::{Session, Connections, contains_session, session_index};
use crate::queue::{DisconnectionQueue, DisconnectRequestV};

/// One echoed keep-alive response, as decoded by the packet layer.
#[derive(Clone, Copy, Debug)]
pub struct IncomingKeepAlive {
    pub entity: u64,
    pub timestamp: i64,
}

/// The reason recorded when the echoed token does not match.
pub open spec fn invalid_keep_alive_reason() -> Seq<char> {
    "Invalid keep alive packet received"@
}

/// What one keep-alive event does to the session table and the disconnection
/// queue: a stale entity changes nothing, a mismatched token queues a
/// disconnect, a matching token updates that session's tracker.
pub open spec fn ka_step(
    sessions: Seq<Session>,
    queue: Seq<DisconnectRequestV>,
    ev: IncomingKeepAlive,
    now: u64,
) -> (Seq<Session>, Seq<DisconnectRequestV>) {
    if !contains_session(sessions, ev.entity) {
        (sessions, queue)
    } else {
        let i = session_index(sessions, ev.entity);
        let s = sessions[i];
        if ev.timestamp != s.keep_alive.last_sent_keep_alive {
            (
                sessions,
                queue.push(
                    DisconnectRequestV { entity: ev.entity, reason: Some(invalid_keep_alive_reason()) },
                ),
            )
        } else {
            (
                sessions.update(
                    i,
                    Session {
                        entity: s.entity,
                        running: s.running,
                        keep_alive: tracker_after_response(s.keep_alive, now),
                    },
                ),
                queue,
            )
        }
    }
}

/// The whole batch, oldest event first.
pub open spec fn ka_fold(
    sessions: Seq<Session>,
    queue: Seq<DisconnectRequestV>,
    events: Seq<IncomingKeepAlive>,
    now: u64,
) -> (Seq<Session>, Seq<DisconnectRequestV>)
    decreases events.len(),
{
    if events.len() == 0 {
        (sessions, queue)
    } else {
        let stepped = ka_step(sessions, queue, events[0], now);
        ka_fold(stepped.0, stepped.1, events.drop_first(), now)
    }
}

/// Processes a batch of keep-alive responses received since the last tick,
/// exactly as [`ka_fold`] describes: per event, a token mismatch pushes the
/// entity onto the disconnection queue with the invalid-keep-alive reason, a
/// match measures latency and updates the tracker, and a stale entity is
/// ignored.
pub fn handle(
    events: &Vec<IncomingKeepAlive>,
    conns: &mut Connections,
    queue: &mut DisconnectionQueue,
    now_ms: u64,
)
    requires
        old(conns).wf(),
    ensures
        final(conns).wf(),
        final(conns).next_id() == old(conns).next_id(),
        (final(conns)@, final(queue)@) == ka_fold(old(conns)@, old(queue)@, events@, now_ms),
{
    let n = events.len();
    let mut i: usize = 0;
    proof {
        assert(events@.skip(0) =~= events@);
    }
    while i < n
        invariant
            conns.wf(),
            conns.next_id() == old(conns).next_id(),
            n == events@.len(),
            i <= n,
            ka_fold(conns@, queue@, events@.skip(i as int), now_ms) == ka_fold(
                old(conns)@,
                old(queue)@,
                events@,
                now_ms,
            ),
        decreases n - i,
    {
        let ghost pre_sessions = conns@;
        let ghost pre_queue = queue@;
        let ev = events[i];
        match conns.keep_alive_of(ev.entity) {
            None => {
                // entity already despawned: a race between disconnect and an
                // in-flight packet, not an error
            },
            Some(t) => {
                if ev.timestamp != t.last_sent_keep_alive {
                    queue.push(ev.entity, Some("Invalid keep alive packet received".to_owned()));
                } else {
                    let mut t2 = t;
                    crate::keepalive::apply_response(&mut t2, now_ms);
                    conns.set_keep_alive(ev.entity, t2);
                }
            },
        }
        proof {
            let evs = events@.skip(i as int);
            assert(evs[0] == events@[i as int]);
            assert(evs.drop_first() =~= events@.skip(i as int + 1));
            assert((conns@, queue@) == ka_step(pre_sessions, pre_queue, ev, now_ms));
        }
        i = i + 1;
    }
    proof {
        assert(events@.skip(n as int) =~= Seq::<IncomingKeepAlive>::empty());
    }
}

} // verus!
