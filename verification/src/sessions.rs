//! The live session table: one record per connection entity, holding the
//! stream's running flag and the keep-alive state. Entity identifiers are
//! allocated from a counter that never goes backwards, so an identifier is
//! never reused after its session is destroyed.

use vstd::prelude::*;

verus! {

use crate::keepalive::{KeepAliveTracker, initial_tracker, fresh_tracker};

/// One connection's server-side record.
#[derive(Clone, Copy, Debug)]
pub struct Session {
    pub entity: u64,
    /// Whether the outbound stream is still running.
    pub running: bool,
    pub keep_alive: KeepAliveTracker,
}

pub open spec fn contains_session(s: Seq<Session>, e: u64) -> bool {
    exists|i: int| 0 <= i < s.len() && s[i].entity == e
}

/// The position of entity `e`; meaningful only under distinct entities.
pub open spec fn session_index(s: Seq<Session>, e: u64) -> int {
    choose|i: int| 0 <= i < s.len() && s[i].entity == e
}

pub open spec fn distinct_entities(s: Seq<Session>) -> bool {
    forall|i: int, j: int| 0 <= i < j < s.len() ==> s[i].entity != s[j].entity
}

/// The table of live sessions.
pub struct Connections {
    sessions: Vec<Session>,
    next_entity: u64,
}

impl View for Connections {
    type V = Seq<Session>;

    closed spec fn view(&self) -> Seq<Session> {
        self.sessions@
    }
}

impl Connections {
    /// The next entity identifier to hand out; all live ones are below it.
    pub closed spec fn next_id(&self) -> u64 {
        self.next_entity
    }

    /// Entities are distinct and below the allocation counter, and no stored
    /// round-trip time is negative; constructors establish this and every
    /// operation preserves it.
    pub open spec fn wf(&self) -> bool {
        &&& distinct_entities(self@)
        &&& forall|i: int| 0 <= i < self@.len() ==> (#[trigger] self@[i].entity) < self.next_id()
        &&& forall|i: int|
            0 <= i < self@.len() ==> 0 <= (#[trigger] self@[i].keep_alive).last_rtt_ms
    }

    pub fn new() -> (r: Connections)
        ensures
            r@ == Seq::<Session>::empty(),
            r.next_id() == 0,
            r.wf(),
    {
        Connections { sessions: Vec::new(), next_entity: 0 }
    }

    pub fn len(&self) -> (r: usize)
        ensures
            r == self@.len(),
    {
        self.sessions.len()
    }

    /// The session at position `i`, for walking the table in order.
    pub fn get_at(&self, i: usize) -> (r: &Session)
        requires
            i < self@.len(),
        ensures
            *r == self@[i as int],
    {
        &self.sessions[i]
    }

    /// Creates the record for a newly admitted connection: a fresh entity
    /// identifier, a running stream, and a fresh keep-alive tracker.
    pub fn spawn(&mut self, now_ms: u64) -> (entity: u64)
        requires
            old(self).wf(),
            old(self).next_id() < u64::MAX,
        ensures
            final(self).wf(),
            entity == old(self).next_id(),
            final(self).next_id() == old(self).next_id() + 1,
            final(self)@ == old(self)@.push(
                Session { entity, running: true, keep_alive: fresh_tracker(now_ms) },
            ),
            !contains_session(old(self)@, entity),
    {
        let entity = self.next_entity;
        let tracker = initial_tracker(now_ms);
        self.sessions.push(Session { entity, running: true, keep_alive: tracker });
        self.next_entity = self.next_entity + 1;
        entity
    }

    pub fn contains(&self, entity: u64) -> (r: bool)
        ensures
            r == contains_session(self@, entity),
    {
        let n = self.sessions.len();
        let mut i: usize = 0;
        while i < n
            invariant
                n == self@.len(),
                i <= n,
                forall|j: int| 0 <= j < i ==> self@[j].entity != entity,
            decreases n - i,
        {
            if self.sessions[i].entity == entity {
                return true;
            }
            i = i + 1;
        }
        false
    }

    /// A copy of the keep-alive tracker of `entity`, if it is live.
    pub fn keep_alive_of(&self, entity: u64) -> (r: Option<KeepAliveTracker>)
        requires
            self.wf(),
        ensures
            r is Some <==> contains_session(self@, entity),
            r matches Some(t) ==> t == self@[session_index(self@, entity)].keep_alive,
    {
        let n = self.sessions.len();
        let mut i: usize = 0;
        while i < n
            invariant
                self.wf(),
                n == self@.len(),
                i <= n,
                forall|j: int| 0 <= j < i ==> self@[j].entity != entity,
            decreases n - i,
        {
            if self.sessions[i].entity == entity {
                proof {
                    let k = session_index(self@, entity);
                    assert(self@[k].entity == entity);
                    assert(k == i as int);
                }
                return Some(self.sessions[i].keep_alive);
            }
            i = i + 1;
        }
        None
    }

    /// Whether the stream of `entity` is still marked running.
    pub fn running_of(&self, entity: u64) -> (r: Option<bool>)
        requires
            self.wf(),
        ensures
            r is Some <==> contains_session(self@, entity),
            r matches Some(b) ==> b == self@[session_index(self@, entity)].running,
    {
        let n = self.sessions.len();
        let mut i: usize = 0;
        while i < n
            invariant
                self.wf(),
                n == self@.len(),
                i <= n,
                forall|j: int| 0 <= j < i ==> self@[j].entity != entity,
            decreases n - i,
        {
            if self.sessions[i].entity == entity {
                proof {
                    let k = session_index(self@, entity);
                    assert(self@[k].entity == entity);
                    assert(k == i as int);
                }
                return Some(self.sessions[i].running);
            }
            i = i + 1;
        }
        None
    }

    /// Replaces the keep-alive tracker of `entity`, which must be live.
    pub fn set_keep_alive(&mut self, entity: u64, t: KeepAliveTracker)
        requires
            old(self).wf(),
            contains_session(old(self)@, entity),
            0 <= t.last_rtt_ms,
        ensures
            final(self).wf(),
            final(self).next_id() == old(self).next_id(),
            final(self)@ == old(self)@.update(
                session_index(old(self)@, entity),
                Session {
                    entity,
                    running: old(self)@[session_index(old(self)@, entity)].running,
                    keep_alive: t,
                },
            ),
    {
        let n = self.sessions.len();
        let mut i: usize = 0;
        while i < n
            invariant
                old(self).wf(),
                self == old(self),
                n == self@.len(),
                i <= n,
                forall|j: int| 0 <= j < i ==> self@[j].entity != entity,
                contains_session(old(self)@, entity),
                0 <= t.last_rtt_ms,
            decreases n - i,
        {
            if self.sessions[i].entity == entity {
                let running = self.sessions[i].running;
                self.sessions.set(i, Session { entity, running, keep_alive: t });
                proof {
                    let k = session_index(old(self)@, entity);
                    assert(old(self)@[k].entity == entity);
                    assert(k == i as int);
                }
                return ;
            }
            i = i + 1;
        }
        proof {
            let k = session_index(old(self)@, entity);
            assert(old(self)@[k].entity == entity);
            assert(false);
        }
    }

    /// Destroys the record of `entity`; a no-op when it is already gone.
    pub fn despawn(&mut self, entity: u64)
        requires
            old(self).wf(),
        ensures
            final(self).wf(),
            final(self).next_id() == old(self).next_id(),
            contains_session(old(self)@, entity) ==> final(self)@ == old(self)@.remove(
                session_index(old(self)@, entity),
            ),
            !contains_session(old(self)@, entity) ==> final(self)@ == old(self)@,
            !contains_session(final(self)@, entity),
    {
        let n = self.sessions.len();
        let mut i: usize = 0;
        while i < n
            invariant
                old(self).wf(),
                self == old(self),
                n == self@.len(),
                i <= n,
                forall|j: int| 0 <= j < i ==> self@[j].entity != entity,
            decreases n - i,
        {
            if self.sessions[i].entity == entity {
                self.sessions.remove(i);
                proof {
                    let k = session_index(old(self)@, entity);
                    assert(old(self)@[k].entity == entity);
                    assert(k == i as int);
                    let s1 = self@;
                    let s0 = old(self)@;
                    assert forall|a: int, b: int| 0 <= a < b < s1.len() implies s1[a].entity != s1[
                        b
                    ].entity by {
                        if b < i as int {
                        } else if a < i as int {
                            assert(s1[b] == s0[b + 1]);
                        } else {
                            assert(s1[a] == s0[a + 1]);
                            assert(s1[b] == s0[b + 1]);
                        }
                    };
                    assert forall|j: int| 0 <= j < s1.len() implies !(#[trigger] s1[j].entity
                        == entity) by {
                        if j < i as int {
                        } else {
                            assert(s1[j] == s0[j + 1]);
                        }
                    };
                }
                return ;
            }
            i = i + 1;
        }
    }
}

} // verus!
