//! The disconnection processor: drains the disconnection queue completely,
//! notifies each departing client that is still running, broadcasts one
//! remove-player roster update to everyone else, and releases the entity's
//! server-side state. The queue may hold duplicates from racing producers; a
//! second occurrence of an already-destroyed entity is ignored.

use vstd::prelude::*;

verus! {

use crate::sessions::{Session, Connections, contains_session, session_index, distinct_entities};
use crate::registry::{PlayerRegistry, RegEntryV, contains_entity, entity_index};
use crate::queue::{DisconnectionQueue, DisconnectRequestV};
use crate::player_info::{RemoveEntry, PlayerInfoPacketKind, PlayerInfoKindV, message_bytes,
    wf_kind, encode_full_packet};
use crate::outbound::{Send, SendV, DisconnectNotice, DisconnectNoticeV};

/// The notice text used when a disconnect carries no reason.
pub open spec fn default_disconnect_reason() -> Seq<char> {
    "Disconnected"@
}

pub open spec fn reason_or_default(r: Option<Seq<char>>) -> Seq<char> {
    match r {
        Some(s) => s,
        None => default_disconnect_reason(),
    }
}

/// The given bytes for every session from position `i` on, in table order,
/// skipping the one session whose entity is `except`.
pub open spec fn broadcast_except_from(
    sessions: Seq<Session>,
    except: u64,
    bytes: Seq<u8>,
    i: int,
) -> Seq<SendV>
    decreases sessions.len() - i,
{
    if i < 0 || i >= sessions.len() {
        Seq::empty()
    } else {
        (if sessions[i].entity == except {
            Seq::<SendV>::empty()
        } else {
            seq![SendV { target: sessions[i].entity, bytes: bytes }]
        }) + broadcast_except_from(sessions, except, bytes, i + 1)
    }
}

pub ghost struct KillStepV {
    pub sessions: Seq<Session>,
    pub registry: Seq<RegEntryV>,
    pub notices: Seq<DisconnectNoticeV>,
    pub sends: Seq<SendV>,
}

/// What processing one queued disconnect does. An entity that is no longer
/// live changes nothing: destruction happens exactly once however often the
/// entity was queued. A live one is notified if its stream still runs, its
/// registered identifier is broadcast as a remove-player update to every
/// other session, and its session and registry row are released.
pub open spec fn kill_step(
    sessions: Seq<Session>,
    reg: Seq<RegEntryV>,
    item: DisconnectRequestV,
) -> KillStepV {
    if !contains_session(sessions, item.entity) {
        KillStepV { sessions, registry: reg, notices: Seq::empty(), sends: Seq::empty() }
    } else {
        let i = session_index(sessions, item.entity);
        let s = sessions[i];
        let notices = if s.running {
            seq![
                DisconnectNoticeV { target: item.entity, reason: reason_or_default(item.reason) },
            ]
        } else {
            Seq::<DisconnectNoticeV>::empty()
        };
        let sends = if contains_entity(reg, item.entity) {
            broadcast_except_from(
                sessions,
                item.entity,
                message_bytes(
                    PlayerInfoKindV::Remove(seq![reg[entity_index(reg, item.entity)].uuid]),
                ),
                0,
            )
        } else {
            Seq::<SendV>::empty()
        };
        let reg2 = if contains_entity(reg, item.entity) {
            reg.remove(entity_index(reg, item.entity))
        } else {
            reg
        };
        KillStepV { sessions: sessions.remove(i), registry: reg2, notices, sends }
    }
}

pub ghost struct KillFoldV {
    pub sessions: Seq<Session>,
    pub registry: Seq<RegEntryV>,
    pub notices: Seq<DisconnectNoticeV>,
    pub sends: Seq<SendV>,
}

/// A whole drained batch, oldest request first, outputs concatenated in order.
pub open spec fn kill_fold(
    sessions: Seq<Session>,
    reg: Seq<RegEntryV>,
    items: Seq<DisconnectRequestV>,
) -> KillFoldV
    decreases items.len(),
{
    if items.len() == 0 {
        KillFoldV { sessions, registry: reg, notices: Seq::empty(), sends: Seq::empty() }
    } else {
        let st = kill_step(sessions, reg, items[0]);
        let rest = kill_fold(st.sessions, st.registry, items.drop_first());
        KillFoldV {
            sessions: rest.sessions,
            registry: rest.registry,
            notices: st.notices + rest.notices,
            sends: st.sends + rest.sends,
        }
    }
}

/// Queuing the same entity twice disconnects it once: the second occurrence
/// finds the entity already destroyed and produces no notice, no broadcast
/// and no state change, whatever reason it carries.
pub proof fn lemma_disconnection_idempotent(
    sessions: Seq<Session>,
    reg: Seq<RegEntryV>,
    e: u64,
    r1: Option<Seq<char>>,
    r2: Option<Seq<char>>,
)
    requires
        distinct_entities(sessions),
    ensures
        ({
            let once = kill_fold(sessions, reg, seq![DisconnectRequestV { entity: e, reason: r1 }]);
            let twice = kill_fold(
                sessions,
                reg,
                seq![
                    DisconnectRequestV { entity: e, reason: r1 },
                    DisconnectRequestV { entity: e, reason: r2 },
                ],
            );
            &&& twice.sessions == once.sessions
            &&& twice.registry == once.registry
            &&& twice.notices == once.notices
            &&& twice.sends == once.sends
        }),
{
    let item1 = DisconnectRequestV { entity: e, reason: r1 };
    let item2 = DisconnectRequestV { entity: e, reason: r2 };
    let st = kill_step(sessions, reg, item1);
    assert(seq![item1, item2].drop_first() =~= seq![item2]);
    assert(seq![item1].drop_first() =~= Seq::<DisconnectRequestV>::empty());
    if contains_session(sessions, e) {
        let i = session_index(sessions, e);
        assert(sessions[i].entity == e);
        let s1 = sessions.remove(i);
        assert forall|j: int| 0 <= j < s1.len() implies !(#[trigger] s1[j].entity == e) by {
            if j < i {
            } else {
                assert(s1[j] == sessions[j + 1]);
            }
        };
        assert(!contains_session(st.sessions, e));
    }
    reveal_with_fuel(kill_fold, 4);
    let once = kill_fold(sessions, reg, seq![item1]);
    let twice = kill_fold(sessions, reg, seq![item1, item2]);
    assert(once.notices =~= st.notices);
    assert(once.sends =~= st.sends);
    assert(twice.notices =~= st.notices);
    assert(twice.sends =~= st.sends);
}

/// Drains the disconnection queue entirely, exactly as [`kill_fold`]
/// describes over the queue's contents at entry, and returns the disconnect
/// notices and remove-player broadcasts to perform, in order.
pub fn connection_killer(
    conns: &mut Connections,
    registry: &mut PlayerRegistry,
    queue: &mut DisconnectionQueue,
) -> (r: (Vec<DisconnectNotice>, Vec<Send>))
    requires
        old(conns).wf(),
        old(registry).wf(),
    ensures
        final(conns).wf(),
        final(registry).wf(),
        final(conns).next_id() == old(conns).next_id(),
        final(queue)@.len() == 0,
        ({
            let total = kill_fold(old(conns)@, old(registry)@, old(queue)@);
            &&& final(conns)@ == total.sessions
            &&& final(registry)@ == total.registry
            &&& r.0@.map_values(|n: DisconnectNotice| n@) == total.notices
            &&& r.1@.map_values(|s: Send| s@) == total.sends
        }),
{
    let ghost total = kill_fold(old(conns)@, old(registry)@, old(queue)@);
    let mut notices: Vec<DisconnectNotice> = Vec::new();
    let mut sends: Vec<Send> = Vec::new();
    proof {
        let fn_n = |n: DisconnectNotice| n@;
        let fn_s = |s: Send| s@;
        assert(notices@.map_values(fn_n) + kill_fold(conns@, registry@, queue@).notices
            =~= total.notices);
        assert(sends@.map_values(fn_s) + kill_fold(conns@, registry@, queue@).sends
            =~= total.sends);
    }
    while !queue.is_empty()
        invariant
            conns.wf(),
            registry.wf(),
            conns.next_id() == old(conns).next_id(),
            ({
                let rem = kill_fold(conns@, registry@, queue@);
                &&& total.sessions == rem.sessions
                &&& total.registry == rem.registry
                &&& total.notices == notices@.map_values(|n: DisconnectNotice| n@) + rem.notices
                &&& total.sends == sends@.map_values(|s: Send| s@) + rem.sends
            }),
        decreases queue@.len(),
    {
        let ghost pre_sessions = conns@;
        let ghost pre_reg = registry@;
        let ghost pre_queue = queue@;
        let ghost pre_notices = notices@;
        let ghost pre_sends = sends@;
        match queue.pop() {
            None => {
                proof {
                    assert(false);
                }
            },
            Some(req) => {
                let ghost st = kill_step(pre_sessions, pre_reg, req@);
                let entity = req.entity;
                if conns.contains(entity) {
                    // notify the departing client, only while its stream runs
                    match conns.running_of(entity) {
                        Some(true) => {
                            let reason = match req.reason {
                                Some(r) => r,
                                None => "Disconnected".to_owned(),
                            };
                            notices.push(DisconnectNotice { target: entity, reason });
                        },
                        _ => {},
                    }
                    // broadcast the removal to everyone else, looked up before
                    // the registry row goes away
                    match registry.get(entity) {
                        Some((uuid, _name)) => {
                            let mut entries: Vec<RemoveEntry> = Vec::new();
                            entries.push(RemoveEntry { uuid });
                            let kind = PlayerInfoPacketKind::Remove(entries);
                            proof {
                                assert(kind@ matches PlayerInfoKindV::Remove(es) && es =~= seq![
                                    pre_reg[entity_index(pre_reg, entity)].uuid,
                                ]);
                            }
                            let ghost bytes_spec = message_bytes(kind@);
                            let n = conns.len();
                            let mut i: usize = 0;
                            while i < n
                                invariant
                                    conns.wf(),
                                    conns@ == pre_sessions,
                                    n == conns@.len(),
                                    i <= n,
                                    wf_kind(kind@),
                                    message_bytes(kind@) == bytes_spec,
                                    sends@.map_values(|s: Send| s@) + broadcast_except_from(
                                        pre_sessions,
                                        entity,
                                        bytes_spec,
                                        i as int,
                                    ) == pre_sends.map_values(|s: Send| s@)
                                        + broadcast_except_from(
                                        pre_sessions,
                                        entity,
                                        bytes_spec,
                                        0,
                                    ),
                                decreases n - i,
                            {
                                let target = conns.get_at(i).entity;
                                let ghost mid_sends = sends@;
                                if target != entity {
                                    let mut buf: Vec<u8> = Vec::new();
                                    encode_full_packet(&mut buf, &kind);
                                    sends.push(Send { target, bytes: buf });
                                    proof {
                                        let f = |s: Send| s@;
                                        assert(sends@.map_values(f) =~= mid_sends.map_values(
                                            f,
                                        ).push(SendV { target, bytes: bytes_spec }));
                                        assert(mid_sends.map_values(f).push(
                                            SendV { target, bytes: bytes_spec },
                                        ) + broadcast_except_from(
                                            pre_sessions,
                                            entity,
                                            bytes_spec,
                                            i as int + 1,
                                        ) =~= mid_sends.map_values(f) + broadcast_except_from(
                                            pre_sessions,
                                            entity,
                                            bytes_spec,
                                            i as int,
                                        ));
                                    }
                                } else {
                                    proof {
                                        let f = |s: Send| s@;
                                        assert(mid_sends.map_values(f) + broadcast_except_from(
                                            pre_sessions,
                                            entity,
                                            bytes_spec,
                                            i as int + 1,
                                        ) =~= mid_sends.map_values(f) + broadcast_except_from(
                                            pre_sessions,
                                            entity,
                                            bytes_spec,
                                            i as int,
                                        ));
                                    }
                                }
                                i = i + 1;
                            }
                            proof {
                                assert(broadcast_except_from(
                                    pre_sessions,
                                    entity,
                                    bytes_spec,
                                    n as int,
                                ) =~= Seq::<SendV>::empty());
                                let f = |s: Send| s@;
                                assert(sends@.map_values(f) + Seq::<SendV>::empty()
                                    =~= sends@.map_values(f));
                            }
                        },
                        None => {},
                    }
                    // release the registry row and the session, exactly once
                    registry.remove(entity);
                    conns.despawn(entity);
                }
                proof {
                    let fn_n = |n2: DisconnectNotice| n2@;
                    let fn_s = |s2: Send| s2@;
                    assert(pre_queue[0] == req@);
                    assert(queue@ =~= pre_queue.drop_first());
                    assert(conns@ == st.sessions);
                    assert(registry@ == st.registry);
                    assert(notices@.map_values(fn_n) =~= pre_notices.map_values(fn_n)
                        + st.notices);
                    assert(sends@.map_values(fn_s) =~= pre_sends.map_values(fn_s) + st.sends);
                    let rem2 = kill_fold(conns@, registry@, queue@);
                    assert(pre_notices.map_values(fn_n) + (st.notices + rem2.notices)
                        =~= notices@.map_values(fn_n) + rem2.notices);
                    assert(pre_sends.map_values(fn_s) + (st.sends + rem2.sends)
                        =~= sends@.map_values(fn_s) + rem2.sends);
                }
            },
        }
    }
    proof {
        let fn_n = |n: DisconnectNotice| n@;
        let fn_s = |s: Send| s@;
        assert(total.notices =~= notices@.map_values(fn_n) + Seq::<DisconnectNoticeV>::empty());
        assert(total.notices =~= notices@.map_values(fn_n));
        assert(total.sends =~= sends@.map_values(fn_s) + Seq::<SendV>::empty());
        assert(total.sends =~= sends@.map_values(fn_s));
    }
    (notices, sends)
}

} // verus!
