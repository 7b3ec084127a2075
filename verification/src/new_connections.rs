//! Connection admission: materializes server-side state for each pending
//! connection, registers it in the player registry, and broadcasts one
//! add-player roster update to every pre-existing connection. The newly
//! admitted player is sent nothing here; it receives the full roster later,
//! when it signals that it has finished loading.

use vstd::prelude::*;

verus! {

use crate::keepalive::fresh_tracker;
use crate::sessions::{Session, Connections};
use crate::registry::{PlayerRegistry, RegEntryV, contains_entity};
use crate::skins_cache::{SkinCache, SkinPropertiesV, get_skin};
use crate::player_info::{AddEntry, PlayerProperty, PlayerInfoPacketKind, PlayerInfoKindV,
    AddEntryV, PropertyV, message_bytes, wf_kind, wf_add_entry, wf_property, encode_full_packet};
use crate::outbound::{Send, SendV};
use crate::wire::{wf_string, lemma_ascii_wf_string};
use crate::varint::VarInt;

/// One pre-authenticated connection waiting for admission, as the I/O layer
/// hands it over: the identity and the compact identifier the skin cache is
/// keyed by. The stream handle and the reply channel stay with the caller.
#[derive(Debug)]
pub struct NewConnection {
    pub uuid: u128,
    pub username: String,
    pub short_uuid: i32,
}

pub ghost struct NewConnectionV {
    pub uuid: u128,
    pub username: Seq<char>,
    pub short_uuid: i32,
}

impl View for NewConnection {
    type V = NewConnectionV;

    open spec fn view(&self) -> NewConnectionV {
        NewConnectionV { uuid: self.uuid, username: self.username@, short_uuid: self.short_uuid }
    }
}

/// The batch of connections accepted since the last tick.
#[derive(Debug)]
pub struct NewConnectionRecv(pub Vec<NewConnection>);

/// What admitting one connection produced: the assigned entity, to report
/// back to the originating I/O thread, and the add-player broadcast for every
/// pre-existing connection.
#[derive(Debug)]
pub struct AdmissionResult {
    pub entity: u64,
    pub sends: Vec<Send>,
}

pub ghost struct AdmissionResultV {
    pub entity: u64,
    pub sends: Seq<SendV>,
}

impl View for AdmissionResult {
    type V = AdmissionResultV;

    open spec fn view(&self) -> AdmissionResultV {
        AdmissionResultV {
            entity: self.entity,
            sends: self.sends@.map_values(|s: Send| s@),
        }
    }
}

/// The property name cosmetic texture data travels under.
pub open spec fn textures_property_name() -> Seq<char> {
    "textures"@
}

/// The cosmetic properties attached to a roster entry: the cached skin for
/// `key`, or nothing.
pub open spec fn skin_properties_of(cache: Map<i32, SkinPropertiesV>, key: i32) -> Seq<PropertyV> {
    if cache.contains_key(key) {
        seq![
            PropertyV {
                name: textures_property_name(),
                value: cache[key].value,
                is_signed: cache[key].signature is Some,
                signature: cache[key].signature,
            },
        ]
    } else {
        Seq::empty()
    }
}

/// The add-player entry broadcast for a newly admitted connection: cached
/// skin properties, gamemode 0, and ping 0 until a round trip is measured.
pub open spec fn admission_entry(c: NewConnectionV, cache: Map<i32, SkinPropertiesV>) -> AddEntryV {
    AddEntryV {
        uuid: c.uuid,
        name: c.username,
        properties: skin_properties_of(cache, c.short_uuid),
        gamemode: 0,
        ping: 0,
        display_name: None,
    }
}

/// The same bytes handed to every listed session, in table order.
pub open spec fn broadcast_to(sessions: Seq<Session>, bytes: Seq<u8>) -> Seq<SendV> {
    sessions.map_values(|s: Session| SendV { target: s.entity, bytes: bytes })
}

/// Registry rows only name entities the session table has allocated.
pub open spec fn reg_entities_bounded(reg: Seq<RegEntryV>, next: u64) -> bool {
    forall|i: int| 0 <= i < reg.len() ==> (#[trigger] reg[i].entity) < next
}

pub ghost struct AdmissionStepV {
    pub sessions: Seq<Session>,
    pub next: u64,
    pub registry: Seq<RegEntryV>,
    pub result: AdmissionResultV,
}

/// What admitting one connection does: a fresh entity with a fresh tracker, a
/// whole registry row, and one add-player send to each pre-existing session.
pub open spec fn admit_step(
    sessions: Seq<Session>,
    next: u64,
    reg: Seq<RegEntryV>,
    cache: Map<i32, SkinPropertiesV>,
    c: NewConnectionV,
    now: u64,
) -> AdmissionStepV {
    let entity = next;
    let bytes = message_bytes(PlayerInfoKindV::Add(seq![admission_entry(c, cache)]));
    AdmissionStepV {
        sessions: sessions.push(Session { entity, running: true, keep_alive: fresh_tracker(now) }),
        next: (next + 1) as u64,
        registry: reg.push(RegEntryV { entity, uuid: c.uuid, name: c.username }),
        result: AdmissionResultV { entity, sends: broadcast_to(sessions, bytes) },
    }
}

/// A whole batch of admissions, oldest first.
pub open spec fn admit_fold(
    sessions: Seq<Session>,
    next: u64,
    reg: Seq<RegEntryV>,
    cache: Map<i32, SkinPropertiesV>,
    cs: Seq<NewConnectionV>,
    now: u64,
) -> (Seq<Session>, u64, Seq<RegEntryV>, Seq<AdmissionResultV>)
    decreases cs.len(),
{
    if cs.len() == 0 {
        (sessions, next, reg, Seq::empty())
    } else {
        let st = admit_step(sessions, next, reg, cache, cs[0], now);
        let rest = admit_fold(st.sessions, st.next, st.registry, cache, cs.drop_first(), now);
        (rest.0, rest.1, rest.2, seq![st.result] + rest.3)
    }
}

/// Admitting a connection broadcasts exactly one add-player message to each
/// pre-existing connection — the same bytes, carrying the one entry for the
/// newcomer — and nothing to the newcomer itself, whose entity identifier is
/// fresh.
pub proof fn lemma_admission_broadcast(
    sessions: Seq<Session>,
    next: u64,
    reg: Seq<RegEntryV>,
    cache: Map<i32, SkinPropertiesV>,
    c: NewConnectionV,
    now: u64,
)
    requires
        forall|i: int| 0 <= i < sessions.len() ==> (#[trigger] sessions[i].entity) < next,
    ensures
        ({
            let st = admit_step(sessions, next, reg, cache, c, now);
            let bytes = message_bytes(PlayerInfoKindV::Add(seq![admission_entry(c, cache)]));
            &&& st.result.entity == next
            &&& st.result.sends.len() == sessions.len()
            &&& forall|i: int|
                0 <= i < sessions.len() ==> #[trigger] st.result.sends[i] == (SendV {
                    target: sessions[i].entity,
                    bytes: bytes,
                })
            &&& forall|i: int|
                0 <= i < st.result.sends.len() ==> (#[trigger] st.result.sends[i]).target
                    != st.result.entity
        }),
{
}

pub proof fn lemma_textures_property_wf()
    ensures
        wf_string(textures_property_name()),
{
    let s = textures_property_name();
    reveal_strlit("textures");
    assert(s.len() == 8);
    assert forall|i: int| 0 <= i < s.len() implies '\0' <= #[trigger] s[i] <= '\u{7f}' by {
        assert(s[0] == 't');
        assert(s[1] == 'e');
        assert(s[2] == 'x');
        assert(s[3] == 't');
        assert(s[4] == 'u');
        assert(s[5] == 'r');
        assert(s[6] == 'e');
        assert(s[7] == 's');
    };
    lemma_ascii_wf_string(s);
}

/// Admits one connection, exactly as [`admit_step`] describes: spawns the
/// entity, registers the identity whole, and returns the entity to report
/// back together with one add-player send per pre-existing connection.
pub fn admit_connection(
    conns: &mut Connections,
    registry: &mut PlayerRegistry,
    cache: &SkinCache,
    conn: NewConnection,
    now_ms: u64,
) -> (r: AdmissionResult)
    requires
        old(conns).wf(),
        old(registry).wf(),
        cache.wf(),
        wf_string(conn.username@),
        old(conns).next_id() < u64::MAX,
        reg_entities_bounded(old(registry)@, old(conns).next_id()),
    ensures
        final(conns).wf(),
        final(registry).wf(),
        reg_entities_bounded(final(registry)@, final(conns).next_id()),
        ({
            let st = admit_step(
                old(conns)@,
                old(conns).next_id(),
                old(registry)@,
                cache@,
                conn@,
                now_ms,
            );
            &&& final(conns)@ == st.sessions
            &&& final(conns).next_id() == st.next
            &&& final(registry)@ == st.registry
            &&& r@ == st.result
        }),
{
    let ghost old_sessions = conns@;
    let ghost conn_view = conn@;
    let peer_count = conns.len();
    let entity = conns.spawn(now_ms);
    proof {
        if contains_entity(registry@, entity) {
            let k = choose|k: int| 0 <= k < registry@.len() && registry@[k].entity == entity;
            assert(registry@[k].entity < entity);
        }
    }
    registry.insert(entity, conn.uuid, conn.username.clone());

    let mut properties: Vec<PlayerProperty> = Vec::new();
    match get_skin(cache, conn.short_uuid) {
        Some(sp) => {
            let is_signed = match &sp.signature {
                Some(_) => true,
                None => false,
            };
            let tex = "textures".to_owned();
            properties.push(
                PlayerProperty { name: tex, value: sp.value, is_signed, signature: sp.signature },
            );
        },
        None => {},
    }
    let entry = AddEntry {
        uuid: conn.uuid,
        name: conn.username,
        properties,
        gamemode: VarInt::new(0),
        ping: VarInt::new(0),
        display_name: None,
    };
    proof {
        lemma_textures_property_wf();
        let ev = entry@;
        assert(ev.properties =~= skin_properties_of(cache@, conn_view.short_uuid));
        assert(ev == admission_entry(conn_view, cache@));
        assert forall|i: int| 0 <= i < ev.properties.len() implies wf_property(
            #[trigger] ev.properties[i],
        ) by {
            assert(ev.properties[i] == skin_properties_of(cache@, conn_view.short_uuid)[0]);
        };
        assert(wf_add_entry(ev));
    }
    let mut entries: Vec<AddEntry> = Vec::new();
    entries.push(entry);
    let kind = PlayerInfoPacketKind::Add(entries);
    proof {
        assert(kind@ matches PlayerInfoKindV::Add(es) && es =~= seq![
            admission_entry(conn_view, cache@),
        ]);
        assert(wf_kind(kind@));
    }
    let ghost bytes_spec = message_bytes(
        PlayerInfoKindV::Add(seq![admission_entry(conn_view, cache@)]),
    );

    let mut sends: Vec<Send> = Vec::new();
    let mut i: usize = 0;
    proof {
        assert(sends@.map_values(|s: Send| s@) =~= broadcast_to(old_sessions.take(0), bytes_spec));
    }
    while i < peer_count
        invariant
            conns.wf(),
            conns@ == old_sessions.push(
                Session {
                    entity,
                    running: true,
                    keep_alive: conns@.last().keep_alive,
                },
            ),
            peer_count == old_sessions.len(),
            i <= peer_count,
            wf_kind(kind@),
            kind@ matches PlayerInfoKindV::Add(es) && message_bytes(kind@) == bytes_spec,
            sends@.map_values(|s: Send| s@) == broadcast_to(old_sessions.take(i as int), bytes_spec),
        decreases peer_count - i,
    {
        let target = conns.get_at(i).entity;
        let mut buf: Vec<u8> = Vec::new();
        encode_full_packet(&mut buf, &kind);
        let ghost pre = sends@;
        sends.push(Send { target, bytes: buf });
        proof {
            assert(conns@[i as int] == old_sessions[i as int]);
            let f = |s: Send| s@;
            assert(sends@.map_values(f) =~= pre.map_values(f).push(
                SendV { target: old_sessions[i as int].entity, bytes: bytes_spec },
            ));
            assert(broadcast_to(old_sessions.take(i as int + 1), bytes_spec) =~= broadcast_to(
                old_sessions.take(i as int),
                bytes_spec,
            ).push(SendV { target: old_sessions[i as int].entity, bytes: bytes_spec }));
        }
        i = i + 1;
    }
    proof {
        assert(old_sessions.take(peer_count as int) =~= old_sessions);
    }
    let r = AdmissionResult { entity, sends };
    proof {
        let st = admit_step(old_sessions, entity, old(registry)@, cache@, conn_view, now_ms);
        assert(r@.sends =~= st.result.sends);
        assert(final(conns)@ =~= st.sessions);
        assert(final(registry)@ =~= st.registry);
    }
    r
}

/// Drains a batch of pending connections, admitting each in arrival order,
/// exactly as [`admit_fold`] describes.
pub fn accept_new_connections(
    conns: &mut Connections,
    registry: &mut PlayerRegistry,
    cache: &SkinCache,
    pending: Vec<NewConnection>,
    now_ms: u64,
) -> (r: Vec<AdmissionResult>)
    requires
        old(conns).wf(),
        old(registry).wf(),
        cache.wf(),
        forall|i: int| 0 <= i < pending@.len() ==> wf_string(#[trigger] pending@[i]@.username),
        old(conns).next_id() + pending@.len() <= u64::MAX,
        reg_entities_bounded(old(registry)@, old(conns).next_id()),
    ensures
        final(conns).wf(),
        final(registry).wf(),
        reg_entities_bounded(final(registry)@, final(conns).next_id()),
        ({
            let total = admit_fold(
                old(conns)@,
                old(conns).next_id(),
                old(registry)@,
                cache@,
                pending@.map_values(|c: NewConnection| c@),
                now_ms,
            );
            &&& final(conns)@ == total.0
            &&& final(conns).next_id() == total.1
            &&& final(registry)@ == total.2
            &&& r@.map_values(|a: AdmissionResult| a@) == total.3
        }),
{
    let ghost all = pending@.map_values(|c: NewConnection| c@);
    let ghost total = admit_fold(
        old(conns)@,
        old(conns).next_id(),
        old(registry)@,
        cache@,
        all,
        now_ms,
    );
    let mut pending = pending;
    let mut results: Vec<AdmissionResult> = Vec::new();
    proof {
        assert(pending@.map_values(|c: NewConnection| c@) =~= all);
        assert(results@.map_values(|a: AdmissionResult| a@) + admit_fold(
            conns@,
            conns.next_id(),
            registry@,
            cache@,
            all,
            now_ms,
        ).3 =~= total.3);
    }
    while pending.len() > 0
        invariant
            conns.wf(),
            registry.wf(),
            cache.wf(),
            reg_entities_bounded(registry@, conns.next_id()),
            conns.next_id() + pending@.len() <= u64::MAX,
            forall|i: int| 0 <= i < pending@.len() ==> wf_string(#[trigger] pending@[i]@.username),
            ({
                let rem = admit_fold(
                    conns@,
                    conns.next_id(),
                    registry@,
                    cache@,
                    pending@.map_values(|c: NewConnection| c@),
                    now_ms,
                );
                &&& total.0 == rem.0
                &&& total.1 == rem.1
                &&& total.2 == rem.2
                &&& total.3 == results@.map_values(|a: AdmissionResult| a@) + rem.3
            }),
        decreases pending@.len(),
    {
        let ghost pre_remaining = pending@.map_values(|c: NewConnection| c@);
        let ghost pre_results = results@;
        let conn = pending.remove(0);
        let ghost cv = conn@;
        let res = admit_connection(conns, registry, cache, conn, now_ms);
        results.push(res);
        proof {
            let f = |c: NewConnection| c@;
            let g = |a: AdmissionResult| a@;
            assert(pre_remaining[0] == cv);
            assert(pending@.map_values(f) =~= pre_remaining.drop_first());
            assert(results@.map_values(g) =~= pre_results.map_values(g).push(res@));
            let rem2 = admit_fold(
                conns@,
                conns.next_id(),
                registry@,
                cache@,
                pre_remaining.drop_first(),
                now_ms,
            );
            assert(pre_results.map_values(g) + (seq![res@] + rem2.3) =~= results@.map_values(g)
                + rem2.3);
        }
    }
    proof {
        assert(pending@.map_values(|c: NewConnection| c@) =~= Seq::<NewConnectionV>::empty());
        assert(results@.map_values(|a: AdmissionResult| a@) + Seq::<AdmissionResultV>::empty()
            =~= results@.map_values(|a: AdmissionResult| a@));
    }
    results
}

} // verus!
