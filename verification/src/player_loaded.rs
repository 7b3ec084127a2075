//! The roster synchronizer: when a client signals that it has finished
//! loading, it is validated against the registry, optionally told to
//! resynchronize its position (when the world says its head block is not
//! air), and sent one add-players message holding the whole roster — every
//! registered player including itself, each with its current latency and any
//! cached skin properties. This is the only point where a client receives the
//! full roster; every other update is incremental.

use vstd::prelude::*;

verus! {

use crate::sessions::{Session, Connections, contains_session, session_index};
use crate::registry::{PlayerRegistry, RegEntryV, contains_entity};
use crate::skins_cache::{SkinCache, SkinPropertiesV, get_skin};
use crate::player_info::{AddEntry, PlayerProperty, PlayerInfoPacketKind, PlayerInfoKindV,
    AddEntryV, message_bytes, wf_kind, wf_add_entry, wf_property, encode_full_packet};
use crate::new_connections::{skin_properties_of, textures_property_name};
use crate::wire::wf_string;
use crate::varint::VarInt;

/// The latency to report for an entity: its measured round-trip time, or 0
/// when no live session holds one.
pub open spec fn ping_of(sessions: Seq<Session>, e: u64) -> i32 {
    if contains_session(sessions, e) {
        sessions[session_index(sessions, e)].keep_alive.last_rtt_ms
    } else {
        0
    }
}

/// The roster entry built for one registry row: the registered identity, the
/// row's own latency, and any cached skin properties under the compact form
/// of its identifier.
pub open spec fn roster_entry_for(
    re: RegEntryV,
    sessions: Seq<Session>,
    cache: Map<i32, SkinPropertiesV>,
) -> AddEntryV {
    AddEntryV {
        uuid: re.uuid,
        name: re.name,
        properties: skin_properties_of(cache, #[verifier::truncate] (re.uuid as i32)),
        gamemode: 0,
        ping: ping_of(sessions, re.entity),
        display_name: None,
    }
}

/// One entry per registered player, in registry order.
pub open spec fn roster_entries(
    reg: Seq<RegEntryV>,
    sessions: Seq<Session>,
    cache: Map<i32, SkinPropertiesV>,
) -> Seq<AddEntryV> {
    reg.map_values(|re: RegEntryV| roster_entry_for(re, sessions, cache))
}

/// The full-roster snapshot covers every registered player exactly once, in
/// registry order, carrying that player's own identity and current latency.
pub proof fn lemma_loaded_roster_snapshot(
    reg: Seq<RegEntryV>,
    sessions: Seq<Session>,
    cache: Map<i32, SkinPropertiesV>,
)
    ensures
        roster_entries(reg, sessions, cache).len() == reg.len(),
        forall|i: int|
            0 <= i < reg.len() ==> #[trigger] roster_entries(reg, sessions, cache)[i]
                == roster_entry_for(reg[i], sessions, cache),
        forall|i: int|
            0 <= i < reg.len() ==> (#[trigger] roster_entries(reg, sessions, cache)[i]).ping
                == ping_of(sessions, reg[i].entity),
{
}

/// What the synchronizer decides for one finished-loading signal.
#[derive(Debug)]
pub struct LoadedOutcome {
    /// Whether the requester was still registered; when it is not, the event
    /// lost a race with disconnection and nothing is sent.
    pub connected: bool,
    /// Whether to send the requester a synchronize-position notice.
    pub sync_position: bool,
    /// The full-roster message to send to the requester only, when any player
    /// is registered.
    pub roster_message: Option<Vec<u8>>,
}

/// Decides the response to one finished-loading signal from `entity`.
/// `head_block` is the world's block at the player's head, or `None` when the
/// lookup failed; a non-air block (nonzero) triggers a position
/// resynchronization, and a failed lookup degrades to no teleport.
pub fn handle(
    entity: u64,
    head_block: Option<u32>,
    conns: &Connections,
    registry: &PlayerRegistry,
    cache: &SkinCache,
) -> (r: LoadedOutcome)
    requires
        conns.wf(),
        registry.wf(),
        cache.wf(),
        registry@.len() <= 0x7fffffff,
    ensures
        r.connected == contains_entity(registry@, entity),
        !r.connected ==> !r.sync_position && r.roster_message is None,
        r.connected ==> r.sync_position == (head_block matches Some(b) && b != 0),
        r.connected && registry@.len() == 0 ==> r.roster_message is None,
        r.connected && registry@.len() > 0 ==> (r.roster_message matches Some(bytes) && bytes@
            == message_bytes(PlayerInfoKindV::Add(roster_entries(registry@, conns@, cache@)))),
{
    if !registry.is_connected(entity) {
        return LoadedOutcome { connected: false, sync_position: false, roster_message: None };
    }
    let sync_position = match head_block {
        Some(b) => b != 0,
        None => false,
    };

    let rows = registry.snapshot();
    let ghost reg_view = registry@;
    let ghost target_entries = roster_entries(registry@, conns@, cache@);
    let mut entries: Vec<AddEntry> = Vec::new();
    let n = rows.len();
    let mut i: usize = 0;
    proof {
        assert(entries@.map_values(|e: AddEntry| e@) =~= target_entries.take(0));
    }
    while i < n
        invariant
            conns.wf(),
            registry.wf(),
            cache.wf(),
            n == rows@.len(),
            n == registry@.len(),
            i <= n,
            reg_view == registry@,
            target_entries == roster_entries(registry@, conns@, cache@),
            forall|j: int|
                0 <= j < n ==> #[trigger] registry@[j] == (RegEntryV {
                    entity: rows@[j].0,
                    uuid: rows@[j].1.0,
                    name: rows@[j].1.1@,
                }),
            entries@.map_values(|e: AddEntry| e@) == target_entries.take(i as int),
            forall|j: int|
                0 <= j < i ==> wf_add_entry(#[trigger] entries@[j]@),
        decreases n - i,
    {
        let row_entity = rows[i].0;
        let row_uuid = rows[i].1.0;
        let row_name = rows[i].1.1.clone();
        let ping = match conns.keep_alive_of(row_entity) {
            Some(t) => t.last_rtt_ms,
            None => 0,
        };
        let short: i32 = row_uuid as i32;
        let mut properties: Vec<PlayerProperty> = Vec::new();
        match get_skin(cache, short) {
            Some(sp) => {
                let is_signed = match &sp.signature {
                    Some(_) => true,
                    None => false,
                };
                let tex = "textures".to_owned();
                properties.push(
                    PlayerProperty { name: tex, value: sp.value, is_signed, signature: sp.signature },
                );
            },
            None => {},
        }
        let entry = AddEntry {
            uuid: row_uuid,
            name: row_name,
            properties,
            gamemode: VarInt::new(0),
            ping: VarInt::new(ping),
            display_name: None,
        };
        proof {
            crate::new_connections::lemma_textures_property_wf();
            let ev = entry@;
            let re = registry@[i as int];
            assert(ev.properties =~= skin_properties_of(
                cache@,
                #[verifier::truncate] (re.uuid as i32),
            ));
            assert(ev.ping == ping_of(conns@, re.entity));
            assert(ev == roster_entry_for(re, conns@, cache@));
            assert(0 <= ev.ping) by {
                if contains_session(conns@, re.entity) {
                }
            };
            assert forall|k: int| 0 <= k < ev.properties.len() implies wf_property(
                #[trigger] ev.properties[k],
            ) by {
                assert(ev.properties[k] == skin_properties_of(
                    cache@,
                    #[verifier::truncate] (re.uuid as i32),
                )[0]);
            };
            assert(wf_string(re.name));
            assert(wf_add_entry(ev));
        }
        let ghost pre = entries@;
        entries.push(entry);
        proof {
            let f = |e: AddEntry| e@;
            assert(entries@.map_values(f) =~= pre.map_values(f).push(
                roster_entry_for(registry@[i as int], conns@, cache@),
            ));
            assert(target_entries[i as int] == roster_entry_for(
                registry@[i as int],
                conns@,
                cache@,
            ));
            assert(target_entries.take(i as int + 1) =~= target_entries.take(i as int).push(
                target_entries[i as int],
            ));
        }
        i = i + 1;
    }
    proof {
        assert(target_entries.take(n as int) =~= target_entries);
    }
    if entries.len() == 0 {
        return LoadedOutcome { connected: true, sync_position, roster_message: None };
    }
    let kind = PlayerInfoPacketKind::Add(entries);
    proof {
        assert(kind@ matches PlayerInfoKindV::Add(es) && es == target_entries);
        assert(wf_kind(kind@));
    }
    let mut buf: Vec<u8> = Vec::new();
    encode_full_packet(&mut buf, &kind);
    proof {
        assert(buf@ =~= message_bytes(kind@));
    }
    LoadedOutcome { connected: true, sync_position, roster_message: Some(buf) }
}

} // verus!
