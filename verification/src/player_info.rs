//! The roster-update wire message. One message carries one action kind — add
//! players, update their latency, or remove them — a count, and that many
//! entries. Field order is fixed; see the spec functions for the exact bytes.

use vstd::prelude::*;

verus! {

use crate::varint::{VarInt, varint_bytes, encode_varint_u32};
use crate::wire::{be_bytes, bool_bytes, string_bytes, wf_string, encode_u128_be, encode_bool,
    encode_string};
use crate::skins_cache::{SkinCache, get_skin};

/// One cosmetic property of a roster entry. When `is_signed` is set the wire
/// carries a signature string; a missing signature is written as an empty
/// string so the field order never changes.
#[derive(Debug)]
pub struct PlayerProperty {
    pub name: String,
    pub value: String,
    pub is_signed: bool,
    pub signature: Option<String>,
}

pub ghost struct PropertyV {
    pub name: Seq<char>,
    pub value: Seq<char>,
    pub is_signed: bool,
    pub signature: Option<Seq<char>>,
}

impl View for PlayerProperty {
    type V = PropertyV;

    open spec fn view(&self) -> PropertyV {
        PropertyV {
            name: self.name@,
            value: self.value@,
            is_signed: self.is_signed,
            signature: match self.signature {
                Some(s) => Some(s@),
                None => None,
            },
        }
    }
}

/// One added player: identity, display name, cosmetic properties, gamemode,
/// latency, and an optional display override.
#[derive(Debug)]
pub struct AddEntry {
    pub uuid: u128,
    pub name: String,
    pub properties: Vec<PlayerProperty>,
    pub gamemode: VarInt,
    pub ping: VarInt,
    pub display_name: Option<String>,
}

pub ghost struct AddEntryV {
    pub uuid: u128,
    pub name: Seq<char>,
    pub properties: Seq<PropertyV>,
    pub gamemode: i32,
    pub ping: i32,
    pub display_name: Option<Seq<char>>,
}

impl View for AddEntry {
    type V = AddEntryV;

    open spec fn view(&self) -> AddEntryV {
        AddEntryV {
            uuid: self.uuid,
            name: self.name@,
            properties: self.properties@.map_values(|p: PlayerProperty| p@),
            gamemode: self.gamemode.val,
            ping: self.ping.val,
            display_name: match self.display_name {
                Some(s) => Some(s@),
                None => None,
            },
        }
    }
}

#[derive(Debug)]
pub struct UpdateLatencyEntry {
    pub uuid: u128,
    pub ping: VarInt,
}

pub ghost struct UpdateLatencyV {
    pub uuid: u128,
    pub ping: i32,
}

impl View for UpdateLatencyEntry {
    type V = UpdateLatencyV;

    open spec fn view(&self) -> UpdateLatencyV {
        UpdateLatencyV { uuid: self.uuid, ping: self.ping.val }
    }
}

#[derive(Debug)]
pub struct RemoveEntry {
    pub uuid: u128,
}

impl View for RemoveEntry {
    type V = u128;

    open spec fn view(&self) -> u128 {
        self.uuid
    }
}

/// The three roster actions a message can carry.
#[derive(Debug)]
pub enum PlayerInfoPacketKind {
    Add(Vec<AddEntry>),
    UpdateLatency(Vec<UpdateLatencyEntry>),
    Remove(Vec<RemoveEntry>),
}

pub ghost enum PlayerInfoKindV {
    Add(Seq<AddEntryV>),
    UpdateLatency(Seq<UpdateLatencyV>),
    Remove(Seq<u128>),
}

impl View for PlayerInfoPacketKind {
    type V = PlayerInfoKindV;

    open spec fn view(&self) -> PlayerInfoKindV {
        match self {
            PlayerInfoPacketKind::Add(es) => PlayerInfoKindV::Add(
                es@.map_values(|e: AddEntry| e@),
            ),
            PlayerInfoPacketKind::UpdateLatency(es) => PlayerInfoKindV::UpdateLatency(
                es@.map_values(|e: UpdateLatencyEntry| e@),
            ),
            PlayerInfoPacketKind::Remove(es) => PlayerInfoKindV::Remove(
                es@.map_values(|e: RemoveEntry| e@),
            ),
        }
    }
}

/// The signature to write for a signed property: the stored one, or the empty
/// string when none was supplied.
pub open spec fn sig_or_empty(sig: Option<Seq<char>>) -> Seq<char> {
    match sig {
        Some(s) => s,
        None => Seq::empty(),
    }
}

pub open spec fn property_bytes(p: PropertyV) -> Seq<u8> {
    string_bytes(p.name) + string_bytes(p.value) + bool_bytes(p.is_signed) + if p.is_signed {
        string_bytes(sig_or_empty(p.signature))
    } else {
        Seq::<u8>::empty()
    }
}

pub open spec fn properties_bytes(ps: Seq<PropertyV>) -> Seq<u8>
    decreases ps.len(),
{
    if ps.len() == 0 {
        Seq::empty()
    } else {
        property_bytes(ps[0]) + properties_bytes(ps.drop_first())
    }
}

pub open spec fn opt_string_bytes(d: Option<Seq<char>>) -> Seq<u8> {
    match d {
        Some(s) => bool_bytes(true) + string_bytes(s),
        None => bool_bytes(false),
    }
}

pub open spec fn add_entry_bytes(e: AddEntryV) -> Seq<u8> {
    be_bytes(e.uuid as nat, 16) + string_bytes(e.name) + varint_bytes(e.properties.len())
        + properties_bytes(e.properties) + varint_bytes(e.gamemode as nat) + varint_bytes(
        e.ping as nat,
    ) + opt_string_bytes(e.display_name)
}

pub open spec fn add_entries_bytes(es: Seq<AddEntryV>) -> Seq<u8>
    decreases es.len(),
{
    if es.len() == 0 {
        Seq::empty()
    } else {
        add_entry_bytes(es[0]) + add_entries_bytes(es.drop_first())
    }
}

pub open spec fn latency_entry_bytes(e: UpdateLatencyV) -> Seq<u8> {
    be_bytes(e.uuid as nat, 16) + varint_bytes(e.ping as nat)
}

pub open spec fn latency_entries_bytes(es: Seq<UpdateLatencyV>) -> Seq<u8>
    decreases es.len(),
{
    if es.len() == 0 {
        Seq::empty()
    } else {
        latency_entry_bytes(es[0]) + latency_entries_bytes(es.drop_first())
    }
}

pub open spec fn remove_entries_bytes(es: Seq<u128>) -> Seq<u8>
    decreases es.len(),
{
    if es.len() == 0 {
        Seq::empty()
    } else {
        be_bytes(es[0] as nat, 16) + remove_entries_bytes(es.drop_first())
    }
}

/// The whole message body: discriminant, entry count, then the entries.
pub open spec fn message_bytes(k: PlayerInfoKindV) -> Seq<u8> {
    match k {
        PlayerInfoKindV::Add(es) => varint_bytes(0) + varint_bytes(es.len()) + add_entries_bytes(
            es,
        ),
        PlayerInfoKindV::UpdateLatency(es) => varint_bytes(2) + varint_bytes(es.len())
            + latency_entries_bytes(es),
        PlayerInfoKindV::Remove(es) => varint_bytes(4) + varint_bytes(es.len())
            + remove_entries_bytes(es),
    }
}

/// The numeric id this packet carries on the wire.
pub const PLAYER_INFO_PACKET_ID: u32 = 63;

/// A full packet: the packet id, then the message body.
pub open spec fn full_packet_bytes(k: PlayerInfoKindV) -> Seq<u8> {
    varint_bytes(PLAYER_INFO_PACKET_ID as nat) + message_bytes(k)
}

pub open spec fn wf_property(p: PropertyV) -> bool {
    &&& wf_string(p.name)
    &&& wf_string(p.value)
    &&& p.is_signed ==> wf_string(sig_or_empty(p.signature))
}

pub open spec fn wf_add_entry(e: AddEntryV) -> bool {
    &&& wf_string(e.name)
    &&& e.properties.len() <= 0x7fffffff
    &&& forall|i: int| 0 <= i < e.properties.len() ==> wf_property(#[trigger] e.properties[i])
    &&& 0 <= e.gamemode
    &&& 0 <= e.ping
    &&& match e.display_name {
        Some(d) => wf_string(d),
        None => true,
    }
}

/// What the encoder asks of a message: counts fit the wire's signed 32-bit
/// fields and latency/gamemode values are the non-negative ones the protocol
/// produces.
pub open spec fn wf_kind(k: PlayerInfoKindV) -> bool {
    match k {
        PlayerInfoKindV::Add(es) => es.len() <= 0x7fffffff && forall|i: int|
            0 <= i < es.len() ==> wf_add_entry(#[trigger] es[i]),
        PlayerInfoKindV::UpdateLatency(es) => es.len() <= 0x7fffffff && forall|i: int|
            0 <= i < es.len() ==> 0 <= #[trigger] es[i].ping,
        PlayerInfoKindV::Remove(es) => es.len() <= 0x7fffffff,
    }
}

impl PlayerProperty {
    /// Appends this property's wire form: name, value, the signed flag, and
    /// the signature only when the flag is set.
    pub fn encode(&self, out: &mut Vec<u8>)
        requires
            wf_property(self@),
        ensures
            final(out)@ == old(out)@ + property_bytes(self@),
    {
        encode_string(self.name.as_str(), out);
        encode_string(self.value.as_str(), out);
        encode_bool(self.is_signed, out);
        if self.is_signed {
            match &self.signature {
                Some(sig) => {
                    encode_string(sig.as_str(), out);
                },
                None => {
                    // signature claimed but missing; write an empty string so
                    // the decoder still finds the field
                    let empty = String::new();
                    encode_string(empty.as_str(), out);
                },
            }
        }
        assert(out@ =~= old(out)@ + property_bytes(self@));
    }
}

fn encode_properties_from(props: &Vec<PlayerProperty>, i: usize, out: &mut Vec<u8>)
    requires
        i <= props@.len(),
        forall|j: int| i <= j < props@.len() ==> wf_property(#[trigger] props@[j]@),
    ensures
        final(out)@ == old(out)@ + properties_bytes(
            props@.map_values(|p: PlayerProperty| p@).skip(i as int),
        ),
    decreases props@.len() - i,
{
    let ghost view = props@.map_values(|p: PlayerProperty| p@);
    if i == props.len() {
        assert(out@ =~= old(out)@ + properties_bytes(view.skip(i as int)));
    } else {
        props[i].encode(out);
        encode_properties_from(props, i + 1, out);
        proof {
            assert(view.skip(i as int)[0] == view[i as int]);
            assert(view.skip(i as int).drop_first() =~= view.skip(i as int + 1));
            assert(out@ =~= old(out)@ + properties_bytes(view.skip(i as int)));
        }
    }
}

fn encode_add_entry(e: &AddEntry, out: &mut Vec<u8>)
    requires
        wf_add_entry(e@),
    ensures
        final(out)@ == old(out)@ + add_entry_bytes(e@),
{
    proof {
        let view = e@.properties;
        assert(forall|j: int|
            0 <= j < e.properties@.len() ==> #[trigger] e.properties@[j]@ == view[j]);
    }
    encode_u128_be(e.uuid, out);
    encode_string(e.name.as_str(), out);
    encode_varint_u32(e.properties.len() as u32, out);
    encode_properties_from(&e.properties, 0, out);
    encode_varint_u32(e.gamemode.val as u32, out);
    encode_varint_u32(e.ping.val as u32, out);
    match &e.display_name {
        Some(d) => {
            encode_bool(true, out);
            encode_string(d.as_str(), out);
        },
        None => {
            encode_bool(false, out);
        },
    }
    proof {
        let view = e@.properties;
        assert(view.skip(0) =~= view);
        assert(out@ =~= old(out)@ + add_entry_bytes(e@));
    }
}

fn encode_add_entries_from(es: &Vec<AddEntry>, i: usize, out: &mut Vec<u8>)
    requires
        i <= es@.len(),
        forall|j: int| i <= j < es@.len() ==> wf_add_entry(#[trigger] es@[j]@),
    ensures
        final(out)@ == old(out)@ + add_entries_bytes(
            es@.map_values(|e: AddEntry| e@).skip(i as int),
        ),
    decreases es@.len() - i,
{
    let ghost view = es@.map_values(|e: AddEntry| e@);
    if i == es.len() {
        assert(out@ =~= old(out)@ + add_entries_bytes(view.skip(i as int)));
    } else {
        encode_add_entry(&es[i], out);
        encode_add_entries_from(es, i + 1, out);
        proof {
            assert(view.skip(i as int)[0] == view[i as int]);
            assert(view.skip(i as int).drop_first() =~= view.skip(i as int + 1));
            assert(out@ =~= old(out)@ + add_entries_bytes(view.skip(i as int)));
        }
    }
}

fn encode_latency_entries_from(es: &Vec<UpdateLatencyEntry>, i: usize, out: &mut Vec<u8>)
    requires
        i <= es@.len(),
        forall|j: int| i <= j < es@.len() ==> 0 <= #[trigger] es@[j].ping.val,
    ensures
        final(out)@ == old(out)@ + latency_entries_bytes(
            es@.map_values(|e: UpdateLatencyEntry| e@).skip(i as int),
        ),
    decreases es@.len() - i,
{
    let ghost view = es@.map_values(|e: UpdateLatencyEntry| e@);
    if i == es.len() {
        assert(out@ =~= old(out)@ + latency_entries_bytes(view.skip(i as int)));
    } else {
        encode_u128_be(es[i].uuid, out);
        encode_varint_u32(es[i].ping.val as u32, out);
        encode_latency_entries_from(es, i + 1, out);
        proof {
            assert(view.skip(i as int)[0] == view[i as int]);
            assert(view.skip(i as int).drop_first() =~= view.skip(i as int + 1));
            assert(out@ =~= old(out)@ + latency_entries_bytes(view.skip(i as int)));
        }
    }
}

fn encode_remove_entries_from(es: &Vec<RemoveEntry>, i: usize, out: &mut Vec<u8>)
    requires
        i <= es@.len(),
    ensures
        final(out)@ == old(out)@ + remove_entries_bytes(
            es@.map_values(|e: RemoveEntry| e@).skip(i as int),
        ),
    decreases es@.len() - i,
{
    let ghost view = es@.map_values(|e: RemoveEntry| e@);
    if i == es.len() {
        assert(out@ =~= old(out)@ + remove_entries_bytes(view.skip(i as int)));
    } else {
        encode_u128_be(es[i].uuid, out);
        encode_remove_entries_from(es, i + 1, out);
        proof {
            assert(view.skip(i as int)[0] == view[i as int]);
            assert(view.skip(i as int).drop_first() =~= view.skip(i as int + 1));
            assert(out@ =~= old(out)@ + remove_entries_bytes(view.skip(i as int)));
        }
    }
}

/// Appends the full message body — discriminant, count, entries — for `kind`.
pub fn encode_full_packet(out: &mut Vec<u8>, kind: &PlayerInfoPacketKind)
    requires
        wf_kind(kind@),
    ensures
        final(out)@ == old(out)@ + message_bytes(kind@),
{
    match kind {
        PlayerInfoPacketKind::Add(entries) => {
            proof {
                let view = entries@.map_values(|e: AddEntry| e@);
                assert(forall|j: int|
                    0 <= j < entries@.len() ==> #[trigger] entries@[j]@ == view[j]);
            }
            encode_varint_u32(0, out);
            encode_varint_u32(entries.len() as u32, out);
            encode_add_entries_from(entries, 0, out);
            proof {
                let view = entries@.map_values(|e: AddEntry| e@);
                assert(view.skip(0) =~= view);
                assert(out@ =~= old(out)@ + message_bytes(kind@));
            }
        },
        PlayerInfoPacketKind::UpdateLatency(entries) => {
            proof {
                let view = entries@.map_values(|e: UpdateLatencyEntry| e@);
                assert forall|j: int| 0 <= j < entries@.len() implies 0 <= #[trigger] entries@[
                    j
                ].ping.val by {
                    assert(view[j] == entries@[j]@);
                    assert(0 <= view[j].ping);
                };
            }
            encode_varint_u32(2, out);
            encode_varint_u32(entries.len() as u32, out);
            encode_latency_entries_from(entries, 0, out);
            proof {
                let view = entries@.map_values(|e: UpdateLatencyEntry| e@);
                assert(view.skip(0) =~= view);
                assert(out@ =~= old(out)@ + message_bytes(kind@));
            }
        },
        PlayerInfoPacketKind::Remove(entries) => {
            encode_varint_u32(4, out);
            encode_varint_u32(entries.len() as u32, out);
            encode_remove_entries_from(entries, 0, out);
            proof {
                let view = entries@.map_values(|e: RemoveEntry| e@);
                assert(view.skip(0) =~= view);
                assert(out@ =~= old(out)@ + message_bytes(kind@));
            }
        },
    }
}

/// A full roster packet: the packet id followed by the message body.
#[derive(Debug)]
pub struct PlayerInfoFull(pub PlayerInfoPacketKind);

impl PlayerInfoFull {
    /// Appends the packet id, then the message body.
    pub fn encode(&self, out: &mut Vec<u8>)
        requires
            wf_kind(self.0@),
        ensures
            final(out)@ == old(out)@ + full_packet_bytes(self.0@),
    {
        encode_varint_u32(PLAYER_INFO_PACKET_ID, out);
        encode_full_packet(out, &self.0);
        assert(out@ =~= old(out)@ + full_packet_bytes(self.0@));
    }
}

/// The action and entry count a roster message leads with.
#[derive(Debug, Clone, Copy, PartialEq, Eq, Structural)]
pub struct PlayerInfoUpdatePacket {
    pub action: VarInt,
    pub numbers_of_players: VarInt,
}

impl PlayerInfoUpdatePacket {
    /// Appends only the leading action and count fields.
    pub fn encode(&self, out: &mut Vec<u8>)
        requires
            0 <= self.action.val,
            0 <= self.numbers_of_players.val,
        ensures
            final(out)@ == old(out)@ + varint_bytes(self.action.val as nat) + varint_bytes(
                self.numbers_of_players.val as nat,
            ),
    {
        encode_varint_u32(self.action.val as u32, out);
        encode_varint_u32(self.numbers_of_players.val as u32, out);
    }

    /// Pairs an add-players header with its entries.
    pub fn add_players(entries: Vec<AddEntry>) -> (r: (Self, PlayerInfoPacketKind))
        requires
            entries@.len() <= 0x7fffffff,
        ensures
            r.0.action.val == 0,
            r.0.numbers_of_players.val == entries@.len(),
            r.1 == PlayerInfoPacketKind::Add(entries),
    {
        let pkt = Self {
            action: VarInt::new(0),
            numbers_of_players: VarInt::new(entries.len() as i32),
        };
        (pkt, PlayerInfoPacketKind::Add(entries))
    }

    /// Pairs an update-latency header with its entries.
    pub fn update_latency(entries: Vec<UpdateLatencyEntry>) -> (r: (Self, PlayerInfoPacketKind))
        requires
            entries@.len() <= 0x7fffffff,
        ensures
            r.0.action.val == 2,
            r.0.numbers_of_players.val == entries@.len(),
            r.1 == PlayerInfoPacketKind::UpdateLatency(entries),
    {
        let pkt = Self {
            action: VarInt::new(2),
            numbers_of_players: VarInt::new(entries.len() as i32),
        };
        (pkt, PlayerInfoPacketKind::UpdateLatency(entries))
    }

    /// Pairs a remove-players header with its entries.
    pub fn remove_players(entries: Vec<RemoveEntry>) -> (r: (Self, PlayerInfoPacketKind))
        requires
            entries@.len() <= 0x7fffffff,
        ensures
            r.0.action.val == 4,
            r.0.numbers_of_players.val == entries@.len(),
            r.1 == PlayerInfoPacketKind::Remove(entries),
    {
        let pkt = Self {
            action: VarInt::new(4),
            numbers_of_players: VarInt::new(entries.len() as i32),
        };
        (pkt, PlayerInfoPacketKind::Remove(entries))
    }
}

/// One action attached to a player in the mask-based message form.
#[derive(Debug)]
pub enum PlayerAction {
    AddPlayer { name: String, properties: Vec<PlayerProperty> },
    RemovePlayer {},
}

/// The mask bit one action contributes.
pub open spec fn action_bit(a: PlayerAction) -> u8 {
    match a {
        PlayerAction::AddPlayer { .. } => 0x01,
        PlayerAction::RemovePlayer { .. } => 0x02,
    }
}

/// The OR of every action's bit, in order.
pub open spec fn actions_mask(s: Seq<PlayerAction>) -> u8
    decreases s.len(),
{
    if s.len() == 0 {
        0
    } else {
        actions_mask(s.drop_last()) | action_bit(s.last())
    }
}

/// A player together with the actions to apply to it.
#[derive(Debug)]
pub struct PlayerWithActions {
    pub uuid: u128,
    pub actions: Vec<PlayerAction>,
}

impl PlayerWithActions {
    /// ORs together the bits of all attached actions.
    pub fn get_actions_mask(&self) -> (r: u8)
        ensures
            r == actions_mask(self.actions@),
    {
        let mut mask: u8 = 0;
        let mut i: usize = 0;
        proof {
            assert(self.actions@.take(0) =~= Seq::<PlayerAction>::empty());
        }
        while i < self.actions.len()
            invariant
                i <= self.actions@.len(),
                mask == actions_mask(self.actions@.take(i as int)),
            decreases self.actions@.len() - i,
        {
            let bit: u8 = match &self.actions[i] {
                PlayerAction::AddPlayer { .. } => 0x01,
                PlayerAction::RemovePlayer { .. } => 0x02,
            };
            proof {
                let t = self.actions@.take(i as int + 1);
                assert(t.drop_last() =~= self.actions@.take(i as int));
                assert(t.last() == self.actions@[i as int]);
            }
            mask = mask | bit;
            i = i + 1;
        }
        proof {
            assert(self.actions@.take(self.actions@.len() as int) =~= self.actions@);
        }
        mask
    }

    /// A player with a single add action and no properties.
    pub fn add_player(uuid: u128, name: &str) -> (r: Self)
        ensures
            r.uuid == uuid,
            r.actions@.len() == 1,
            r.actions@[0] matches PlayerAction::AddPlayer { name: n, properties: p } && n@ == name@
                && p@.len() == 0,
            actions_mask(r.actions@) == 0x01,
    {
        let mut actions: Vec<PlayerAction> = Vec::new();
        actions.push(
            PlayerAction::AddPlayer { name: name.to_owned(), properties: Vec::new() },
        );
        let r = PlayerWithActions { uuid, actions };
        proof {
            reveal_with_fuel(actions_mask, 2);
            assert(r.actions@.drop_last() =~= Seq::<PlayerAction>::empty());
            assert(0u8 | 0x01u8 == 0x01u8) by (bit_vector);
        }
        r
    }

    /// A player with a single add action, carrying any cached skin properties
    /// stored under `short_uuid`.
    pub fn add_player_with_properties(cache: &SkinCache, short_uuid: i32, name: &str) -> (r: Self)
        requires
            cache.wf(),
        ensures
            r.uuid == #[verifier::truncate] (short_uuid as u128),
            r.actions@.len() == 1,
            r.actions@[0] matches PlayerAction::AddPlayer { name: n, properties: p } && n@ == name@
                && (cache@.contains_key(short_uuid) ==> p@.len() == 1 && p@[0]@.name
                == cache@[short_uuid].name && p@[0]@.value == cache@[short_uuid].value
                && p@[0]@.is_signed == (cache@[short_uuid].signature is Some) && p@[0]@.signature
                == cache@[short_uuid].signature) && (!cache@.contains_key(short_uuid) ==> p@.len()
                == 0),
            actions_mask(r.actions@) == 0x01,
    {
        let mut properties: Vec<PlayerProperty> = Vec::new();
        match get_skin(cache, short_uuid) {
            Some(sp) => {
                let is_signed = match &sp.signature {
                    Some(_) => true,
                    None => false,
                };
                properties.push(
                    PlayerProperty { name: sp.name, value: sp.value, is_signed, signature: sp.signature },
                );
            },
            None => {},
        }
        let mut actions: Vec<PlayerAction> = Vec::new();
        actions.push(PlayerAction::AddPlayer { name: name.to_owned(), properties });
        let r = PlayerWithActions { uuid: #[verifier::truncate] (short_uuid as u128), actions };
        proof {
            reveal_with_fuel(actions_mask, 2);
            assert(r.actions@.drop_last() =~= Seq::<PlayerAction>::empty());
            assert(0u8 | 0x01u8 == 0x01u8) by (bit_vector);
        }
        r
    }

    /// A player with a single remove action.
    pub fn remove_player(uuid: u128) -> (r: Self)
        ensures
            r.uuid == uuid,
            r.actions@.len() == 1,
            r.actions@[0] is RemovePlayer,
            actions_mask(r.actions@) == 0x02,
    {
        let mut actions: Vec<PlayerAction> = Vec::new();
        actions.push(PlayerAction::RemovePlayer {});
        let r = PlayerWithActions { uuid, actions };
        proof {
            reveal_with_fuel(actions_mask, 2);
            assert(r.actions@.drop_last() =~= Seq::<PlayerAction>::empty());
            assert(0u8 | 0x02u8 == 0x02u8) by (bit_vector);
        }
        r
    }
}

} // verus!
