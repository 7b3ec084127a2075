//! The symmetric decoder for the roster-update message, and the proof that
//! decoding undoes encoding. Decoding is strict: unknown discriminants,
//! short inputs, malformed UTF-8 and trailing bytes are all rejected.

use vstd::prelude::*;

verus! {

use crate::varint::{decode_varint, decode_varint_prefix, pow128, varint_bytes,
    lemma_varint_round_trip, VarInt};
use crate::wire::{decode_u128, decode_u128_prefix, decode_bool, decode_bool_prefix, decode_string,
    decode_string_prefix, lemma_u128_round_trip, lemma_bool_round_trip, lemma_string_round_trip,
    bool_bytes, string_bytes, be_bytes};
use crate::player_info::{PropertyV, AddEntryV, UpdateLatencyV, PlayerInfoKindV, PlayerProperty,
    AddEntry, UpdateLatencyEntry, RemoveEntry, PlayerInfoPacketKind, property_bytes,
    properties_bytes, add_entry_bytes, add_entries_bytes, latency_entry_bytes,
    latency_entries_bytes, remove_entries_bytes, message_bytes, full_packet_bytes, sig_or_empty,
    wf_property, wf_add_entry, wf_kind, opt_string_bytes, PLAYER_INFO_PACKET_ID};

/// Reads a varint that must fit the wire's signed 32-bit field.
pub open spec fn decode_varint_i32(bytes: Seq<u8>) -> Option<(i32, Seq<u8>)> {
    match decode_varint(bytes) {
        None => None,
        Some(p) => if p.0 <= 0x7fffffff {
            Some((p.0 as i32, p.1))
        } else {
            None
        },
    }
}

pub open spec fn decode_property(bytes: Seq<u8>) -> Option<(PropertyV, Seq<u8>)> {
    match decode_string(bytes) {
        None => None,
        Some((name, r1)) => match decode_string(r1) {
            None => None,
            Some((value, r2)) => match decode_bool(r2) {
                None => None,
                Some((is_signed, r3)) => if is_signed {
                    match decode_string(r3) {
                        None => None,
                        Some((sig, r4)) => Some(
                            (
                                PropertyV {
                                    name,
                                    value,
                                    is_signed: true,
                                    signature: Some(sig),
                                },
                                r4,
                            ),
                        ),
                    }
                } else {
                    Some((PropertyV { name, value, is_signed: false, signature: None }, r3))
                },
            },
        },
    }
}

pub open spec fn decode_properties(bytes: Seq<u8>, n: nat) -> Option<(Seq<PropertyV>, Seq<u8>)>
    decreases n,
{
    if n == 0 {
        Some((Seq::empty(), bytes))
    } else {
        match decode_property(bytes) {
            None => None,
            Some((p, rest)) => match decode_properties(rest, (n - 1) as nat) {
                None => None,
                Some((ps, rest2)) => Some((seq![p] + ps, rest2)),
            },
        }
    }
}

pub open spec fn decode_add_entry(bytes: Seq<u8>) -> Option<(AddEntryV, Seq<u8>)> {
    match decode_u128(bytes) {
        None => None,
        Some((uuid, r1)) => match decode_string(r1) {
            None => None,
            Some((name, r2)) => match decode_varint_i32(r2) {
                None => None,
                Some((count, r3)) => match decode_properties(r3, count as nat) {
                    None => None,
                    Some((props, r4)) => match decode_varint_i32(r4) {
                        None => None,
                        Some((gamemode, r5)) => match decode_varint_i32(r5) {
                            None => None,
                            Some((ping, r6)) => match decode_bool(r6) {
                                None => None,
                                Some((has_display, r7)) => if has_display {
                                    match decode_string(r7) {
                                        None => None,
                                        Some((d, r8)) => Some(
                                            (
                                                AddEntryV {
                                                    uuid: uuid as u128,
                                                    name,
                                                    properties: props,
                                                    gamemode,
                                                    ping,
                                                    display_name: Some(d),
                                                },
                                                r8,
                                            ),
                                        ),
                                    }
                                } else {
                                    Some(
                                        (
                                            AddEntryV {
                                                uuid: uuid as u128,
                                                name,
                                                properties: props,
                                                gamemode,
                                                ping,
                                                display_name: None,
                                            },
                                            r7,
                                        ),
                                    )
                                },
                            },
                        },
                    },
                },
            },
        },
    }
}

pub open spec fn decode_add_entries(bytes: Seq<u8>, n: nat) -> Option<(Seq<AddEntryV>, Seq<u8>)>
    decreases n,
{
    if n == 0 {
        Some((Seq::empty(), bytes))
    } else {
        match decode_add_entry(bytes) {
            None => None,
            Some((e, rest)) => match decode_add_entries(rest, (n - 1) as nat) {
                None => None,
                Some((es, rest2)) => Some((seq![e] + es, rest2)),
            },
        }
    }
}

pub open spec fn decode_latency_entry(bytes: Seq<u8>) -> Option<(UpdateLatencyV, Seq<u8>)> {
    match decode_u128(bytes) {
        None => None,
        Some((uuid, r1)) => match decode_varint_i32(r1) {
            None => None,
            Some((ping, r2)) => Some((UpdateLatencyV { uuid: uuid as u128, ping }, r2)),
        },
    }
}

pub open spec fn decode_latency_entries(bytes: Seq<u8>, n: nat) -> Option<
    (Seq<UpdateLatencyV>, Seq<u8>),
>
    decreases n,
{
    if n == 0 {
        Some((Seq::empty(), bytes))
    } else {
        match decode_latency_entry(bytes) {
            None => None,
            Some((e, rest)) => match decode_latency_entries(rest, (n - 1) as nat) {
                None => None,
                Some((es, rest2)) => Some((seq![e] + es, rest2)),
            },
        }
    }
}

pub open spec fn decode_remove_entries(bytes: Seq<u8>, n: nat) -> Option<(Seq<u128>, Seq<u8>)>
    decreases n,
{
    if n == 0 {
        Some((Seq::empty(), bytes))
    } else {
        match decode_u128(bytes) {
            None => None,
            Some((uuid, rest)) => match decode_remove_entries(rest, (n - 1) as nat) {
                None => None,
                Some((es, rest2)) => Some((seq![uuid as u128] + es, rest2)),
            },
        }
    }
}

/// Decodes a whole message body; the input must be consumed exactly.
pub open spec fn decode_message(bytes: Seq<u8>) -> Option<PlayerInfoKindV> {
    match decode_varint(bytes) {
        None => None,
        Some((action, r1)) => match decode_varint_i32(r1) {
            None => None,
            Some((count, r2)) => if action == 0 {
                match decode_add_entries(r2, count as nat) {
                    None => None,
                    Some((es, r3)) => if r3.len() == 0 {
                        Some(PlayerInfoKindV::Add(es))
                    } else {
                        None
                    },
                }
            } else if action == 2 {
                match decode_latency_entries(r2, count as nat) {
                    None => None,
                    Some((es, r3)) => if r3.len() == 0 {
                        Some(PlayerInfoKindV::UpdateLatency(es))
                    } else {
                        None
                    },
                }
            } else if action == 4 {
                match decode_remove_entries(r2, count as nat) {
                    None => None,
                    Some((es, r3)) => if r3.len() == 0 {
                        Some(PlayerInfoKindV::Remove(es))
                    } else {
                        None
                    },
                }
            } else {
                None
            },
        },
    }
}

/// Decodes a full packet: the packet id, then the message body.
pub open spec fn decode_packet(bytes: Seq<u8>) -> Option<PlayerInfoKindV> {
    match decode_varint(bytes) {
        None => None,
        Some((id, rest)) => if id == PLAYER_INFO_PACKET_ID as nat {
            decode_message(rest)
        } else {
            None
        },
    }
}

/// What decoding gives back for an encoded property: the field order is kept,
/// a signed property with no stored signature reads back with the empty
/// string, and an unsigned property's unused signature is dropped.
pub open spec fn norm_property(p: PropertyV) -> PropertyV {
    PropertyV {
        name: p.name,
        value: p.value,
        is_signed: p.is_signed,
        signature: if p.is_signed {
            Some(sig_or_empty(p.signature))
        } else {
            None
        },
    }
}

pub open spec fn norm_add_entry(e: AddEntryV) -> AddEntryV {
    AddEntryV {
        uuid: e.uuid,
        name: e.name,
        properties: e.properties.map_values(|p: PropertyV| norm_property(p)),
        gamemode: e.gamemode,
        ping: e.ping,
        display_name: e.display_name,
    }
}

pub open spec fn norm_kind(k: PlayerInfoKindV) -> PlayerInfoKindV {
    match k {
        PlayerInfoKindV::Add(es) => PlayerInfoKindV::Add(
            es.map_values(|e: AddEntryV| norm_add_entry(e)),
        ),
        PlayerInfoKindV::UpdateLatency(es) => PlayerInfoKindV::UpdateLatency(es),
        PlayerInfoKindV::Remove(es) => PlayerInfoKindV::Remove(es),
    }
}

proof fn seq_assoc(a: Seq<u8>, b: Seq<u8>, c: Seq<u8>)
    ensures
        a + b + c == a + (b + c),
{
    assert(a + b + c =~= a + (b + c));
}

proof fn lemma_pow128_5()
    ensures
        pow128(5) == 0x800000000,
{
    reveal_with_fuel(pow128, 6);
}

proof fn lemma_varint_i32_round_trip(v: i32, rest: Seq<u8>)
    requires
        0 <= v,
    ensures
        decode_varint_i32(varint_bytes(v as nat) + rest) == Some((v, rest)),
{
    lemma_pow128_5();
    lemma_varint_round_trip(v as nat, rest);
}

pub proof fn lemma_property_round_trip(p: PropertyV, rest: Seq<u8>)
    requires
        wf_property(p),
    ensures
        decode_property(property_bytes(p) + rest) == Some((norm_property(p), rest)),
{
    if p.is_signed {
        let sig = sig_or_empty(p.signature);
        let t3 = rest;
        let t2 = string_bytes(sig) + t3;
        let t1 = bool_bytes(true) + t2;
        let t0 = string_bytes(p.value) + t1;
        assert(property_bytes(p) + rest =~= string_bytes(p.name) + t0);
        lemma_string_round_trip(p.name, t0);
        lemma_string_round_trip(p.value, t1);
        lemma_bool_round_trip(true, t2);
        lemma_string_round_trip(sig, t3);
    } else {
        let t1 = rest;
        let t0 = string_bytes(p.value) + (bool_bytes(false) + t1);
        assert(property_bytes(p) + rest =~= string_bytes(p.name) + t0);
        lemma_string_round_trip(p.name, t0);
        lemma_string_round_trip(p.value, bool_bytes(false) + t1);
        lemma_bool_round_trip(false, t1);
    }
}

#[verifier::rlimit(100)]
#[verifier::spinoff_prover]
pub proof fn lemma_properties_round_trip(ps: Seq<PropertyV>, rest: Seq<u8>)
    requires
        forall|i: int| 0 <= i < ps.len() ==> wf_property(#[trigger] ps[i]),
    ensures
        decode_properties(properties_bytes(ps) + rest, ps.len()) == Some(
            (ps.map_values(|p: PropertyV| norm_property(p)), rest),
        ),
    decreases ps.len(),
{
    if ps.len() == 0 {
        assert(properties_bytes(ps) + rest =~= rest);
        assert(ps.map_values(|p: PropertyV| norm_property(p)) =~= Seq::<PropertyV>::empty());
    } else {
        let tail = properties_bytes(ps.drop_first()) + rest;
        assert(properties_bytes(ps) + rest =~= property_bytes(ps[0]) + tail);
        lemma_property_round_trip(ps[0], tail);
        assert(forall|i: int|
            0 <= i < ps.drop_first().len() ==> wf_property(#[trigger] ps.drop_first()[i]));
        lemma_properties_round_trip(ps.drop_first(), rest);
        assert(seq![norm_property(ps[0])] + ps.drop_first().map_values(
            |p: PropertyV| norm_property(p),
        ) =~= ps.map_values(|p: PropertyV| norm_property(p)));
    }
}

#[verifier::rlimit(100)]
#[verifier::spinoff_prover]
pub proof fn lemma_add_entry_round_trip(e: AddEntryV, rest: Seq<u8>)
    requires
        wf_add_entry(e),
    ensures
        decode_add_entry(add_entry_bytes(e) + rest) == Some((norm_add_entry(e), rest)),
{
    let a1 = be_bytes(e.uuid as nat, 16);
    let a2 = string_bytes(e.name);
    let a3 = varint_bytes(e.properties.len());
    let a4 = properties_bytes(e.properties);
    let a5 = varint_bytes(e.gamemode as nat);
    let a6 = varint_bytes(e.ping as nat);
    let a7 = opt_string_bytes(e.display_name);
    let t6 = a7 + rest;
    let t5 = a6 + t6;
    let t4 = a5 + t5;
    let t3 = a4 + t4;
    let t2 = a3 + t3;
    let t1 = a2 + t2;
    assert(add_entry_bytes(e) == a1 + a2 + a3 + a4 + a5 + a6 + a7);
    seq_assoc(a1 + a2 + a3 + a4 + a5 + a6, a7, rest);
    seq_assoc(a1 + a2 + a3 + a4 + a5, a6, t6);
    seq_assoc(a1 + a2 + a3 + a4, a5, t5);
    seq_assoc(a1 + a2 + a3, a4, t4);
    seq_assoc(a1 + a2, a3, t3);
    seq_assoc(a1, a2, t2);
    assert(add_entry_bytes(e) + rest == a1 + t1);
    lemma_u128_round_trip(e.uuid, t1);
    assert(decode_u128(add_entry_bytes(e) + rest) == Some((e.uuid as nat, t1)));
    lemma_string_round_trip(e.name, t2);
    assert(decode_string(t1) == Some((e.name, t2)));
    let count: i32 = e.properties.len() as i32;
    assert(varint_bytes(e.properties.len()) == varint_bytes(count as nat));
    lemma_varint_i32_round_trip(count, t3);
    assert(decode_varint_i32(t2) == Some((count, t3)));
    lemma_properties_round_trip(e.properties, t4);
    assert(decode_properties(t3, count as nat) == Some(
        (e.properties.map_values(|p: PropertyV| norm_property(p)), t4),
    ));
    lemma_varint_i32_round_trip(e.gamemode, t5);
    assert(decode_varint_i32(t4) == Some((e.gamemode, t5)));
    lemma_varint_i32_round_trip(e.ping, t6);
    assert(decode_varint_i32(t5) == Some((e.ping, t6)));
    match e.display_name {
        Some(d) => {
            assert(t6 =~= bool_bytes(true) + (string_bytes(d) + rest));
            lemma_bool_round_trip(true, string_bytes(d) + rest);
            assert(decode_bool(t6) == Some((true, string_bytes(d) + rest)));
            lemma_string_round_trip(d, rest);
            assert(decode_string(string_bytes(d) + rest) == Some((d, rest)));
            assert(decode_add_entry(add_entry_bytes(e) + rest) == Some((norm_add_entry(e), rest)));
        },
        None => {
            assert(t6 =~= bool_bytes(false) + rest);
            lemma_bool_round_trip(false, rest);
            assert(decode_bool(t6) == Some((false, rest)));
            assert(decode_add_entry(add_entry_bytes(e) + rest) == Some((norm_add_entry(e), rest)));
        },
    }
}

pub proof fn lemma_add_entries_round_trip(es: Seq<AddEntryV>, rest: Seq<u8>)
    requires
        forall|i: int| 0 <= i < es.len() ==> wf_add_entry(#[trigger] es[i]),
    ensures
        decode_add_entries(add_entries_bytes(es) + rest, es.len()) == Some(
            (es.map_values(|e: AddEntryV| norm_add_entry(e)), rest),
        ),
    decreases es.len(),
{
    if es.len() == 0 {
        assert(add_entries_bytes(es) + rest =~= rest);
        assert(es.map_values(|e: AddEntryV| norm_add_entry(e)) =~= Seq::<AddEntryV>::empty());
    } else {
        let tail = add_entries_bytes(es.drop_first()) + rest;
        assert(add_entries_bytes(es) + rest =~= add_entry_bytes(es[0]) + tail);
        lemma_add_entry_round_trip(es[0], tail);
        assert(forall|i: int|
            0 <= i < es.drop_first().len() ==> wf_add_entry(#[trigger] es.drop_first()[i]));
        lemma_add_entries_round_trip(es.drop_first(), rest);
        assert(seq![norm_add_entry(es[0])] + es.drop_first().map_values(
            |e: AddEntryV| norm_add_entry(e),
        ) =~= es.map_values(|e: AddEntryV| norm_add_entry(e)));
    }
}

pub proof fn lemma_latency_entries_round_trip(es: Seq<UpdateLatencyV>, rest: Seq<u8>)
    requires
        forall|i: int| 0 <= i < es.len() ==> 0 <= #[trigger] es[i].ping,
    ensures
        decode_latency_entries(latency_entries_bytes(es) + rest, es.len()) == Some((es, rest)),
    decreases es.len(),
{
    if es.len() == 0 {
        assert(latency_entries_bytes(es) + rest =~= rest);
    } else {
        let tail = latency_entries_bytes(es.drop_first()) + rest;
        let t1 = varint_bytes(es[0].ping as nat) + tail;
        assert(latency_entries_bytes(es) + rest =~= be_bytes(es[0].uuid as nat, 16) + t1);
        lemma_u128_round_trip(es[0].uuid, t1);
        lemma_varint_i32_round_trip(es[0].ping, tail);
        lemma_latency_entries_round_trip(es.drop_first(), rest);
        assert(seq![es[0]] + es.drop_first() =~= es);
    }
}

pub proof fn lemma_remove_entries_round_trip(es: Seq<u128>, rest: Seq<u8>)
    ensures
        decode_remove_entries(remove_entries_bytes(es) + rest, es.len()) == Some((es, rest)),
    decreases es.len(),
{
    if es.len() == 0 {
        assert(remove_entries_bytes(es) + rest =~= rest);
    } else {
        let tail = remove_entries_bytes(es.drop_first()) + rest;
        assert(remove_entries_bytes(es) + rest =~= be_bytes(es[0] as nat, 16) + tail);
        lemma_u128_round_trip(es[0], tail);
        lemma_remove_entries_round_trip(es.drop_first(), rest);
        assert(seq![es[0]] + es.drop_first() =~= es);
    }
}

/// Round trip for a whole message: encoding any well-formed set of roster
/// entries and decoding the bytes reproduces the entries exactly, except that
/// a signed property whose signature was missing reads back with the empty
/// string in its place.
pub proof fn lemma_message_round_trip(k: PlayerInfoKindV)
    requires
        wf_kind(k),
    ensures
        decode_message(message_bytes(k)) == Some(norm_kind(k)),
{
    lemma_pow128_5();
    match k {
        PlayerInfoKindV::Add(es) => {
            let body = add_entries_bytes(es) + Seq::<u8>::empty();
            let t1 = varint_bytes(es.len()) + body;
            assert(message_bytes(k) =~= varint_bytes(0) + t1);
            lemma_varint_round_trip(0, t1);
            lemma_varint_i32_round_trip(es.len() as i32, body);
            lemma_add_entries_round_trip(es, Seq::<u8>::empty());
        },
        PlayerInfoKindV::UpdateLatency(es) => {
            let body = latency_entries_bytes(es) + Seq::<u8>::empty();
            let t1 = varint_bytes(es.len()) + body;
            assert(message_bytes(k) =~= varint_bytes(2) + t1);
            lemma_varint_round_trip(2, t1);
            lemma_varint_i32_round_trip(es.len() as i32, body);
            lemma_latency_entries_round_trip(es, Seq::<u8>::empty());
        },
        PlayerInfoKindV::Remove(es) => {
            let body = remove_entries_bytes(es) + Seq::<u8>::empty();
            let t1 = varint_bytes(es.len()) + body;
            assert(message_bytes(k) =~= varint_bytes(4) + t1);
            lemma_varint_round_trip(4, t1);
            lemma_varint_i32_round_trip(es.len() as i32, body);
            lemma_remove_entries_round_trip(es, Seq::<u8>::empty());
        },
    }
}

/// Round trip for a full packet, id included.
pub proof fn lemma_packet_round_trip(k: PlayerInfoKindV)
    requires
        wf_kind(k),
    ensures
        decode_packet(full_packet_bytes(k)) == Some(norm_kind(k)),
{
    lemma_pow128_5();
    assert(full_packet_bytes(k) =~= varint_bytes(PLAYER_INFO_PACKET_ID as nat) + message_bytes(k));
    lemma_varint_round_trip(PLAYER_INFO_PACKET_ID as nat, message_bytes(k));
    lemma_message_round_trip(k);
}

fn decode_varint_i32_prefix<'a>(bytes: &'a [u8]) -> (r: Option<(i32, &'a [u8])>)
    ensures
        match r {
            Some(p) => decode_varint_i32(bytes@) matches Some(q) && p.0 == q.0 && p.1@ == q.1,
            None => decode_varint_i32(bytes@) is None,
        },
{
    match decode_varint_prefix(bytes) {
        None => None,
        Some((v, rest)) => {
            if v <= 0x7fffffff {
                Some((v as i32, rest))
            } else {
                None
            }
        },
    }
}

fn decode_property_prefix<'a>(bytes: &'a [u8]) -> (r: Option<(PlayerProperty, &'a [u8])>)
    ensures
        match r {
            Some(p) => decode_property(bytes@) matches Some(q) && p.0@ == q.0 && p.1@ == q.1,
            None => decode_property(bytes@) is None,
        },
{
    match decode_string_prefix(bytes) {
        None => None,
        Some((name, r1)) => match decode_string_prefix(r1) {
            None => None,
            Some((value, r2)) => match decode_bool_prefix(r2) {
                None => None,
                Some((is_signed, r3)) => {
                    if is_signed {
                        match decode_string_prefix(r3) {
                            None => None,
                            Some((sig, r4)) => Some(
                                (
                                    PlayerProperty {
                                        name,
                                        value,
                                        is_signed: true,
                                        signature: Some(sig),
                                    },
                                    r4,
                                ),
                            ),
                        }
                    } else {
                        Some((PlayerProperty { name, value, is_signed: false, signature: None }, r3))
                    }
                },
            },
        },
    }
}

fn decode_properties_prefix<'a>(bytes: &'a [u8], n: usize) -> (r: Option<
    (Vec<PlayerProperty>, &'a [u8]),
>)
    ensures
        match r {
            Some(p) => decode_properties(bytes@, n as nat) matches Some(q) && p.0@.map_values(
                |x: PlayerProperty| x@,
            ) == q.0 && p.1@ == q.1,
            None => decode_properties(bytes@, n as nat) is None,
        },
    decreases n,
{
    if n == 0 {
        let v: Vec<PlayerProperty> = Vec::new();
        assert(v@.map_values(|x: PlayerProperty| x@) =~= Seq::<PropertyV>::empty());
        Some((v, bytes))
    } else {
        match decode_property_prefix(bytes) {
            None => None,
            Some((p, rest)) => match decode_properties_prefix(rest, n - 1) {
                None => None,
                Some((mut ps, rest2)) => {
                    let ghost old_ps = ps@;
                    ps.insert(0, p);
                    proof {
                        let f = |x: PlayerProperty| x@;
                        assert(ps@.map_values(f) =~= seq![p@] + old_ps.map_values(f));
                    }
                    Some((ps, rest2))
                },
            },
        }
    }
}

fn decode_add_entry_prefix<'a>(bytes: &'a [u8]) -> (r: Option<(AddEntry, &'a [u8])>)
    ensures
        match r {
            Some(p) => decode_add_entry(bytes@) matches Some(q) && p.0@ == q.0 && p.1@ == q.1,
            None => decode_add_entry(bytes@) is None,
        },
{
    match decode_u128_prefix(bytes) {
        None => None,
        Some((uuid, r1)) => match decode_string_prefix(r1) {
            None => None,
            Some((name, r2)) => match decode_varint_i32_prefix(r2) {
                None => None,
                Some((count, r3)) => match decode_properties_prefix(r3, count as usize) {
                    None => None,
                    Some((props, r4)) => match decode_varint_i32_prefix(r4) {
                        None => None,
                        Some((gamemode, r5)) => match decode_varint_i32_prefix(r5) {
                            None => None,
                            Some((ping, r6)) => match decode_bool_prefix(r6) {
                                None => None,
                                Some((has_display, r7)) => {
                                    if has_display {
                                        match decode_string_prefix(r7) {
                                            None => None,
                                            Some((d, r8)) => Some(
                                                (
                                                    AddEntry {
                                                        uuid,
                                                        name,
                                                        properties: props,
                                                        gamemode: VarInt::new(gamemode),
                                                        ping: VarInt::new(ping),
                                                        display_name: Some(d),
                                                    },
                                                    r8,
                                                ),
                                            ),
                                        }
                                    } else {
                                        Some(
                                            (
                                                AddEntry {
                                                    uuid,
                                                    name,
                                                    properties: props,
                                                    gamemode: VarInt::new(gamemode),
                                                    ping: VarInt::new(ping),
                                                    display_name: None,
                                                },
                                                r7,
                                            ),
                                        )
                                    }
                                },
                            },
                        },
                    },
                },
            },
        },
    }
}

fn decode_add_entries_prefix<'a>(bytes: &'a [u8], n: usize) -> (r: Option<
    (Vec<AddEntry>, &'a [u8]),
>)
    ensures
        match r {
            Some(p) => decode_add_entries(bytes@, n as nat) matches Some(q) && p.0@.map_values(
                |x: AddEntry| x@,
            ) == q.0 && p.1@ == q.1,
            None => decode_add_entries(bytes@, n as nat) is None,
        },
    decreases n,
{
    if n == 0 {
        let v: Vec<AddEntry> = Vec::new();
        assert(v@.map_values(|x: AddEntry| x@) =~= Seq::<AddEntryV>::empty());
        Some((v, bytes))
    } else {
        match decode_add_entry_prefix(bytes) {
            None => None,
            Some((e, rest)) => match decode_add_entries_prefix(rest, n - 1) {
                None => None,
                Some((mut es, rest2)) => {
                    let ghost old_es = es@;
                    es.insert(0, e);
                    proof {
                        let f = |x: AddEntry| x@;
                        assert(es@.map_values(f) =~= seq![e@] + old_es.map_values(f));
                    }
                    Some((es, rest2))
                },
            },
        }
    }
}

fn decode_latency_entries_prefix<'a>(bytes: &'a [u8], n: usize) -> (r: Option<
    (Vec<UpdateLatencyEntry>, &'a [u8]),
>)
    ensures
        match r {
            Some(p) => decode_latency_entries(bytes@, n as nat) matches Some(q) && p.0@.map_values(
                |x: UpdateLatencyEntry| x@,
            ) == q.0 && p.1@ == q.1,
            None => decode_latency_entries(bytes@, n as nat) is None,
        },
    decreases n,
{
    if n == 0 {
        let v: Vec<UpdateLatencyEntry> = Vec::new();
        assert(v@.map_values(|x: UpdateLatencyEntry| x@) =~= Seq::<UpdateLatencyV>::empty());
        Some((v, bytes))
    } else {
        match decode_u128_prefix(bytes) {
            None => None,
            Some((uuid, r1)) => match decode_varint_i32_prefix(r1) {
                None => None,
                Some((ping, r2)) => match decode_latency_entries_prefix(r2, n - 1) {
                    None => None,
                    Some((mut es, rest2)) => {
                        let ghost old_es = es@;
                        let e = UpdateLatencyEntry { uuid, ping: VarInt::new(ping) };
                        es.insert(0, e);
                        proof {
                            let f = |x: UpdateLatencyEntry| x@;
                            assert(es@.map_values(f) =~= seq![e@] + old_es.map_values(f));
                        }
                        Some((es, rest2))
                    },
                },
            },
        }
    }
}

fn decode_remove_entries_prefix<'a>(bytes: &'a [u8], n: usize) -> (r: Option<
    (Vec<RemoveEntry>, &'a [u8]),
>)
    ensures
        match r {
            Some(p) => decode_remove_entries(bytes@, n as nat) matches Some(q) && p.0@.map_values(
                |x: RemoveEntry| x@,
            ) == q.0 && p.1@ == q.1,
            None => decode_remove_entries(bytes@, n as nat) is None,
        },
    decreases n,
{
    if n == 0 {
        let v: Vec<RemoveEntry> = Vec::new();
        assert(v@.map_values(|x: RemoveEntry| x@) =~= Seq::<u128>::empty());
        Some((v, bytes))
    } else {
        match decode_u128_prefix(bytes) {
            None => None,
            Some((uuid, r1)) => match decode_remove_entries_prefix(r1, n - 1) {
                None => None,
                Some((mut es, rest2)) => {
                    let ghost old_es = es@;
                    let e = RemoveEntry { uuid };
                    es.insert(0, e);
                    proof {
                        let f = |x: RemoveEntry| x@;
                        assert(es@.map_values(f) =~= seq![e@] + old_es.map_values(f));
                    }
                    Some((es, rest2))
                },
            },
        }
    }
}

/// Decodes a whole message body, exactly as [`decode_message`] describes.
pub fn decode_full_packet(bytes: &[u8]) -> (r: Option<PlayerInfoPacketKind>)
    ensures
        match r {
            Some(k) => decode_message(bytes@) == Some(k@),
            None => decode_message(bytes@) is None,
        },
{
    match decode_varint_prefix(bytes) {
        None => None,
        Some((action, r1)) => match decode_varint_i32_prefix(r1) {
            None => None,
            Some((count, r2)) => {
                if action == 0 {
                    match decode_add_entries_prefix(r2, count as usize) {
                        None => None,
                        Some((es, r3)) => {
                            if r3.len() == 0 {
                                Some(PlayerInfoPacketKind::Add(es))
                            } else {
                                None
                            }
                        },
                    }
                } else if action == 2 {
                    match decode_latency_entries_prefix(r2, count as usize) {
                        None => None,
                        Some((es, r3)) => {
                            if r3.len() == 0 {
                                Some(PlayerInfoPacketKind::UpdateLatency(es))
                            } else {
                                None
                            }
                        },
                    }
                } else if action == 4 {
                    match decode_remove_entries_prefix(r2, count as usize) {
                        None => None,
                        Some((es, r3)) => {
                            if r3.len() == 0 {
                                Some(PlayerInfoPacketKind::Remove(es))
                            } else {
                                None
                            }
                        },
                    }
                } else {
                    None
                }
            },
        },
    }
}

/// Decodes a full packet — id, then body — exactly as [`decode_packet`]
/// describes.
pub fn decode_player_info_packet(bytes: &[u8]) -> (r: Option<PlayerInfoPacketKind>)
    ensures
        match r {
            Some(k) => decode_packet(bytes@) == Some(k@),
            None => decode_packet(bytes@) is None,
        },
{
    match decode_varint_prefix(bytes) {
        None => None,
        Some((id, rest)) => {
            if id == PLAYER_INFO_PACKET_ID as u64 {
                decode_full_packet(rest)
            } else {
                None
            }
        },
    }
}

} // verus!
