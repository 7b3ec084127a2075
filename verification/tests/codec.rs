use roster::player_info::{
    encode_full_packet, AddEntry, PlayerInfoFull, PlayerInfoPacketKind, PlayerInfoUpdatePacket,
    PlayerProperty, RemoveEntry, UpdateLatencyEntry,
};
use roster::player_info_decode::{decode_full_packet, decode_player_info_packet};
use roster::varint::{decode_varint_prefix, encode_varint_u32, VarInt};
use roster::wire::{decode_u128_prefix, encode_u128_be};

#[test]
fn varint_exact_bytes() {
    let mut out: Vec<u8> = Vec::new();
    encode_varint_u32(0, &mut out);
    assert_eq!(out, vec![0x00]);
    let mut out: Vec<u8> = Vec::new();
    encode_varint_u32(127, &mut out);
    assert_eq!(out, vec![0x7f]);
    let mut out: Vec<u8> = Vec::new();
    encode_varint_u32(300, &mut out);
    assert_eq!(out, vec![0xac, 0x02]);
    let mut out: Vec<u8> = Vec::new();
    encode_varint_u32(u32::MAX, &mut out);
    assert_eq!(out, vec![0xff, 0xff, 0xff, 0xff, 0x0f]);
}

#[test]
fn varint_round_trip_values() {
    for v in [0u32, 1, 127, 128, 300, 16384, 2097151, u32::MAX] {
        let mut out: Vec<u8> = Vec::new();
        encode_varint_u32(v, &mut out);
        let (got, rest) = decode_varint_prefix(&out).expect("decodes");
        assert_eq!(got, v as u64);
        assert!(rest.is_empty());
    }
    // five continuation bytes with no final group is rejected
    assert!(decode_varint_prefix(&[0x80, 0x80, 0x80, 0x80, 0x80]).is_none());
    assert!(decode_varint_prefix(&[]).is_none());
}

#[test]
fn u128_big_endian_exact_bytes() {
    let mut out: Vec<u8> = Vec::new();
    encode_u128_be(0x0102030405060708090a0b0c0d0e0f10u128, &mut out);
    assert_eq!(
        out,
        vec![1, 2, 3, 4, 5, 6, 7, 8, 9, 10, 11, 12, 13, 14, 15, 16]
    );
    let (v, rest) = decode_u128_prefix(&out).expect("decodes");
    assert_eq!(v, 0x0102030405060708090a0b0c0d0e0f10u128);
    assert!(rest.is_empty());
    assert!(decode_u128_prefix(&out[..15]).is_none());
}

#[test]
fn remove_message_exact_bytes() {
    let mut out: Vec<u8> = Vec::new();
    let kind = PlayerInfoPacketKind::Remove(vec![RemoveEntry { uuid: 2 }]);
    encode_full_packet(&mut out, &kind);
    let mut expected: Vec<u8> = vec![4, 1];
    expected.extend_from_slice(&[0u8; 15]);
    expected.push(2);
    assert_eq!(out, expected);
}

#[test]
fn add_round_trip_with_signature_fallback() {
    // is_signed with no stored signature must encode an empty string and read
    // back as Some("")
    let entry = AddEntry {
        uuid: 0xfeedbeef00112233445566778899aabbu128,
        name: "Alice".to_string(),
        properties: vec![
            PlayerProperty {
                name: "textures".to_string(),
                value: "payload".to_string(),
                is_signed: true,
                signature: None,
            },
            PlayerProperty {
                name: "cape".to_string(),
                value: "red".to_string(),
                is_signed: true,
                signature: Some("sig".to_string()),
            },
            PlayerProperty {
                name: "elytra".to_string(),
                value: "blue".to_string(),
                is_signed: false,
                signature: Some("dropped".to_string()),
            },
        ],
        gamemode: VarInt::new(1),
        ping: VarInt::new(42),
        display_name: Some("display".to_string()),
    };
    let mut out: Vec<u8> = Vec::new();
    encode_full_packet(&mut out, &PlayerInfoPacketKind::Add(vec![entry]));
    let decoded = decode_full_packet(&out).expect("round trip");
    match decoded {
        PlayerInfoPacketKind::Add(es) => {
            assert_eq!(es.len(), 1);
            let e = &es[0];
            assert_eq!(e.uuid, 0xfeedbeef00112233445566778899aabbu128);
            assert_eq!(e.name, "Alice");
            assert_eq!(e.gamemode.val, 1);
            assert_eq!(e.ping.val, 42);
            assert_eq!(e.display_name.as_deref(), Some("display"));
            assert_eq!(e.properties.len(), 3);
            assert_eq!(e.properties[0].name, "textures");
            assert_eq!(e.properties[0].value, "payload");
            assert!(e.properties[0].is_signed);
            assert_eq!(e.properties[0].signature.as_deref(), Some(""));
            assert_eq!(e.properties[1].signature.as_deref(), Some("sig"));
            assert!(!e.properties[2].is_signed);
            assert_eq!(e.properties[2].signature, None);
        }
        _ => panic!("expected an add message"),
    }
}

#[test]
fn update_latency_round_trip() {
    let kind = PlayerInfoPacketKind::UpdateLatency(vec![
        UpdateLatencyEntry { uuid: 10, ping: VarInt::new(250) },
        UpdateLatencyEntry { uuid: 11, ping: VarInt::new(0) },
    ]);
    let mut out: Vec<u8> = Vec::new();
    encode_full_packet(&mut out, &kind);
    assert_eq!(out[0], 2);
    match decode_full_packet(&out).expect("round trip") {
        PlayerInfoPacketKind::UpdateLatency(es) => {
            assert_eq!(es.len(), 2);
            assert_eq!(es[0].uuid, 10);
            assert_eq!(es[0].ping.val, 250);
            assert_eq!(es[1].uuid, 11);
            assert_eq!(es[1].ping.val, 0);
        }
        _ => panic!("expected an update-latency message"),
    }
}

#[test]
fn full_packet_carries_packet_id() {
    let full = PlayerInfoFull(PlayerInfoPacketKind::Remove(vec![RemoveEntry { uuid: 9 }]));
    let mut out: Vec<u8> = Vec::new();
    full.encode(&mut out);
    assert_eq!(out[0], 63);
    match decode_player_info_packet(&out).expect("round trip") {
        PlayerInfoPacketKind::Remove(es) => {
            assert_eq!(es.len(), 1);
            assert_eq!(es[0].uuid, 9);
        }
        _ => panic!("expected a remove message"),
    }
}

#[test]
fn decoder_rejects_malformed_input() {
    // unknown discriminant
    assert!(decode_full_packet(&[1, 0]).is_none());
    // truncated entry
    assert!(decode_full_packet(&[4, 1, 0, 0]).is_none());
    // trailing bytes after a complete message
    let mut out: Vec<u8> = Vec::new();
    encode_full_packet(
        &mut out,
        &PlayerInfoPacketKind::Remove(vec![RemoveEntry { uuid: 1 }]),
    );
    out.push(0);
    assert!(decode_full_packet(&out).is_none());
    // empty input
    assert!(decode_full_packet(&[]).is_none());
}

#[test]
fn packet_headers_match_entry_counts() {
    let (pkt, kind) = PlayerInfoUpdatePacket::add_players(vec![AddEntry {
        uuid: 1,
        name: "N".to_string(),
        properties: Vec::new(),
        gamemode: VarInt::new(0),
        ping: VarInt::new(0),
        display_name: None,
    }]);
    assert_eq!(pkt.action.val, 0);
    assert_eq!(pkt.numbers_of_players.val, 1);
    match kind {
        PlayerInfoPacketKind::Add(es) => assert_eq!(es.len(), 1),
        _ => panic!("expected add entries"),
    }
    let (pkt, _) = PlayerInfoUpdatePacket::update_latency(vec![UpdateLatencyEntry {
        uuid: 1,
        ping: VarInt::new(5),
    }]);
    assert_eq!(pkt.action.val, 2);
    assert_eq!(pkt.numbers_of_players.val, 1);
    let (pkt, _) = PlayerInfoUpdatePacket::remove_players(vec![RemoveEntry { uuid: 1 }]);
    assert_eq!(pkt.action.val, 4);
    assert_eq!(pkt.numbers_of_players.val, 1);
    let mut header: Vec<u8> = Vec::new();
    pkt.encode(&mut header);
    assert_eq!(header, vec![4, 1]);
}
