use roster::connection_killer::connection_killer;
use roster::keep_alive::{handle as keep_alive_handle, IncomingKeepAlive};
use roster::keepalive::KeepAliveTracker;
use roster::new_connections::{accept_new_connections, admit_connection, NewConnection};
use roster::player_info::PlayerInfoPacketKind;
use roster::player_info_decode::decode_full_packet;
use roster::player_loaded::handle as player_loaded_handle;
use roster::queue::DisconnectionQueue;
use roster::registry::PlayerRegistry;
use roster::sessions::Connections;
use roster::skins_cache::{insert_skin, SkinCache, SkinProperties};

fn conn(uuid: u128, name: &str, short: i32) -> NewConnection {
    NewConnection { uuid, username: name.to_string(), short_uuid: short }
}

#[test]
fn admission_broadcasts_to_existing_peers_only() {
    let mut conns = Connections::new();
    let mut registry = PlayerRegistry::new();
    let cache = SkinCache::new();

    let a = admit_connection(&mut conns, &mut registry, &cache, conn(100, "A", 1), 0);
    let b = admit_connection(&mut conns, &mut registry, &cache, conn(200, "B", 2), 0);
    assert_eq!(a.sends.len(), 0);
    assert_eq!(b.sends.len(), 1);
    assert_eq!(b.sends[0].target, a.entity);

    let results = accept_new_connections(
        &mut conns,
        &mut registry,
        &cache,
        vec![conn(300, "C", 3)],
        0,
    );
    assert_eq!(results.len(), 1);
    let c = &results[0];
    // both A and B get exactly one add message; C gets nothing here
    assert_eq!(c.sends.len(), 2);
    assert_eq!(c.sends[0].target, a.entity);
    assert_eq!(c.sends[1].target, b.entity);
    assert!(c.sends.iter().all(|s| s.target != c.entity));
    for s in &c.sends {
        match decode_full_packet(&s.bytes).expect("well-formed broadcast") {
            PlayerInfoPacketKind::Add(es) => {
                assert_eq!(es.len(), 1);
                assert_eq!(es[0].uuid, 300);
                assert_eq!(es[0].name, "C");
                assert_eq!(es[0].ping.val, 0);
                assert_eq!(es[0].gamemode.val, 0);
            }
            _ => panic!("expected an add message"),
        }
    }
    assert_eq!(registry.len(), 3);
}

#[test]
fn admission_attaches_cached_skin() {
    let mut conns = Connections::new();
    let mut registry = PlayerRegistry::new();
    let mut cache = SkinCache::new();
    insert_skin(
        &mut cache,
        5,
        SkinProperties {
            name: "textures".to_string(),
            value: "texdata".to_string(),
            signature: Some("signed".to_string()),
        },
    );
    let _a = admit_connection(&mut conns, &mut registry, &cache, conn(1, "A", 9), 0);
    let b = admit_connection(&mut conns, &mut registry, &cache, conn(2, "B", 5), 0);
    match decode_full_packet(&b.sends[0].bytes).expect("decodes") {
        PlayerInfoPacketKind::Add(es) => {
            assert_eq!(es[0].properties.len(), 1);
            assert_eq!(es[0].properties[0].name, "textures");
            assert_eq!(es[0].properties[0].value, "texdata");
            assert!(es[0].properties[0].is_signed);
            assert_eq!(es[0].properties[0].signature.as_deref(), Some("signed"));
        }
        _ => panic!("expected an add message"),
    }
}

#[test]
fn keep_alive_rtt_measured_and_clamped() {
    let mut conns = Connections::new();
    let mut registry = PlayerRegistry::new();
    let cache = SkinCache::new();
    let mut queue = DisconnectionQueue::new();
    let a = admit_connection(&mut conns, &mut registry, &cache, conn(1, "A", 1), 1000);

    // challenge with token 77 sent at 2000 ms
    conns.set_keep_alive(
        a.entity,
        KeepAliveTracker {
            last_sent_keep_alive: 77,
            last_received_keep_alive: 1000,
            has_received_keep_alive: false,
            last_sent_instant: Some(2000),
            last_rtt_ms: 0,
        },
    );
    // matching response at 2350 ms
    let events = vec![IncomingKeepAlive { entity: a.entity, timestamp: 77 }];
    keep_alive_handle(&events, &mut conns, &mut queue, 2350);
    let t = conns.keep_alive_of(a.entity).unwrap();
    assert_eq!(t.last_rtt_ms, 350);
    assert!(t.has_received_keep_alive);
    assert_eq!(t.last_received_keep_alive, 2350);
    assert_eq!(queue.len(), 0);

    // an artificially huge measurement is stored as i32::MAX, never negative
    conns.set_keep_alive(
        a.entity,
        KeepAliveTracker {
            last_sent_keep_alive: 78,
            last_received_keep_alive: 2350,
            has_received_keep_alive: true,
            last_sent_instant: Some(0),
            last_rtt_ms: 350,
        },
    );
    let events = vec![IncomingKeepAlive { entity: a.entity, timestamp: 78 }];
    keep_alive_handle(&events, &mut conns, &mut queue, i32::MAX as u64 + 5000);
    let t = conns.keep_alive_of(a.entity).unwrap();
    assert_eq!(t.last_rtt_ms, i32::MAX);
    assert!(t.last_rtt_ms >= 0);
}

#[test]
fn keep_alive_token_mismatch_queues_disconnect() {
    let mut conns = Connections::new();
    let mut registry = PlayerRegistry::new();
    let cache = SkinCache::new();
    let mut queue = DisconnectionQueue::new();
    let a = admit_connection(&mut conns, &mut registry, &cache, conn(1, "A", 1), 0);
    conns.set_keep_alive(
        a.entity,
        KeepAliveTracker {
            last_sent_keep_alive: 77,
            last_received_keep_alive: 0,
            has_received_keep_alive: false,
            last_sent_instant: Some(10),
            last_rtt_ms: 0,
        },
    );
    let events = vec![IncomingKeepAlive { entity: a.entity, timestamp: 78 }];
    keep_alive_handle(&events, &mut conns, &mut queue, 20);
    assert_eq!(queue.len(), 1);
    let req = queue.pop().unwrap();
    assert_eq!(req.entity, a.entity);
    assert!(req.reason.unwrap().contains("Invalid keep alive"));
    // a stale event for a despawned entity is discarded
    let events = vec![IncomingKeepAlive { entity: 999, timestamp: 1 }];
    keep_alive_handle(&events, &mut conns, &mut queue, 30);
    assert_eq!(queue.len(), 0);
}

#[test]
fn loaded_roster_snapshot_three_players() {
    let mut conns = Connections::new();
    let mut registry = PlayerRegistry::new();
    let cache = SkinCache::new();
    let a = admit_connection(&mut conns, &mut registry, &cache, conn(100, "A", 1), 0);
    let b = admit_connection(&mut conns, &mut registry, &cache, conn(200, "B", 2), 0);
    let c = admit_connection(&mut conns, &mut registry, &cache, conn(300, "C", 3), 0);
    for (e, rtt) in [(a.entity, 11), (b.entity, 22), (c.entity, 33)] {
        conns.set_keep_alive(
            e,
            KeepAliveTracker {
                last_sent_keep_alive: 0,
                last_received_keep_alive: 0,
                has_received_keep_alive: true,
                last_sent_instant: None,
                last_rtt_ms: rtt,
            },
        );
    }
    let out = player_loaded_handle(b.entity, Some(0), &conns, &registry, &cache);
    assert!(out.connected);
    assert!(!out.sync_position);
    let bytes = out.roster_message.expect("non-empty roster");
    match decode_full_packet(&bytes).expect("decodes") {
        PlayerInfoPacketKind::Add(es) => {
            assert_eq!(es.len(), 3);
            assert_eq!(es[0].uuid, 100);
            assert_eq!(es[1].uuid, 200);
            assert_eq!(es[2].uuid, 300);
            assert_eq!(es[0].ping.val, 11);
            assert_eq!(es[1].ping.val, 22);
            assert_eq!(es[2].ping.val, 33);
            assert_eq!(es[0].name, "A");
            assert_eq!(es[1].name, "B");
            assert_eq!(es[2].name, "C");
        }
        _ => panic!("expected an add message"),
    }
    // a non-air head block asks for a position resynchronization
    let out = player_loaded_handle(b.entity, Some(9), &conns, &registry, &cache);
    assert!(out.sync_position);
    // a failed world lookup degrades to no teleport
    let out = player_loaded_handle(b.entity, None, &conns, &registry, &cache);
    assert!(!out.sync_position);
    // an unregistered entity lost the race with disconnection: nothing is sent
    let out = player_loaded_handle(9999, Some(0), &conns, &registry, &cache);
    assert!(!out.connected);
    assert!(out.roster_message.is_none());
}

#[test]
fn disconnection_is_idempotent() {
    let mut conns = Connections::new();
    let mut registry = PlayerRegistry::new();
    let cache = SkinCache::new();
    let mut queue = DisconnectionQueue::new();
    let a = admit_connection(&mut conns, &mut registry, &cache, conn(100, "A", 1), 0);
    let b = admit_connection(&mut conns, &mut registry, &cache, conn(200, "B", 2), 0);
    let c = admit_connection(&mut conns, &mut registry, &cache, conn(300, "C", 3), 0);

    // the same entity queued twice is destroyed exactly once
    queue.push(b.entity, Some("bye".to_string()));
    queue.push(b.entity, None);
    let (notices, sends) = connection_killer(&mut conns, &mut registry, &mut queue);
    assert_eq!(queue.len(), 0);
    assert_eq!(notices.len(), 1);
    assert_eq!(notices[0].target, b.entity);
    assert_eq!(notices[0].reason, "bye");
    // exactly one remove broadcast: one send each to A and C, none to B
    assert_eq!(sends.len(), 2);
    assert_eq!(sends[0].target, a.entity);
    assert_eq!(sends[1].target, c.entity);
    for s in &sends {
        match decode_full_packet(&s.bytes).expect("decodes") {
            PlayerInfoPacketKind::Remove(es) => {
                assert_eq!(es.len(), 1);
                assert_eq!(es[0].uuid, 200);
            }
            _ => panic!("expected a remove message"),
        }
    }
    assert!(!conns.contains(b.entity));
    assert!(!registry.is_connected(b.entity));
    assert_eq!(registry.len(), 2);

    // a disconnect with no reason falls back to the default notice text
    queue.push(c.entity, None);
    let (notices, sends) = connection_killer(&mut conns, &mut registry, &mut queue);
    assert_eq!(notices.len(), 1);
    assert_eq!(notices[0].reason, "Disconnected");
    assert_eq!(sends.len(), 1);
    assert_eq!(sends[0].target, a.entity);
}

#[test]
fn registry_snapshot_holds_whole_rows() {
    let mut registry = PlayerRegistry::new();
    registry.insert(1, 1001, "A".to_string());
    registry.insert(2, 1002, "B".to_string());
    registry.insert(3, 1003, "C".to_string());
    let snap = registry.snapshot();
    assert_eq!(snap.len(), 3);
    for (i, row) in snap.iter().enumerate() {
        assert_eq!(row.0, (i + 1) as u64);
        assert_eq!(row.1 .0, 1001 + i as u128);
        assert!(!row.1 .1.is_empty());
    }
    // overwrite keeps the size and replaces the row whole
    registry.insert(2, 2002, "B2".to_string());
    assert_eq!(registry.len(), 3);
    let got = registry.get(2).unwrap();
    assert_eq!(got.0, 2002);
    assert_eq!(got.1, "B2");
    registry.remove(2);
    assert_eq!(registry.len(), 2);
    assert!(!registry.is_connected(2));
    registry.remove(2);
    assert_eq!(registry.len(), 2);
}

#[test]
fn disconnection_queue_is_fifo() {
    let mut queue = DisconnectionQueue::new();
    assert!(queue.is_empty());
    assert!(queue.pop().is_none());
    queue.push(1, Some("first".to_string()));
    queue.push(2, None);
    assert_eq!(queue.len(), 2);
    let a = queue.pop().unwrap();
    assert_eq!(a.entity, 1);
    assert_eq!(a.reason.as_deref(), Some("first"));
    let b = queue.pop().unwrap();
    assert_eq!(b.entity, 2);
    assert!(b.reason.is_none());
    assert!(queue.is_empty());
}
