use roster::player_info::{PlayerAction, PlayerProperty, PlayerWithActions};
use roster::skins_cache::{clear_cache, insert_skin, SkinCache, SkinProperties};

#[test]
fn test_add_and_remove_masks() {
    let add = PlayerWithActions::add_player(1234, "Alice");
    assert_eq!(add.get_actions_mask(), 0x01);

    let remove = PlayerWithActions::remove_player(1234);
    assert_eq!(remove.get_actions_mask(), 0x02);

    let both = PlayerWithActions {
        uuid: 1234,
        actions: vec![
            PlayerAction::AddPlayer { name: "A".into(), properties: Vec::new() },
            PlayerAction::RemovePlayer {},
        ],
    };
    assert_eq!(both.get_actions_mask(), 0x03);
}

#[test]
fn test_add_player_with_properties() {
    let mut cache = SkinCache::new();
    clear_cache(&mut cache);
    insert_skin(
        &mut cache,
        42,
        SkinProperties {
            name: "textures".to_string(),
            value: "dummyvalue".to_string(),
            signature: Some("sig".to_string()),
        },
    );
    let p = PlayerWithActions::add_player_with_properties(&cache, 42, "Bob");
    // mask should still be add
    assert_eq!(p.get_actions_mask(), 0x01);
}

#[test]
fn add_player_with_properties_carries_cached_skin() {
    let mut cache = SkinCache::new();
    insert_skin(
        &mut cache,
        7,
        SkinProperties {
            name: "textures".to_string(),
            value: "blob".to_string(),
            signature: None,
        },
    );
    let p = PlayerWithActions::add_player_with_properties(&cache, 7, "Eve");
    assert_eq!(p.uuid, 7);
    assert_eq!(p.actions.len(), 1);
    match &p.actions[0] {
        PlayerAction::AddPlayer { name, properties } => {
            assert_eq!(name, "Eve");
            assert_eq!(properties.len(), 1);
            assert_eq!(properties[0].value, "blob");
            assert!(!properties[0].is_signed);
        }
        PlayerAction::RemovePlayer {} => panic!("expected an add action"),
    }
    let q = PlayerWithActions::add_player_with_properties(&cache, 8, "NoSkin");
    match &q.actions[0] {
        PlayerAction::AddPlayer { properties, .. } => assert_eq!(properties.len(), 0),
        PlayerAction::RemovePlayer {} => panic!("expected an add action"),
    }
}

#[test]
fn skin_cache_insert_get_overwrite_clear() {
    let mut cache = SkinCache::new();
    assert!(roster::skins_cache::get_skin(&cache, 1).is_none());
    insert_skin(
        &mut cache,
        1,
        SkinProperties {
            name: "textures".to_string(),
            value: "first".to_string(),
            signature: Some("s1".to_string()),
        },
    );
    let got = roster::skins_cache::get_skin(&cache, 1).unwrap();
    assert_eq!(got.value, "first");
    assert_eq!(got.signature.as_deref(), Some("s1"));
    insert_skin(
        &mut cache,
        1,
        SkinProperties {
            name: "textures".to_string(),
            value: "second".to_string(),
            signature: None,
        },
    );
    let got = roster::skins_cache::get_skin(&cache, 1).unwrap();
    assert_eq!(got.value, "second");
    assert!(got.signature.is_none());
    clear_cache(&mut cache);
    assert!(roster::skins_cache::get_skin(&cache, 1).is_none());
    let _unused = PlayerProperty {
        name: "textures".to_string(),
        value: "v".to_string(),
        is_signed: false,
        signature: None,
    };
}
