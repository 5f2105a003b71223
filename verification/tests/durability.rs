use canistore_core::durable::RegionRegistry;
use canistore_core::dao::State;
use canistore_core::indexer::Indexer;
use canistore_core::platform::{audio_url, ChannelStore, MusicChannel, MusicType, TrackInfo};
use canistore_core::principal::PrincipalId;
use canistore_core::space_types::AudioFile;
use canistore_core::user_types::{MusicContentType, UpdateUserInfo, User};

#[test]
fn snapshot_and_restore_round_trip() {
    let mut registry = RegionRegistry::new(2);
    registry.register_region(0).unwrap();
    registry.register_region(1).unwrap();
    registry.register_region(2).unwrap();
    registry.set_payload(0, b"config cell".to_vec()).unwrap();
    registry.set_payload(2, vec![0xde, 0xad, 0xbe, 0xef]).unwrap();

    let blob = registry.snapshot();
    let restored = RegionRegistry::restore(&blob).expect("a snapshot restores");
    assert_eq!(restored.version, 2);
    assert_eq!(restored.regions.len(), 3);
    assert_eq!(restored.get_payload(0).unwrap(), b"config cell");
    assert_eq!(restored.get_payload(1).unwrap().len(), 0);
    assert_eq!(restored.get_payload(2).unwrap(), &vec![0xde, 0xad, 0xbe, 0xef]);
    assert!(restored.get_payload(3).is_none());
}

#[test]
fn restore_ignores_trailing_bytes_from_a_newer_writer() {
    let mut registry = RegionRegistry::new(1);
    registry.register_region(0).unwrap();
    registry.set_payload(0, vec![1, 2, 3]).unwrap();
    let mut blob = registry.snapshot();
    blob.extend_from_slice(b"fields a newer writer appended");
    let restored = RegionRegistry::restore(&blob).expect("trailing bytes are ignorable");
    assert_eq!(restored.get_payload(0).unwrap(), &vec![1, 2, 3]);
}

#[test]
fn restore_refuses_a_blob_that_does_not_decode() {
    // Too short for the header.
    assert!(RegionRegistry::restore(&vec![0u8; 15]).is_err());

    // A region that runs past the end of the blob.
    let mut registry = RegionRegistry::new(1);
    registry.register_region(0).unwrap();
    registry.set_payload(0, vec![7; 40]).unwrap();
    let mut truncated = registry.snapshot();
    truncated.truncate(truncated.len() - 10);
    assert!(RegionRegistry::restore(&truncated).is_err());
}

#[test]
fn region_ids_are_append_only() {
    let mut registry = RegionRegistry::new(1);
    registry.register_region(3).unwrap();
    assert!(registry.register_region(3).is_err());
    assert!(registry.register_region(1).is_err());
    registry.register_region(4).unwrap();
    assert!(registry.set_payload(9, vec![1]).is_err());
}

#[test]
fn registry_state_gates_operations() {
    let mut state = State::default();
    assert!(state.is_open());
    assert!(state.check_system_open().is_ok());
    state.is_open = false;
    assert!(state.check_system_open().is_err());

    state.add_canister(PrincipalId::new(5), "space".to_string(), vec![0; 32], 99);
    assert_eq!(state.canister_list.len(), 1);
    assert_eq!(state.canister_list[0].deploy_at, 99);

    assert!(state.get_user_space_info(PrincipalId::new(1)).is_none());
    state.user_space_infos.push((1, vec![PrincipalId::new(8)]));
    assert_eq!(state.get_user_space_info(PrincipalId::new(1)).unwrap().len(), 1);
}

#[test]
fn indexer_defaults() {
    let indexer = Indexer::default();
    assert_eq!(indexer.name, "default_indexer");
    assert_eq!(indexer.user_count, 0);
}

#[test]
fn channels_hold_shared_track_entries() {
    let mut channels = ChannelStore::new();
    let owner = PrincipalId::new(1);
    channels.add_channel(1, MusicChannel::new(1, "radio".to_string(), owner, MusicType::Jazz,
        None, None, 5));

    let album = canistore_core::space_types::Album::new(
        9,
        canistore_core::space_types::AlbumType::Album,
        "a".to_string(),
        "artist".to_string(),
        "cover".to_string(),
        owner,
        "d".to_string(),
        canistore_core::space_types::MusicCategory::Jazz,
        None,
        true,
        String::new(),
        vec![],
        "en".to_string(),
        None,
        None,
        vec![],
        5,
    );
    let mut track = canistore_core::space_types::Track {
        id: 3,
        name: "t".to_string(),
        collaborators: vec![],
        versions: None,
        audio_file: AudioFile { canister_id: PrincipalId::new(12), file_id: 4 },
        artist: owner,
        songwriter: true,
        is_explicit_lyrics: false,
        is_radio_edition: false,
        instrumental: false,
        duration: Some(10),
        album_id: Some(9),
        public_at: 0,
        file_size: 0,
        file_format: "flac".to_string(),
        cert_key: None,
        cert_hex: None,
        attributes: vec![],
        created: 5,
        updated: 5,
    };
    track.public_at = 1;

    let info = TrackInfo::new(&album, &track, PrincipalId::new(2), 0, None, None, None);
    assert_eq!(info.audio_url, audio_url(&track.audio_file));
    assert_eq!(info.audio_url, "https://12.icp0.io/f/4");
    channels.add_track_to_channel(1, info).unwrap();
    assert_eq!(channels.get_channel(1).unwrap().tracks.len(), 1);
    assert!(channels.add_track_to_channel(2, TrackInfo::new(&album, &track,
        PrincipalId::new(2), 0, None, None, None)).is_err());

    // Deleting by share pointer removes the matching entry.
    channels.delete_track_from_channel_by_share(1, PrincipalId::new(2), 3).unwrap();
    assert!(channels.delete_track_from_channel_by_share(1, PrincipalId::new(2), 3).is_err());
    assert_eq!(channels.get_channel(1).unwrap().tracks.len(), 0);
    assert!(channels.delete_track_from_channel(1, 0).is_err());

    assert_eq!(MusicType::iter().len(), 10);
}

#[test]
fn profile_updates_merge_field_by_field() {
    let mut user = User::new(PrincipalId::new(5), 10);
    user.set_user_info(
        UpdateUserInfo {
            avatar: Some("a".to_string()),
            artist_name: None,
            location: Some("here".to_string()),
            genre: None,
            website: None,
            bio: None,
            handler: Some("h".to_string()),
            music_content_type: Some(MusicContentType::DJ),
            born: Some(1990),
            confirm_agreement: Some(true),
        },
        20,
    );
    assert_eq!(user.avatar, "a");
    assert_eq!(user.artist_name, "");
    assert_eq!(user.location, "here");
    assert_eq!(user.handler, "h");
    assert_eq!(user.music_content_type, Some(MusicContentType::DJ));
    assert_eq!(user.born, Some(1990));
    assert!(user.confirm_agreement);
    assert_eq!(user.updated_at, 20);
    assert_eq!(MusicContentType::DJ.to_string(), "DJ");

    user.add_user_attribute(
        canistore_core::user_types::Attribute { key: "k".to_string(), value: "v1".to_string() },
        21,
    );
    user.add_user_attribute(
        canistore_core::user_types::Attribute { key: "k".to_string(), value: "v2".to_string() },
        22,
    );
    assert_eq!(user.attributes.len(), 1);
    assert_eq!(user.attributes[0].value, "v2");
}

#[test]
fn snapshot_layout_is_exactly_as_documented() {
    let mut registry = RegionRegistry::new(1);
    registry.register_region(0).unwrap();
    registry.set_payload(0, vec![7]).unwrap();
    let blob = registry.snapshot();
    let mut expected = Vec::new();
    expected.extend_from_slice(&1u64.to_be_bytes());
    expected.extend_from_slice(&1u64.to_be_bytes());
    expected.extend_from_slice(&0u64.to_be_bytes());
    expected.extend_from_slice(&1u64.to_be_bytes());
    expected.push(7);
    assert_eq!(blob, expected);
}

#[test]
fn platform_init_seeds_the_channel_catalog() {
    let mut state = canistore_core::platform::PlatformState {
        name: "platform".to_string(),
        owner: PrincipalId::new(0),
        ecdsa_key_name: String::new(),
        ecdsa_token_public_key: String::new(),
        token_expiration: 0,
        next_channel_id: 1,
    };
    let mut channels = ChannelStore::new();
    canistore_core::platform::init(
        &mut state,
        &mut channels,
        canistore_core::platform::PlatformInitArgs {
            name: String::new(),
            owner: PrincipalId::new(9),
            ecdsa_key_name: "key".to_string(),
            token_expiration: 60,
            init_channel: true,
        },
        5,
    );
    // An empty name keeps the default; the catalog is seeded in full.
    assert_eq!(state.name, "platform");
    assert_eq!(state.owner, PrincipalId::new(9));
    assert_eq!(state.next_channel_id, 13);
    assert_eq!(channels.entries.len(), 12);
    assert_eq!(channels.get_channel(1).unwrap().name, "Urban Sounds");
    assert_eq!(channels.get_channel(12).unwrap().name, "Crypto with Kamal");

    canistore_core::platform::apply_upgrade(
        &mut state,
        canistore_core::platform::PlatformUpgradeArgs {
            owner: None,
            token_expiration: Some(99),
        },
    );
    assert_eq!(state.owner, PrincipalId::new(9));
    assert_eq!(state.token_expiration, 99);
}
