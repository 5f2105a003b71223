use canistore_core::license::LicenseKey;
use canistore_core::principal::PrincipalId;
use canistore_core::space_store::{
    AlbumStore, LicenseStore, PostStore, ShareStore, Space, SpaceStore, TrackStore,
};
use canistore_core::space_types::{
    Album, AlbumType, AudioFile, CreateAlbumArg, CreateTrackArg, MusicCategory, SharedTrack,
    Track, UserPost,
};
use canistore_core::payment::{LicensePrice, PaymentType};
use canistore_core::text::{make_key, u64_to_dec};

const NOW: u64 = 7_000;

fn album(id: u64) -> Album {
    Album::new(
        id,
        AlbumType::Album,
        format!("album-{id}"),
        "artist".to_string(),
        "cover".to_string(),
        PrincipalId::new(5),
        "desc".to_string(),
        MusicCategory::Jazz,
        None,
        true,
        String::new(),
        vec![],
        "en".to_string(),
        None,
        None,
        vec![],
        NOW,
    )
}

fn track(id: u64) -> Track {
    Track {
        id,
        name: format!("track-{id}"),
        collaborators: vec![],
        versions: None,
        audio_file: AudioFile { canister_id: PrincipalId::new(77), file_id: id as u32 },
        artist: PrincipalId::new(5),
        songwriter: true,
        is_explicit_lyrics: false,
        is_radio_edition: false,
        instrumental: false,
        duration: Some(60),
        album_id: None,
        public_at: 0,
        file_size: 1,
        file_format: "flac".to_string(),
        cert_key: None,
        cert_hex: None,
        attributes: vec![],
        created: NOW,
        updated: NOW,
    }
}

#[test]
fn album_track_ids_extend_without_duplicates() {
    let mut albums = AlbumStore::new();
    albums.add_album(1, album(1));
    albums.add_track_ids_to_album(1, vec![10, 11]).unwrap();
    albums.add_track_ids_to_album(1, vec![11, 12, 10, 13]).unwrap();
    assert_eq!(albums.get_album(1).unwrap().track_ids, vec![10, 11, 12, 13]);

    albums.remove_track_ids_from_album(1, vec![11, 13, 99]).unwrap();
    assert_eq!(albums.get_album(1).unwrap().track_ids, vec![10, 12]);

    assert!(albums.add_track_ids_to_album(2, vec![1]).is_err());
    assert!(albums.remove_track_ids_from_album(2, vec![1]).is_err());
}

#[test]
fn album_edit_and_delete() {
    let mut albums = AlbumStore::new();
    albums.add_album(1, album(1));
    let mut changed = album(1);
    changed.title = "renamed".to_string();
    albums.edit_album(1, changed).unwrap();
    assert_eq!(albums.get_album(1).unwrap().title, "renamed");
    assert!(albums.edit_album(2, album(2)).is_err());
    assert!(albums.delete_album(1));
    assert!(!albums.delete_album(1));
    assert!(albums.get_album(1).is_none());
}

#[test]
fn track_store_updates_fields_in_place() {
    let mut tracks = TrackStore::new();
    tracks.add_track(1, track(1));
    tracks.add_track(2, track(2));
    assert_eq!(tracks.total_tracks(), 2);
    assert!(tracks.check_track_ids(&vec![1, 2]));
    assert!(!tracks.check_track_ids(&vec![1, 3]));

    tracks.set_track_album_id(1, Some(4)).unwrap();
    tracks.set_track_cert(1, Some("k".to_string()), Some("beef".to_string())).unwrap();
    tracks.set_track_public_status(1, NOW).unwrap();
    let t = tracks.get_track(1).unwrap();
    assert_eq!(t.album_id, Some(4));
    assert_eq!(t.cert_key.as_deref(), Some("k"));
    assert_eq!(t.public_at, NOW);
    assert_eq!(t.name, "track-1");

    assert_eq!(tracks.get_public_track_ids(), vec![1]);

    // A public track inside an album cannot be deleted; a private one can.
    assert!(tracks.delete_track(1).is_err());
    assert!(tracks.delete_track(2).is_ok());
    assert!(tracks.delete_track(3).is_err());
}

#[test]
fn licenses_are_granted_once_per_user_and_resource() {
    let mut licenses = LicenseStore::new();
    let me = PrincipalId::new(10);
    licenses.add_license(
        1,
        None,
        Some(42),
        me,
        canistore_core::license::ChannelType::User,
        vec![],
        vec![],
        vec![],
        vec![],
        vec![],
        Some(5),
        NOW,
    );
    assert_eq!(licenses.total_licenses(), 1);
    let map = licenses.get_license_by_track(42).unwrap();
    let granted = map.get(me).unwrap();
    assert_eq!(granted.id, 1);
    assert_eq!(granted.fee, Some(5));
    assert_eq!(granted.resource_key, LicenseKey::new(None, Some(42)));

    // A second grant to the same user is a no-op.
    licenses.add_license(
        2,
        None,
        Some(42),
        me,
        canistore_core::license::ChannelType::User,
        vec![],
        vec![],
        vec![],
        vec![],
        vec![],
        None,
        NOW + 1,
    );
    assert_eq!(licenses.get_license_by_track(42).unwrap().get(me).unwrap().id, 1);

    // The platform license uses the system identity.
    licenses.add_track_license_for_platform(3, 42, NOW + 2);
    let genesis = licenses.get_track_genesis_license(PrincipalId::anonymous(), 42).unwrap();
    assert_eq!(genesis.id, 3);

    licenses.remove_track_license_for_platform(42);
    assert!(licenses.get_track_genesis_license(PrincipalId::anonymous(), 42).is_none());

    // Removing the last license removes the resource entry.
    licenses.remove_track_license(42, me);
    assert!(licenses.get_license_by_track(42).is_none());
    assert!(licenses.delete_license(None, Some(42)).is_err());
}

#[test]
fn shares_count_distinct_albums() {
    let mut tracks = TrackStore::new();
    let mut t1 = track(1);
    t1.album_id = Some(100);
    let mut t2 = track(2);
    t2.album_id = Some(100);
    let mut t3 = track(3);
    t3.album_id = Some(200);
    tracks.add_track(1, t1);
    tracks.add_track(2, t2);
    tracks.add_track(3, t3);
    tracks.add_track(4, track(4));

    let mut shares = ShareStore::new();
    shares.create_share(1, SharedTrack { track_id: 1, channel_id: 1, created_at: NOW }).unwrap();
    assert!(shares.create_share(1, SharedTrack { track_id: 1, channel_id: 2, created_at: NOW })
        .is_err());
    shares.batch_create_share(vec![2, 3, 4], 1, NOW).unwrap();
    assert_eq!(shares.total_shares(), 4);
    // Tracks 1 and 2 share one album, track 3 another, track 4 none.
    assert_eq!(shares.total_shares_album(&tracks), 2);

    let w = shares.get_share(3).unwrap();
    assert_eq!(w.into_inner(), SharedTrack { track_id: 3, channel_id: 1, created_at: NOW });

    shares.delete_share(3).unwrap();
    assert!(shares.delete_share(3).is_err());
    assert_eq!(shares.total_shares(), 3);
    assert_eq!(shares.total_shares_album(&tracks), 1);
}

#[test]
fn posts_page_in_both_directions() {
    let mut posts = PostStore::new();
    for i in 0..5u64 {
        posts.create_post(i, UserPost { post_id: i, content: format!("p{i}"), created_at: NOW + i });
    }
    let first_two = posts.get_post_list(2, 0, false);
    assert_eq!(first_two.len(), 2);
    assert_eq!(first_two[0].post_id, 0);
    assert_eq!(first_two[1].post_id, 1);

    let newest_two = posts.get_post_list(2, 0, true);
    assert_eq!(newest_two[0].post_id, 4);
    assert_eq!(newest_two[1].post_id, 3);

    let offset_past_end = posts.get_post_list(10, 7, false);
    assert!(offset_past_end.is_empty());

    let got = posts.get_post(3).unwrap().into_inner();
    assert_eq!(got.content, "p3");
    posts.delete_post(3).unwrap();
    assert!(posts.get_post(3).is_none());
    assert!(posts.delete_post(3).is_err());
}

#[test]
fn space_permissions_and_defaults() {
    let mut space = Space::default();
    assert_eq!(space.name, "default_space");
    assert_eq!(space.max_albums, 1_000);
    assert_eq!(space.next_album_id, 0);

    let owner = PrincipalId::new(1);
    let manager = PrincipalId::new(2);
    let stranger = PrincipalId::new(3);
    space.owner = owner;
    assert!(space.owner_permission(owner).is_ok());
    assert!(space.owner_permission(manager).is_err());
    assert!(space.write_permission(manager).is_err());
    space.add_managers(vec![manager]);
    assert!(space.write_permission(manager).is_ok());
    assert!(space.write_permission(stranger).is_err());

    space.store_track_ids.push(9);
    assert!(space.get_is_share_store(9));
    assert!(!space.get_is_share_store(8));
}

#[test]
fn counters_render_in_decimal() {
    assert_eq!(u64_to_dec(0), "0");
    assert_eq!(u64_to_dec(7), "7");
    assert_eq!(u64_to_dec(12345), "12345");
    assert_eq!(u64_to_dec(u64::MAX), u64::MAX.to_string());
    assert_eq!(make_key("cani_cert", 42), "cani_cert_42");
}

#[test]
fn license_key_collapses_to_a_pair() {
    assert_eq!(LicenseKey::new(Some(3), None).to_tuple(), (3, 0));
    assert_eq!(LicenseKey::new(None, Some(9)).to_tuple(), (0, 9));
    assert_eq!(LicenseKey::new(None, None).to_tuple(), (0, 0));
}

#[test]
fn space_flows_draw_fresh_ids_and_keep_the_tallies() {
    let mut store = SpaceStore::new();
    store.space.max_albums = 2;
    let caller = PrincipalId::new(6);

    let arg = |title: &str| CreateAlbumArg {
        album_type: AlbumType::Album,
        title: title.to_string(),
        artist: "artist".to_string(),
        cover_image: String::new(),
        producer: None,
        description: String::new(),
        category: MusicCategory::Jazz,
        sub_category: None,
        is_original: true,
        external_link: String::new(),
        tags: vec![],
        language: "en".to_string(),
        release_at: None,
        copyright: None,
        subscription_prices: vec![],
    };
    assert_eq!(store.create_album(arg("one"), caller, NOW), Ok(1));
    assert_eq!(store.create_album(arg("two"), caller, NOW), Ok(2));
    // The configured maximum is enforced, and a failed creation burns no id.
    assert!(store.create_album(arg("three"), caller, NOW).is_err());
    assert_eq!(store.space.next_album_id, 2);
    assert_eq!(store.space.total_albums, 2);
    assert_eq!(store.albums.get_album(2).unwrap().producer, caller);

    store.delete_album(2).unwrap();
    assert_eq!(store.space.total_albums, 1);
    // The freed id is never reused: the next album continues the sequence.
    assert_eq!(store.create_album(arg("four"), caller, NOW), Ok(3));

    let targ = CreateTrackArg {
        name: "song".to_string(),
        collaborators: vec![],
        versions: None,
        audio_file: AudioFile { canister_id: caller, file_id: 1 },
        songwriter: true,
        is_explicit_lyrics: false,
        is_radio_edition: false,
        instrumental: false,
        duration: None,
        file_size: 10,
        file_format: "flac".to_string(),
    };
    assert_eq!(store.create_track(targ, caller, NOW), Ok(1));
    assert_eq!(store.space.total_tracks, 1);
    store.delete_track(1).unwrap();
    assert_eq!(store.space.total_tracks, 0);

    assert_eq!(store.create_post("hello".to_string(), NOW), Ok(0));
    assert_eq!(store.create_post("again".to_string(), NOW), Ok(1));
    assert_eq!(store.space.total_post, 2);
    store.delete_post(0).unwrap();
    assert_eq!(store.space.total_post, 1);
    assert!(store.delete_post(0).is_err());
}

#[test]
fn certificate_preparation_guards_and_projects_the_track() {
    let mut store = SpaceStore::new();
    let caller = PrincipalId::new(6);
    let mut t = track(1);
    t.collaborators = vec!["Ada".to_string(), "Linus".to_string(), "Grace".to_string()];
    store.tracks.add_track(1, t);

    let cert = store.prepare_music_certificate(1, "space_1".to_string()).unwrap();
    assert_eq!(cert.title, "track-1");
    assert_eq!(cert.owner, PrincipalId::new(5));
    assert_eq!(cert.artist, "Ada, Linus, Grace");
    assert_eq!(cert.unique_id, "space_1");

    // An already-certified track refuses a second certificate; an unknown
    // track is not found.
    store.tracks.set_track_cert(1, Some("k".to_string()), Some("hex".to_string())).unwrap();
    assert!(store.prepare_music_certificate(1, "space_1".to_string()).is_err());
    assert!(store.prepare_music_certificate(9, "space_9".to_string()).is_err());
    let _ = caller;
}

#[test]
fn confirmed_license_order_grants_the_genesis_terms_to_the_payer() {
    let mut store = SpaceStore::new();
    let canister = PrincipalId::new(99);
    let payer = PrincipalId::new(7);
    store.space.next_license_id = 5;

    // The track carries its genesis license, held by the instance itself.
    store.licenses.add_license(
        1,
        None,
        Some(42),
        canister,
        canistore_core::license::ChannelType::Platform,
        vec![],
        vec![],
        vec![],
        vec![],
        vec![],
        Some(1000),
        NOW,
    );
    store.payments.create_award_order(
        3,
        payer,
        "license".to_string(),
        "ICP".to_string(),
        1000,
        PaymentType::LicensePrice(LicensePrice::new_for_license(42, 1000)),
        NOW,
    );

    // An unconfirmed order grants nothing.
    assert!(store.grant_license_for_order(3, false, canister, NOW + 1).is_err());
    assert_eq!(store.space.next_license_id, 5);

    // A confirmed one clones the genesis terms to the payer under a fresh id.
    assert_eq!(store.grant_license_for_order(3, true, canister, NOW + 2), Ok(5));
    assert_eq!(store.space.next_license_id, 6);
    assert_eq!(store.space.total_licenses, 1);
    let map = store.licenses.get_license_by_track(42).unwrap();
    let granted = map.get(payer).unwrap();
    assert_eq!(granted.id, 5);
    assert_eq!(granted.user, payer);
    assert_eq!(granted.fee, Some(1000));
    assert_eq!(granted.created, NOW + 2);

    // An order that pays for something else grants nothing.
    store.payments.create_award_order(
        4,
        payer,
        "award".to_string(),
        "ICP".to_string(),
        10,
        PaymentType::AwardPrice,
        NOW,
    );
    assert!(store.grant_license_for_order(4, true, canister, NOW + 3).is_err());
    assert!(store.grant_license_for_order(8, true, canister, NOW + 3).is_err());
}
