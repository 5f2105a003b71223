//! The domain types a space service keeps: albums, tracks, shares, posts,
//! and the request/response shapes of its queries.

use vstd::prelude::*;
use crate::principal::PrincipalId;
use crate::user_types::Attribute;

verus! {

/// The direction a listing query walks entities in.
#[derive(Clone, Copy, PartialEq, Eq, Structural, Debug)]
pub enum QuerySort {
    TimeDesc,
    TimeAsc,
}

/// A common paged query.
#[derive(Clone, Copy, PartialEq, Eq, Structural, Debug)]
pub struct QueryCommonReq {
    pub page: u32,
    pub size: u32,
    pub sort: QuerySort,
}

#[derive(Clone, Copy, PartialEq, Eq, Structural, Debug)]
pub enum PermissionType {
    Owner,
    Creator,
    NoAccess,
}

#[derive(Clone, Copy, PartialEq, Eq, Structural, Debug)]
pub enum MusicCategory {
    Rock,
    PopMusic,
    CountryMusic,
    ClassicalMusic,
    PopularMusic,
    Blues,
    ElectronicMusic,
    RhythmAndBlues,
    FolkMusic,
    HeavyMetal,
    Jazz,
    HipHopMusic,
    AlternativeRock,
    SynthPop,
    WorldMusic,
    Funk,
    PunkRock,
    Reggae,
    ProgressiveRock,
    DanceMusic,
    Disco,
    NewAgeMusic,
    IndieRock,
    ExperimentalMusic,
    NewWave,
    SoulMusic,
    Ska,
    Singing,
    ChristianMusic,
    Modernism,
    ElectronicDanceMusic,
    EasyListening,
    HardRock,
    Techno,
    Grunge,
    Emo,
    HouseMusic,
    Dubstep,
    LatinMusic,
    KPop,
    Metal,
    Britpop,
    MusicOfLatinAmerica,
    TranceMusic,
    Flamenco,
    SwingMusic,
    IndianClassicalMusic,
    Bachata,
    VocalMusic,
    MusicOfAfrica,
    Other,
}

/// One node of the category tree a space offers.
#[derive(Clone, Debug)]
pub struct Category {
    pub id: u32,
    pub category_type: MusicCategory,
    pub desc: String,
    pub parent: Option<u32>,
}

#[derive(Clone, Copy, PartialEq, Eq, Structural, Debug)]
pub enum AlbumStatus {
    Draft,
    Public,
    Subscription,
    Private,
    Deleted,
}

#[derive(Clone, Copy, PartialEq, Eq, Structural, Debug)]
pub enum AlbumType {
    Album,
    Single,
    EP,
    Playlist,
    Channel,
}

#[derive(Clone, Copy, PartialEq, Eq, Structural, Debug)]
pub enum TrackVersion {
    Live,
    Remix,
    Radio,
    Orginal,
}

#[derive(Clone, Copy, PartialEq, Eq, Structural, Debug)]
pub enum CommentStatus {
    Invisible,
    Visible,
}

/// The file a track's audio lives in, on an object-storage service.
#[derive(Clone, Copy, PartialEq, Eq, Structural, Debug)]
pub struct AudioFile {
    pub canister_id: PrincipalId,
    pub file_id: u32,
}

/// A price offered for subscribing to an album or space.
#[derive(Clone, Copy, PartialEq, Eq, Structural, Debug)]
pub struct SubscriptionPrice {
    pub duration_days: u32,
    pub price: u64,
}

/// One subscriber of an album or space.
#[derive(Clone, Copy, PartialEq, Eq, Structural, Debug)]
pub struct SubscriberInfo {
    pub pid: PrincipalId,
    pub subscribed_at: u64,
}

/// The per-status tally a space keeps over its albums.
#[derive(Clone, Copy, PartialEq, Eq, Structural, Debug)]
pub struct AlbumStat {
    pub total: u32,
    pub public_count: u32,
    pub private_count: u32,
    pub subscription_count: u32,
    pub draft_count: u32,
}

impl Default for AlbumStat {
    fn default() -> (r: AlbumStat)
        ensures
            r.total == 0,
            r.public_count == 0,
            r.private_count == 0,
            r.subscription_count == 0,
            r.draft_count == 0,
    {
        AlbumStat {
            total: 0,
            public_count: 0,
            private_count: 0,
            subscription_count: 0,
            draft_count: 0,
        }
    }
}

/// An album: a keyed entity owning an ordered list of track ids.
#[derive(Debug)]
pub struct Album {
    pub id: u64,
    pub album_type: AlbumType,
    pub title: String,
    pub artist: String,
    pub cover_image: String,
    pub producer: PrincipalId,
    pub description: String,
    pub category: MusicCategory,
    pub sub_category: Option<MusicCategory>,
    pub status: AlbumStatus,
    pub allow_comments: bool,
    pub likes: u32,
    pub dislikes: u32,
    pub plays: u64,
    pub comments: u32,
    pub is_original: bool,
    pub external_link: String,
    pub tags: Vec<String>,
    pub version: u32,
    pub language: String,
    pub release_at: Option<u64>,
    pub copyright: Option<String>,
    pub track_ids: Vec<u64>,
    pub memory_usage: u64,
    pub subscription_prices: Vec<SubscriptionPrice>,
    pub subscriber_count: u32,
    pub subscribers: Vec<SubscriberInfo>,
    pub album_stat: AlbumStat,
    pub created: u64,
    pub updated: u64,
    pub toped: u64,
}

impl Album {
    /// A fresh album: public, open to comments, with no plays, tracks or
    /// subscribers yet.
    pub fn new(
        id: u64,
        album_type: AlbumType,
        title: String,
        artist: String,
        cover_image: String,
        producer: PrincipalId,
        description: String,
        category: MusicCategory,
        sub_category: Option<MusicCategory>,
        is_original: bool,
        external_link: String,
        tags: Vec<String>,
        language: String,
        release_at: Option<u64>,
        copyright: Option<String>,
        subscription_prices: Vec<SubscriptionPrice>,
        now: u64,
    ) -> (r: Album)
        ensures
            r.id == id,
            r.album_type == album_type,
            r.title == title,
            r.artist == artist,
            r.producer == producer,
            r.status is Public,
            r.allow_comments,
            r.likes == 0 && r.dislikes == 0 && r.plays == 0 && r.comments == 0,
            r.version == 1,
            r.track_ids@.len() == 0,
            r.subscriber_count == 0,
            r.created == now && r.updated == now && r.toped == 0,
    {
        Album {
            id,
            album_type,
            title,
            artist,
            cover_image,
            producer,
            description,
            category,
            sub_category,
            status: AlbumStatus::Public,
            allow_comments: true,
            likes: 0,
            dislikes: 0,
            plays: 0,
            comments: 0,
            is_original,
            external_link,
            tags,
            version: 1,
            language,
            release_at,
            copyright,
            track_ids: Vec::new(),
            memory_usage: 0,
            subscription_prices,
            subscriber_count: 0,
            subscribers: Vec::new(),
            album_stat: AlbumStat { total: 0, public_count: 0, private_count: 0,
                subscription_count: 0, draft_count: 0 },
            created: now,
            updated: now,
            toped: 0,
        }
    }

    /// Adds a track id to the end of the album.
    pub fn add_track(&mut self, track_id: u64)
        ensures
            final(self).track_ids@ == old(self).track_ids@.push(track_id),
    {
        self.track_ids.push(track_id);
    }

    /// Inserts a track id at a position; out of bounds is an error.
    pub fn insert_track(&mut self, index: usize, track_id: u64) -> (r: Result<(), String>)
        ensures
            r is Ok <==> index <= old(self).track_ids@.len(),
            r is Ok ==> final(self).track_ids@ == old(self).track_ids@.insert(
                index as int,
                track_id,
            ),
            r is Err ==> *final(self) == *old(self),
    {
        if index > self.track_ids.len() {
            return Err("insert position is out of bounds".to_owned());
        }
        self.track_ids.insert(index, track_id);
        Ok(())
    }

    /// Removes the track id at a position, returning it; out of bounds is an
    /// error.
    pub fn remove_track(&mut self, index: usize) -> (r: Result<u64, String>)
        ensures
            r is Ok <==> index < old(self).track_ids@.len(),
            r is Ok ==> final(self).track_ids@ == old(self).track_ids@.remove(index as int) && r
                == Ok::<u64, String>(old(self).track_ids@[index as int]),
            r is Err ==> *final(self) == *old(self),
    {
        if index >= self.track_ids.len() {
            return Err("remove position is out of bounds".to_owned());
        }
        Ok(self.track_ids.remove(index))
    }

    /// The number of tracks in the album.
    pub fn track_count(&self) -> (r: usize)
        ensures
            r == self.track_ids@.len(),
    {
        self.track_ids.len()
    }

    /// Orders two albums for newest-first listings; an album pinned to the
    /// top never sorts before an older plain one this way.
    pub fn before_created(a: &Album, b: &Album) -> (r: bool)
        ensures
            r == (b.toped == 0 && a.created > b.created),
    {
        if b.toped > 0 {
            false
        } else {
            a.created > b.created
        }
    }
}

/// A track: the atomic audio entity of a space.
#[derive(Debug)]
pub struct Track {
    pub id: u64,
    pub name: String,
    pub collaborators: Vec<String>,
    pub versions: Option<TrackVersion>,
    pub audio_file: AudioFile,
    pub artist: PrincipalId,
    pub songwriter: bool,
    pub is_explicit_lyrics: bool,
    pub is_radio_edition: bool,
    pub instrumental: bool,
    pub duration: Option<u64>,
    pub album_id: Option<u64>,
    pub public_at: u64,
    pub file_size: u64,
    pub file_format: String,
    pub cert_key: Option<String>,
    pub cert_hex: Option<String>,
    pub attributes: Vec<Attribute>,
    pub created: u64,
    pub updated: u64,
}


/// The ordering that sorts larger values first.
pub open spec fn spec_order_desc(a: u64, b: u64) -> core::cmp::Ordering {
    if a > b {
        core::cmp::Ordering::Less
    } else if a == b {
        core::cmp::Ordering::Equal
    } else {
        core::cmp::Ordering::Greater
    }
}

/// Compares two values so that the larger sorts first.
pub fn order_desc(a: u64, b: u64) -> (r: core::cmp::Ordering)
    ensures
        r == spec_order_desc(a, b),
{
    if a > b {
        core::cmp::Ordering::Less
    } else if a == b {
        core::cmp::Ordering::Equal
    } else {
        core::cmp::Ordering::Greater
    }
}

/// The key ordering albums in listings: pinned first, then newest first.
#[derive(Clone, Debug)]
pub struct SortedAlbum {
    pub id: String,
    pub toped: u64,
    pub created: u64,
}

impl SortedAlbum {
    /// Orders two listing keys: both pinned compare by pin time descending;
    /// a pinned key comes before an unpinned one; otherwise newest first.
    pub fn compare_albums_desc(a: &SortedAlbum, b: &SortedAlbum) -> (r: core::cmp::Ordering)
        ensures
            a.toped > 0 && b.toped > 0 ==> r == spec_order_desc(a.toped, b.toped),
            a.toped > 0 && b.toped == 0 ==> r is Less,
            a.toped == 0 && b.toped > 0 ==> r is Greater,
            a.toped == 0 && b.toped == 0 ==> r == spec_order_desc(a.created, b.created),
    {
        if a.toped > 0 && b.toped > 0 {
            order_desc(a.toped, b.toped)
        } else if a.toped > 0 {
            core::cmp::Ordering::Less
        } else if b.toped > 0 {
            core::cmp::Ordering::Greater
        } else {
            order_desc(a.created, b.created)
        }
    }
}

/// A category subtree as a query returns it.
#[derive(Debug)]
pub struct QueryCategory {
    pub id: u32,
    pub name: String,
    pub children: Vec<QueryCategory>,
}

/// The outcome wrapper of a batched operation.
#[derive(Debug)]
pub struct OpResult {
    pub result: Result<String, String>,
}

/// The arguments creating or editing an album through the public interface.
#[derive(Clone, Debug)]
pub struct AlbumArgs {
    pub id: String,
    pub album_type: AlbumType,
    pub title: String,
    pub cover_image: String,
    pub description: String,
    pub category: u32,
    pub sub_category: u32,
    pub status: AlbumStatus,
    pub allow_comments: bool,
    pub is_original: bool,
    pub external_link: String,
    pub tags: Vec<String>,
}

/// A paged album listing request.
#[derive(Clone, Debug)]
pub struct QueryAlbumReq {
    pub page: u32,
    pub size: u32,
    pub category: u32,
    pub sub_category: u32,
    pub status: Option<AlbumStatus>,
    pub album_type: Option<AlbumType>,
    pub search: String,
    pub sort: QuerySort,
}

/// The arguments posting a comment.
#[derive(Clone, Debug)]
pub struct CommentArgs {
    pub album_id: String,
    pub content: String,
}

/// The arguments upgrading an attached object-storage service.
#[derive(Clone, Copy, PartialEq, Eq, Structural, Debug)]
pub struct OssUpgradeArgs {
    pub max_file_size: Option<u64>,
    pub max_folder_depth: Option<u8>,
    pub max_children: Option<u16>,
    pub max_custom_data_size: Option<u16>,
    pub enable_hash_index: Option<bool>,
}

/// A track shared into a platform channel.
#[derive(Clone, Copy, PartialEq, Eq, Structural, Debug)]
pub struct SharedTrack {
    pub track_id: u64,
    pub channel_id: u64,
    pub created_at: u64,
}

/// A post published in a space.
#[derive(Clone, Debug)]
pub struct UserPost {
    pub post_id: u64,
    pub content: String,
    pub created_at: u64,
}

impl UserPost {
    pub fn duplicate(&self) -> (r: UserPost)
        ensures
            r == *self,
    {
        UserPost {
            post_id: self.post_id,
            content: self.content.clone(),
            created_at: self.created_at,
        }
    }
}

/// The arguments creating an album through the public interface, typed.
#[derive(Debug)]
pub struct CreateAlbumArg {
    pub album_type: AlbumType,
    pub title: String,
    pub artist: String,
    pub cover_image: String,
    pub producer: Option<PrincipalId>,
    pub description: String,
    pub category: MusicCategory,
    pub sub_category: Option<MusicCategory>,
    pub is_original: bool,
    pub external_link: String,
    pub tags: Vec<String>,
    pub language: String,
    pub release_at: Option<u64>,
    pub copyright: Option<String>,
    pub subscription_prices: Vec<SubscriptionPrice>,
}

/// The fields an album edit may carry; absent fields keep their value.
#[derive(Debug)]
pub struct EditAlbumArg {
    pub album_type: Option<AlbumType>,
    pub title: Option<String>,
    pub artist: Option<String>,
    pub cover_image: Option<String>,
    pub producer: Option<PrincipalId>,
    pub description: Option<String>,
    pub category: Option<MusicCategory>,
    pub sub_category: Option<MusicCategory>,
    pub is_original: Option<bool>,
    pub external_link: Option<String>,
    pub tags: Option<Vec<String>>,
    pub language: Option<String>,
    pub release_at: Option<u64>,
    pub copyright: Option<String>,
    pub subscription_prices: Option<Vec<SubscriptionPrice>>,
}

impl Album {
    fn apply_edit_content(&mut self, args: &mut EditAlbumArg)
        ensures
            final(self).album_type == (if old(args).album_type is Some {
                old(args).album_type.unwrap()
            } else {
                old(self).album_type
            }),
            final(self).title == (if old(args).title is Some {
                old(args).title.unwrap()
            } else {
                old(self).title
            }),
            final(self).artist == (if old(args).artist is Some {
                old(args).artist.unwrap()
            } else {
                old(self).artist
            }),
            final(self).cover_image == (if old(args).cover_image is Some {
                old(args).cover_image.unwrap()
            } else {
                old(self).cover_image
            }),
            final(self).producer == (if old(args).producer is Some {
                old(args).producer.unwrap()
            } else {
                old(self).producer
            }),
            final(self).description == (if old(args).description is Some {
                old(args).description.unwrap()
            } else {
                old(self).description
            }),
            final(self).category == (if old(args).category is Some {
                old(args).category.unwrap()
            } else {
                old(self).category
            }),
            final(self).sub_category == old(self).sub_category,
            final(self).is_original == old(self).is_original,
            final(self).external_link == old(self).external_link,
            final(self).tags == old(self).tags,
            final(self).language == old(self).language,
            final(self).release_at == old(self).release_at,
            final(self).copyright == old(self).copyright,
            final(self).subscription_prices == old(self).subscription_prices,
            final(self).id == old(self).id,
            final(self).status == old(self).status,
            final(self).likes == old(self).likes,
            final(self).dislikes == old(self).dislikes,
            final(self).plays == old(self).plays,
            final(self).comments == old(self).comments,
            final(self).version == old(self).version,
            final(self).track_ids == old(self).track_ids,
            final(self).memory_usage == old(self).memory_usage,
            final(self).subscriber_count == old(self).subscriber_count,
            final(self).subscribers == old(self).subscribers,
            final(self).album_stat == old(self).album_stat,
            final(self).allow_comments == old(self).allow_comments,
            final(self).created == old(self).created,
            final(self).updated == old(self).updated,
            final(self).toped == old(self).toped,
            final(args).sub_category == old(args).sub_category,
            final(args).is_original == old(args).is_original,
            final(args).external_link == old(args).external_link,
            final(args).tags == old(args).tags,
            final(args).language == old(args).language,
            final(args).release_at == old(args).release_at,
            final(args).copyright == old(args).copyright,
            final(args).subscription_prices == old(args).subscription_prices,
    {
        match args.album_type.take() {
            Some(v) => {
                self.album_type = v;
            },
            None => {},
        }
        match args.title.take() {
            Some(v) => {
                self.title = v;
            },
            None => {},
        }
        match args.artist.take() {
            Some(v) => {
                self.artist = v;
            },
            None => {},
        }
        match args.cover_image.take() {
            Some(v) => {
                self.cover_image = v;
            },
            None => {},
        }
        match args.producer.take() {
            Some(v) => {
                self.producer = v;
            },
            None => {},
        }
        match args.description.take() {
            Some(v) => {
                self.description = v;
            },
            None => {},
        }
        match args.category.take() {
            Some(v) => {
                self.category = v;
            },
            None => {},
        }
    }

    /// Merges an edit into the album: every field the edit carries replaces
    /// the stored one, absent fields keep their value, the edit timestamp
    /// advances, and the identity, counters and track list stay.
    #[verifier::rlimit(100)]
    pub fn apply_edit(&mut self, args: EditAlbumArg, now: u64)
        ensures
            final(self).album_type == (if args.album_type is Some {
                args.album_type.unwrap()
            } else {
                old(self).album_type
            }),
            final(self).title == (if args.title is Some {
                args.title.unwrap()
            } else {
                old(self).title
            }),
            final(self).artist == (if args.artist is Some {
                args.artist.unwrap()
            } else {
                old(self).artist
            }),
            final(self).cover_image == (if args.cover_image is Some {
                args.cover_image.unwrap()
            } else {
                old(self).cover_image
            }),
            final(self).producer == (if args.producer is Some {
                args.producer.unwrap()
            } else {
                old(self).producer
            }),
            final(self).description == (if args.description is Some {
                args.description.unwrap()
            } else {
                old(self).description
            }),
            final(self).category == (if args.category is Some {
                args.category.unwrap()
            } else {
                old(self).category
            }),
            final(self).sub_category == (if args.sub_category is Some {
                args.sub_category
            } else {
                old(self).sub_category
            }),
            final(self).is_original == (if args.is_original is Some {
                args.is_original.unwrap()
            } else {
                old(self).is_original
            }),
            final(self).external_link == (if args.external_link is Some {
                args.external_link.unwrap()
            } else {
                old(self).external_link
            }),
            final(self).tags == (if args.tags is Some {
                args.tags.unwrap()
            } else {
                old(self).tags
            }),
            final(self).language == (if args.language is Some {
                args.language.unwrap()
            } else {
                old(self).language
            }),
            final(self).release_at == (if args.release_at is Some {
                args.release_at
            } else {
                old(self).release_at
            }),
            final(self).copyright == (if args.copyright is Some {
                args.copyright
            } else {
                old(self).copyright
            }),
            final(self).subscription_prices == (if args.subscription_prices is Some {
                args.subscription_prices.unwrap()
            } else {
                old(self).subscription_prices
            }),
            final(self).id == old(self).id,
            final(self).status == old(self).status,
            final(self).likes == old(self).likes,
            final(self).plays == old(self).plays,
            final(self).track_ids == old(self).track_ids,
            final(self).created == old(self).created,
            final(self).updated == now,
            final(self).toped == old(self).toped,
    {
        let mut args = args;
        self.apply_edit_content(&mut args);
        match args.sub_category {
            Some(v) => {
                self.sub_category = Some(v);
            },
            None => {},
        }
        match args.is_original {
            Some(v) => {
                self.is_original = v;
            },
            None => {},
        }
        match args.external_link {
            Some(v) => {
                self.external_link = v;
            },
            None => {},
        }
        match args.tags {
            Some(v) => {
                self.tags = v;
            },
            None => {},
        }
        match args.language {
            Some(v) => {
                self.language = v;
            },
            None => {},
        }
        match args.release_at {
            Some(v) => {
                self.release_at = Some(v);
            },
            None => {},
        }
        match args.copyright {
            Some(v) => {
                self.copyright = Some(v);
            },
            None => {},
        }
        match args.subscription_prices {
            Some(v) => {
                self.subscription_prices = v;
            },
            None => {},
        }
        self.updated = now;
    }
}

/// The arguments creating a track through the public interface, typed.
#[derive(Debug)]
pub struct CreateTrackArg {
    pub name: String,
    pub collaborators: Vec<String>,
    pub versions: Option<TrackVersion>,
    pub audio_file: AudioFile,
    pub songwriter: bool,
    pub is_explicit_lyrics: bool,
    pub is_radio_edition: bool,
    pub instrumental: bool,
    pub duration: Option<u64>,
    pub file_size: u64,
    pub file_format: String,
}

/// The fields a track edit may carry; absent fields keep their value.
#[derive(Debug)]
pub struct EditTrackArg {
    pub name: Option<String>,
    pub collaborators: Option<Vec<String>>,
    pub versions: Option<TrackVersion>,
    pub audio_file: Option<AudioFile>,
    pub songwriter: Option<bool>,
    pub is_explicit_lyrics: Option<bool>,
    pub is_radio_edition: Option<bool>,
    pub instrumental: Option<bool>,
    pub duration: Option<u64>,
    pub file_size: Option<u64>,
    pub file_format: Option<String>,
}

impl Track {
    /// A fresh track from its creation arguments: not yet in an album, not
    /// yet public, not yet certified.
    pub fn from_args(id: u64, args: CreateTrackArg, artist: PrincipalId, now: u64) -> (r: Track)
        ensures
            r.id == id,
            r.name == args.name,
            r.collaborators == args.collaborators,
            r.versions == args.versions,
            r.audio_file == args.audio_file,
            r.artist == artist,
            r.songwriter == args.songwriter,
            r.is_explicit_lyrics == args.is_explicit_lyrics,
            r.is_radio_edition == args.is_radio_edition,
            r.instrumental == args.instrumental,
            r.duration == args.duration,
            r.album_id is None,
            r.public_at == 0,
            r.file_size == args.file_size,
            r.file_format == args.file_format,
            r.cert_key is None && r.cert_hex is None,
            r.attributes@.len() == 0,
            r.created == now && r.updated == now,
    {
        Track {
            id,
            name: args.name,
            collaborators: args.collaborators,
            versions: args.versions,
            audio_file: args.audio_file,
            artist,
            songwriter: args.songwriter,
            is_explicit_lyrics: args.is_explicit_lyrics,
            is_radio_edition: args.is_radio_edition,
            instrumental: args.instrumental,
            duration: args.duration,
            album_id: None,
            public_at: 0,
            file_size: args.file_size,
            file_format: args.file_format,
            cert_key: None,
            cert_hex: None,
            attributes: Vec::new(),
            created: now,
            updated: now,
        }
    }

    /// Merges an edit into the track: every field the edit carries replaces
    /// the stored one, absent fields keep their value, and the identity,
    /// album link, publicity and certification stay.
    #[verifier::rlimit(100)]
    pub fn apply_edit(&mut self, args: EditTrackArg, now: u64)
        ensures
            final(self).name == (if args.name is Some {
                args.name.unwrap()
            } else {
                old(self).name
            }),
            final(self).collaborators == (if args.collaborators is Some {
                args.collaborators.unwrap()
            } else {
                old(self).collaborators
            }),
            final(self).versions == (if args.versions is Some {
                args.versions
            } else {
                old(self).versions
            }),
            final(self).audio_file == (if args.audio_file is Some {
                args.audio_file.unwrap()
            } else {
                old(self).audio_file
            }),
            final(self).songwriter == (if args.songwriter is Some {
                args.songwriter.unwrap()
            } else {
                old(self).songwriter
            }),
            final(self).is_explicit_lyrics == (if args.is_explicit_lyrics is Some {
                args.is_explicit_lyrics.unwrap()
            } else {
                old(self).is_explicit_lyrics
            }),
            final(self).is_radio_edition == (if args.is_radio_edition is Some {
                args.is_radio_edition.unwrap()
            } else {
                old(self).is_radio_edition
            }),
            final(self).instrumental == (if args.instrumental is Some {
                args.instrumental.unwrap()
            } else {
                old(self).instrumental
            }),
            final(self).duration == (if args.duration is Some {
                args.duration
            } else {
                old(self).duration
            }),
            final(self).file_size == (if args.file_size is Some {
                args.file_size.unwrap()
            } else {
                old(self).file_size
            }),
            final(self).file_format == (if args.file_format is Some {
                args.file_format.unwrap()
            } else {
                old(self).file_format
            }),
            final(self).id == old(self).id,
            final(self).artist == old(self).artist,
            final(self).album_id == old(self).album_id,
            final(self).public_at == old(self).public_at,
            final(self).cert_key == old(self).cert_key,
            final(self).cert_hex == old(self).cert_hex,
            final(self).attributes == old(self).attributes,
            final(self).created == old(self).created,
            final(self).updated == now,
    {
        match args.name {
            Some(v) => {
                self.name = v;
            },
            None => {},
        }
        match args.collaborators {
            Some(v) => {
                self.collaborators = v;
            },
            None => {},
        }
        match args.versions {
            Some(v) => {
                self.versions = Some(v);
            },
            None => {},
        }
        match args.audio_file {
            Some(v) => {
                self.audio_file = v;
            },
            None => {},
        }
        match args.songwriter {
            Some(v) => {
                self.songwriter = v;
            },
            None => {},
        }
        match args.is_explicit_lyrics {
            Some(v) => {
                self.is_explicit_lyrics = v;
            },
            None => {},
        }
        match args.is_radio_edition {
            Some(v) => {
                self.is_radio_edition = v;
            },
            None => {},
        }
        match args.instrumental {
            Some(v) => {
                self.instrumental = v;
            },
            None => {},
        }
        match args.duration {
            Some(v) => {
                self.duration = Some(v);
            },
            None => {},
        }
        match args.file_size {
            Some(v) => {
                self.file_size = v;
            },
            None => {},
        }
        match args.file_format {
            Some(v) => {
                self.file_format = v;
            },
            None => {},
        }
        self.updated = now;
    }
}

} // verus!
