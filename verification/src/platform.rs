//! The content platform: music channels and the track entries shared into
//! them by space services.

use vstd::prelude::*;
use crate::principal::PrincipalId;
use crate::space_types::{Album, AudioFile, MusicCategory, Track};
use crate::text::{spec_dec, u64_to_dec};
use crate::user_types::Attribute;

verus! {

#[derive(Clone, Copy, PartialEq, Eq, Structural, Debug)]
pub enum MusicType {
    Pop,
    Rock,
    Jazz,
    Classical,
    HipHop,
    Electronic,
    Country,
    Reggae,
    Blues,
    Other,
}

impl MusicType {
    /// Every music type, in declaration order, each exactly once.
    pub fn iter() -> (r: Vec<MusicType>)
        ensures
            r@ =~= seq![
                MusicType::Pop,
                MusicType::Rock,
                MusicType::Jazz,
                MusicType::Classical,
                MusicType::HipHop,
                MusicType::Electronic,
                MusicType::Country,
                MusicType::Reggae,
                MusicType::Blues,
                MusicType::Other,
            ],
    {
        let mut v: Vec<MusicType> = Vec::new();
        v.push(MusicType::Pop);
        v.push(MusicType::Rock);
        v.push(MusicType::Jazz);
        v.push(MusicType::Classical);
        v.push(MusicType::HipHop);
        v.push(MusicType::Electronic);
        v.push(MusicType::Country);
        v.push(MusicType::Reggae);
        v.push(MusicType::Blues);
        v.push(MusicType::Other);
        v
    }
}

#[derive(Clone, Copy, PartialEq, Eq, Structural, Debug)]
pub enum ChannelCategory {
    Playlist,
    Radio,
    Other,
}

/// Where the audio of a shared track lives.
#[derive(Clone, Copy, PartialEq, Eq, Structural, Debug)]
pub struct OssFileInfo {
    pub space_canister_id: PrincipalId,
    pub track_id: u64,
    pub oss_canister_id: PrincipalId,
    pub file_id: u32,
}

impl OssFileInfo {
    pub fn new(audio_file: AudioFile, space_canister_id: PrincipalId, track_id: u64) -> (r:
        OssFileInfo)
        ensures
            r.space_canister_id == space_canister_id,
            r.track_id == track_id,
            r.oss_canister_id == audio_file.canister_id,
            r.file_id == audio_file.file_id,
    {
        OssFileInfo {
            space_canister_id,
            track_id,
            oss_canister_id: audio_file.canister_id,
            file_id: audio_file.file_id,
        }
    }
}

/// The address audio is served from.
pub open spec fn spec_audio_url(f: AudioFile) -> Seq<char> {
    "https://"@ + spec_dec(f.canister_id.raw as nat) + ".icp0.io/f/"@ + spec_dec(
        f.file_id as nat,
    )
}

/// Renders the address a track's audio is served from.
pub fn audio_url(f: &AudioFile) -> (r: String)
    ensures
        r@ == spec_audio_url(*f),
{
    let mut s: String = "https://".to_owned();
    let host = u64_to_dec(f.canister_id.raw);
    s.append(host.as_str());
    s.append(".icp0.io/f/");
    let file = u64_to_dec(f.file_id as u64);
    s.append(file.as_str());
    proof {
        assert(s@ =~= spec_audio_url(*f));
    }
    s
}

/// One track as a channel lists it.
#[derive(Debug)]
pub struct TrackInfo {
    pub name: String,
    pub artist_name: String,
    pub description: String,
    pub external_url: String,
    pub image: String,
    pub animation_url: String,
    pub audio_url: String,
    pub attributes: Vec<Attribute>,
    pub oss_file_info: Option<OssFileInfo>,
    pub album_name: Option<String>,
    pub duration: Option<u64>,
    pub release_at: Option<u64>,
    pub category: Option<MusicCategory>,
    pub likes: u64,
    pub plays: u64,
    pub position: u64,
    pub created_at: u64,
}

impl TrackInfo {
    /// Builds the channel entry of a track from the track and its album.
    pub fn new(
        album: &Album,
        track: &Track,
        space_canister_id: PrincipalId,
        position: u64,
        external_url: Option<String>,
        animation_url: Option<String>,
        attributes: Option<Vec<Attribute>>,
    ) -> (r: TrackInfo)
        ensures
            r.name == track.name,
            r.artist_name == album.artist,
            r.description == album.description,
            r.image == album.cover_image,
            r.audio_url@ == spec_audio_url(track.audio_file),
            r.oss_file_info matches Some(f) && f.space_canister_id == space_canister_id
                && f.track_id == track.id && f.oss_canister_id == track.audio_file.canister_id,
            r.album_name matches Some(t) && t == album.title,
            r.duration == track.duration,
            r.release_at == album.release_at,
            r.category == Some(album.category),
            r.likes == album.likes as u64,
            r.plays == album.plays,
            r.position == position,
            r.created_at == track.created,
            external_url matches Some(u) ==> r.external_url == u,
            external_url is None ==> r.external_url@.len() == 0,
            animation_url matches Some(u) ==> r.animation_url == u,
            animation_url is None ==> r.animation_url@.len() == 0,
            attributes matches Some(a) ==> r.attributes == a,
            attributes is None ==> r.attributes@.len() == 0,
    {
        let external_url = match external_url {
            Some(u) => u,
            None => String::new(),
        };
        let animation_url = match animation_url {
            Some(u) => u,
            None => String::new(),
        };
        let attributes = match attributes {
            Some(a) => a,
            None => Vec::new(),
        };
        let oss_file_info = Some(
            OssFileInfo::new(track.audio_file, space_canister_id, track.id),
        );
        TrackInfo {
            name: track.name.clone(),
            artist_name: album.artist.clone(),
            description: album.description.clone(),
            external_url,
            animation_url,
            attributes,
            oss_file_info,
            image: album.cover_image.clone(),
            audio_url: audio_url(&track.audio_file),
            album_name: Some(album.title.clone()),
            duration: track.duration,
            release_at: album.release_at,
            category: Some(album.category),
            likes: album.likes as u64,
            plays: album.plays,
            position,
            created_at: track.created,
        }
    }
}

/// One music channel and the tracks shared into it.
#[derive(Debug)]
pub struct MusicChannel {
    pub id: u64,
    pub name: String,
    pub music_type: MusicType,
    pub owner: PrincipalId,
    pub tracks: Vec<TrackInfo>,
    pub total_plays: u64,
    pub total_likes: u64,
    pub created: u64,
    pub updated: u64,
    pub sorted: bool,
    pub category: Option<ChannelCategory>,
    pub image: Option<String>,
}

/// Whether a channel entry points at a given space's track.
pub open spec fn entry_points_at(t: TrackInfo, space_canister_id: PrincipalId, track_id: u64)
    -> bool {
    t.oss_file_info matches Some(f) && f.space_canister_id == space_canister_id && f.track_id
        == track_id
}


fn find_pointing_entry(
    tracks: &Vec<TrackInfo>,
    space_canister_id: PrincipalId,
    track_id: u64,
) -> (r: Option<usize>)
    ensures
        match r {
            Some(i) => i < tracks@.len() && entry_points_at(
                tracks@[i as int],
                space_canister_id,
                track_id,
            ),
            None => forall|j: int|
                0 <= j < tracks@.len() ==> !entry_points_at(
                    #[trigger] tracks@[j],
                    space_canister_id,
                    track_id,
                ),
        },
{
    let mut i: usize = 0;
    while i < tracks.len()
        invariant
            i <= tracks@.len(),
            forall|j: int|
                0 <= j < i ==> !entry_points_at(
                    #[trigger] tracks@[j],
                    space_canister_id,
                    track_id,
                ),
        decreases tracks@.len() - i,
    {
        let hit = match &tracks[i].oss_file_info {
            Some(f) => f.space_canister_id.raw == space_canister_id.raw && f.track_id
                == track_id,
            None => false,
        };
        if hit {
            return Some(i);
        }
        i = i + 1;
    }
    None
}

impl MusicChannel {
    /// A fresh, empty channel.
    pub fn new(
        id: u64,
        name: String,
        owner: PrincipalId,
        music_type: MusicType,
        category: Option<ChannelCategory>,
        image: Option<String>,
        now: u64,
    ) -> (r: MusicChannel)
        ensures
            r.id == id,
            r.name == name,
            r.owner == owner,
            r.music_type == music_type,
            r.tracks@.len() == 0,
            r.total_plays == 0 && r.total_likes == 0,
            r.created == now && r.updated == now,
            !r.sorted,
            r.category == category,
            r.image == image,
    {
        MusicChannel {
            id,
            name,
            owner,
            tracks: Vec::new(),
            total_plays: 0,
            total_likes: 0,
            music_type,
            created: now,
            updated: now,
            sorted: false,
            category,
            image,
        }
    }

    /// Appends a track entry to the channel.
    pub fn add_track(&mut self, track: TrackInfo)
        ensures
            final(self).tracks@.len() == old(self).tracks@.len() + 1,
            final(self).tracks@.drop_last() == old(self).tracks@,
            final(self).tracks@.last() == track,
    {
        self.tracks.push(track);
        proof {
            assert(self.tracks@.drop_last() =~= old(self).tracks@);
        }
    }

    /// Removes the track entry at a position; out of range is an error.
    pub fn delete_track(&mut self, position: u64) -> (r: Result<(), String>)
        ensures
            r is Ok <==> position < old(self).tracks@.len(),
            r is Ok ==> final(self).tracks@ == old(self).tracks@.remove(position as int),
            r is Err ==> *final(self) == *old(self),
    {
        if position >= self.tracks.len() as u64 {
            return Err("track position out of range".to_owned());
        }
        self.tracks.remove(position as usize);
        Ok(())
    }

    /// Removes the first track entry pointing at a given space's track; no
    /// such entry is an error.
    pub fn delete_track_oss_file(&mut self, space_canister_id: PrincipalId, track_id: u64) -> (r:
        Result<(), String>)
        ensures
            r is Ok <==> exists|i: int|
                0 <= i < old(self).tracks@.len() && entry_points_at(
                    #[trigger] old(self).tracks@[i],
                    space_canister_id,
                    track_id,
                ),
            r is Ok ==> exists|j: int|
                0 <= j < old(self).tracks@.len() && entry_points_at(
                    #[trigger] old(self).tracks@[j],
                    space_canister_id,
                    track_id,
                ) && final(self).tracks@ == old(self).tracks@.remove(j),
            r is Err ==> *final(self) == *old(self),
    {
        let found = find_pointing_entry(&self.tracks, space_canister_id, track_id);
        match found {
            Some(i) => {
                proof {
                    assert(entry_points_at(
                        old(self).tracks@[i as int],
                        space_canister_id,
                        track_id,
                    ));
                }
                self.tracks.remove(i);
                proof {
                    assert(self.tracks@ == old(self).tracks@.remove(i as int));
                }
                Ok(())
            },
            None => Err("no track found for the space and track id".to_owned()),
        }
    }

    /// Counts one more play of the channel.
    pub fn increment_play_count(&mut self)
        requires
            old(self).total_plays < u64::MAX,
        ensures
            final(self).total_plays == old(self).total_plays + 1,
            final(self).tracks == old(self).tracks,
    {
        self.total_plays = self.total_plays + 1;
    }
}

/// The keyed store of music channels.
#[derive(Debug)]
pub struct ChannelStore {
    pub entries: Vec<(u64, MusicChannel)>,
}

impl ChannelStore {
    pub open spec fn wf(self) -> bool {
        forall|i: int, j: int|
            0 <= i < j < self.entries@.len() ==> self.entries@[i].0 != self.entries@[j].0
    }

    pub open spec fn has(self, id: u64) -> bool {
        exists|i: int| 0 <= i < self.entries@.len() && self.entries@[i].0 == id
    }

    pub open spec fn index_of(self, id: u64) -> int {
        choose|i: int| 0 <= i < self.entries@.len() && self.entries@[i].0 == id
    }

    pub open spec fn spec_get(self, id: u64) -> MusicChannel {
        self.entries@[self.index_of(id)].1
    }

    pub fn new() -> (r: ChannelStore)
        ensures
            r.wf(),
            r.entries@.len() == 0,
    {
        ChannelStore { entries: Vec::new() }
    }

    fn find(&self, id: u64) -> (r: Option<usize>)
        ensures
            match r {
                Some(i) => i < self.entries@.len() && self.entries@[i as int].0 == id,
                None => !self.has(id),
            },
    {
        let mut i: usize = 0;
        while i < self.entries.len()
            invariant
                i <= self.entries@.len(),
                forall|j: int| 0 <= j < i ==> self.entries@[j].0 != id,
            decreases self.entries@.len() - i,
        {
            if self.entries[i].0 == id {
                return Some(i);
            }
            i = i + 1;
        }
        None
    }

    /// Looks a channel up by id.
    pub fn get_channel(&self, channel_id: u64) -> (r: Option<&MusicChannel>)
        requires
            self.wf(),
        ensures
            r is Some <==> self.has(channel_id),
            r matches Some(c) ==> *c == self.spec_get(channel_id),
    {
        match self.find(channel_id) {
            Some(i) => {
                proof {
                    assert(i as int == self.index_of(channel_id));
                }
                Some(&self.entries[i].1)
            },
            None => None,
        }
    }

    /// Files a channel under its id, replacing any channel already there.
    pub fn add_channel(&mut self, id: u64, channel: MusicChannel)
        requires
            old(self).wf(),
        ensures
            final(self).wf(),
            old(self).has(id) ==> final(self).entries@ == old(self).entries@.update(
                old(self).index_of(id),
                (id, channel),
            ),
            !old(self).has(id) ==> final(self).entries@ == old(self).entries@.push(
                (id, channel),
            ),
            final(self).has(id),
    {
        let found = self.find(id);
        match found {
            Some(i) => {
                proof {
                    assert(i as int == old(self).index_of(id));
                }
                self.entries.remove(i);
                self.entries.insert(i, (id, channel));
                proof {
                    assert(self.entries@ =~= old(self).entries@.update(
                        i as int,
                        (id, channel),
                    ));
                    assert forall|a: int, b: int| 0 <= a < b < self.entries@.len()
                        implies self.entries@[a].0 != self.entries@[b].0 by {
                        assert(old(self).entries@[a].0 != old(self).entries@[b].0);
                    }
                    assert(self.entries@[i as int].0 == id);
                }
            },
            None => {
                let ghost mid = self.entries@;
                self.entries.push((id, channel));
                proof {
                    assert forall|a: int, b: int| 0 <= a < b < self.entries@.len()
                        implies self.entries@[a].0 != self.entries@[b].0 by {
                        if b < self.entries@.len() - 1 {
                            assert(self.entries@[a] == mid[a] && self.entries@[b] == mid[b]);
                        } else {
                            assert(self.entries@[a] == mid[a]);
                        }
                    }
                    assert(self.entries@[self.entries@.len() - 1].0 == id);
                }
            },
        }
    }

    /// Appends a shared track entry to a channel; an absent channel is an
    /// error.
    pub fn add_track_to_channel(&mut self, channel_id: u64, track: TrackInfo) -> (r: Result<
        (),
        String,
    >)
        requires
            old(self).wf(),
        ensures
            final(self).wf(),
            r is Ok <==> old(self).has(channel_id),
            r is Err ==> *final(self) == *old(self),
            r is Ok ==> {
                let pre = old(self).spec_get(channel_id);
                let post = final(self).spec_get(channel_id);
                &&& final(self).has(channel_id)
                &&& post.tracks@.len() == pre.tracks@.len() + 1
                &&& post.tracks@.drop_last() == pre.tracks@
                &&& post.tracks@.last() == track
                &&& final(self).entries@ == old(self).entries@.update(
                    old(self).index_of(channel_id),
                    (channel_id, post),
                )
            },
    {
        let found = self.find(channel_id);
        match found {
            Some(i) => {
                proof {
                    assert(i as int == old(self).index_of(channel_id));
                }
                let (key, channel) = self.entries.remove(i);
                let mut channel = channel;
                channel.add_track(track);
                self.entries.insert(i, (key, channel));
                proof {
                    assert(self.entries@ =~= old(self).entries@.update(
                        i as int,
                        (key, self.entries@[i as int].1),
                    ));
                    assert forall|a: int, b: int| 0 <= a < b < self.entries@.len()
                        implies self.entries@[a].0 != self.entries@[b].0 by {
                        assert(old(self).entries@[a].0 != old(self).entries@[b].0);
                    }
                    assert(self.entries@[i as int].0 == channel_id);
                    assert(i as int == self.index_of(channel_id));
                }
                Ok(())
            },
            None => Err("channel not found".to_owned()),
        }
    }

    /// Removes the track entry at a position of a channel; an absent channel
    /// or an out-of-range position is an error.
    pub fn delete_track_from_channel(&mut self, channel_id: u64, position: u64) -> (r: Result<
        (),
        String,
    >)
        requires
            old(self).wf(),
        ensures
            final(self).wf(),
            r is Ok <==> (old(self).has(channel_id) && position < old(self).spec_get(
                channel_id,
            ).tracks@.len()),
            r is Err ==> final(self).entries@ == old(self).entries@,
            r is Ok ==> {
                let pre = old(self).spec_get(channel_id);
                let post = final(self).spec_get(channel_id);
                &&& final(self).has(channel_id)
                &&& post.tracks@ == pre.tracks@.remove(position as int)
                &&& final(self).entries@ == old(self).entries@.update(
                    old(self).index_of(channel_id),
                    (channel_id, post),
                )
            },
    {
        let found = self.find(channel_id);
        match found {
            Some(i) => {
                proof {
                    assert(i as int == old(self).index_of(channel_id));
                }
                let (key, channel) = self.entries.remove(i);
                let mut channel = channel;
                let res = channel.delete_track(position);
                self.entries.insert(i, (key, channel));
                proof {
                    assert(self.entries@ =~= old(self).entries@.update(
                        i as int,
                        (key, self.entries@[i as int].1),
                    ));
                    assert forall|a: int, b: int| 0 <= a < b < self.entries@.len()
                        implies self.entries@[a].0 != self.entries@[b].0 by {
                        assert(old(self).entries@[a].0 != old(self).entries@[b].0);
                    }
                    assert(self.entries@[i as int].0 == channel_id);
                    assert(i as int == self.index_of(channel_id));
                    if res is Err {
                        assert(self.entries@ =~= old(self).entries@);
                    }
                }
                res
            },
            None => Err("channel not found".to_owned()),
        }
    }

    /// Removes the first entry of a channel pointing at a given space's
    /// track; an absent channel or entry is an error.
    pub fn delete_track_from_channel_by_share(
        &mut self,
        channel_id: u64,
        space_canister_id: PrincipalId,
        track_id: u64,
    ) -> (r: Result<(), String>)
        requires
            old(self).wf(),
        ensures
            final(self).wf(),
            r is Ok <==> (old(self).has(channel_id) && exists|i: int|
                0 <= i < old(self).spec_get(channel_id).tracks@.len() && entry_points_at(
                    #[trigger] old(self).spec_get(channel_id).tracks@[i],
                    space_canister_id,
                    track_id,
                )),
            r is Err ==> final(self).entries@ == old(self).entries@,
            r is Ok ==> {
                let pre = old(self).spec_get(channel_id);
                let post = final(self).spec_get(channel_id);
                &&& final(self).has(channel_id)
                &&& post.tracks@.len() == pre.tracks@.len() - 1
                &&& final(self).entries@ == old(self).entries@.update(
                    old(self).index_of(channel_id),
                    (channel_id, post),
                )
            },
    {
        let found = self.find(channel_id);
        match found {
            Some(i) => {
                proof {
                    assert(i as int == old(self).index_of(channel_id));
                }
                let (key, channel) = self.entries.remove(i);
                let mut channel = channel;
                let res = channel.delete_track_oss_file(space_canister_id, track_id);
                self.entries.insert(i, (key, channel));
                proof {
                    assert(self.entries@ =~= old(self).entries@.update(
                        i as int,
                        (key, self.entries@[i as int].1),
                    ));
                    assert forall|a: int, b: int| 0 <= a < b < self.entries@.len()
                        implies self.entries@[a].0 != self.entries@[b].0 by {
                        assert(old(self).entries@[a].0 != old(self).entries@[b].0);
                    }
                    assert(self.entries@[i as int].0 == channel_id);
                    assert(i as int == self.index_of(channel_id));
                    if res is Err {
                        assert(self.entries@ =~= old(self).entries@);
                    }
                }
                res
            },
            None => Err("channel not found".to_owned()),
        }
    }
}

/// The platform service's configuration cell.
#[derive(Debug)]
pub struct PlatformState {
    pub name: String,
    pub owner: PrincipalId,
    pub ecdsa_key_name: String,
    pub ecdsa_token_public_key: String,
    pub token_expiration: u64,
    pub next_channel_id: u64,
}

/// The arguments a fresh platform instance starts from.
#[derive(Debug)]
pub struct PlatformInitArgs {
    pub name: String,
    pub owner: PrincipalId,
    pub ecdsa_key_name: String,
    pub token_expiration: u64,
    pub init_channel: bool,
}

/// The fields an upgrade may replace; absent fields keep their value.
#[derive(Clone, Copy, PartialEq, Eq, Structural, Debug)]
pub struct PlatformUpgradeArgs {
    pub owner: Option<PrincipalId>,
    pub token_expiration: Option<u64>,
}

fn seed_channel(
    channels: &mut ChannelStore,
    id: u64,
    name: &str,
    owner: PrincipalId,
    music_type: MusicType,
    category: ChannelCategory,
    image: &str,
    now: u64,
)
    requires
        old(channels).wf(),
        !old(channels).has(id),
    ensures
        final(channels).wf(),
        final(channels).entries@.len() == old(channels).entries@.len() + 1,
        final(channels).entries@.drop_last() == old(channels).entries@,
        final(channels).entries@.last().0 == id,
{
    let channel = MusicChannel::new(
        id,
        name.to_owned(),
        owner,
        music_type,
        Some(category),
        Some(image.to_owned()),
        now,
    );
    let ghost pre = *channels;
    channels.add_channel(id, channel);
    proof {
        assert(channels.entries@.drop_last() =~= pre.entries@);
    }
}

/// Applies the initialization arguments to a fresh platform instance: the
/// configuration cell takes the arguments (an empty name keeps the default),
/// and, when asked, the fixed catalog of playlist and radio channels is
/// seeded under ids one through twelve.
#[verifier::rlimit(100)]
pub fn init(
    state: &mut PlatformState,
    channels: &mut ChannelStore,
    args: PlatformInitArgs,
    now: u64,
)
    requires
        old(channels).wf(),
        old(channels).entries@.len() == 0,
    ensures
        final(channels).wf(),
        args.name@.len() > 0 ==> final(state).name == args.name,
        args.name@.len() == 0 ==> final(state).name == old(state).name,
        final(state).owner == args.owner,
        final(state).ecdsa_key_name == args.ecdsa_key_name,
        final(state).token_expiration == args.token_expiration,
        args.init_channel ==> {
            &&& final(channels).entries@.len() == 12
            &&& forall|id: u64| 1 <= id <= 12 ==> final(channels).has(id)
            &&& final(state).next_channel_id == 13
        },
        !args.init_channel ==> final(channels).entries@.len() == 0
            && final(state).next_channel_id == old(state).next_channel_id,
{
    if !args.name.as_str().is_empty() {
        state.name = args.name;
    }
    state.owner = args.owner;
    state.ecdsa_key_name = args.ecdsa_key_name;
    state.token_expiration = args.token_expiration;
    if args.init_channel {
        let owner = state.owner;
        let mut catalog: Vec<(&str, MusicType, ChannelCategory, &str)> = Vec::new();
        catalog.push(("Urban Sounds", MusicType::HipHop, ChannelCategory::Playlist,
            "https://thebots.fun/caniplay/cover_playlist_urban_sounds.png"));
        catalog.push(("Electronic", MusicType::Electronic, ChannelCategory::Playlist,
            "https://thebots.fun/caniplay/cover_playlist_electronic.png"));
        catalog.push(("Rock & Roots", MusicType::Rock, ChannelCategory::Playlist,
            "https://thebots.fun/caniplay/cover_playlist_rock_roots.png"));
        catalog.push(("African Giants", MusicType::Reggae, ChannelCategory::Playlist,
            "https://thebots.fun/caniplay/cover_playlist_african_giants.png"));
        catalog.push(("Island Vibes", MusicType::Reggae, ChannelCategory::Playlist,
            "https://thebots.fun/caniplay/cover_playlist_island_vibes.png"));
        catalog.push(("Latin Heat", MusicType::Pop, ChannelCategory::Playlist,
            "https://thebots.fun/caniplay/cover_playlist_latin_heat.png"));
        catalog.push(("Just Beats", MusicType::Electronic, ChannelCategory::Playlist,
            "https://thebots.fun/caniplay/cover_playlist_just_beats.png"));
        catalog.push(("Podcasts", MusicType::Other, ChannelCategory::Playlist,
            "https://thebots.fun/caniplay/cover_playlist_podcasts.png"));
        catalog.push(("CANI FM", MusicType::Pop, ChannelCategory::Radio,
            "https://thebots.fun/caniplay/cover_radio_cani_fm.png"));
        catalog.push(("ICP FM", MusicType::Other, ChannelCategory::Radio,
            "https://thebots.fun/caniplay/cover_radio_icp_fm.png"));
        catalog.push(("CaniTalk", MusicType::Other, ChannelCategory::Radio,
            "https://thebots.fun/caniplay/cover_radio_canitalk.png"));
        catalog.push(("Crypto with Kamal", MusicType::Other, ChannelCategory::Radio,
            "https://thebots.fun/caniplay/cover_radio_crypto_with_kamal.jpeg"));
        let mut k: usize = 0;
        while k < catalog.len()
            invariant
                catalog@.len() == 12,
                k <= 12,
                channels.wf(),
                channels.entries@.len() == k,
                forall|j: int| 0 <= j < k ==> (#[trigger] channels.entries@[j]).0 == j + 1,
            decreases 12 - k,
        {
            let (name, music_type, category, image) = catalog[k];
            proof {
                if channels.has((k + 1) as u64) {
                    let j = channels.index_of((k + 1) as u64);
                    assert(channels.entries@[j].0 == j + 1);
                    assert(false);
                }
            }
            seed_channel(channels, (k + 1) as u64, name, owner, music_type, category, image, now);
            k = k + 1;
            proof {
                assert forall|j: int| 0 <= j < k implies (#[trigger] channels.entries@[j]).0
                    == j + 1 by {
                    if j < k - 1 {
                        assert(channels.entries@[j] == channels.entries@.drop_last()[j]);
                    }
                }
            }
        }
        state.next_channel_id = 13;
        proof {
            assert forall|id: u64| 1 <= id <= 12 implies channels.has(id) by {
                assert(channels.entries@[id - 1].0 == id);
            }
        }
    }
}

/// Merges the upgrade arguments into the configuration cell: every field the
/// arguments carry replaces the stored one.
pub fn apply_upgrade(state: &mut PlatformState, args: PlatformUpgradeArgs)
    ensures
        final(state).owner == (if args.owner is Some {
            args.owner.unwrap()
        } else {
            old(state).owner
        }),
        final(state).token_expiration == (if args.token_expiration is Some {
            args.token_expiration.unwrap()
        } else {
            old(state).token_expiration
        }),
        final(state).name == old(state).name,
        final(state).ecdsa_key_name == old(state).ecdsa_key_name,
        final(state).ecdsa_token_public_key == old(state).ecdsa_token_public_key,
        final(state).next_channel_id == old(state).next_channel_id,
{
    match args.owner {
        Some(owner) => {
            state.owner = owner;
        },
        None => {},
    }
    match args.token_expiration {
        Some(token_expiration) => {
            state.token_expiration = token_expiration;
        },
        None => {},
    }
}

} // verus!
