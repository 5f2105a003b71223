//! The keyed stores a space service owns — albums, tracks, licenses, shares
//! and posts — together with its configuration cell.
//!
//! Every entity is keyed by a monotonically increasing integer id scoped to
//! this instance; ids are never reused and the counters only increase.

use vstd::prelude::*;
use crate::constant::Environment;
use crate::license::{
    AssetType, ChannelType, License, LicensedMedia, LicensedTerritory, LicenseKey, license_equiv,
    RightPeriod, UsageRights,
};
use crate::principal::PrincipalId;
use crate::space_types::{Album, Category, SharedTrack, SubscriberInfo, Track, UserPost};

verus! {

/// The configuration cell of a space instance: identity, limits, and the
/// next-id counters behind every keyed store.
#[derive(Debug)]
pub struct Space {
    pub name: String,
    pub owner: PrincipalId,
    pub max_track_files: u32,
    pub max_albums: u32,
    pub max_custom_data_size: u16,
    pub max_oss_data_size: u128,
    pub next_album_id: u64,
    pub next_track_id: u64,
    pub next_license_id: u64,
    pub next_order_id: u64,
    pub next_post_id: u64,
    pub next_message_id: u64,
    pub enable_search_index: bool,
    pub status: u8,
    pub visibility: u8,
    pub managers: Vec<PrincipalId>,
    pub oss_canister: Vec<PrincipalId>,
    pub dao_canister: PrincipalId,
    pub avatar: String,
    pub cover: String,
    pub desc: String,
    pub lang: String,
    pub created: u64,
    pub sub_prices: Vec<u64>,
    pub subscribers: Vec<SubscriberInfo>,
    pub followers: Vec<PrincipalId>,
    pub total_subscribers: u64,
    pub total_albums: u64,
    pub total_tracks: u64,
    pub total_licenses: u64,
    pub total_income: u64,
    pub total_orders: u64,
    pub total_followers: u64,
    pub total_view: u64,
    pub total_post: u64,
    pub sended_message_id: u64,
    pub canister: PrincipalId,
    pub categories: Vec<Category>,
    pub custom_url: String,
    pub services: Vec<String>,
    pub store_track_ids: Vec<u64>,
    pub env: Environment,
}

impl Default for Space {
    /// A fresh space: anonymous, active, private, with every counter at zero
    /// and the default limits.
    fn default() -> (r: Space)
        ensures
            r.name@ == "default_space"@,
            r.owner.raw == 0,
            r.max_track_files == 100_000,
            r.max_albums == 1_000,
            r.max_custom_data_size == 4096,
            r.max_oss_data_size == 0x100_0000_0000u128,
            r.next_album_id == 0 && r.next_track_id == 0 && r.next_license_id == 0,
            r.next_order_id == 0 && r.next_post_id == 0 && r.next_message_id == 0,
            !r.enable_search_index,
            r.status == 0 && r.visibility == 0,
            r.managers@.len() == 0 && r.oss_canister@.len() == 0,
            r.total_albums == 0 && r.total_tracks == 0 && r.total_licenses == 0,
            r.total_orders == 0 && r.total_post == 0,
            r.store_track_ids@.len() == 0,
            r.env is Test,
    {
        Space {
            name: "default_space".to_owned(),
            owner: PrincipalId { raw: 0 },
            max_track_files: 100_000,
            max_albums: 1_000,
            max_custom_data_size: 4096,
            max_oss_data_size: 0x100_0000_0000u128,
            next_album_id: 0,
            next_track_id: 0,
            next_license_id: 0,
            next_order_id: 0,
            next_post_id: 0,
            next_message_id: 0,
            enable_search_index: false,
            status: 0,
            visibility: 0,
            managers: Vec::new(),
            oss_canister: Vec::new(),
            dao_canister: PrincipalId { raw: 0 },
            avatar: "default_avatar".to_owned(),
            cover: "default_cover".to_owned(),
            desc: "This is a default space description.".to_owned(),
            lang: "en".to_owned(),
            created: 0,
            sub_prices: Vec::new(),
            subscribers: Vec::new(),
            followers: Vec::new(),
            total_subscribers: 0,
            total_albums: 0,
            total_tracks: 0,
            total_licenses: 0,
            total_income: 0,
            total_orders: 0,
            total_followers: 0,
            total_view: 0,
            total_post: 0,
            sended_message_id: 0,
            canister: PrincipalId { raw: 0 },
            categories: Vec::new(),
            custom_url: "default_url".to_owned(),
            services: Vec::new(),
            store_track_ids: Vec::new(),
            env: Environment::Test,
        }
    }
}

impl Space {
    pub open spec fn is_manager(self, caller: PrincipalId) -> bool {
        exists|i: int| 0 <= i < self.managers@.len() && self.managers@[i] == caller
    }

    /// Only the owner and the managers may write.
    pub fn write_permission(&self, caller: PrincipalId) -> (r: Result<(), String>)
        ensures
            r is Ok <==> (caller == self.owner || self.is_manager(caller)),
    {
        if caller.raw == self.owner.raw {
            return Ok(());
        }
        let mut i: usize = 0;
        while i < self.managers.len()
            invariant
                i <= self.managers@.len(),
                forall|j: int| 0 <= j < i ==> self.managers@[j] != caller,
            decreases self.managers@.len() - i,
        {
            if self.managers[i].raw == caller.raw {
                return Ok(());
            }
            i = i + 1;
        }
        Err("Unauthorized".to_owned())
    }

    /// Only the owner may pass.
    pub fn owner_permission(&self, caller: PrincipalId) -> (r: Result<(), String>)
        ensures
            r is Ok <==> caller == self.owner,
    {
        if caller.raw == self.owner.raw {
            Ok(())
        } else {
            Err("Unauthorized".to_owned())
        }
    }

    /// Adds managers, skipping ones already present.
    pub fn add_managers(&mut self, new_managers: Vec<PrincipalId>)
        ensures
            forall|k: int|
                0 <= k < new_managers@.len() ==> final(self).is_manager(
                    #[trigger] new_managers@[k],
                ),
            forall|p: PrincipalId| old(self).is_manager(p) ==> final(self).is_manager(p),
    {
        let mut i: usize = 0;
        while i < new_managers.len()
            invariant
                i <= new_managers@.len(),
                forall|k: int| 0 <= k < i ==> self.is_manager(#[trigger] new_managers@[k]),
                forall|p: PrincipalId| old(self).is_manager(p) ==> self.is_manager(p),
            decreases new_managers@.len() - i,
        {
            let candidate = new_managers[i];
            let mut found = false;
            let mut j: usize = 0;
            while j < self.managers.len()
                invariant
                    j <= self.managers@.len(),
                    found ==> self.is_manager(candidate),
                decreases self.managers@.len() - j,
            {
                if self.managers[j].raw == candidate.raw {
                    found = true;
                }
                j = j + 1;
            }
            if !found {
                let ghost mid = self.managers@;
                self.managers.push(candidate);
                proof {
                    assert(self.managers@[self.managers@.len() - 1] == candidate);
                    assert forall|p: PrincipalId| old(self).is_manager(p)
                        implies self.is_manager(p) by {
                        assert(exists|m: int| 0 <= m < mid.len() && mid[m] == p);
                        let m = choose|m: int| 0 <= m < mid.len() && mid[m] == p;
                        assert(self.managers@[m] == p);
                    }
                    assert forall|k: int| 0 <= k < i + 1 implies self.is_manager(
                        #[trigger] new_managers@[k],
                    ) by {
                        if k < i as int {
                            let m = choose|m: int|
                                0 <= m < mid.len() && mid[m] == new_managers@[k];
                            assert(self.managers@[m] == new_managers@[k]);
                        }
                    }
                }
            }
            i = i + 1;
        }
    }

    /// Whether a track is shared into this space's own store.
    pub fn get_is_share_store(&self, track_id: u64) -> (r: bool)
        ensures
            r == self.store_track_ids@.contains(track_id),
    {
        let mut i: usize = 0;
        while i < self.store_track_ids.len()
            invariant
                i <= self.store_track_ids@.len(),
                forall|j: int| 0 <= j < i ==> self.store_track_ids@[j] != track_id,
            decreases self.store_track_ids@.len() - i,
        {
            if self.store_track_ids[i] == track_id {
                return true;
            }
            i = i + 1;
        }
        proof {
            assert(!self.store_track_ids@.contains(track_id));
        }
        false
    }

    /// The environment this instance runs in.
    pub fn get_env(&self) -> (r: Environment)
        ensures
            r == self.env,
    {
        self.env
    }
}

/// The keyed album store.
#[derive(Debug)]
pub struct AlbumStore {
    pub entries: Vec<(u64, Album)>,
}

impl AlbumStore {
    pub open spec fn wf(self) -> bool {
        forall|i: int, j: int|
            0 <= i < j < self.entries@.len() ==> self.entries@[i].0 != self.entries@[j].0
    }

    pub open spec fn has(self, id: u64) -> bool {
        exists|i: int| 0 <= i < self.entries@.len() && self.entries@[i].0 == id
    }

    pub open spec fn index_of(self, id: u64) -> int {
        choose|i: int| 0 <= i < self.entries@.len() && self.entries@[i].0 == id
    }

    pub open spec fn spec_get(self, id: u64) -> Album {
        self.entries@[self.index_of(id)].1
    }

    pub fn new() -> (r: AlbumStore)
        ensures
            r.wf(),
            r.entries@.len() == 0,
    {
        AlbumStore { entries: Vec::new() }
    }

    fn find(&self, id: u64) -> (r: Option<usize>)
        ensures
            match r {
                Some(i) => i < self.entries@.len() && self.entries@[i as int].0 == id,
                None => !self.has(id),
            },
    {
        let mut i: usize = 0;
        while i < self.entries.len()
            invariant
                i <= self.entries@.len(),
                forall|j: int| 0 <= j < i ==> self.entries@[j].0 != id,
            decreases self.entries@.len() - i,
        {
            if self.entries[i].0 == id {
                return Some(i);
            }
            i = i + 1;
        }
        None
    }

    /// Looks an album up by id.
    pub fn get_album(&self, id: u64) -> (r: Option<&Album>)
        requires
            self.wf(),
        ensures
            r is Some <==> self.has(id),
            r matches Some(a) ==> *a == self.spec_get(id),
    {
        match self.find(id) {
            Some(i) => {
                proof {
                    assert(i as int == self.index_of(id));
                }
                Some(&self.entries[i].1)
            },
            None => None,
        }
    }

    /// Files an album under its id, replacing any album already there.
    pub fn add_album(&mut self, id: u64, album: Album)
        requires
            old(self).wf(),
        ensures
            final(self).wf(),
            old(self).has(id) ==> final(self).entries@ == old(self).entries@.update(
                old(self).index_of(id),
                (id, album),
            ),
            !old(self).has(id) ==> final(self).entries@ == old(self).entries@.push((id, album)),
            final(self).has(id),
    {
        let found = self.find(id);
        match found {
            Some(i) => {
                proof {
                    assert(i as int == old(self).index_of(id));
                }
                self.entries.remove(i);
                self.entries.insert(i, (id, album));
                proof {
                    assert(self.entries@ =~= old(self).entries@.update(i as int, (id, album)));
                    assert forall|a: int, b: int| 0 <= a < b < self.entries@.len()
                        implies self.entries@[a].0 != self.entries@[b].0 by {
                        assert(old(self).entries@[a].0 != old(self).entries@[b].0);
                    }
                    assert(self.entries@[i as int].0 == id);
                }
            },
            None => {
                let ghost mid = self.entries@;
                self.entries.push((id, album));
                proof {
                    assert forall|a: int, b: int| 0 <= a < b < self.entries@.len()
                        implies self.entries@[a].0 != self.entries@[b].0 by {
                        if b < self.entries@.len() - 1 {
                            assert(self.entries@[a] == mid[a] && self.entries@[b] == mid[b]);
                        } else {
                            assert(self.entries@[a] == mid[a]);
                        }
                    }
                    assert(self.entries@[self.entries@.len() - 1].0 == id);
                }
            },
        }
    }

    /// Deletes an album; reports whether one was there.
    pub fn delete_album(&mut self, id: u64) -> (r: bool)
        requires
            old(self).wf(),
        ensures
            final(self).wf(),
            r == old(self).has(id),
            r ==> final(self).entries@ == old(self).entries@.remove(old(self).index_of(id)),
            !r ==> *final(self) == *old(self),
            !final(self).has(id),
    {
        let found = self.find(id);
        match found {
            Some(i) => {
                proof {
                    assert(i as int == old(self).index_of(id));
                }
                self.entries.remove(i);
                proof {
                    assert forall|a: int, b: int| 0 <= a < b < self.entries@.len()
                        implies self.entries@[a].0 != self.entries@[b].0 by {
                        let oa = if a < i as int { a } else { a + 1 };
                        let ob = if b < i as int { b } else { b + 1 };
                        assert(self.entries@[a] == old(self).entries@[oa]);
                        assert(self.entries@[b] == old(self).entries@[ob]);
                    }
                    assert forall|a: int| 0 <= a < self.entries@.len()
                        implies self.entries@[a].0 != id by {
                        let oa = if a < i as int { a } else { a + 1 };
                        assert(self.entries@[a] == old(self).entries@[oa]);
                        assert(old(self).entries@[oa].0 != old(self).entries@[i as int].0);
                    }
                }
                true
            },
            None => false,
        }
    }

    /// Replaces an existing album; an absent id is an error.
    pub fn edit_album(&mut self, id: u64, updated_album: Album) -> (r: Result<(), String>)
        requires
            old(self).wf(),
        ensures
            final(self).wf(),
            r is Ok <==> old(self).has(id),
            r is Ok ==> final(self).entries@ == old(self).entries@.update(
                old(self).index_of(id),
                (id, updated_album),
            ),
            r is Err ==> *final(self) == *old(self),
    {
        let found = self.find(id);
        match found {
            Some(i) => {
                proof {
                    assert(i as int == old(self).index_of(id));
                }
                self.entries.remove(i);
                self.entries.insert(i, (id, updated_album));
                proof {
                    assert(self.entries@ =~= old(self).entries@.update(
                        i as int,
                        (id, updated_album),
                    ));
                    assert forall|a: int, b: int| 0 <= a < b < self.entries@.len()
                        implies self.entries@[a].0 != self.entries@[b].0 by {
                        assert(old(self).entries@[a].0 != old(self).entries@[b].0);
                    }
                }
                Ok(())
            },
            None => Err("album not found".to_owned()),
        }
    }

    /// Appends the given track ids to an album, leaving out those it already
    /// holds; an absent album id is an error.
    pub fn add_track_ids_to_album(&mut self, album_id: u64, track_ids: Vec<u64>) -> (r: Result<
        (),
        String,
    >)
        requires
            old(self).wf(),
        ensures
            final(self).wf(),
            r is Ok <==> old(self).has(album_id),
            r is Err ==> *final(self) == *old(self),
            r is Ok ==> {
                let pre = old(self).spec_get(album_id);
                let post = final(self).spec_get(album_id);
                &&& final(self).has(album_id)
                &&& post.track_ids@ == pre.track_ids@ + fresh_ids(pre.track_ids@, track_ids@)
                &&& final(self).entries@ == old(self).entries@.update(
                    old(self).index_of(album_id),
                    (album_id, post),
                )
            },
    {
        let found = self.find(album_id);
        match found {
            Some(i) => {
                proof {
                    assert(i as int == old(self).index_of(album_id));
                }
                let (key, album) = self.entries.remove(i);
                let mut album = album;
                let ghost pre_ids = album.track_ids@;
                let ghost incoming = track_ids@;
                let pre_len = album.track_ids.len();
                let mut rest = track_ids;
                let ghost k: int = 0;
                proof {
                    assert(incoming.skip(0) =~= incoming);
                    assert(pre_ids.take(pre_len as int) =~= pre_ids);
                }
                while rest.len() > 0
                    invariant
                        0 <= k <= incoming.len(),
                        rest@ == incoming.skip(k),
                        pre_len == pre_ids.len(),
                        album.track_ids@.len() >= pre_len,
                        album.track_ids@.take(pre_len as int) == pre_ids,
                        pre_ids + fresh_ids(pre_ids, incoming) == album.track_ids@ + fresh_ids(
                            pre_ids,
                            incoming.skip(k),
                        ),
                    decreases rest@.len(),
                {
                    let tid = rest.remove(0);
                    proof {
                        assert(tid == incoming.skip(k)[0]);
                        assert(incoming.skip(k).remove(0) =~= incoming.skip(k + 1));
                        assert(incoming.skip(k).drop_first() =~= incoming.skip(k + 1));
                    }
                    let mut present = false;
                    let mut j: usize = 0;
                    while j < pre_len
                        invariant
                            j <= pre_len,
                            pre_len == pre_ids.len(),
                            album.track_ids@.len() >= pre_len,
                            album.track_ids@.take(pre_len as int) == pre_ids,
                            present == exists|m: int| 0 <= m < j && pre_ids[m] == tid,
                        decreases pre_len - j,
                    {
                        proof {
                            assert(album.track_ids@[j as int] == pre_ids[j as int]);
                        }
                        if album.track_ids[j] == tid {
                            present = true;
                        }
                        j = j + 1;
                    }
                    proof {
                        assert(present == pre_ids.contains(tid));
                    }
                    if present {
                        proof {
                            assert(fresh_ids(pre_ids, incoming.skip(k)) == fresh_ids(
                                pre_ids,
                                incoming.skip(k + 1),
                            ));
                        }
                    } else {
                        album.track_ids.push(tid);
                        proof {
                            assert(fresh_ids(pre_ids, incoming.skip(k)) == seq![tid]
                                + fresh_ids(pre_ids, incoming.skip(k + 1)));
                            assert(album.track_ids@ + fresh_ids(pre_ids, incoming.skip(k + 1))
                                =~= album.track_ids@.drop_last() + (seq![tid] + fresh_ids(
                                pre_ids,
                                incoming.skip(k + 1),
                            )));
                            assert(album.track_ids@.take(pre_len as int)
                                =~= album.track_ids@.drop_last().take(pre_len as int));
                        }
                    }
                    proof {
                        k = k + 1;
                    }
                }
                proof {
                    assert(incoming.skip(incoming.len() as int).len() == 0);
                    assert(fresh_ids(pre_ids, incoming.skip(incoming.len() as int))
                        =~= Seq::<u64>::empty());
                    assert(album.track_ids@ =~= album.track_ids@ + Seq::<u64>::empty());
                    assert(album.track_ids@ == pre_ids + fresh_ids(pre_ids, incoming));
                }
                self.entries.insert(i, (key, album));
                proof {
                    assert(self.entries@ =~= old(self).entries@.update(
                        i as int,
                        (key, self.entries@[i as int].1),
                    ));
                    assert forall|a: int, b: int| 0 <= a < b < self.entries@.len()
                        implies self.entries@[a].0 != self.entries@[b].0 by {
                        assert(old(self).entries@[a].0 != old(self).entries@[b].0);
                    }
                    assert(self.entries@[i as int].0 == album_id);
                    assert(i as int == self.index_of(album_id));
                }
                Ok(())
            },
            None => Err("album not found".to_owned()),
        }
    }

    /// Removes the given track ids from an album, keeping the rest in
    /// order; an absent album id is an error.
    pub fn remove_track_ids_from_album(&mut self, album_id: u64, track_ids: Vec<u64>) -> (r:
        Result<(), String>)
        requires
            old(self).wf(),
        ensures
            final(self).wf(),
            r is Ok <==> old(self).has(album_id),
            r is Err ==> *final(self) == *old(self),
            r is Ok ==> {
                let pre = old(self).spec_get(album_id);
                let post = final(self).spec_get(album_id);
                &&& final(self).has(album_id)
                &&& post.track_ids@ == kept_ids(pre.track_ids@, track_ids@)
                &&& final(self).entries@ == old(self).entries@.update(
                    old(self).index_of(album_id),
                    (album_id, post),
                )
            },
    {
        let found = self.find(album_id);
        match found {
            Some(i) => {
                proof {
                    assert(i as int == old(self).index_of(album_id));
                }
                let (key, album) = self.entries.remove(i);
                let mut album = album;
                let ghost orig = album.track_ids@;
                let ghost removing = track_ids@;
                let mut kept: Vec<u64> = Vec::new();
                let mut rest = album.track_ids;
                let ghost k: int = 0;
                proof {
                    assert(orig.skip(0) =~= orig);
                    assert(Seq::<u64>::empty() + kept_ids(orig, removing) =~= kept_ids(
                        orig,
                        removing,
                    ));
                }
                while rest.len() > 0
                    invariant
                        0 <= k <= orig.len(),
                        rest@ == orig.skip(k),
                        removing == track_ids@,
                        kept_ids(orig, removing) == kept@ + kept_ids(orig.skip(k), removing),
                    decreases rest@.len(),
                {
                    let tid = rest.remove(0);
                    proof {
                        assert(tid == orig.skip(k)[0]);
                        assert(orig.skip(k).remove(0) =~= orig.skip(k + 1));
                        assert(orig.skip(k).drop_first() =~= orig.skip(k + 1));
                    }
                    let mut listed = false;
                    let mut j: usize = 0;
                    while j < track_ids.len()
                        invariant
                            j <= track_ids@.len(),
                            listed == exists|m: int| 0 <= m < j && track_ids@[m] == tid,
                        decreases track_ids@.len() - j,
                    {
                        if track_ids[j] == tid {
                            listed = true;
                        }
                        j = j + 1;
                    }
                    proof {
                        assert(listed == removing.contains(tid));
                    }
                    if !listed {
                        kept.push(tid);
                        proof {
                            assert(kept_ids(orig.skip(k), removing) == seq![tid] + kept_ids(
                                orig.skip(k + 1),
                                removing,
                            ));
                            assert(kept@ + kept_ids(orig.skip(k + 1), removing)
                                =~= kept@.drop_last() + (seq![tid] + kept_ids(
                                orig.skip(k + 1),
                                removing,
                            )));
                        }
                    } else {
                        proof {
                            assert(kept_ids(orig.skip(k), removing) == kept_ids(
                                orig.skip(k + 1),
                                removing,
                            ));
                        }
                    }
                    proof {
                        k = k + 1;
                    }
                }
                proof {
                    assert(orig.skip(orig.len() as int).len() == 0);
                    assert(kept_ids(orig.skip(orig.len() as int), removing)
                        =~= Seq::<u64>::empty());
                    assert(kept@ =~= kept@ + Seq::<u64>::empty());
                }
                album.track_ids = kept;
                self.entries.insert(i, (key, album));
                proof {
                    assert(self.entries@ =~= old(self).entries@.update(
                        i as int,
                        (key, self.entries@[i as int].1),
                    ));
                    assert forall|a: int, b: int| 0 <= a < b < self.entries@.len()
                        implies self.entries@[a].0 != self.entries@[b].0 by {
                        assert(old(self).entries@[a].0 != old(self).entries@[b].0);
                    }
                    assert(self.entries@[i as int].0 == album_id);
                    assert(i as int == self.index_of(album_id));
                }
                Ok(())
            },
            None => Err("album not found".to_owned()),
        }
    }
}

/// The incoming ids not already present, in order, deduplicated against the
/// existing ids only: duplicates among the incoming ids are kept.
pub open spec fn fresh_ids(existing: Seq<u64>, incoming: Seq<u64>) -> Seq<u64>
    decreases incoming.len(),
{
    if incoming.len() == 0 {
        Seq::empty()
    } else if existing.contains(incoming[0]) {
        fresh_ids(existing, incoming.drop_first())
    } else {
        seq![incoming[0]] + fresh_ids(existing, incoming.drop_first())
    }
}

/// The current ids with every listed id dropped, in order.
pub open spec fn kept_ids(current: Seq<u64>, to_remove: Seq<u64>) -> Seq<u64>
    decreases current.len(),
{
    if current.len() == 0 {
        Seq::empty()
    } else if to_remove.contains(current[0]) {
        kept_ids(current.drop_first(), to_remove)
    } else {
        seq![current[0]] + kept_ids(current.drop_first(), to_remove)
    }
}

/// The ids of the tracks that are public, in store order.
pub open spec fn public_ids(s: Seq<(u64, Track)>) -> Seq<u64>
    decreases s.len(),
{
    if s.len() == 0 {
        Seq::empty()
    } else if s[0].1.public_at > 0 {
        seq![s[0].0] + public_ids(s.drop_first())
    } else {
        public_ids(s.drop_first())
    }
}

/// A store kept in ascending id order — as [`SpaceStore`]'s creation flows
/// keep it — lists its public ids in ascending order too.
pub proof fn lemma_public_ids_ascending(s: Seq<(u64, Track)>)
    requires
        forall|i: int, j: int| 0 <= i < j < s.len() ==> s[i].0 < s[j].0,
    ensures
        forall|i: int, j: int|
            0 <= i < j < public_ids(s).len() ==> public_ids(s)[i] < public_ids(s)[j],
        s.len() > 0 ==> forall|i: int|
            0 <= i < public_ids(s).len() ==> #[trigger] public_ids(s)[i] >= s[0].0,
    decreases s.len(),
{
    if s.len() > 0 {
        let rest = s.drop_first();
        assert forall|i: int, j: int| 0 <= i < j < rest.len() implies rest[i].0 < rest[j].0 by {
            assert(rest[i] == s[i + 1] && rest[j] == s[j + 1]);
        }
        lemma_public_ids_ascending(rest);
        if rest.len() > 0 {
            assert(rest[0] == s[1]);
            assert(s[0].0 < rest[0].0);
        }
        let pids = public_ids(s);
        if s[0].1.public_at > 0 {
            assert(pids == seq![s[0].0] + public_ids(rest));
            assert forall|i: int, j: int| 0 <= i < j < pids.len() implies pids[i]
                < pids[j] by {
                if i == 0 {
                    assert(pids[j] == public_ids(rest)[j - 1]);
                    assert(public_ids(rest)[j - 1] >= rest[0].0);
                } else {
                    assert(pids[i] == public_ids(rest)[i - 1]);
                    assert(pids[j] == public_ids(rest)[j - 1]);
                }
            }
            assert forall|i: int| 0 <= i < pids.len() implies #[trigger] pids[i]
                >= s[0].0 by {
                if i > 0 {
                    assert(pids[i] == public_ids(rest)[i - 1]);
                    assert(public_ids(rest)[i - 1] >= rest[0].0);
                }
            }
        } else {
            assert(pids == public_ids(rest));
            assert forall|i: int| 0 <= i < pids.len() implies #[trigger] pids[i]
                >= s[0].0 by {
                assert(pids[i] >= rest[0].0);
            }
        }
    }
}

/// The keyed track store.
#[derive(Debug)]
pub struct TrackStore {
    pub entries: Vec<(u64, Track)>,
}

impl TrackStore {
    pub open spec fn wf(self) -> bool {
        forall|i: int, j: int|
            0 <= i < j < self.entries@.len() ==> self.entries@[i].0 != self.entries@[j].0
    }

    pub open spec fn has(self, id: u64) -> bool {
        exists|i: int| 0 <= i < self.entries@.len() && self.entries@[i].0 == id
    }

    pub open spec fn index_of(self, id: u64) -> int {
        choose|i: int| 0 <= i < self.entries@.len() && self.entries@[i].0 == id
    }

    pub open spec fn spec_get(self, id: u64) -> Track {
        self.entries@[self.index_of(id)].1
    }

    pub fn new() -> (r: TrackStore)
        ensures
            r.wf(),
            r.entries@.len() == 0,
    {
        TrackStore { entries: Vec::new() }
    }

    fn find(&self, id: u64) -> (r: Option<usize>)
        ensures
            match r {
                Some(i) => i < self.entries@.len() && self.entries@[i as int].0 == id,
                None => !self.has(id),
            },
    {
        let mut i: usize = 0;
        while i < self.entries.len()
            invariant
                i <= self.entries@.len(),
                forall|j: int| 0 <= j < i ==> self.entries@[j].0 != id,
            decreases self.entries@.len() - i,
        {
            if self.entries[i].0 == id {
                return Some(i);
            }
            i = i + 1;
        }
        None
    }

    /// How many tracks the store holds.
    pub fn total_tracks(&self) -> (r: u64)
        requires
            self.entries@.len() <= u64::MAX,
        ensures
            r == self.entries@.len(),
    {
        self.entries.len() as u64
    }

    /// Looks a track up by id.
    pub fn get_track(&self, id: u64) -> (r: Option<&Track>)
        requires
            self.wf(),
        ensures
            r is Some <==> self.has(id),
            r matches Some(t) ==> *t == self.spec_get(id),
    {
        match self.find(id) {
            Some(i) => {
                proof {
                    assert(i as int == self.index_of(id));
                }
                Some(&self.entries[i].1)
            },
            None => None,
        }
    }

    /// Files a track under its id, replacing any track already there.
    pub fn add_track(&mut self, id: u64, track: Track)
        requires
            old(self).wf(),
        ensures
            final(self).wf(),
            old(self).has(id) ==> final(self).entries@ == old(self).entries@.update(
                old(self).index_of(id),
                (id, track),
            ),
            !old(self).has(id) ==> final(self).entries@ == old(self).entries@.push((id, track)),
            final(self).has(id),
    {
        let found = self.find(id);
        match found {
            Some(i) => {
                proof {
                    assert(i as int == old(self).index_of(id));
                }
                self.entries.remove(i);
                self.entries.insert(i, (id, track));
                proof {
                    assert(self.entries@ =~= old(self).entries@.update(i as int, (id, track)));
                    assert forall|a: int, b: int| 0 <= a < b < self.entries@.len()
                        implies self.entries@[a].0 != self.entries@[b].0 by {
                        assert(old(self).entries@[a].0 != old(self).entries@[b].0);
                    }
                    assert(self.entries@[i as int].0 == id);
                }
            },
            None => {
                let ghost mid = self.entries@;
                self.entries.push((id, track));
                proof {
                    assert forall|a: int, b: int| 0 <= a < b < self.entries@.len()
                        implies self.entries@[a].0 != self.entries@[b].0 by {
                        if b < self.entries@.len() - 1 {
                            assert(self.entries@[a] == mid[a] && self.entries@[b] == mid[b]);
                        } else {
                            assert(self.entries@[a] == mid[a]);
                        }
                    }
                    assert(self.entries@[self.entries@.len() - 1].0 == id);
                }
            },
        }
    }

    /// Replaces an existing track; an absent id is an error.
    pub fn edit_track(&mut self, id: u64, updated_track: Track) -> (r: Result<(), String>)
        requires
            old(self).wf(),
        ensures
            final(self).wf(),
            r is Ok <==> old(self).has(id),
            r is Ok ==> final(self).entries@ == old(self).entries@.update(
                old(self).index_of(id),
                (id, updated_track),
            ),
            r is Err ==> *final(self) == *old(self),
    {
        let found = self.find(id);
        match found {
            Some(i) => {
                proof {
                    assert(i as int == old(self).index_of(id));
                }
                self.entries.remove(i);
                self.entries.insert(i, (id, updated_track));
                proof {
                    assert(self.entries@ =~= old(self).entries@.update(
                        i as int,
                        (id, updated_track),
                    ));
                    assert forall|a: int, b: int| 0 <= a < b < self.entries@.len()
                        implies self.entries@[a].0 != self.entries@[b].0 by {
                        assert(old(self).entries@[a].0 != old(self).entries@[b].0);
                    }
                }
                Ok(())
            },
            None => Err("track not found".to_owned()),
        }
    }

    /// Deletes a track; a track that sits in an album and is public cannot
    /// be deleted, and an absent id is an error.
    pub fn delete_track(&mut self, id: u64) -> (r: Result<(), String>)
        requires
            old(self).wf(),
        ensures
            final(self).wf(),
            r is Ok <==> (old(self).has(id) && !(old(self).spec_get(id).album_id is Some && old(
                self,
            ).spec_get(id).public_at > 0)),
            r is Ok ==> final(self).entries@ == old(self).entries@.remove(old(self).index_of(id)),
            r is Err ==> *final(self) == *old(self),
    {
        let found = self.find(id);
        match found {
            Some(i) => {
                proof {
                    assert(i as int == old(self).index_of(id));
                }
                let guard = matches!(self.entries[i].1.album_id, Some(_)) && self.entries[
                    i
                ].1.public_at > 0;
                if guard {
                    return Err(
                        "cannot delete a track that is part of an album and is public".to_owned(),
                    );
                }
                self.entries.remove(i);
                proof {
                    assert forall|a: int, b: int| 0 <= a < b < self.entries@.len()
                        implies self.entries@[a].0 != self.entries@[b].0 by {
                        let oa = if a < i as int { a } else { a + 1 };
                        let ob = if b < i as int { b } else { b + 1 };
                        assert(self.entries@[a] == old(self).entries@[oa]);
                        assert(self.entries@[b] == old(self).entries@[ob]);
                    }
                }
                Ok(())
            },
            None => Err("track not found".to_owned()),
        }
    }

    /// Whether every listed id names a stored track.
    pub fn check_track_ids(&self, ids: &Vec<u64>) -> (r: bool)
        ensures
            r == forall|k: int| 0 <= k < ids@.len() ==> self.has(#[trigger] ids@[k]),
    {
        let mut k: usize = 0;
        while k < ids.len()
            invariant
                k <= ids@.len(),
                forall|j: int| 0 <= j < k ==> self.has(#[trigger] ids@[j]),
            decreases ids@.len() - k,
        {
            match self.find(ids[k]) {
                Some(_) => {},
                None => {
                    return false;
                },
            }
            k = k + 1;
        }
        true
    }

    /// Points a track at an album, or detaches it; an absent id is an error.
    pub fn set_track_album_id(&mut self, track_id: u64, album_id: Option<u64>) -> (r: Result<
        (),
        String,
    >)
        requires
            old(self).wf(),
        ensures
            final(self).wf(),
            r is Ok <==> old(self).has(track_id),
            r is Err ==> *final(self) == *old(self),
            r is Ok ==> final(self).entries@ == old(self).entries@.update(
                old(self).index_of(track_id),
                (track_id, (Track { album_id, ..old(self).spec_get(track_id) })),
            ),
    {
        let found = self.find(track_id);
        match found {
            Some(i) => {
                proof {
                    assert(i as int == old(self).index_of(track_id));
                }
                let (key, track) = self.entries.remove(i);
                let mut track = track;
                track.album_id = album_id;
                self.entries.insert(i, (key, track));
                proof {
                    assert(self.entries@ =~= old(self).entries@.update(
                        i as int,
                        (key, self.entries@[i as int].1),
                    ));
                    assert forall|a: int, b: int| 0 <= a < b < self.entries@.len()
                        implies self.entries@[a].0 != self.entries@[b].0 by {
                        assert(old(self).entries@[a].0 != old(self).entries@[b].0);
                    }
                }
                Ok(())
            },
            None => Err("track not found".to_owned()),
        }
    }

    /// Records the certification key and digest of a track; an absent id is
    /// an error.
    pub fn set_track_cert(
        &mut self,
        track_id: u64,
        cert_key: Option<String>,
        cert_hex: Option<String>,
    ) -> (r: Result<(), String>)
        requires
            old(self).wf(),
        ensures
            final(self).wf(),
            r is Ok <==> old(self).has(track_id),
            r is Err ==> *final(self) == *old(self),
            r is Ok ==> final(self).entries@ == old(self).entries@.update(
                old(self).index_of(track_id),
                (track_id, (Track { cert_key, cert_hex, ..old(self).spec_get(track_id) })),
            ),
    {
        let found = self.find(track_id);
        match found {
            Some(i) => {
                proof {
                    assert(i as int == old(self).index_of(track_id));
                }
                let (key, track) = self.entries.remove(i);
                let mut track = track;
                track.cert_key = cert_key;
                track.cert_hex = cert_hex;
                self.entries.insert(i, (key, track));
                proof {
                    assert(self.entries@ =~= old(self).entries@.update(
                        i as int,
                        (key, self.entries@[i as int].1),
                    ));
                    assert forall|a: int, b: int| 0 <= a < b < self.entries@.len()
                        implies self.entries@[a].0 != self.entries@[b].0 by {
                        assert(old(self).entries@[a].0 != old(self).entries@[b].0);
                    }
                }
                Ok(())
            },
            None => Err("track not found".to_owned()),
        }
    }

    /// Marks when a track went public, or clears the mark; an absent id is
    /// an error.
    pub fn set_track_public_status(&mut self, track_id: u64, public_at: u64) -> (r: Result<
        (),
        String,
    >)
        requires
            old(self).wf(),
        ensures
            final(self).wf(),
            r is Ok <==> old(self).has(track_id),
            r is Err ==> *final(self) == *old(self),
            r is Ok ==> final(self).entries@ == old(self).entries@.update(
                old(self).index_of(track_id),
                (track_id, (Track { public_at, ..old(self).spec_get(track_id) })),
            ),
    {
        let found = self.find(track_id);
        match found {
            Some(i) => {
                proof {
                    assert(i as int == old(self).index_of(track_id));
                }
                let (key, track) = self.entries.remove(i);
                let mut track = track;
                track.public_at = public_at;
                self.entries.insert(i, (key, track));
                proof {
                    assert(self.entries@ =~= old(self).entries@.update(
                        i as int,
                        (key, self.entries@[i as int].1),
                    ));
                    assert forall|a: int, b: int| 0 <= a < b < self.entries@.len()
                        implies self.entries@[a].0 != self.entries@[b].0 by {
                        assert(old(self).entries@[a].0 != old(self).entries@[b].0);
                    }
                }
                Ok(())
            },
            None => Err("track not found".to_owned()),
        }
    }

    /// The ids of all public tracks, in store order. Under [`SpaceStore`]'s
    /// creation flows the store sits in ascending id order, so the ids come
    /// out ascending too (see [`lemma_public_ids_ascending`]).
    pub fn get_public_track_ids(&self) -> (r: Vec<u64>)
        ensures
            r@ == public_ids(self.entries@),
    {
        let ghost orig = self.entries@;
        let mut out: Vec<u64> = Vec::new();
        let mut i: usize = 0;
        proof {
            assert(orig.skip(0) =~= orig);
            assert(Seq::<u64>::empty() + public_ids(orig) =~= public_ids(orig));
        }
        while i < self.entries.len()
            invariant
                i <= orig.len(),
                self.entries@ == orig,
                public_ids(orig) == out@ + public_ids(orig.skip(i as int)),
            decreases orig.len() - i,
        {
            proof {
                assert(orig.skip(i as int).drop_first() =~= orig.skip(i as int + 1));
                assert(orig.skip(i as int)[0] == orig[i as int]);
            }
            if self.entries[i].1.public_at > 0 {
                out.push(self.entries[i].0);
                proof {
                    assert(public_ids(orig.skip(i as int)) == seq![orig[i as int].0]
                        + public_ids(orig.skip(i as int + 1)));
                    assert(out@ + public_ids(orig.skip(i as int + 1)) =~= out@.drop_last() + (
                    seq![orig[i as int].0] + public_ids(orig.skip(i as int + 1))));
                }
            } else {
                proof {
                    assert(public_ids(orig.skip(i as int)) == public_ids(
                        orig.skip(i as int + 1),
                    ));
                }
            }
            i = i + 1;
        }
        proof {
            assert(orig.skip(orig.len() as int).len() == 0);
            assert(public_ids(orig.skip(orig.len() as int)) =~= Seq::<u64>::empty());
            assert(out@ =~= out@ + Seq::<u64>::empty());
        }
        out
    }
}

/// The licenses over one resource, keyed by licensed user.
#[derive(Debug)]
pub struct LicenseMap(pub Vec<(u64, License)>);

impl LicenseMap {
    pub open spec fn wf(self) -> bool {
        &&& forall|i: int, j: int| 0 <= i < j < self.0@.len() ==> self.0@[i].0 != self.0@[j].0
        &&& forall|i: int| 0 <= i < self.0@.len() ==> (#[trigger] self.0@[i]).1.user.raw
            == self.0@[i].0
    }

    pub open spec fn has_user(self, user: u64) -> bool {
        exists|i: int| 0 <= i < self.0@.len() && self.0@[i].0 == user
    }

    pub open spec fn user_index(self, user: u64) -> int {
        choose|i: int| 0 <= i < self.0@.len() && self.0@[i].0 == user
    }

    pub open spec fn spec_get(self, user: u64) -> License {
        self.0@[self.user_index(user)].1
    }

    pub fn new() -> (r: LicenseMap)
        ensures
            r.wf(),
            r.0@.len() == 0,
    {
        LicenseMap(Vec::new())
    }

    fn find_user(&self, user: u64) -> (r: Option<usize>)
        ensures
            match r {
                Some(i) => i < self.0@.len() && self.0@[i as int].0 == user,
                None => !self.has_user(user),
            },
    {
        let mut i: usize = 0;
        while i < self.0.len()
            invariant
                i <= self.0@.len(),
                forall|j: int| 0 <= j < i ==> self.0@[j].0 != user,
            decreases self.0@.len() - i,
        {
            if self.0[i].0 == user {
                return Some(i);
            }
            i = i + 1;
        }
        None
    }

    /// The license granted to a user, if any.
    pub fn get(&self, user: PrincipalId) -> (r: Option<&License>)
        requires
            self.wf(),
        ensures
            r is Some <==> self.has_user(user.raw),
            r matches Some(l) ==> *l == self.spec_get(user.raw),
    {
        match self.find_user(user.raw) {
            Some(i) => {
                proof {
                    assert(i as int == self.user_index(user.raw));
                }
                Some(&self.0[i].1)
            },
            None => None,
        }
    }

    pub fn is_empty(&self) -> (r: bool)
        ensures
            r == (self.0@.len() == 0),
    {
        self.0.len() == 0
    }

    /// Grants a license to its user, replacing any license already granted
    /// to that user.
    pub fn insert(&mut self, license: License)
        requires
            old(self).wf(),
        ensures
            final(self).wf(),
            old(self).has_user(license.user.raw) ==> final(self).0@ == old(self).0@.update(
                old(self).user_index(license.user.raw),
                (license.user.raw, license),
            ),
            !old(self).has_user(license.user.raw) ==> final(self).0@ == old(self).0@.push(
                (license.user.raw, license),
            ),
            final(self).has_user(license.user.raw),
    {
        let user = license.user.raw;
        let found = self.find_user(user);
        match found {
            Some(i) => {
                proof {
                    assert(i as int == old(self).user_index(user));
                }
                self.0.remove(i);
                self.0.insert(i, (user, license));
                proof {
                    assert(self.0@ =~= old(self).0@.update(i as int, (user, license)));
                    assert forall|a: int, b: int| 0 <= a < b < self.0@.len()
                        implies self.0@[a].0 != self.0@[b].0 by {
                        assert(old(self).0@[a].0 != old(self).0@[b].0);
                    }
                    assert(self.0@[i as int].0 == user);
                }
            },
            None => {
                let ghost mid = self.0@;
                self.0.push((user, license));
                proof {
                    assert forall|a: int, b: int| 0 <= a < b < self.0@.len()
                        implies self.0@[a].0 != self.0@[b].0 by {
                        if b < self.0@.len() - 1 {
                            assert(self.0@[a] == mid[a] && self.0@[b] == mid[b]);
                        } else {
                            assert(self.0@[a] == mid[a]);
                        }
                    }
                    assert(self.0@[self.0@.len() - 1].0 == user);
                }
            },
        }
    }

    /// Revokes the license granted to a user, if any; reports whether one
    /// was there.
    pub fn remove(&mut self, user: PrincipalId) -> (r: bool)
        requires
            old(self).wf(),
        ensures
            final(self).wf(),
            r == old(self).has_user(user.raw),
            r ==> final(self).0@ == old(self).0@.remove(old(self).user_index(user.raw)),
            !r ==> *final(self) == *old(self),
            !final(self).has_user(user.raw),
    {
        let found = self.find_user(user.raw);
        match found {
            Some(i) => {
                proof {
                    assert(i as int == old(self).user_index(user.raw));
                }
                self.0.remove(i);
                proof {
                    assert forall|a: int, b: int| 0 <= a < b < self.0@.len()
                        implies self.0@[a].0 != self.0@[b].0 by {
                        let oa = if a < i as int { a } else { a + 1 };
                        let ob = if b < i as int { b } else { b + 1 };
                        assert(self.0@[a] == old(self).0@[oa]);
                        assert(self.0@[b] == old(self).0@[ob]);
                    }
                    assert forall|a: int| 0 <= a < self.0@.len() implies self.0@[a].0
                        != user.raw by {
                        let oa = if a < i as int { a } else { a + 1 };
                        assert(self.0@[a] == old(self).0@[oa]);
                        assert(old(self).0@[oa].0 != old(self).0@[i as int].0);
                    }
                }
                true
            },
            None => false,
        }
    }
}

/// The license store: one map of user licenses per resource key.
#[derive(Debug)]
pub struct LicenseStore {
    pub entries: Vec<((u64, u64), LicenseMap)>,
}

impl LicenseStore {
    pub open spec fn wf(self) -> bool {
        &&& forall|i: int, j: int|
            0 <= i < j < self.entries@.len() ==> self.entries@[i].0 != self.entries@[j].0
        &&& forall|i: int| 0 <= i < self.entries@.len() ==> (#[trigger] self.entries@[i]).1.wf()
    }

    pub open spec fn has(self, key: (u64, u64)) -> bool {
        exists|i: int| 0 <= i < self.entries@.len() && self.entries@[i].0 == key
    }

    pub open spec fn index_of(self, key: (u64, u64)) -> int {
        choose|i: int| 0 <= i < self.entries@.len() && self.entries@[i].0 == key
    }

    pub open spec fn spec_get(self, key: (u64, u64)) -> LicenseMap {
        self.entries@[self.index_of(key)].1
    }

    pub fn new() -> (r: LicenseStore)
        ensures
            r.wf(),
            r.entries@.len() == 0,
    {
        LicenseStore { entries: Vec::new() }
    }

    fn find(&self, key: (u64, u64)) -> (r: Option<usize>)
        ensures
            match r {
                Some(i) => i < self.entries@.len() && self.entries@[i as int].0 == key,
                None => !self.has(key),
            },
    {
        let mut i: usize = 0;
        while i < self.entries.len()
            invariant
                i <= self.entries@.len(),
                forall|j: int| 0 <= j < i ==> self.entries@[j].0 != key,
            decreases self.entries@.len() - i,
        {
            if self.entries[i].0.0 == key.0 && self.entries[i].0.1 == key.1 {
                return Some(i);
            }
            i = i + 1;
        }
        None
    }

    /// How many resources hold licenses.
    pub fn total_licenses(&self) -> (r: u64)
        requires
            self.entries@.len() <= u64::MAX,
        ensures
            r == self.entries@.len(),
    {
        self.entries.len() as u64
    }

    /// The license map of a resource key.
    pub fn get_license(&self, id: (u64, u64)) -> (r: Option<&LicenseMap>)
        requires
            self.wf(),
        ensures
            r is Some <==> self.has(id),
            r matches Some(m) ==> *m == self.spec_get(id),
    {
        match self.find(id) {
            Some(i) => {
                proof {
                    assert(i as int == self.index_of(id));
                }
                Some(&self.entries[i].1)
            },
            None => None,
        }
    }

    /// The license map of a track.
    pub fn get_license_by_track(&self, track_id: u64) -> (r: Option<&LicenseMap>)
        requires
            self.wf(),
        ensures
            r is Some <==> self.has((0, track_id)),
            r matches Some(m) ==> *m == self.spec_get((0, track_id)),
    {
        let license_key = LicenseKey::new(None, Some(track_id));
        let key = license_key.to_tuple();
        self.get_license(key)
    }

    /// The genesis license a track was published with: the one granted to
    /// the instance itself.
    pub fn get_track_genesis_license(&self, canister: PrincipalId, track_id: u64) -> (r: Option<
        License,
    >)
        requires
            self.wf(),
        ensures
            r is Some <==> (self.has((0, track_id)) && self.spec_get((0, track_id)).has_user(
                canister.raw,
            )),
            r matches Some(l) ==> license_equiv(
                l,
                self.spec_get((0, track_id)).spec_get(canister.raw),
            ),
    {
        match self.get_license_by_track(track_id) {
            Some(map) => {
                proof {
                    assert(self.entries@[self.index_of((0, track_id))].1.wf());
                }
                match map.get(canister) {
                    Some(l) => Some(l.duplicate()),
                    None => None,
                }
            },
            None => None,
        }
    }

    /// Removes every license over a resource; a key with no map, or a map
    /// already empty, is an error.
    pub fn delete_license(&mut self, album_id: Option<u64>, track_id: Option<u64>) -> (r: Result<
        (),
        String,
    >)
        requires
            old(self).wf(),
        ensures
            final(self).wf(),
            ({
                let key = (
                    (if album_id is Some {
                        album_id.unwrap()
                    } else {
                        0u64
                    }),
                    (if track_id is Some {
                        track_id.unwrap()
                    } else {
                        0u64
                    }),
                );
                &&& r is Ok <==> (old(self).has(key) && old(self).spec_get(key).0@.len() > 0)
                &&& r is Ok ==> final(self).entries@ == old(self).entries@.remove(
                    old(self).index_of(key),
                )
                &&& r is Err ==> *final(self) == *old(self)
            }),
    {
        let license_key = LicenseKey::new(album_id, track_id);
        let key = license_key.to_tuple();
        let found = self.find(key);
        match found {
            Some(i) => {
                proof {
                    assert(i as int == old(self).index_of(key));
                }
                if self.entries[i].1.0.len() == 0 {
                    return Err("no active licenses found for the resource".to_owned());
                }
                self.entries.remove(i);
                proof {
                    assert forall|a: int, b: int| 0 <= a < b < self.entries@.len()
                        implies self.entries@[a].0 != self.entries@[b].0 by {
                        let oa = if a < i as int { a } else { a + 1 };
                        let ob = if b < i as int { b } else { b + 1 };
                        assert(self.entries@[a] == old(self).entries@[oa]);
                        assert(self.entries@[b] == old(self).entries@[ob]);
                    }
                    assert forall|a: int| 0 <= a < self.entries@.len() implies (
                    #[trigger] self.entries@[a]).1.wf() by {
                        let oa = if a < i as int { a } else { a + 1 };
                        assert(self.entries@[a] == old(self).entries@[oa]);
                        assert(old(self).entries@[oa].1.wf());
                    }
                }
                Ok(())
            },
            None => Err("license for the resource not found".to_owned()),
        }
    }

    /// Grants a license over a resource to a user, unless that user already
    /// holds one there; the map is created on first use.
    pub fn add_license(
        &mut self,
        id: u64,
        album_id: Option<u64>,
        track_id: Option<u64>,
        user_pid: PrincipalId,
        channel: ChannelType,
        asset_type: Vec<AssetType>,
        usage_rights: Vec<UsageRights>,
        licensed_media: Vec<LicensedMedia>,
        licensed_territory: Vec<LicensedTerritory>,
        right_period: Vec<RightPeriod>,
        fee: Option<u128>,
        now: u64,
    )
        requires
            old(self).wf(),
        ensures
            final(self).wf(),
            ({
                let key = (
                    (if album_id is Some {
                        album_id.unwrap()
                    } else {
                        0u64
                    }),
                    (if track_id is Some {
                        track_id.unwrap()
                    } else {
                        0u64
                    }),
                );
                &&& final(self).has(key)
                &&& final(self).spec_get(key).has_user(user_pid.raw)
                &&& (old(self).has(key) && old(self).spec_get(key).has_user(user_pid.raw))
                    ==> *final(self) == *old(self)
                &&& !(old(self).has(key) && old(self).spec_get(key).has_user(user_pid.raw))
                    ==> ({
                    let granted = final(self).spec_get(key).spec_get(user_pid.raw);
                    &&& granted.id == id
                    &&& granted.user == user_pid
                    &&& granted.resource_key.album_id == album_id
                    &&& granted.resource_key.track_id == track_id
                    &&& granted.start_time == now
                    &&& granted.created == now
                    &&& granted.valid_duration is None
                    &&& granted.revoke_time is None
                    &&& granted.channel == channel
                    &&& granted.asset_type == asset_type
                    &&& granted.usage_rights == usage_rights
                    &&& granted.licensed_media == licensed_media
                    &&& granted.licensed_territory == licensed_territory
                    &&& granted.right_period == right_period
                    &&& granted.fee == fee
                })
            }),
    {
        let license_key = LicenseKey::new(album_id, track_id);
        let key = license_key.to_tuple();
        let found = self.find(key);
        match found {
            Some(i) => {
                proof {
                    assert(i as int == old(self).index_of(key));
                    assert(old(self).entries@[i as int].1.wf());
                }
                if self.entries[i].1.find_user(user_pid.raw).is_some() {
                    proof {
                        assert(old(self).spec_get(key).has_user(user_pid.raw));
                    }
                    return ;
                }
                let new_license = License {
                    id,
                    user: user_pid,
                    resource_key: license_key,
                    start_time: now,
                    valid_duration: None,
                    revoke_time: None,
                    channel,
                    asset_type,
                    usage_rights,
                    licensed_media,
                    licensed_territory,
                    right_period,
                    fee,
                    created: now,
                };
                let (k, map) = self.entries.remove(i);
                let mut map = map;
                map.insert(new_license);
                let ghost newmap = map;
                self.entries.insert(i, (k, map));
                proof {
                    assert(self.entries@ =~= old(self).entries@.update(i as int, (k, newmap)));
                    assert forall|a: int, b: int| 0 <= a < b < self.entries@.len()
                        implies self.entries@[a].0 != self.entries@[b].0 by {
                        assert(old(self).entries@[a].0 != old(self).entries@[b].0);
                    }
                    assert forall|a: int| 0 <= a < self.entries@.len() implies (
                    #[trigger] self.entries@[a]).1.wf() by {
                        if a != i as int {
                            assert(self.entries@[a] == old(self).entries@[a]);
                            assert(old(self).entries@[a].1.wf());
                        }
                    }
                    assert(self.entries@[i as int].0 == key);
                    assert(i as int == self.index_of(key));
                    assert(newmap.0@.last().0 == user_pid.raw);
                    assert(newmap.has_user(user_pid.raw));
                    assert(newmap.user_index(user_pid.raw) == newmap.0@.len() - 1);
                }
            },
            None => {
                let new_license = License {
                    id,
                    user: user_pid,
                    resource_key: license_key,
                    start_time: now,
                    valid_duration: None,
                    revoke_time: None,
                    channel,
                    asset_type,
                    usage_rights,
                    licensed_media,
                    licensed_territory,
                    right_period,
                    fee,
                    created: now,
                };
                let mut map = LicenseMap::new();
                map.insert(new_license);
                let ghost newmap = map;
                let ghost mid = self.entries@;
                self.entries.push((key, map));
                proof {
                    assert forall|a: int, b: int| 0 <= a < b < self.entries@.len()
                        implies self.entries@[a].0 != self.entries@[b].0 by {
                        if b < self.entries@.len() - 1 {
                            assert(self.entries@[a] == mid[a] && self.entries@[b] == mid[b]);
                        } else {
                            assert(self.entries@[a] == mid[a]);
                        }
                    }
                    assert forall|a: int| 0 <= a < self.entries@.len() implies (
                    #[trigger] self.entries@[a]).1.wf() by {
                        if a < self.entries@.len() - 1 {
                            assert(self.entries@[a] == mid[a]);
                            assert(mid[a].1.wf());
                        } else {
                            assert(self.entries@[a].1 == newmap);
                        }
                    }
                    assert(self.entries@[self.entries@.len() - 1].0 == key);
                    assert(self.index_of(key) == self.entries@.len() - 1);
                    assert(newmap.0@.len() == 1 && newmap.0@[0].0 == user_pid.raw);
                    assert(newmap.has_user(user_pid.raw));
                    assert(newmap.user_index(user_pid.raw) == 0);
                }
            },
        }
    }

    /// Revokes a user's license over a track; a map left empty disappears
    /// with its key.
    pub fn remove_track_license(&mut self, track_id: u64, user_pid: PrincipalId)
        requires
            old(self).wf(),
        ensures
            final(self).wf(),
            !(old(self).has((0, track_id)) && old(self).spec_get((0, track_id)).has_user(
                user_pid.raw,
            )) ==> final(self).entries@ == old(self).entries@,
            (old(self).has((0, track_id)) && old(self).spec_get((0, track_id)).has_user(
                user_pid.raw,
            )) ==> {
                let pre = old(self).spec_get((0, track_id));
                &&& pre.0@.len() == 1 ==> final(self).entries@ == old(self).entries@.remove(
                    old(self).index_of((0, track_id)),
                )
                &&& pre.0@.len() > 1 ==> (final(self).has((0, track_id))
                    && final(self).spec_get((0, track_id)).0@ == pre.0@.remove(
                    pre.user_index(user_pid.raw),
                ))
            },
    {
        let license_key = LicenseKey::new(None, Some(track_id));
        let key = license_key.to_tuple();
        let found = self.find(key);
        match found {
            Some(i) => {
                proof {
                    assert(i as int == old(self).index_of(key));
                    assert(old(self).entries@[i as int].1.wf());
                }
                let (k, map) = self.entries.remove(i);
                let mut map = map;
                let had = map.remove(user_pid);
                if !had {
                    self.entries.insert(i, (k, map));
                    proof {
                        assert(self.entries@ =~= old(self).entries@);
                    }
                    return ;
                }
                if map.is_empty() {
                    proof {
                        assert forall|a: int, b: int| 0 <= a < b < self.entries@.len()
                            implies self.entries@[a].0 != self.entries@[b].0 by {
                            let oa = if a < i as int { a } else { a + 1 };
                            let ob = if b < i as int { b } else { b + 1 };
                            assert(self.entries@[a] == old(self).entries@[oa]);
                            assert(self.entries@[b] == old(self).entries@[ob]);
                        }
                        assert forall|a: int| 0 <= a < self.entries@.len() implies (
                        #[trigger] self.entries@[a]).1.wf() by {
                            let oa = if a < i as int { a } else { a + 1 };
                            assert(self.entries@[a] == old(self).entries@[oa]);
                            assert(old(self).entries@[oa].1.wf());
                        }
                        assert(old(self).spec_get((0, track_id)).0@.len() == 1);
                    }
                } else {
                    let ghost newmap = map;
                    self.entries.insert(i, (k, map));
                    proof {
                        assert(self.entries@ =~= old(self).entries@.update(
                            i as int,
                            (k, newmap),
                        ));
                        assert forall|a: int, b: int| 0 <= a < b < self.entries@.len()
                            implies self.entries@[a].0 != self.entries@[b].0 by {
                            assert(old(self).entries@[a].0 != old(self).entries@[b].0);
                        }
                        assert forall|a: int| 0 <= a < self.entries@.len() implies (
                        #[trigger] self.entries@[a]).1.wf() by {
                            if a != i as int {
                                assert(self.entries@[a] == old(self).entries@[a]);
                                assert(old(self).entries@[a].1.wf());
                            }
                        }
                        assert(self.entries@[i as int].0 == key);
                        assert(i as int == self.index_of(key));
                    }
                }
            },
            None => {},
        }
    }

    /// Grants the platform's own license over a track: the system identity,
    /// the platform channel, and no constraints. A platform license already
    /// granted is kept as it is: the call is idempotent.
    pub fn add_track_license_for_platform(&mut self, id: u64, track_id: u64, now: u64)
        requires
            old(self).wf(),
        ensures
            final(self).wf(),
            final(self).has((0, track_id)),
            final(self).spec_get((0, track_id)).has_user(0),
            (old(self).has((0, track_id)) && old(self).spec_get((0, track_id)).has_user(0))
                ==> *final(self) == *old(self),
            !(old(self).has((0, track_id)) && old(self).spec_get((0, track_id)).has_user(0))
                ==> ({
                let granted = final(self).spec_get((0, track_id)).spec_get(0);
                &&& granted.id == id
                &&& granted.user.raw == 0
                &&& granted.resource_key.album_id is None
                &&& granted.resource_key.track_id == Some(track_id)
                &&& granted.channel is Platform
                &&& granted.start_time == now && granted.created == now
                &&& granted.valid_duration is None && granted.revoke_time is None
                &&& granted.fee is None
                &&& granted.asset_type@.len() == 0 && granted.usage_rights@.len() == 0
                &&& granted.licensed_media@.len() == 0 && granted.licensed_territory@.len()
                    == 0 && granted.right_period@.len() == 0
            }),
    {
        let user_pid = PrincipalId::anonymous();
        self.add_license(
            id,
            None,
            Some(track_id),
            user_pid,
            ChannelType::Platform,
            Vec::new(),
            Vec::new(),
            Vec::new(),
            Vec::new(),
            Vec::new(),
            None,
            now,
        );
    }

    /// Revokes the platform's own license over a track: afterwards the
    /// system identity holds none there, a map left empty disappears with
    /// its key, and a second call finds nothing left to change.
    pub fn remove_track_license_for_platform(&mut self, track_id: u64)
        requires
            old(self).wf(),
        ensures
            final(self).wf(),
            final(self).has((0, track_id)) ==> !final(self).spec_get((0, track_id)).has_user(0),
            !(old(self).has((0, track_id)) && old(self).spec_get((0, track_id)).has_user(0))
                ==> final(self).entries@ == old(self).entries@,
            (old(self).has((0, track_id)) && old(self).spec_get((0, track_id)).has_user(0))
                ==> {
                let pre = old(self).spec_get((0, track_id));
                &&& pre.0@.len() == 1 ==> final(self).entries@ == old(self).entries@.remove(
                    old(self).index_of((0, track_id)),
                )
                &&& pre.0@.len() > 1 ==> (final(self).has((0, track_id))
                    && final(self).spec_get((0, track_id)).0@ == pre.0@.remove(
                    pre.user_index(0),
                ))
            },
    {
        let user_pid = PrincipalId::anonymous();
        self.remove_track_license(track_id, user_pid);
    }
}

/// A stored payment order, as the persistence layer wraps it.
#[derive(Debug)]
pub struct PaymentOrderWrapper(pub crate::payment::PaymentOrder);

impl PaymentOrderWrapper {
    pub fn into_inner(self) -> (r: crate::payment::PaymentOrder)
        ensures
            r == self.0,
    {
        self.0
    }
}

/// A stored shared track, as the persistence layer wraps it.
#[derive(Clone, Copy, PartialEq, Eq, Structural, Debug)]
pub struct SharedTrackWrapper(pub SharedTrack);

impl SharedTrackWrapper {
    pub fn into_inner(self) -> (r: SharedTrack)
        ensures
            r == self.0,
    {
        self.0
    }
}

/// A stored post, as the persistence layer wraps it.
#[derive(Debug)]
pub struct UserPostWrapper(pub UserPost);

impl UserPostWrapper {
    pub fn into_inner(self) -> (r: UserPost)
        ensures
            r == self.0,
    {
        self.0
    }
}

/// The album ids of the tracks referenced by shares, deduplicated in first
/// appearance order.
pub open spec fn share_album_ids(shares: Seq<(u64, SharedTrack)>, tracks: TrackStore) -> Seq<u64>
    decreases shares.len(),
{
    if shares.len() == 0 {
        Seq::empty()
    } else {
        let rest = share_album_ids(shares.drop_last(), tracks);
        let tid = shares.last().0;
        if tracks.has(tid) && tracks.spec_get(tid).album_id is Some {
            let a = tracks.spec_get(tid).album_id.unwrap();
            if rest.contains(a) {
                rest
            } else {
                rest.push(a)
            }
        } else {
            rest
        }
    }
}

/// The keyed store of shared tracks.
#[derive(Debug)]
pub struct ShareStore {
    pub entries: Vec<(u64, SharedTrack)>,
}

impl ShareStore {
    pub open spec fn wf(self) -> bool {
        forall|i: int, j: int|
            0 <= i < j < self.entries@.len() ==> self.entries@[i].0 != self.entries@[j].0
    }

    pub open spec fn has(self, id: u64) -> bool {
        exists|i: int| 0 <= i < self.entries@.len() && self.entries@[i].0 == id
    }

    pub open spec fn index_of(self, id: u64) -> int {
        choose|i: int| 0 <= i < self.entries@.len() && self.entries@[i].0 == id
    }

    pub open spec fn spec_get(self, id: u64) -> SharedTrack {
        self.entries@[self.index_of(id)].1
    }

    pub fn new() -> (r: ShareStore)
        ensures
            r.wf(),
            r.entries@.len() == 0,
    {
        ShareStore { entries: Vec::new() }
    }

    fn find(&self, id: u64) -> (r: Option<usize>)
        ensures
            match r {
                Some(i) => i < self.entries@.len() && self.entries@[i as int].0 == id,
                None => !self.has(id),
            },
    {
        let mut i: usize = 0;
        while i < self.entries.len()
            invariant
                i <= self.entries@.len(),
                forall|j: int| 0 <= j < i ==> self.entries@[j].0 != id,
            decreases self.entries@.len() - i,
        {
            if self.entries[i].0 == id {
                return Some(i);
            }
            i = i + 1;
        }
        None
    }

    /// How many tracks are shared.
    pub fn total_shares(&self) -> (r: u64)
        requires
            self.entries@.len() <= u64::MAX,
        ensures
            r == self.entries@.len(),
    {
        self.entries.len() as u64
    }

    /// The share of a track, if any.
    pub fn get_share(&self, track_id: u64) -> (r: Option<SharedTrackWrapper>)
        requires
            self.wf(),
        ensures
            r is Some <==> self.has(track_id),
            r matches Some(w) ==> w.0 == self.spec_get(track_id),
    {
        match self.find(track_id) {
            Some(i) => {
                proof {
                    assert(i as int == self.index_of(track_id));
                }
                Some(SharedTrackWrapper(self.entries[i].1))
            },
            None => None,
        }
    }

    /// Records a share for a track; a track already shared is an error.
    pub fn create_share(&mut self, track_id: u64, shared_track: SharedTrack) -> (r: Result<
        (),
        String,
    >)
        requires
            old(self).wf(),
        ensures
            final(self).wf(),
            r is Ok <==> !old(self).has(track_id),
            r is Ok ==> final(self).entries@ == old(self).entries@.push(
                (track_id, shared_track),
            ),
            r is Err ==> *final(self) == *old(self),
    {
        let found = self.find(track_id);
        match found {
            Some(_) => Err("share for the track already exists".to_owned()),
            None => {
                let ghost mid = self.entries@;
                self.entries.push((track_id, shared_track));
                proof {
                    assert forall|a: int, b: int| 0 <= a < b < self.entries@.len()
                        implies self.entries@[a].0 != self.entries@[b].0 by {
                        if b < self.entries@.len() - 1 {
                            assert(self.entries@[a] == mid[a] && self.entries@[b] == mid[b]);
                        } else {
                            assert(self.entries@[a] == mid[a]);
                        }
                    }
                }
                Ok(())
            },
        }
    }

    /// Records shares for a batch of tracks into one channel, replacing any
    /// share a listed track already has.
    pub fn batch_create_share(&mut self, track_ids: Vec<u64>, channel_id: u64, created_at: u64)
        -> (r: Result<(), String>)
        requires
            old(self).wf(),
        ensures
            final(self).wf(),
            r is Ok,
            forall|k: int|
                0 <= k < track_ids@.len() ==> final(self).has(#[trigger] track_ids@[k]),
            forall|k: int|
                0 <= k < track_ids@.len() ==> final(self).spec_get(#[trigger] track_ids@[k])
                    == (SharedTrack { track_id: track_ids@[k], channel_id, created_at }),
            forall|id: u64|
                !track_ids@.contains(id) && old(self).has(id) ==> (final(self).has(id)
                    && final(self).spec_get(id) == old(self).spec_get(id)),
            forall|id: u64| !track_ids@.contains(id) && !old(self).has(id) ==> !final(self).has(
                id,
            ),
    {
        let mut k: usize = 0;
        while k < track_ids.len()
            invariant
                k <= track_ids@.len(),
                self.wf(),
                forall|j: int| 0 <= j < k ==> self.has(#[trigger] track_ids@[j]),
                forall|j: int|
                    0 <= j < k ==> self.spec_get(#[trigger] track_ids@[j]) == (SharedTrack {
                        track_id: track_ids@[j],
                        channel_id,
                        created_at,
                    }),
                forall|id: u64|
                    !track_ids@.contains(id) && old(self).has(id) ==> (self.has(id)
                        && self.spec_get(id) == old(self).spec_get(id)),
                forall|id: u64|
                    !track_ids@.contains(id) && !old(self).has(id) ==> !self.has(id),
            decreases track_ids@.len() - k,
        {
            let tid = track_ids[k];
            let ghost pre = *self;
            let shared = SharedTrack { track_id: tid, channel_id, created_at };
            let found = self.find(tid);
            match found {
                Some(i) => {
                    proof {
                        assert(i as int == pre.index_of(tid));
                    }
                    self.entries.remove(i);
                    self.entries.insert(i, (tid, shared));
                    proof {
                        assert(self.entries@ =~= pre.entries@.update(i as int, (tid, shared)));
                        assert forall|a: int, b: int| 0 <= a < b < self.entries@.len()
                            implies self.entries@[a].0 != self.entries@[b].0 by {
                            assert(pre.entries@[a].0 != pre.entries@[b].0);
                        }
                    }
                },
                None => {
                    let ghost mid = self.entries@;
                    self.entries.push((tid, shared));
                    proof {
                        assert forall|a: int, b: int| 0 <= a < b < self.entries@.len()
                            implies self.entries@[a].0 != self.entries@[b].0 by {
                            if b < self.entries@.len() - 1 {
                                assert(self.entries@[a] == mid[a] && self.entries@[b]
                                    == mid[b]);
                            } else {
                                assert(self.entries@[a] == mid[a]);
                            }
                        }
                    }
                },
            }
            proof {
                let i2 = (if pre.has(tid) {
                    pre.index_of(tid)
                } else {
                    pre.entries@.len() as int
                });
                assert(self.entries@[i2].0 == tid);
                assert(self.index_of(tid) == i2);
                assert(self.spec_get(tid) == shared);
                assert forall|id: u64| id != tid && pre.has(id) implies (self.has(id)
                    && self.spec_get(id) == pre.spec_get(id)) by {
                    let j = pre.index_of(id);
                    assert(pre.entries@[j].0 == id);
                    assert(self.entries@[j] == pre.entries@[j]);
                    assert(self.index_of(id) == j);
                }
                assert forall|id: u64| id != tid && !pre.has(id) implies !self.has(id) by {
                    if self.has(id) {
                        let j = self.index_of(id);
                        if j != i2 {
                            assert(pre.entries@[j].0 == id);
                        }
                    }
                }
                assert forall|j: int| 0 <= j < k + 1 implies self.has(
                    #[trigger] track_ids@[j],
                ) && self.spec_get(track_ids@[j]) == (SharedTrack {
                    track_id: track_ids@[j],
                    channel_id,
                    created_at,
                }) by {
                    if j < k as int && track_ids@[j] != tid {
                        assert(pre.has(track_ids@[j]));
                    }
                }
            }
            k = k + 1;
        }
        Ok(())
    }

    /// Removes the share of a track; a track with no share is an error.
    pub fn delete_share(&mut self, track_id: u64) -> (r: Result<(), String>)
        requires
            old(self).wf(),
        ensures
            final(self).wf(),
            r is Ok <==> old(self).has(track_id),
            r is Ok ==> final(self).entries@ == old(self).entries@.remove(
                old(self).index_of(track_id),
            ),
            r is Err ==> *final(self) == *old(self),
            !final(self).has(track_id),
    {
        let found = self.find(track_id);
        match found {
            Some(i) => {
                proof {
                    assert(i as int == old(self).index_of(track_id));
                }
                self.entries.remove(i);
                proof {
                    assert forall|a: int, b: int| 0 <= a < b < self.entries@.len()
                        implies self.entries@[a].0 != self.entries@[b].0 by {
                        let oa = if a < i as int { a } else { a + 1 };
                        let ob = if b < i as int { b } else { b + 1 };
                        assert(self.entries@[a] == old(self).entries@[oa]);
                        assert(self.entries@[b] == old(self).entries@[ob]);
                    }
                    assert forall|a: int| 0 <= a < self.entries@.len() implies self.entries@[
                        a
                    ].0 != track_id by {
                        let oa = if a < i as int { a } else { a + 1 };
                        assert(self.entries@[a] == old(self).entries@[oa]);
                        assert(old(self).entries@[oa].0 != old(self).entries@[i as int].0);
                    }
                }
                Ok(())
            },
            None => Err("share for the track does not exist".to_owned()),
        }
    }

    /// How many distinct albums the shared tracks belong to.
    pub fn total_shares_album(&self, tracks: &TrackStore) -> (r: u64)
        requires
            tracks.wf(),
        ensures
            r == share_album_ids(self.entries@, *tracks).len(),
    {
        let ghost orig = self.entries@;
        let mut distinct: Vec<u64> = Vec::new();
        let mut i: usize = 0;
        proof {
            assert(orig.take(0) =~= Seq::<(u64, SharedTrack)>::empty());
        }
        while i < self.entries.len()
            invariant
                i <= orig.len(),
                self.entries@ == orig,
                tracks.wf(),
                distinct@ == share_album_ids(orig.take(i as int), *tracks),
            decreases orig.len() - i,
        {
            proof {
                assert(orig.take(i as int + 1).drop_last() =~= orig.take(i as int));
                assert(orig.take(i as int + 1).last() == orig[i as int]);
            }
            let tid = self.entries[i].0;
            match tracks.get_track(tid) {
                Some(track) => {
                    match track.album_id {
                        Some(a) => {
                            let mut present = false;
                            let mut j: usize = 0;
                            while j < distinct.len()
                                invariant
                                    j <= distinct@.len(),
                                    present == exists|m: int|
                                        0 <= m < j && distinct@[m] == a,
                                decreases distinct@.len() - j,
                            {
                                if distinct[j] == a {
                                    present = true;
                                }
                                j = j + 1;
                            }
                            proof {
                                assert(present == distinct@.contains(a));
                            }
                            if !present {
                                distinct.push(a);
                            }
                        },
                        None => {},
                    }
                },
                None => {},
            }
            i = i + 1;
        }
        proof {
            assert(orig.take(orig.len() as int) =~= orig);
        }
        distinct.len() as u64
    }
}

/// The keyed post store.
#[derive(Debug)]
pub struct PostStore {
    pub entries: Vec<(u64, UserPost)>,
}

impl PostStore {
    pub open spec fn wf(self) -> bool {
        forall|i: int, j: int|
            0 <= i < j < self.entries@.len() ==> self.entries@[i].0 != self.entries@[j].0
    }

    pub open spec fn has(self, id: u64) -> bool {
        exists|i: int| 0 <= i < self.entries@.len() && self.entries@[i].0 == id
    }

    pub open spec fn index_of(self, id: u64) -> int {
        choose|i: int| 0 <= i < self.entries@.len() && self.entries@[i].0 == id
    }

    pub open spec fn spec_get(self, id: u64) -> UserPost {
        self.entries@[self.index_of(id)].1
    }

    pub fn new() -> (r: PostStore)
        ensures
            r.wf(),
            r.entries@.len() == 0,
    {
        PostStore { entries: Vec::new() }
    }

    fn find(&self, id: u64) -> (r: Option<usize>)
        ensures
            match r {
                Some(i) => i < self.entries@.len() && self.entries@[i as int].0 == id,
                None => !self.has(id),
            },
    {
        let mut i: usize = 0;
        while i < self.entries.len()
            invariant
                i <= self.entries@.len(),
                forall|j: int| 0 <= j < i ==> self.entries@[j].0 != id,
            decreases self.entries@.len() - i,
        {
            if self.entries[i].0 == id {
                return Some(i);
            }
            i = i + 1;
        }
        None
    }

    /// Looks a post up by id.
    pub fn get_post(&self, post_id: u64) -> (r: Option<UserPostWrapper>)
        requires
            self.wf(),
        ensures
            r is Some <==> self.has(post_id),
            r matches Some(w) ==> w.0 == self.spec_get(post_id),
    {
        match self.find(post_id) {
            Some(i) => {
                proof {
                    assert(i as int == self.index_of(post_id));
                }
                Some(UserPostWrapper(self.entries[i].1.duplicate()))
            },
            None => None,
        }
    }

    /// Files a post under its id, replacing any post already there.
    pub fn create_post(&mut self, post_id: u64, user_post: UserPost)
        requires
            old(self).wf(),
        ensures
            final(self).wf(),
            old(self).has(post_id) ==> final(self).entries@ == old(self).entries@.update(
                old(self).index_of(post_id),
                (post_id, user_post),
            ),
            !old(self).has(post_id) ==> final(self).entries@ == old(self).entries@.push(
                (post_id, user_post),
            ),
            final(self).has(post_id),
    {
        let found = self.find(post_id);
        match found {
            Some(i) => {
                proof {
                    assert(i as int == old(self).index_of(post_id));
                }
                self.entries.remove(i);
                self.entries.insert(i, (post_id, user_post));
                proof {
                    assert(self.entries@ =~= old(self).entries@.update(
                        i as int,
                        (post_id, user_post),
                    ));
                    assert forall|a: int, b: int| 0 <= a < b < self.entries@.len()
                        implies self.entries@[a].0 != self.entries@[b].0 by {
                        assert(old(self).entries@[a].0 != old(self).entries@[b].0);
                    }
                    assert(self.entries@[i as int].0 == post_id);
                }
            },
            None => {
                let ghost mid = self.entries@;
                self.entries.push((post_id, user_post));
                proof {
                    assert forall|a: int, b: int| 0 <= a < b < self.entries@.len()
                        implies self.entries@[a].0 != self.entries@[b].0 by {
                        if b < self.entries@.len() - 1 {
                            assert(self.entries@[a] == mid[a] && self.entries@[b] == mid[b]);
                        } else {
                            assert(self.entries@[a] == mid[a]);
                        }
                    }
                    assert(self.entries@[self.entries@.len() - 1].0 == post_id);
                }
            },
        }
    }

    /// A page of posts in store order — ascending post ids under
    /// [`SpaceStore`]'s creation flow — newest first when `descending`.
    pub fn get_post_list(&self, limit: usize, offset: usize, descending: bool) -> (r: Vec<
        UserPost,
    >)
        ensures
            ({
                let base = if descending {
                    self.entries@.map(|i: int, p: (u64, UserPost)| p.1).reverse()
                } else {
                    self.entries@.map(|i: int, p: (u64, UserPost)| p.1)
                };
                let lo = (if offset > base.len() {
                    base.len() as int
                } else {
                    offset as int
                });
                let hi = (if offset + limit > base.len() {
                    base.len() as int
                } else {
                    offset + limit
                });
                &&& r@.len() == hi - lo
                &&& forall|j: int| 0 <= j < r@.len() ==> #[trigger] r@[j] == base[lo + j]
            }),
    {
        let ghost base = if descending {
            self.entries@.map(|i: int, p: (u64, UserPost)| p.1).reverse()
        } else {
            self.entries@.map(|i: int, p: (u64, UserPost)| p.1)
        };
        let n = self.entries.len();
        let lo = if offset > n {
            n
        } else {
            offset
        };
        let hi = if limit > n - lo {
            n
        } else {
            lo + limit
        };
        let mut out: Vec<UserPost> = Vec::new();
        let mut k: usize = lo;
        proof {
            assert(base.len() == n);
        }
        while k < hi
            invariant
                lo <= k <= hi,
                hi <= n,
                n == self.entries@.len(),
                base.len() == n,
                base == (if descending {
                    self.entries@.map(|i: int, p: (u64, UserPost)| p.1).reverse()
                } else {
                    self.entries@.map(|i: int, p: (u64, UserPost)| p.1)
                }),
                out@.len() == k - lo,
                forall|j: int| 0 <= j < out@.len() ==> #[trigger] out@[j] == base[lo + j],
            decreases hi - k,
        {
            if descending {
                let p = self.entries[n - 1 - k].1.duplicate();
                proof {
                    assert(base[k as int] == self.entries@.map(
                        |i: int, p: (u64, UserPost)| p.1,
                    )[n - 1 - k as int]);
                }
                out.push(p);
            } else {
                let p = self.entries[k].1.duplicate();
                proof {
                    assert(base[k as int] == self.entries@[k as int].1);
                }
                out.push(p);
            }
            k = k + 1;
        }
        out
    }

    /// Deletes a post; an absent id is an error.
    pub fn delete_post(&mut self, post_id: u64) -> (r: Result<(), String>)
        requires
            old(self).wf(),
        ensures
            final(self).wf(),
            r is Ok <==> old(self).has(post_id),
            r is Ok ==> final(self).entries@ == old(self).entries@.remove(
                old(self).index_of(post_id),
            ),
            r is Err ==> *final(self) == *old(self),
            !final(self).has(post_id),
    {
        let found = self.find(post_id);
        match found {
            Some(i) => {
                proof {
                    assert(i as int == old(self).index_of(post_id));
                }
                self.entries.remove(i);
                proof {
                    assert forall|a: int, b: int| 0 <= a < b < self.entries@.len()
                        implies self.entries@[a].0 != self.entries@[b].0 by {
                        let oa = if a < i as int { a } else { a + 1 };
                        let ob = if b < i as int { b } else { b + 1 };
                        assert(self.entries@[a] == old(self).entries@[oa]);
                        assert(self.entries@[b] == old(self).entries@[ob]);
                    }
                    assert forall|a: int| 0 <= a < self.entries@.len() implies self.entries@[
                        a
                    ].0 != post_id by {
                        let oa = if a < i as int { a } else { a + 1 };
                        assert(self.entries@[a] == old(self).entries@[oa]);
                        assert(old(self).entries@[oa].0 != old(self).entries@[i as int].0);
                    }
                }
                Ok(())
            },
            None => Err("post does not exist".to_owned()),
        }
    }
}

/// Everything one space instance owns: its configuration cell and its keyed
/// stores, the explicit storage engine behind every operation.
#[derive(Debug)]
pub struct SpaceStore {
    pub space: Space,
    pub albums: AlbumStore,
    pub tracks: TrackStore,
    pub licenses: LicenseStore,
    pub shares: ShareStore,
    pub posts: PostStore,
    pub payments: crate::payment::PayStore,
    pub outbox: crate::relay::Outbox,
}

impl SpaceStore {
    /// Tracks sit in ascending id order, every id at most the counter: the
    /// creation flow only appends the next id, so store order is id order.
    pub open spec fn tracks_in_id_order(self) -> bool {
        &&& forall|i: int, j: int|
            0 <= i < j < self.tracks.entries@.len() ==> self.tracks.entries@[i].0
                < self.tracks.entries@[j].0
        &&& forall|i: int|
            0 <= i < self.tracks.entries@.len() ==> (#[trigger] self.tracks.entries@[i]).0
                <= self.space.next_track_id
    }

    /// Posts sit in ascending id order, every id below the counter.
    pub open spec fn posts_in_id_order(self) -> bool {
        &&& forall|i: int, j: int|
            0 <= i < j < self.posts.entries@.len() ==> self.posts.entries@[i].0
                < self.posts.entries@[j].0
        &&& forall|i: int|
            0 <= i < self.posts.entries@.len() ==> (#[trigger] self.posts.entries@[i]).0
                < self.space.next_post_id
    }

    pub open spec fn wf(self) -> bool {
        &&& self.albums.wf()
        &&& self.tracks.wf()
        &&& self.licenses.wf()
        &&& self.shares.wf()
        &&& self.posts.wf()
        &&& self.payments.wf()
        &&& self.outbox.wf()
        &&& self.tracks_in_id_order()
        &&& self.posts_in_id_order()
    }

    pub fn new() -> (r: SpaceStore)
        ensures
            r.wf(),
            r.albums.entries@.len() == 0,
            r.tracks.entries@.len() == 0,
            r.shares.entries@.len() == 0,
            r.posts.entries@.len() == 0,
            r.payments.orders@.len() == 0,
            r.outbox.entries@.len() == 0,
    {
        SpaceStore {
            space: Space::default(),
            albums: AlbumStore::new(),
            tracks: TrackStore::new(),
            licenses: LicenseStore::new(),
            shares: ShareStore::new(),
            posts: PostStore::new(),
            payments: crate::payment::PayStore::new(),
            outbox: crate::relay::Outbox::new(),
        }
    }

    /// Creates an album: refused once the configured maximum is reached;
    /// otherwise the next album id is drawn, the album filed, and the
    /// counters advanced — the id counter only increases and is never
    /// reused.
    pub fn create_album(&mut self, args: crate::space_types::CreateAlbumArg, caller: PrincipalId, now: u64)
        -> (r: Result<u64, String>)
        requires
            old(self).wf(),
            old(self).space.next_album_id < u64::MAX,
            old(self).space.total_albums < u64::MAX,
        ensures
            final(self).wf(),
            r is Ok <==> old(self).space.total_albums < old(self).space.max_albums,
            r is Err ==> *final(self) == *old(self),
            r matches Ok(id) ==> {
                &&& id == old(self).space.next_album_id + 1
                &&& final(self).space.next_album_id == old(self).space.next_album_id + 1
                &&& final(self).space.total_albums == old(self).space.total_albums + 1
                &&& final(self).albums.has(id)
                &&& ({
                    let a = final(self).albums.spec_get(id);
                    a.id == id && a.title == args.title && a.status is Public && a.created
                        == now && a.producer == (if args.producer is Some {
                        args.producer.unwrap()
                    } else {
                        caller
                    })
                })
            },
    {
        if self.space.total_albums >= self.space.max_albums as u64 {
            return Err("maximum number of albums reached".to_owned());
        }
        let new_album_id = self.space.next_album_id + 1;
        let producer = match args.producer {
            Some(p) => p,
            None => caller,
        };
        let album = Album::new(
            new_album_id,
            args.album_type,
            args.title,
            args.artist,
            args.cover_image,
            producer,
            args.description,
            args.category,
            args.sub_category,
            args.is_original,
            args.external_link,
            args.tags,
            args.language,
            args.release_at,
            args.copyright,
            args.subscription_prices,
            now,
        );
        let ghost pre_albums = self.albums;
        self.albums.add_album(new_album_id, album);
        self.space.total_albums = self.space.total_albums + 1;
        self.space.next_album_id = new_album_id;
        proof {
            if pre_albums.has(new_album_id) {
                assert(self.albums.entries@ == pre_albums.entries@.update(
                    pre_albums.index_of(new_album_id),
                    (new_album_id, self.albums.entries@[pre_albums.index_of(new_album_id)].1),
                ));
            }
            let i = self.albums.index_of(new_album_id);
            assert(self.albums.entries@[i].0 == new_album_id);
        }
        Ok(new_album_id)
    }

    /// Creates a track: refused once the configured maximum is reached;
    /// otherwise the next track id is drawn and the track filed, not yet in
    /// an album, public or certified.
    pub fn create_track(&mut self, args: crate::space_types::CreateTrackArg, caller: PrincipalId, now: u64)
        -> (r: Result<u64, String>)
        requires
            old(self).wf(),
            old(self).space.next_track_id < u64::MAX,
            old(self).space.total_tracks < u64::MAX,
        ensures
            final(self).wf(),
            r is Ok <==> old(self).space.total_tracks < old(self).space.max_track_files,
            r is Err ==> *final(self) == *old(self),
            r matches Ok(id) ==> {
                &&& id == old(self).space.next_track_id + 1
                &&& final(self).space.next_track_id == old(self).space.next_track_id + 1
                &&& final(self).space.total_tracks == old(self).space.total_tracks + 1
                &&& final(self).tracks.has(id)
                &&& ({
                    let t = final(self).tracks.spec_get(id);
                    t.id == id && t.name == args.name && t.artist == caller && t.album_id
                        is None && t.public_at == 0 && t.created == now
                })
            },
    {
        if self.space.total_tracks >= self.space.max_track_files as u64 {
            return Err("maximum number of track files reached".to_owned());
        }
        let new_track_id = self.space.next_track_id + 1;
        let track = Track::from_args(new_track_id, args, caller, now);
        let ghost pre_tracks = self.tracks;
        proof {
            if pre_tracks.has(new_track_id) {
                let i = pre_tracks.index_of(new_track_id);
                assert(pre_tracks.entries@[i].0 <= old(self).space.next_track_id);
                assert(false);
            }
        }
        self.tracks.add_track(new_track_id, track);
        self.space.total_tracks = self.space.total_tracks + 1;
        self.space.next_track_id = new_track_id;
        proof {
            let i = self.tracks.index_of(new_track_id);
            assert(self.tracks.entries@[i].0 == new_track_id);
            assert forall|a: int, b: int| 0 <= a < b < self.tracks.entries@.len()
                implies self.tracks.entries@[a].0 < self.tracks.entries@[b].0 by {
                assert(self.tracks.entries@[a] == pre_tracks.entries@[a]);
                if b < self.tracks.entries@.len() - 1 {
                    assert(self.tracks.entries@[b] == pre_tracks.entries@[b]);
                }
            }
        }
        Ok(new_track_id)
    }

    /// Publishes a post under the next post id and advances the counters.
    pub fn create_post(&mut self, content: String, now: u64) -> (r: Result<u64, String>)
        requires
            old(self).wf(),
            old(self).space.next_post_id < u64::MAX,
            old(self).space.total_post < u64::MAX,
        ensures
            final(self).wf(),
            r is Ok,
            r matches Ok(id) ==> {
                &&& id == old(self).space.next_post_id
                &&& final(self).space.next_post_id == old(self).space.next_post_id + 1
                &&& final(self).space.total_post == old(self).space.total_post + 1
                &&& final(self).posts.has(id)
                &&& final(self).posts.spec_get(id).content == content
                &&& final(self).posts.spec_get(id).created_at == now
            },
    {
        let new_post_id = self.space.next_post_id;
        let post = UserPost { post_id: new_post_id, content, created_at: now };
        let ghost pre_posts = self.posts;
        proof {
            if pre_posts.has(new_post_id) {
                let i = pre_posts.index_of(new_post_id);
                assert(pre_posts.entries@[i].0 < old(self).space.next_post_id);
                assert(false);
            }
        }
        self.posts.create_post(new_post_id, post);
        self.space.total_post = self.space.total_post + 1;
        self.space.next_post_id = new_post_id + 1;
        proof {
            let i = self.posts.index_of(new_post_id);
            assert(self.posts.entries@[i].0 == new_post_id);
            assert forall|a: int, b: int| 0 <= a < b < self.posts.entries@.len()
                implies self.posts.entries@[a].0 < self.posts.entries@[b].0 by {
                assert(self.posts.entries@[a] == pre_posts.entries@[a]);
                if b < self.posts.entries@.len() - 1 {
                    assert(self.posts.entries@[b] == pre_posts.entries@[b]);
                }
            }
        }
        Ok(new_post_id)
    }

    /// Deletes an album and counts it out; an absent id is an error, and
    /// the tally never goes below zero.
    pub fn delete_album(&mut self, album_id: u64) -> (r: Result<(), String>)
        requires
            old(self).wf(),
        ensures
            final(self).wf(),
            r is Ok <==> old(self).albums.has(album_id),
            r is Err ==> *final(self) == *old(self),
            r is Ok ==> {
                &&& !final(self).albums.has(album_id)
                &&& final(self).albums.entries@.len() == old(self).albums.entries@.len() - 1
                &&& final(self).space.total_albums == (if old(self).space.total_albums > 0 {
                    (old(self).space.total_albums - 1) as u64
                } else {
                    0u64
                })
            },
    {
        let had = self.albums.delete_album(album_id);
        if !had {
            return Err("album not found".to_owned());
        }
        if self.space.total_albums > 0 {
            self.space.total_albums = self.space.total_albums - 1;
        }
        Ok(())
    }

    /// Deletes a post and counts it out; an absent id is an error.
    pub fn delete_post(&mut self, post_id: u64) -> (r: Result<(), String>)
        requires
            old(self).wf(),
        ensures
            final(self).wf(),
            r is Ok <==> old(self).posts.has(post_id),
            r is Err ==> *final(self) == *old(self),
            r is Ok ==> {
                &&& !final(self).posts.has(post_id)
                &&& final(self).space.total_post == (if old(self).space.total_post > 0 {
                    (old(self).space.total_post - 1) as u64
                } else {
                    0u64
                })
            },
    {
        match self.posts.delete_post(post_id) {
            Ok(()) => {
                if self.space.total_post > 0 {
                    self.space.total_post = self.space.total_post - 1;
                }
                Ok(())
            },
            Err(e) => Err(e),
        }
    }

    /// Deletes a track and counts it out, saturating at zero; a public track
    /// inside an album, or an absent id, is an error.
    pub fn delete_track(&mut self, id: u64) -> (r: Result<(), String>)
        requires
            old(self).wf(),
        ensures
            final(self).wf(),
            r is Ok <==> (old(self).tracks.has(id) && !(old(self).tracks.spec_get(id).album_id
                is Some && old(self).tracks.spec_get(id).public_at > 0)),
            r is Err ==> *final(self) == *old(self),
            r is Ok ==> {
                &&& final(self).tracks.entries@.len() == old(self).tracks.entries@.len() - 1
                &&& final(self).space.total_tracks == (if old(self).space.total_tracks > 0 {
                    (old(self).space.total_tracks - 1) as u64
                } else {
                    0u64
                })
            },
    {
        match self.tracks.delete_track(id) {
            Ok(()) => {
                if self.space.total_tracks > 0 {
                    self.space.total_tracks = self.space.total_tracks - 1;
                }
                Ok(())
            },
            Err(e) => Err(e),
        }
    }

    /// Builds the certificate a track is filed under: refused when the track
    /// is unknown or already carries a certification key; otherwise the
    /// record takes the track's name as title, its artist as owner, its
    /// collaborators joined with a comma as the artist line, and the caller's
    /// derived unique id.
    pub fn prepare_music_certificate(&self, track_id: u64, unique_id: String) -> (r: Result<
        crate::certificate::MusicCertificate,
        String,
    >)
        requires
            self.wf(),
        ensures
            r is Ok <==> (self.tracks.has(track_id) && self.tracks.spec_get(
                track_id,
            ).cert_key is None),
            r matches Ok(c) ==> {
                let track = self.tracks.spec_get(track_id);
                &&& c.title == track.name
                &&& c.owner == track.artist
                &&& c.unique_id == unique_id
                &&& c.artist@ == crate::text::spec_join_comma(
                    track.collaborators@.map(|i: int, p: String| p@),
                )
            },
    {
        match self.tracks.get_track(track_id) {
            Some(track) => {
                match &track.cert_key {
                    Some(_) => Err("track already carries a certificate".to_owned()),
                    None => {
                        let artist = crate::text::join_comma(&track.collaborators);
                        Ok(
                            crate::certificate::MusicCertificate {
                                title: track.name.clone(),
                                artist,
                                owner: track.artist,
                                unique_id,
                            },
                        )
                    },
                }
            },
            None => Err("track not found".to_owned()),
        }
    }

    /// Turns a confirmed license order into a granted license: the order must
    /// exist and pay for a license, the track must still carry its genesis
    /// license, and the confirmation must have succeeded. The payer then
    /// receives the genesis license's terms under the next license id, and
    /// the counters advance; the id counter never reissues a value.
    pub fn grant_license_for_order(
        &mut self,
        pay_id: u64,
        confirmed: bool,
        canister: PrincipalId,
        now: u64,
    ) -> (r: Result<u64, String>)
        requires
            old(self).wf(),
            old(self).space.next_license_id < u64::MAX,
            old(self).space.total_licenses < u64::MAX,
        ensures
            final(self).wf(),
            r is Ok <==> (confirmed && old(self).payments.has_order(pay_id) && old(
                self,
            ).payments.spec_order(pay_id).payment_type is LicensePrice && ({
                let track_id = old(self).payments.spec_order(
                    pay_id,
                ).payment_type->LicensePrice_0.track_id;
                old(self).licenses.has((0, track_id)) && old(self).licenses.spec_get(
                    (0, track_id),
                ).has_user(canister.raw)
            })),
            r is Err ==> *final(self) == *old(self),
            r matches Ok(id) ==> ({
                let order = old(self).payments.spec_order(pay_id);
                let track_id = order.payment_type->LicensePrice_0.track_id;
                let genesis = old(self).licenses.spec_get((0, track_id)).spec_get(canister.raw);
                &&& id == old(self).space.next_license_id
                &&& final(self).space.next_license_id == old(self).space.next_license_id + 1
                &&& final(self).space.total_licenses == old(self).space.total_licenses + 1
                &&& final(self).licenses.has((0, track_id))
                &&& final(self).licenses.spec_get((0, track_id)).has_user(order.payer.raw)
                &&& !old(self).licenses.spec_get((0, track_id)).has_user(order.payer.raw)
                    ==> ({
                    let granted = final(self).licenses.spec_get((0, track_id)).spec_get(
                        order.payer.raw,
                    );
                    &&& granted.id == id
                    &&& granted.user == order.payer
                    &&& granted.resource_key.track_id == Some(track_id)
                    &&& granted.channel == genesis.channel
                    &&& granted.asset_type@ == genesis.asset_type@
                    &&& granted.usage_rights@ == genesis.usage_rights@
                    &&& granted.licensed_media@ == genesis.licensed_media@
                    &&& granted.licensed_territory@ == genesis.licensed_territory@
                    &&& granted.right_period@ == genesis.right_period@
                    &&& granted.fee == genesis.fee
                    &&& granted.start_time == now && granted.created == now
                })
            }),
    {
        let order = match self.payments.get_payment_order(pay_id) {
            Some(order) => order,
            None => {
                return Err("order not found".to_owned());
            },
        };
        let track_id = match order.payment_type {
            crate::payment::PaymentType::LicensePrice(license_price) => license_price.track_id,
            _ => {
                return Err("payment type does not buy a license".to_owned());
            },
        };
        let genesis = match self.licenses.get_track_genesis_license(canister, track_id) {
            Some(genesis) => genesis,
            None => {
                return Err("genesis license not found for the track".to_owned());
            },
        };
        if !confirmed {
            return Err("order verification failed".to_owned());
        }
        let new_license_id = self.space.next_license_id;
        self.licenses.add_license(
            new_license_id,
            None,
            Some(track_id),
            order.payer,
            genesis.channel,
            genesis.asset_type,
            genesis.usage_rights,
            genesis.licensed_media,
            genesis.licensed_territory,
            genesis.right_period,
            genesis.fee,
            now,
        );
        self.space.total_licenses = self.space.total_licenses + 1;
        self.space.next_license_id = new_license_id + 1;
        Ok(new_license_id)
    }
}

fn copy_pids(v: &Vec<PrincipalId>) -> (r: Vec<PrincipalId>)
    ensures
        r@ == v@,
{
    let mut r: Vec<PrincipalId> = Vec::new();
    let mut i: usize = 0;
    while i < v.len()
        invariant
            i <= v@.len(),
            r@ == v@.take(i as int),
        decreases v@.len() - i,
    {
        r.push(v[i]);
        proof {
            assert(r@ =~= v@.take(i + 1));
        }
        i = i + 1;
    }
    proof {
        assert(r@ =~= v@);
    }
    r
}

fn copy_subscribers(v: &Vec<SubscriberInfo>) -> (r: Vec<SubscriberInfo>)
    ensures
        r@ == v@,
{
    let mut r: Vec<SubscriberInfo> = Vec::new();
    let mut i: usize = 0;
    while i < v.len()
        invariant
            i <= v@.len(),
            r@ == v@.take(i as int),
        decreases v@.len() - i,
    {
        r.push(v[i]);
        proof {
            assert(r@ =~= v@.take(i + 1));
        }
        i = i + 1;
    }
    proof {
        assert(r@ =~= v@);
    }
    r
}

fn copy_strings(v: &Vec<String>) -> (r: Vec<String>)
    ensures
        r@ == v@,
{
    let mut r: Vec<String> = Vec::new();
    let mut i: usize = 0;
    while i < v.len()
        invariant
            i <= v@.len(),
            r@ == v@.take(i as int),
        decreases v@.len() - i,
    {
        r.push(v[i].clone());
        proof {
            assert(r@ =~= v@.take(i + 1));
        }
        i = i + 1;
    }
    proof {
        assert(r@ =~= v@);
    }
    r
}

fn copy_categories(v: &Vec<Category>) -> (r: Vec<Category>)
    ensures
        r@.len() == v@.len(),
        forall|i: int|
            0 <= i < v@.len() ==> {
                let c = #[trigger] r@[i];
                c.id == v@[i].id && c.category_type == v@[i].category_type && c.desc
                    == v@[i].desc && c.parent == v@[i].parent
            },
{
    let mut r: Vec<Category> = Vec::new();
    let mut i: usize = 0;
    while i < v.len()
        invariant
            i <= v@.len(),
            r@.len() == i,
            forall|j: int|
                0 <= j < i ==> {
                    let c = #[trigger] r@[j];
                    c.id == v@[j].id && c.category_type == v@[j].category_type && c.desc
                        == v@[j].desc && c.parent == v@[j].parent
                },
        decreases v@.len() - i,
    {
        let c = &v[i];
        r.push(
            Category {
                id: c.id,
                category_type: c.category_type,
                desc: c.desc.clone(),
                parent: c.parent,
            },
        );
        i = i + 1;
    }
    r
}

/// A space as queries return it, together with the share tallies computed
/// from the share store.
#[derive(Debug)]
pub struct SpaceInfo {
    pub name: String,
    pub owner: PrincipalId,
    pub max_track_files: u32,
    pub max_albums: u32,
    pub max_custom_data_size: u16,
    pub max_oss_data_size: u128,
    pub status: u8,
    pub visibility: u8,
    pub managers: Vec<PrincipalId>,
    pub oss_canister: Vec<PrincipalId>,
    pub dao_canister: PrincipalId,
    pub avatar: String,
    pub cover: String,
    pub desc: String,
    pub lang: String,
    pub created: u64,
    pub sub_prices: Vec<u64>,
    pub subscribers: Vec<SubscriberInfo>,
    pub followers: Vec<PrincipalId>,
    pub total_subscribers: u64,
    pub total_albums: u64,
    pub total_tracks: u64,
    pub total_licenses: u64,
    pub total_income: u64,
    pub total_orders: u64,
    pub total_followers: u64,
    pub total_view: u64,
    pub total_post: u64,
    pub canister: PrincipalId,
    pub categories: Vec<Category>,
    pub custom_url: String,
    pub services: Vec<String>,
    pub store_track_ids: Vec<u64>,
    pub env: Environment,
    pub total_shares_album: u64,
    pub total_shares: u64,
}

impl SpaceInfo {
    /// Projects the configuration cell into its query form, folding in the
    /// two tallies the share store computes.
    pub fn from_space(space: &Space, total_shares_album: u64, total_shares: u64) -> (r: SpaceInfo)
        ensures
            r.name == space.name,
            r.owner == space.owner,
            r.max_track_files == space.max_track_files,
            r.max_albums == space.max_albums,
            r.max_custom_data_size == space.max_custom_data_size,
            r.max_oss_data_size == space.max_oss_data_size,
            r.status == space.status,
            r.visibility == space.visibility,
            r.managers@ == space.managers@,
            r.oss_canister@ == space.oss_canister@,
            r.dao_canister == space.dao_canister,
            r.avatar == space.avatar,
            r.cover == space.cover,
            r.desc == space.desc,
            r.lang == space.lang,
            r.created == space.created,
            r.sub_prices@ == space.sub_prices@,
            r.subscribers@ == space.subscribers@,
            r.followers@ == space.followers@,
            r.total_subscribers == space.total_subscribers,
            r.total_albums == space.total_albums,
            r.total_tracks == space.total_tracks,
            r.total_licenses == space.total_licenses,
            r.total_income == space.total_income,
            r.total_orders == space.total_orders,
            r.total_followers == space.total_followers,
            r.total_view == space.total_view,
            r.total_post == space.total_post,
            r.canister == space.canister,
            r.custom_url == space.custom_url,
            r.services@ == space.services@,
            r.store_track_ids@ == space.store_track_ids@,
            r.env == space.env,
            r.total_shares_album == total_shares_album,
            r.total_shares == total_shares,
    {
        SpaceInfo {
            name: space.name.clone(),
            owner: space.owner,
            max_track_files: space.max_track_files,
            max_albums: space.max_albums,
            max_custom_data_size: space.max_custom_data_size,
            max_oss_data_size: space.max_oss_data_size,
            status: space.status,
            visibility: space.visibility,
            managers: copy_pids(&space.managers),
            oss_canister: copy_pids(&space.oss_canister),
            dao_canister: space.dao_canister,
            avatar: space.avatar.clone(),
            cover: space.cover.clone(),
            desc: space.desc.clone(),
            lang: space.lang.clone(),
            created: space.created,
            sub_prices: crate::license::copy_u64s(&space.sub_prices),
            subscribers: copy_subscribers(&space.subscribers),
            followers: copy_pids(&space.followers),
            total_subscribers: space.total_subscribers,
            total_albums: space.total_albums,
            total_tracks: space.total_tracks,
            total_licenses: space.total_licenses,
            total_income: space.total_income,
            total_orders: space.total_orders,
            total_followers: space.total_followers,
            total_view: space.total_view,
            total_post: space.total_post,
            canister: space.canister,
            categories: copy_categories(&space.categories),
            custom_url: space.custom_url.clone(),
            services: copy_strings(&space.services),
            store_track_ids: crate::license::copy_u64s(&space.store_track_ids),
            env: space.env,
            total_shares_album,
            total_shares,
        }
    }
}

} // verus!
