//! Licenses: the rights granted over a track or album, keyed by resource and
//! licensed user.

use vstd::prelude::*;
use crate::principal::PrincipalId;

verus! {

/// The resource a license covers: an album, a track, or neither.
#[derive(Clone, Copy, PartialEq, Eq, Structural, Debug, Hash)]
pub struct LicenseKey {
    pub album_id: Option<u64>,
    pub track_id: Option<u64>,
}

impl LicenseKey {
    pub fn new(album_id: Option<u64>, track_id: Option<u64>) -> (r: LicenseKey)
        ensures
            r.album_id == album_id,
            r.track_id == track_id,
    {
        LicenseKey { album_id, track_id }
    }

    /// The key as a plain pair; an absent id maps to zero.
    pub fn to_tuple(&self) -> (r: (u64, u64))
        ensures
            r.0 == (if self.album_id is Some {
                self.album_id.unwrap()
            } else {
                0u64
            }),
            r.1 == (if self.track_id is Some {
                self.track_id.unwrap()
            } else {
                0u64
            }),
    {
        (
            match self.album_id {
                Some(a) => a,
                None => 0,
            },
            match self.track_id {
                Some(t) => t,
                None => 0,
            },
        )
    }
}

#[derive(Clone, Copy, PartialEq, Eq, Structural, Debug)]
pub enum ChannelType {
    Platform,
    User,
    Merchant,
    Other,
}

#[derive(Clone, Copy, PartialEq, Eq, Structural, Debug)]
pub enum AssetType {
    RecordingWithVocals,
    RecordingInstrumental,
    AudioSample,
    SoundFX,
}

#[derive(Clone, Copy, PartialEq, Eq, Structural, Debug)]
pub enum UsageRights {
    Commercial,
    NonCommercial,
}

#[derive(Clone, Copy, PartialEq, Eq, Structural, Debug)]
pub enum LicensedMedia {
    Exclusive,
    AllMedia,
}

#[derive(Clone, Copy, PartialEq, Eq, Structural, Debug)]
pub enum LicensedTerritory {
    ListedTerritories,
    Worldwide,
}

#[derive(Clone, Copy, PartialEq, Eq, Structural, Debug)]
pub enum RightPeriod {
    Months12,
    Years3,
    Years5,
    Years10,
    Perpetuity,
}

/// Copies a vector of plain values.
pub fn copy_u64s(v: &Vec<u64>) -> (r: Vec<u64>)
    ensures
        r@ == v@,
{
    let mut r: Vec<u64> = Vec::new();
    let mut i: usize = 0;
    while i < v.len()
        invariant
            i <= v@.len(),
            r@ == v@.take(i as int),
        decreases v@.len() - i,
    {
        r.push(v[i]);
        proof {
            assert(r@ =~= v@.take(i + 1));
        }
        i = i + 1;
    }
    proof {
        assert(r@ =~= v@);
    }
    r
}

/// One license over a resource, granted to one user.
#[derive(Debug)]
pub struct License {
    pub id: u64,
    pub user: PrincipalId,
    pub resource_key: LicenseKey,
    pub start_time: u64,
    pub valid_duration: Option<u64>,
    pub revoke_time: Option<u64>,
    pub channel: ChannelType,
    pub asset_type: Vec<AssetType>,
    pub usage_rights: Vec<UsageRights>,
    pub licensed_media: Vec<LicensedMedia>,
    pub licensed_territory: Vec<LicensedTerritory>,
    pub right_period: Vec<RightPeriod>,
    pub fee: Option<u128>,
    pub created: u64,
}

fn copy_assets(v: &Vec<AssetType>) -> (r: Vec<AssetType>)
    ensures
        r@ == v@,
{
    let mut r: Vec<AssetType> = Vec::new();
    let mut i: usize = 0;
    while i < v.len()
        invariant
            i <= v@.len(),
            r@ == v@.take(i as int),
        decreases v@.len() - i,
    {
        r.push(v[i]);
        proof {
            assert(r@ =~= v@.take(i + 1));
        }
        i = i + 1;
    }
    proof {
        assert(r@ =~= v@);
    }
    r
}

fn copy_rights(v: &Vec<UsageRights>) -> (r: Vec<UsageRights>)
    ensures
        r@ == v@,
{
    let mut r: Vec<UsageRights> = Vec::new();
    let mut i: usize = 0;
    while i < v.len()
        invariant
            i <= v@.len(),
            r@ == v@.take(i as int),
        decreases v@.len() - i,
    {
        r.push(v[i]);
        proof {
            assert(r@ =~= v@.take(i + 1));
        }
        i = i + 1;
    }
    proof {
        assert(r@ =~= v@);
    }
    r
}

fn copy_media(v: &Vec<LicensedMedia>) -> (r: Vec<LicensedMedia>)
    ensures
        r@ == v@,
{
    let mut r: Vec<LicensedMedia> = Vec::new();
    let mut i: usize = 0;
    while i < v.len()
        invariant
            i <= v@.len(),
            r@ == v@.take(i as int),
        decreases v@.len() - i,
    {
        r.push(v[i]);
        proof {
            assert(r@ =~= v@.take(i + 1));
        }
        i = i + 1;
    }
    proof {
        assert(r@ =~= v@);
    }
    r
}

fn copy_territories(v: &Vec<LicensedTerritory>) -> (r: Vec<LicensedTerritory>)
    ensures
        r@ == v@,
{
    let mut r: Vec<LicensedTerritory> = Vec::new();
    let mut i: usize = 0;
    while i < v.len()
        invariant
            i <= v@.len(),
            r@ == v@.take(i as int),
        decreases v@.len() - i,
    {
        r.push(v[i]);
        proof {
            assert(r@ =~= v@.take(i + 1));
        }
        i = i + 1;
    }
    proof {
        assert(r@ =~= v@);
    }
    r
}

fn copy_periods(v: &Vec<RightPeriod>) -> (r: Vec<RightPeriod>)
    ensures
        r@ == v@,
{
    let mut r: Vec<RightPeriod> = Vec::new();
    let mut i: usize = 0;
    while i < v.len()
        invariant
            i <= v@.len(),
            r@ == v@.take(i as int),
        decreases v@.len() - i,
    {
        r.push(v[i]);
        proof {
            assert(r@ =~= v@.take(i + 1));
        }
        i = i + 1;
    }
    proof {
        assert(r@ =~= v@);
    }
    r
}

/// Whether two licenses carry the same content.
pub open spec fn license_equiv(a: License, b: License) -> bool {
    &&& a.id == b.id
    &&& a.user == b.user
    &&& a.resource_key == b.resource_key
    &&& a.start_time == b.start_time
    &&& a.valid_duration == b.valid_duration
    &&& a.revoke_time == b.revoke_time
    &&& a.channel == b.channel
    &&& a.asset_type@ == b.asset_type@
    &&& a.usage_rights@ == b.usage_rights@
    &&& a.licensed_media@ == b.licensed_media@
    &&& a.licensed_territory@ == b.licensed_territory@
    &&& a.right_period@ == b.right_period@
    &&& a.fee == b.fee
    &&& a.created == b.created
}

impl License {
    pub fn duplicate(&self) -> (r: License)
        ensures
            license_equiv(r, *self),
    {
        let r = License {
            id: self.id,
            user: self.user,
            resource_key: self.resource_key,
            start_time: self.start_time,
            valid_duration: self.valid_duration,
            revoke_time: self.revoke_time,
            channel: self.channel,
            asset_type: copy_assets(&self.asset_type),
            usage_rights: copy_rights(&self.usage_rights),
            licensed_media: copy_media(&self.licensed_media),
            licensed_territory: copy_territories(&self.licensed_territory),
            right_period: copy_periods(&self.right_period),
            fee: self.fee,
            created: self.created,
        };
        r
    }

    /// Whether the license grants anything at `current_time`: a revoked
    /// license ends at its revocation time; otherwise a bounded license ends
    /// when its validity lapses, and an unbounded one never does.
    pub fn is_active(&self, current_time: u64) -> (r: bool)
        requires
            self.valid_duration is Some ==> self.start_time + self.valid_duration.unwrap()
                <= u64::MAX,
        ensures
            self.revoke_time matches Some(t) ==> r == (current_time < t),
            self.revoke_time is None && self.valid_duration is Some ==> r == (current_time
                < self.start_time + self.valid_duration.unwrap()),
            self.revoke_time is None && self.valid_duration is None ==> r,
    {
        match self.revoke_time {
            Some(revoke_time) => current_time < revoke_time,
            None => match self.valid_duration {
                Some(duration) => current_time < self.start_time + duration,
                None => true,
            },
        }
    }
}

/// A record of one use made of a license.
#[derive(Clone, Debug)]
pub struct LicenseRecord {
    pub id: u64,
    pub license_id: u64,
    pub user: PrincipalId,
    pub access_time: u64,
    pub action: String,
}

impl LicenseRecord {
    pub fn new(id: u64, license_id: u64, user: PrincipalId, access_time: u64, action: String) -> (r:
        LicenseRecord)
        ensures
            r.id == id,
            r.license_id == license_id,
            r.user == user,
            r.access_time == access_time,
            r.action == action,
    {
        LicenseRecord { id, license_id, user, access_time, action }
    }
}

/// The listing form of a license.
#[derive(Debug)]
pub struct LicenseListEntry {
    pub id: u64,
    pub user: PrincipalId,
    pub resource_key: LicenseKey,
    pub start_time: u64,
    pub fee: Option<u128>,
    pub created: u64,
}

impl LicenseListEntry {
    /// Projects a license down to its listing form.
    pub fn from(license: &License) -> (r: LicenseListEntry)
        ensures
            r.id == license.id,
            r.user == license.user,
            r.resource_key == license.resource_key,
            r.start_time == license.start_time,
            r.fee == license.fee,
            r.created == license.created,
    {
        LicenseListEntry {
            id: license.id,
            user: license.user,
            resource_key: license.resource_key,
            start_time: license.start_time,
            fee: license.fee,
            created: license.created,
        }
    }
}

/// The arguments creating a track license.
#[derive(Debug)]
pub struct CreateTrackLicenseArg {
    pub track_id: u64,
    pub user_pid: PrincipalId,
    pub channel: ChannelType,
    pub asset_type: Vec<AssetType>,
    pub usage_rights: Vec<UsageRights>,
    pub licensed_media: Vec<LicensedMedia>,
    pub licensed_territory: Vec<LicensedTerritory>,
    pub right_period: Vec<RightPeriod>,
    pub fee: Option<u128>,
}

} // verus!
