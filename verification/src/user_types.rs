//! The types the user directory keeps: profiles, their spaces, and the
//! free-form attributes attached to them.

use vstd::prelude::*;
use crate::principal::PrincipalId;

verus! {

/// A free-form key/value attribute on a user or a track.
#[derive(Clone, Debug)]
pub struct Attribute {
    pub key: String,
    pub value: String,
}

impl Attribute {
    pub fn duplicate(&self) -> (r: Attribute)
        ensures
            r == *self,
    {
        Attribute { key: self.key.clone(), value: self.value.clone() }
    }
}

/// The arguments creating a space for a user.
#[derive(Clone, Debug)]
pub struct SpaceArgs {
    pub name: String,
    pub desc: String,
    pub avatar: String,
    pub code: String,
}

/// The kinds of space-membership events a user service emits.
#[derive(Clone, Copy, PartialEq, Eq, Structural, Debug)]
pub enum SpaceMsgType {
    Subscribe,
    Unsubscribe,
    Add,
    Remove,
}

#[derive(Clone, Copy, PartialEq, Eq, Structural, Debug)]
pub enum MusicContentType {
    Singer,
    Band,
    GroupPerformer,
    SessionMusician,
    OrchestraMusician,
    Songwriter,
    MusicComposer,
    MusicProducer,
    StudioEngineer,
    RecordingMixingEngineer,
    MasteringEngineer,
    DJ,
}

impl MusicContentType {
    /// The fixed name of each content type.
    pub fn to_string(&self) -> (r: &'static str)
        ensures
            *self is Singer ==> r@ == "Singer"@,
            *self is Band ==> r@ == "Band"@,
            *self is DJ ==> r@ == "DJ"@,
    {
        match self {
            MusicContentType::Singer => "Singer",
            MusicContentType::Band => "Band",
            MusicContentType::GroupPerformer => "GroupPerformer",
            MusicContentType::SessionMusician => "SessionMusician",
            MusicContentType::OrchestraMusician => "OrchestraMusician",
            MusicContentType::Songwriter => "Songwriter",
            MusicContentType::MusicComposer => "MusicComposer",
            MusicContentType::MusicProducer => "MusicProducer",
            MusicContentType::StudioEngineer => "StudioEngineer",
            MusicContentType::RecordingMixingEngineer => "RecordingMixingEngineer",
            MusicContentType::MasteringEngineer => "MasteringEngineer",
            MusicContentType::DJ => "DJ",
        }
    }
}

/// The spaces a user owns: one space service and its storage services.
#[derive(Clone, Debug)]
pub struct UserSpaceInfo {
    pub space_id: PrincipalId,
    pub oss_id: Vec<PrincipalId>,
}

/// The profile fields a user may update; absent fields keep their value.
#[derive(Clone, Debug)]
pub struct UpdateUserInfo {
    pub avatar: Option<String>,
    pub artist_name: Option<String>,
    pub location: Option<String>,
    pub genre: Option<String>,
    pub website: Option<String>,
    pub bio: Option<String>,
    pub handler: Option<String>,
    pub music_content_type: Option<MusicContentType>,
    pub born: Option<u64>,
    pub confirm_agreement: Option<bool>,
}

/// One user profile.
#[derive(Debug)]
pub struct User {
    pub pid: PrincipalId,
    pub avatar: String,
    pub artist_name: String,
    pub location: String,
    pub genre: String,
    pub website: String,
    pub bio: String,
    pub handler: String,
    pub music_content_type: Option<MusicContentType>,
    pub born: Option<u64>,
    pub confirm_agreement: bool,
    pub email: String,
    pub attributes: Vec<Attribute>,
    pub created: u64,
    pub updated_at: u64,
}

impl User {
    /// A fresh, empty profile for an identity.
    pub fn new(pid: PrincipalId, now: u64) -> (r: User)
        ensures
            r.pid == pid,
            r.avatar@.len() == 0 && r.artist_name@.len() == 0 && r.email@.len() == 0,
            r.music_content_type is None && r.born is None,
            !r.confirm_agreement,
            r.attributes@.len() == 0,
            r.created == now && r.updated_at == now,
    {
        User {
            pid,
            avatar: String::new(),
            artist_name: String::new(),
            location: String::new(),
            genre: String::new(),
            website: String::new(),
            bio: String::new(),
            handler: String::new(),
            music_content_type: None,
            born: None,
            confirm_agreement: false,
            email: String::new(),
            attributes: Vec::new(),
            created: now,
            updated_at: now,
        }
    }

    /// Merges an update into the profile: every field the update carries
    /// replaces the stored one, every absent field keeps its value, and the
    /// update timestamp advances.
    pub fn set_user_info(&mut self, update_info: UpdateUserInfo, now: u64)
        ensures
            final(self).avatar == (if update_info.avatar is Some {
                update_info.avatar.unwrap()
            } else {
                old(self).avatar
            }),
            final(self).artist_name == (if update_info.artist_name is Some {
                update_info.artist_name.unwrap()
            } else {
                old(self).artist_name
            }),
            final(self).location == (if update_info.location is Some {
                update_info.location.unwrap()
            } else {
                old(self).location
            }),
            final(self).genre == (if update_info.genre is Some {
                update_info.genre.unwrap()
            } else {
                old(self).genre
            }),
            final(self).website == (if update_info.website is Some {
                update_info.website.unwrap()
            } else {
                old(self).website
            }),
            final(self).bio == (if update_info.bio is Some {
                update_info.bio.unwrap()
            } else {
                old(self).bio
            }),
            final(self).handler == (if update_info.handler is Some {
                update_info.handler.unwrap()
            } else {
                old(self).handler
            }),
            final(self).music_content_type == (if update_info.music_content_type is Some {
                update_info.music_content_type
            } else {
                old(self).music_content_type
            }),
            final(self).born == (if update_info.born is Some {
                update_info.born
            } else {
                old(self).born
            }),
            final(self).confirm_agreement == (if update_info.confirm_agreement is Some {
                update_info.confirm_agreement.unwrap()
            } else {
                old(self).confirm_agreement
            }),
            final(self).pid == old(self).pid,
            final(self).email == old(self).email,
            final(self).attributes == old(self).attributes,
            final(self).created == old(self).created,
            final(self).updated_at == now,
    {
        match update_info.avatar {
            Some(v) => {
                self.avatar = v;
            },
            None => {},
        }
        match update_info.artist_name {
            Some(v) => {
                self.artist_name = v;
            },
            None => {},
        }
        match update_info.location {
            Some(v) => {
                self.location = v;
            },
            None => {},
        }
        match update_info.genre {
            Some(v) => {
                self.genre = v;
            },
            None => {},
        }
        match update_info.website {
            Some(v) => {
                self.website = v;
            },
            None => {},
        }
        match update_info.bio {
            Some(v) => {
                self.bio = v;
            },
            None => {},
        }
        match update_info.handler {
            Some(v) => {
                self.handler = v;
            },
            None => {},
        }
        match update_info.music_content_type {
            Some(v) => {
                self.music_content_type = Some(v);
            },
            None => {},
        }
        match update_info.born {
            Some(v) => {
                self.born = Some(v);
            },
            None => {},
        }
        match update_info.confirm_agreement {
            Some(v) => {
                self.confirm_agreement = v;
            },
            None => {},
        }
        self.updated_at = now;
    }

    /// Replaces any attribute sharing the new attribute's key and appends the
    /// new one; other attributes are kept in order.
    pub fn add_user_attribute(&mut self, new_attribute: Attribute, now: u64) -> (r: bool)
        ensures
            final(self).attributes@.len() > 0,
            final(self).attributes@.last() == new_attribute,
            final(self).updated_at == now,
            r,
    {
        let mut kept: Vec<Attribute> = Vec::new();
        let mut i: usize = 0;
        while i < self.attributes.len()
            invariant
                i <= self.attributes@.len(),
            decreases self.attributes@.len() - i,
        {
            if !self.attributes[i].key.eq(&new_attribute.key) {
                kept.push(self.attributes[i].duplicate());
            }
            i = i + 1;
        }
        kept.push(new_attribute);
        self.attributes = kept;
        self.updated_at = now;
        true
    }
}

} // verus!
