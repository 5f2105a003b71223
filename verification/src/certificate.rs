//! Records issued by the certification service and the responses handed to
//! its callers.

use vstd::prelude::*;
use crate::principal::PrincipalId;
use crate::certified::Witness;

verus! {

/// A music copyright record to be certified.
#[derive(Clone, Debug)]
pub struct MusicCertificate {
    pub title: String,
    pub artist: String,
    pub owner: PrincipalId,
    pub unique_id: String,
}

/// What a successful certification returns: the key under which the record
/// was filed and the hexadecimal rendering of its leaf digest.
#[derive(Clone, Debug)]
pub struct MusicCertificateResp {
    pub key: String,
    pub music_cert_hex: String,
}

/// A certified record queried back: the platform-signed digest, the leaf
/// digest and the witness tying the record to the published root.
#[derive(Debug)]
pub struct MusicCopyright {
    pub count: u128,
    pub certificate: Vec<u8>,
    pub music_cert_hex: String,
    pub witness: Witness,
}

/// The record kept out of band beside the certification tree.
#[derive(Clone, Debug)]
pub struct CertificateInfo {
    pub key: String,
    pub cert_info: MusicCertificate,
    pub cert_hex: String,
}

} // verus!
