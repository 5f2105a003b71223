//! The certification tree: an authenticated record store.
//!
//! The tree keeps `(key, leaf digest)` entries. After every mutation it
//! recomputes and republishes the root digest, the deterministic hash-tree
//! reduction of the current entry sequence. A witness for an entry is the
//! Merkle path from that entry to a root; verifying a witness recomputes the
//! root it commits to, so a witness obtained against a root stays valid
//! against that root however the tree is mutated afterwards.

use vstd::prelude::*;
use crate::digest::{
    fork_digest, fork_digest_of, labeled_digest, labeled_digest_of, leaf_digest, leaf_digest_of,
    hex_encode, spec_hex,
};
use crate::text::{make_key, spec_key};
use crate::certificate::{CertificateInfo, MusicCertificate, MusicCertificateResp, MusicCopyright};

verus! {

/// Copies a byte string.
pub fn copy_bytes(v: &Vec<u8>) -> (r: Vec<u8>)
    ensures
        r@ == v@,
{
    let mut r: Vec<u8> = Vec::new();
    let mut i: usize = 0;
    while i < v.len()
        invariant
            i <= v@.len(),
            r@ == v@.take(i as int),
        decreases v@.len() - i,
    {
        r.push(v[i]);
        proof {
            assert(r@ =~= v@.take(i + 1));
        }
        i = i + 1;
    }
    proof {
        assert(r@ =~= v@);
    }
    r
}

/// Compares two byte strings for equality.
pub fn bytes_eq(a: &Vec<u8>, b: &Vec<u8>) -> (r: bool)
    ensures
        r == (a@ == b@),
{
    if a.len() != b.len() {
        return false;
    }
    let mut i: usize = 0;
    while i < a.len()
        invariant
            a@.len() == b@.len(),
            i <= a@.len(),
            forall|j: int| 0 <= j < i ==> a@[j] == b@[j],
        decreases a@.len() - i,
    {
        if a[i] != b[i] {
            return false;
        }
        i = i + 1;
    }
    proof {
        assert(a@ =~= b@);
    }
    true
}

/// One entry of the certification tree.
#[derive(Debug)]
pub struct CertEntry {
    pub key: String,
    pub leaf: Vec<u8>,
}

impl CertEntry {
    /// A leaf digest is always 32 bytes.
    pub open spec fn wf(self) -> bool {
        self.leaf@.len() == 32
    }

    /// The digest this entry contributes to the tree.
    pub open spec fn digest(self) -> Seq<u8> {
        labeled_digest_of(self.key@, self.leaf@)
    }
}

/// The root digest of the empty tree.
pub open spec fn empty_root() -> Seq<u8> {
    Seq::new(32, |i: int| 0u8)
}

/// The deterministic hash-tree reduction of an entry sequence: entries are
/// split in halves and the halves' digests forked together.
pub open spec fn subtree_digest(s: Seq<CertEntry>) -> Seq<u8>
    decreases s.len(),
{
    if s.len() == 0 {
        empty_root()
    } else if s.len() == 1 {
        s[0].digest()
    } else {
        fork_digest_of(
            subtree_digest(s.take(s.len() as int / 2)),
            subtree_digest(s.skip(s.len() as int / 2)),
        )
    }
}

/// The root digest committed to an entry sequence.
pub open spec fn root_digest_of(s: Seq<CertEntry>) -> Seq<u8> {
    subtree_digest(s)
}

/// The Merkle path from one entry to the root: the entry itself, the pruned
/// digests of the subtrees off the path, and the forks combining them.
#[derive(Debug)]
pub enum Witness {
    Entry { key: String, leaf: Vec<u8> },
    Pruned { digest: Vec<u8> },
    Fork { left: Box<Witness>, right: Box<Witness> },
}

impl Witness {
    /// Every digest a witness carries is 32 bytes.
    pub open spec fn wf(self) -> bool
        decreases self,
    {
        match self {
            Witness::Entry { key, leaf } => leaf@.len() == 32,
            Witness::Pruned { digest } => digest@.len() == 32,
            Witness::Fork { left, right } => (*left).wf() && (*right).wf(),
        }
    }

    /// The root digest this witness commits to.
    pub open spec fn reconstruct(self) -> Seq<u8>
        decreases self,
    {
        match self {
            Witness::Entry { key, leaf } => labeled_digest_of(key@, leaf@),
            Witness::Pruned { digest } => digest@,
            Witness::Fork { left, right } => fork_digest_of(
                (*left).reconstruct(),
                (*right).reconstruct(),
            ),
        }
    }

    /// Whether the witness exhibits `(key, leaf)` on its path.
    pub open spec fn grants(self, key: Seq<char>, leaf: Seq<u8>) -> bool
        decreases self,
    {
        match self {
            Witness::Entry { key: k, leaf: l } => k@ == key && l@ == leaf,
            Witness::Pruned { digest } => false,
            Witness::Fork { left, right } => (*left).grants(key, leaf) || (*right).grants(
                key,
                leaf,
            ),
        }
    }
}

/// Checks that every digest the witness carries is 32 bytes.
pub fn witness_wf(w: &Witness) -> (r: bool)
    ensures
        r == w.wf(),
    decreases *w,
{
    match w {
        Witness::Entry { key, leaf } => leaf.len() == 32,
        Witness::Pruned { digest } => digest.len() == 32,
        Witness::Fork { left, right } => witness_wf(left) && witness_wf(right),
    }
}

/// Recomputes the root digest a witness commits to.
pub fn witness_reconstruct(w: &Witness) -> (r: Vec<u8>)
    requires
        w.wf(),
    ensures
        r@ == w.reconstruct(),
        r@.len() == 32,
    decreases *w,
{
    match w {
        Witness::Entry { key, leaf } => labeled_digest(key.as_str(), leaf),
        Witness::Pruned { digest } => copy_bytes(digest),
        Witness::Fork { left, right } => {
            let l = witness_reconstruct(left);
            let r = witness_reconstruct(right);
            fork_digest(&l, &r)
        },
    }
}

/// Checks whether the witness exhibits `(key, leaf)` on its path.
pub fn witness_grants(w: &Witness, key: &String, leaf: &Vec<u8>) -> (r: bool)
    ensures
        r == w.grants(key@, leaf@),
    decreases *w,
{
    match w {
        Witness::Entry { key: k, leaf: l } => k.eq(key) && bytes_eq(l, leaf),
        Witness::Pruned { digest } => false,
        Witness::Fork { left, right } => witness_grants(left, key, leaf) || witness_grants(
            right,
            key,
            leaf,
        ),
    }
}

/// Verifies a witness against a root digest: the witness must be well formed,
/// commit to exactly that root, and exhibit `(key, leaf)` on its path.
pub fn verify_witness(key: &String, leaf: &Vec<u8>, w: &Witness, root: &Vec<u8>) -> (r: bool)
    ensures
        r == (w.wf() && w.reconstruct() == root@ && w.grants(key@, leaf@)),
{
    if !witness_wf(w) {
        return false;
    }
    let d = witness_reconstruct(w);
    bytes_eq(&d, root) && witness_grants(w, key, leaf)
}

/// The certification tree with the root digest it last published.
#[derive(Debug)]
pub struct CertTree {
    pub entries: Vec<CertEntry>,
    pub published_root: Vec<u8>,
}

impl CertTree {
    /// Entries are well formed, keys are unique, and the published root is
    /// the reduction of the current entries.
    pub open spec fn wf(self) -> bool {
        &&& forall|i: int| 0 <= i < self.entries@.len() ==> (#[trigger] self.entries@[i]).wf()
        &&& forall|i: int, j: int|
            0 <= i < j < self.entries@.len() ==> self.entries@[i].key@ != self.entries@[j].key@
        &&& self.published_root@ == root_digest_of(self.entries@)
        &&& self.published_root@.len() == 32
    }

    pub open spec fn contains_key(self, key: Seq<char>) -> bool {
        exists|i: int| 0 <= i < self.entries@.len() && self.entries@[i].key@ == key
    }

    /// The index of the entry holding `key`; meaningful only when
    /// `contains_key` holds (in a well-formed tree it is then unique).
    pub open spec fn index_of(self, key: Seq<char>) -> int {
        choose|i: int| 0 <= i < self.entries@.len() && self.entries@[i].key@ == key
    }

    pub fn new() -> (r: CertTree)
        ensures
            r.wf(),
            r.entries@.len() == 0,
            r.published_root@ == empty_root(),
    {
        let mut root: Vec<u8> = Vec::new();
        let mut i: usize = 0;
        while i < 32
            invariant
                i <= 32,
                root@.len() == i,
                forall|j: int| 0 <= j < i ==> root@[j] == 0u8,
            decreases 32 - i,
        {
            root.push(0u8);
            i = i + 1;
        }
        proof {
            assert(root@ =~= empty_root());
        }
        CertTree { entries: Vec::new(), published_root: root }
    }

    fn subtree(entries: &Vec<CertEntry>, lo: usize, hi: usize) -> (r: Vec<u8>)
        requires
            forall|i: int| 0 <= i < entries@.len() ==> (#[trigger] entries@[i]).wf(),
            lo < hi <= entries@.len(),
        ensures
            r@ == subtree_digest(entries@.subrange(lo as int, hi as int)),
            r@.len() == 32,
        decreases hi - lo,
    {
        if hi - lo == 1 {
            let e = &entries[lo];
            let d = labeled_digest(e.key.as_str(), &e.leaf);
            proof {
                let s = entries@.subrange(lo as int, hi as int);
                assert(s.len() == 1);
                assert(s[0] == entries@[lo as int]);
            }
            d
        } else {
            let mid = lo + (hi - lo) / 2;
            let l = Self::subtree(entries, lo, mid);
            let r = Self::subtree(entries, mid, hi);
            let d = fork_digest(&l, &r);
            proof {
                let s = entries@.subrange(lo as int, hi as int);
                assert(s.take(s.len() as int / 2) =~= entries@.subrange(lo as int, mid as int));
                assert(s.skip(s.len() as int / 2) =~= entries@.subrange(mid as int, hi as int));
            }
            d
        }
    }

    fn compute_root(entries: &Vec<CertEntry>) -> (r: Vec<u8>)
        requires
            forall|i: int| 0 <= i < entries@.len() ==> (#[trigger] entries@[i]).wf(),
        ensures
            r@ == root_digest_of(entries@),
            r@.len() == 32,
    {
        if entries.len() == 0 {
            let mut root: Vec<u8> = Vec::new();
            let mut i: usize = 0;
            while i < 32
                invariant
                    i <= 32,
                    root@.len() == i,
                    forall|j: int| 0 <= j < i ==> root@[j] == 0u8,
                decreases 32 - i,
            {
                root.push(0u8);
                i = i + 1;
            }
            proof {
                assert(root@ =~= empty_root());
            }
            root
        } else {
            let r = Self::subtree(entries, 0, entries.len());
            proof {
                assert(entries@.subrange(0, entries@.len() as int) =~= entries@);
            }
            r
        }
    }

    fn find_index(entries: &Vec<CertEntry>, key: &String) -> (r: Option<usize>)
        ensures
            match r {
                Some(i) => i < entries@.len() && entries@[i as int].key@ == key@,
                None => forall|i: int| 0 <= i < entries@.len() ==> entries@[i].key@ != key@,
            },
    {
        let mut i: usize = 0;
        while i < entries.len()
            invariant
                i <= entries@.len(),
                forall|j: int| 0 <= j < i ==> entries@[j].key@ != key@,
            decreases entries@.len() - i,
        {
            if entries[i].key.eq(key) {
                return Some(i);
            }
            i = i + 1;
        }
        None
    }

    /// Whether an entry with this key is currently in the tree.
    pub fn contains(&self, key: &String) -> (r: bool)
        ensures
            r == self.contains_key(key@),
    {
        Self::find_index(&self.entries, key).is_some()
    }

    /// Inserts `(key, leaf)`, replacing any entry already filed under `key`,
    /// and republishes the root digest before returning.
    pub fn insert(&mut self, key: String, leaf: Vec<u8>)
        requires
            old(self).wf(),
            leaf@.len() == 32,
        ensures
            final(self).wf(),
            old(self).contains_key(key@) ==> final(self).entries@ == old(self).entries@.remove(
                old(self).index_of(key@),
            ).push((CertEntry { key, leaf })),
            !old(self).contains_key(key@) ==> final(self).entries@ == old(self).entries@.push(
                (CertEntry { key, leaf }),
            ),
            final(self).contains_key(key@),
            final(self).published_root@ == root_digest_of(final(self).entries@),
    {
        let entry = CertEntry { key, leaf };
        let found = Self::find_index(&self.entries, &entry.key);
        match found {
            Some(i) => {
                proof {
                    assert(i as int == old(self).index_of(entry.key@));
                }
                self.entries.remove(i);
                proof {
                    assert forall|a: int| 0 <= a < self.entries@.len() implies self.entries@[a].key@
                        != entry.key@ by {
                        if a < i {
                            assert(self.entries@[a] == old(self).entries@[a]);
                        } else {
                            assert(self.entries@[a] == old(self).entries@[a + 1]);
                        }
                    }
                }
            },
            None => {},
        }
        self.entries.push(entry);
        let root = Self::compute_root(&self.entries);
        self.published_root = root;
        proof {
            let s = self.entries@;
            assert(s[s.len() - 1].key@ == key@);
            assert forall|i: int, j: int| 0 <= i < j < s.len() implies s[i].key@ != s[j].key@ by {
                if j < s.len() - 1 {
                    match found {
                        Some(fi) => {
                            let o = old(self).entries@;
                            let oi = if i < fi as int { i } else { i + 1 };
                            let oj = if j < fi as int { j } else { j + 1 };
                            assert(s[i] == o[oi]);
                            assert(s[j] == o[oj]);
                        },
                        None => {},
                    }
                }
            }
        }
    }

    /// Removes the entry filed under `key`, if any, and republishes the root
    /// digest. Returns whether an entry was removed.
    pub fn delete(&mut self, key: &String) -> (r: bool)
        requires
            old(self).wf(),
        ensures
            final(self).wf(),
            r == old(self).contains_key(key@),
            r ==> final(self).entries@ == old(self).entries@.remove(old(self).index_of(key@)),
            !r ==> *final(self) == *old(self),
            !final(self).contains_key(key@),
            final(self).published_root@ == root_digest_of(final(self).entries@),
    {
        let found = Self::find_index(&self.entries, key);
        match found {
            Some(i) => {
                proof {
                    assert(i as int == old(self).index_of(key@));
                }
                self.entries.remove(i);
                let root = Self::compute_root(&self.entries);
                self.published_root = root;
                proof {
                    assert forall|a: int| 0 <= a < self.entries@.len()
                        implies self.entries@[a].key@ != key@ by {
                        if a < i {
                            assert(self.entries@[a] == old(self).entries@[a]);
                        } else {
                            assert(self.entries@[a] == old(self).entries@[a + 1]);
                        }
                    }
                }
                true
            },
            None => false,
        }
    }

    /// The root digest as last published.
    pub fn root(&self) -> (r: Vec<u8>)
        ensures
            r@ == self.published_root@,
    {
        copy_bytes(&self.published_root)
    }

    fn witness_range(entries: &Vec<CertEntry>, lo: usize, hi: usize, idx: usize) -> (w: Witness)
        requires
            forall|i: int| 0 <= i < entries@.len() ==> (#[trigger] entries@[i]).wf(),
            lo <= idx < hi <= entries@.len(),
        ensures
            w.wf(),
            w.reconstruct() == subtree_digest(entries@.subrange(lo as int, hi as int)),
            w.grants(entries@[idx as int].key@, entries@[idx as int].leaf@),
        decreases hi - lo,
    {
        if hi - lo == 1 {
            let e = &entries[lo];
            let w = Witness::Entry { key: e.key.clone(), leaf: copy_bytes(&e.leaf) };
            proof {
                assert(entries@[lo as int].wf());
                let s = entries@.subrange(lo as int, hi as int);
                assert(s.len() == 1);
                assert(s[0] == entries@[lo as int]);
                assert(subtree_digest(s) == s[0].digest());
                assert(w.reconstruct() == labeled_digest_of(e.key@, e.leaf@));
            }
            w
        } else {
            let mid = lo + (hi - lo) / 2;
            proof {
                let s = entries@.subrange(lo as int, hi as int);
                assert(s.take(s.len() as int / 2) =~= entries@.subrange(lo as int, mid as int));
                assert(s.skip(s.len() as int / 2) =~= entries@.subrange(mid as int, hi as int));
            }
            if idx < mid {
                let l = Self::witness_range(entries, lo, mid, idx);
                let pruned = Self::subtree(entries, mid, hi);
                let pw = Witness::Pruned { digest: pruned };
                proof {
                    assert(pw.wf());
                    assert(pw.reconstruct() == pruned@);
                }
                let w = Witness::Fork { left: Box::new(l), right: Box::new(pw) };
                proof {
                    assert(w.wf());
                    assert(w.reconstruct() == fork_digest_of(l.reconstruct(), pw.reconstruct()));
                }
                w
            } else {
                let pruned = Self::subtree(entries, lo, mid);
                let r = Self::witness_range(entries, mid, hi, idx);
                let pw = Witness::Pruned { digest: pruned };
                proof {
                    assert(pw.wf());
                    assert(pw.reconstruct() == pruned@);
                }
                let w = Witness::Fork { left: Box::new(pw), right: Box::new(r) };
                proof {
                    assert(w.wf());
                    assert(w.reconstruct() == fork_digest_of(pw.reconstruct(), r.reconstruct()));
                }
                w
            }
        }
    }

    /// Looks up `key` and builds the witness tying its entry to the root
    /// digest published after the last mutation. The witness verifies against
    /// that root; it is not required to verify against any later root.
    pub fn get_with_witness(&self, key: &String) -> (r: Option<(Vec<u8>, Witness)>)
        requires
            self.wf(),
        ensures
            r is Some <==> self.contains_key(key@),
            r matches Some(p) ==> {
                &&& p.0@ == self.entries@[self.index_of(key@)].leaf@
                &&& p.1.wf()
                &&& p.1.grants(key@, p.0@)
                &&& p.1.reconstruct() == self.published_root@
            },
    {
        let found = Self::find_index(&self.entries, key);
        match found {
            Some(i) => {
                proof {
                    assert(i as int == self.index_of(key@));
                }
                let leaf = copy_bytes(&self.entries[i].leaf);
                let w = Self::witness_range(&self.entries, 0, self.entries.len(), i);
                proof {
                    assert(self.entries@.subrange(0, self.entries@.len() as int)
                        =~= self.entries@);
                }
                Some((leaf, w))
            },
            None => None,
        }
    }
}

/// The namespace under which certification keys are issued.
pub fn certified_header() -> (r: &'static str)
    ensures
        r@ == "cani_cert"@,
{
    "cani_cert"
}

/// The certification service: the tree, the per-instance sequence counter
/// behind key generation, and the out-of-band record store.
#[derive(Debug)]
pub struct CertStore {
    pub tree: CertTree,
    pub cert_counter: u64,
    pub infos: Vec<(String, CertificateInfo)>,
}

impl CertStore {
    /// The tree is well formed and every key in it was issued by this
    /// instance's own counter: `"cani_cert_{j}"` for some sequence number up
    /// to the current one.
    pub open spec fn wf(self) -> bool {
        &&& self.tree.wf()
        &&& forall|i: int|
            0 <= i < self.tree.entries@.len() ==> exists|j: nat|
                1 <= j <= self.cert_counter && (#[trigger] self.tree.entries@[i]).key@
                    == spec_key("cani_cert"@, j)
    }

    pub fn new() -> (r: CertStore)
        ensures
            r.wf(),
            r.cert_counter == 0,
            r.tree.entries@.len() == 0,
            r.infos@.len() == 0,
    {
        CertStore { tree: CertTree::new(), cert_counter: 0, infos: Vec::new() }
    }

    /// Files a certificate: draws the next sequence number, keys the record
    /// `"cani_cert_{seq}"`, inserts the leaf digest of the serialized record
    /// into the tree, republishes the root, and stores the record out of band.
    pub fn store_certificate(&mut self, certificate: MusicCertificate, serialized: &[u8]) -> (r:
        Result<MusicCertificateResp, String>)
        requires
            old(self).wf(),
            old(self).cert_counter < u64::MAX,
        ensures
            final(self).wf(),
            final(self).cert_counter == old(self).cert_counter + 1,
            r is Ok,
            r matches Ok(resp) ==> {
                &&& resp.key@ == spec_key("cani_cert"@, final(self).cert_counter as nat)
                &&& resp.music_cert_hex@ == spec_hex(leaf_digest_of(serialized@))
                &&& final(self).tree.contains_key(resp.key@)
                &&& final(self).tree.entries@.len() == old(self).tree.entries@.len() + 1
                &&& final(self).tree.entries@.drop_last() == old(self).tree.entries@
                &&& final(self).tree.entries@.last().key@ == resp.key@
                &&& final(self).tree.entries@.last().leaf@ == leaf_digest_of(serialized@)
                &&& final(self).tree.published_root@ == root_digest_of(final(self).tree.entries@)
                &&& final(self).infos@.last().0@ == resp.key@
                &&& final(self).infos@.last().1.cert_info == certificate
                &&& final(self).infos@.last().1.cert_hex@ == resp.music_cert_hex@
            },
    {
        let count = self.cert_counter + 1;
        self.cert_counter = count;
        let hash = leaf_digest(serialized);
        let hash_hex = hex_encode(&hash);
        let key = make_key(certified_header(), count);
        proof {
            // The counter only increases and every key in the tree came from
            // an earlier counter value, so the fresh key cannot collide.
            if self.tree.contains_key(key@) {
                let i = self.tree.index_of(key@);
                assert(old(self).tree.entries@[i].key@ == key@);
                let j = choose|j: nat|
                    1 <= j <= old(self).cert_counter && old(self).tree.entries@[i].key@
                        == spec_key("cani_cert"@, j);
                crate::text::lemma_spec_key_injective("cani_cert"@, j, count as nat);
                assert(false);
            }
        }
        self.tree.insert(key.clone(), copy_bytes(&hash));
        let info = CertificateInfo {
            key: key.clone(),
            cert_info: certificate,
            cert_hex: hash_hex.clone(),
        };
        self.infos.push((key.clone(), info));
        proof {
            assert(self.tree.entries@.drop_last() =~= old(self).tree.entries@);
            assert forall|i: int| 0 <= i < self.tree.entries@.len() implies exists|j: nat|
                1 <= j <= self.cert_counter && (#[trigger] self.tree.entries@[i]).key@
                    == spec_key("cani_cert"@, j) by {
                if i < self.tree.entries@.len() - 1 {
                    assert(self.tree.entries@[i] == old(self).tree.entries@[i]);
                    let j = choose|j: nat|
                        1 <= j <= old(self).cert_counter && old(self).tree.entries@[i].key@
                            == spec_key("cani_cert"@, j);
                    assert(1 <= j <= self.cert_counter && self.tree.entries@[i].key@
                        == spec_key("cani_cert"@, j));
                } else {
                    assert(self.tree.entries@[i].key@ == spec_key(
                        "cani_cert"@,
                        count as nat,
                    ));
                }
            }
        }
        Ok(MusicCertificateResp { key, music_cert_hex: hash_hex })
    }

    /// Answers a certificate query. `data_certificate` is the digest the host
    /// platform signed for this instance, if one has been published since the
    /// last restart; without it the record cannot be authenticated yet.
    pub fn get_certificate(&self, key: &String, data_certificate: Option<Vec<u8>>) -> (r: Result<
        MusicCopyright,
        String,
    >)
        requires
            self.wf(),
        ensures
            r is Ok <==> (data_certificate is Some && self.tree.contains_key(key@)),
            r matches Ok(c) ==> {
                &&& c.count == self.cert_counter as u128
                &&& c.certificate@ == data_certificate.unwrap()@
                &&& c.music_cert_hex@ == spec_hex(
                    self.tree.entries@[self.tree.index_of(key@)].leaf@,
                )
                &&& c.witness.wf()
                &&& c.witness.grants(key@, self.tree.entries@[self.tree.index_of(key@)].leaf@)
                &&& c.witness.reconstruct() == self.tree.published_root@
            },
    {
        match data_certificate {
            None => Err("no signed digest has been published yet".to_owned()),
            Some(cert) => {
                match self.tree.get_with_witness(key) {
                    None => Err("certificate not found".to_owned()),
                    Some((leaf, w)) => {
                        let hex = hex_encode(&leaf);
                        Ok(
                            MusicCopyright {
                                count: self.cert_counter as u128,
                                certificate: cert,
                                music_cert_hex: hex,
                                witness: w,
                            },
                        )
                    },
                }
            },
        }
    }

    /// Looks up the out-of-band record stored under a key.
    pub fn get_cret_info(&self, key: &String) -> (r: Option<&CertificateInfo>)
        ensures
            r is Some <==> exists|i: int|
                0 <= i < self.infos@.len() && self.infos@[i].0@ == key@,
            r matches Some(info) ==> exists|i: int|
                0 <= i < self.infos@.len() && self.infos@[i].0@ == key@ && *info
                    == self.infos@[i].1,
    {
        let mut i: usize = 0;
        while i < self.infos.len()
            invariant
                i <= self.infos@.len(),
                forall|j: int| 0 <= j < i ==> self.infos@[j].0@ != key@,
            decreases self.infos@.len() - i,
        {
            if self.infos[i].0.eq(key) {
                return Some(&self.infos[i].1);
            }
            i = i + 1;
        }
        None
    }

    /// Stores a record out of band under its key.
    pub fn add_cret_info(&mut self, key: String, cert_info: CertificateInfo)
        ensures
            final(self).infos@ == old(self).infos@.push((key, cert_info)),
            final(self).tree == old(self).tree,
            final(self).cert_counter == old(self).cert_counter,
    {
        self.infos.push((key, cert_info));
    }
}

} // verus!
