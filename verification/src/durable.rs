//! The durable store: named memory regions and the versioned,
//! self-describing snapshot blob written at shutdown and read back at
//! startup.
//!
//! Regions are identified by small stable integers handed out at
//! construction time, append-only: removing or renumbering a region after it
//! has held data would corrupt restoration, so the registry refuses both.
//! The snapshot encoding is forward-tolerant — bytes trailing the declared
//! regions are ignored, so an older reader can read a newer writer's blob —
//! and a blob that does not decode is a fatal error, never silently replaced
//! by defaults.

use vstd::prelude::*;
use crate::codec::{be64, be64_value, lemma_be64_round_trip, push_be64, read_be64};

verus! {

/// One durable region: a stable integer name and its committed bytes.
#[derive(Debug)]
pub struct Region {
    pub id: u64,
    pub payload: Vec<u8>,
}

/// The serialized form of the regions, in order: each region's id, its
/// payload length, then its payload.
pub open spec fn regions_bytes(regions: Seq<Region>) -> Seq<u8>
    decreases regions.len(),
{
    if regions.len() == 0 {
        Seq::empty()
    } else {
        regions_bytes(regions.drop_last()) + be64(regions.last().id) + be64(
            regions.last().payload@.len() as u64,
        ) + regions.last().payload@
    }
}

/// The serialized form of a whole snapshot: the writer's version, the
/// region count, then the regions.
pub open spec fn snapshot_bytes(version: u64, regions: Seq<Region>) -> Seq<u8> {
    be64(version) + be64(regions.len() as u64) + regions_bytes(regions)
}

/// The registry of durable regions a service instance owns.
#[derive(Debug)]
pub struct RegionRegistry {
    pub version: u64,
    pub regions: Vec<Region>,
}

/// Region ids are strictly increasing: assigned at construction, in order,
/// and never reused.
pub open spec fn increasing_ids(regions: Seq<Region>) -> bool {
    forall|i: int, j: int| 0 <= i < j < regions.len() ==> regions[i].id < regions[j].id
}

/// Two region sequences carrying the same ids and the same payload bytes.
pub open spec fn region_views_match(a: Seq<Region>, b: Seq<Region>) -> bool {
    &&& a.len() == b.len()
    &&& forall|i: int|
        0 <= i < a.len() ==> (#[trigger] a[i]).id == b[i].id && a[i].payload@ == b[i].payload@
}

/// Whether a blob begins with the snapshot of `(v, regs)`: the decomposition
/// a reader is owed, with whatever a newer writer appended after it.
pub open spec fn valid_snapshot_prefix(data: Seq<u8>, v: u64, regs: Seq<Region>) -> bool {
    &&& increasing_ids(regs)
    &&& regs.len() <= u64::MAX
    &&& forall|i: int| 0 <= i < regs.len() ==> (#[trigger] regs[i]).payload@.len() <= u64::MAX
    &&& snapshot_bytes(v, regs).len() <= data.len()
    &&& data.take(snapshot_bytes(v, regs).len() as int) == snapshot_bytes(v, regs)
}

/// The region encoding distributes over concatenation.
pub proof fn lemma_regions_bytes_concat(x: Seq<Region>, y: Seq<Region>)
    ensures
        regions_bytes(x + y) == regions_bytes(x) + regions_bytes(y),
    decreases y.len(),
{
    if y.len() == 0 {
        assert(x + y =~= x);
        assert(regions_bytes(y) =~= Seq::<u8>::empty());
        assert(regions_bytes(x) + regions_bytes(y) =~= regions_bytes(x));
    } else {
        assert((x + y).drop_last() =~= x + y.drop_last());
        assert((x + y).last() == y.last());
        lemma_regions_bytes_concat(x, y.drop_last());
        assert(regions_bytes(x + y) =~= regions_bytes(x) + regions_bytes(y));
    }
}

/// The encoding of equal-view region sequences is the same byte string.
pub proof fn lemma_regions_bytes_congruent(a: Seq<Region>, b: Seq<Region>)
    requires
        region_views_match(a, b),
    ensures
        regions_bytes(a) == regions_bytes(b),
    decreases a.len(),
{
    if a.len() > 0 {
        assert(region_views_match(a.drop_last(), b.drop_last())) by {
            assert forall|i: int| 0 <= i < a.drop_last().len() implies (
            #[trigger] a.drop_last()[i]).id == b.drop_last()[i].id
                && a.drop_last()[i].payload@ == b.drop_last()[i].payload@ by {
                assert(a[i].id == b[i].id && a[i].payload@ == b[i].payload@);
            }
        }
        lemma_regions_bytes_congruent(a.drop_last(), b.drop_last());
        assert(a.last().id == b.last().id && a.last().payload@ == b.last().payload@);
    }
}

/// Where region `k` of a valid snapshot prefix sits in the blob, and what the
/// bytes there are: its id, its payload length, then its payload.
#[verifier::rlimit(100)]
pub proof fn lemma_prefix_region_at(data: Seq<u8>, v: u64, regs: Seq<Region>, k: int)
    requires
        valid_snapshot_prefix(data, v, regs),
        0 <= k < regs.len(),
    ensures
        ({
            let pos = 16 + regions_bytes(regs.take(k)).len();
            &&& pos + 16 + regs[k].payload@.len() <= snapshot_bytes(v, regs).len()
            &&& snapshot_bytes(v, regs).len() <= data.len()
            &&& data.subrange(pos as int, pos as int + 8) == be64(regs[k].id)
            &&& data.subrange(pos as int + 8, pos as int + 16) == be64(
                regs[k].payload@.len() as u64,
            )
            &&& data.subrange(pos as int + 16, pos as int + 16 + regs[k].payload@.len() as int)
                == regs[k].payload@
        }),
{
    let sb = snapshot_bytes(v, regs);
    let hdr = be64(v) + be64(regs.len() as u64);
    assert(regs.take(k) + regs.skip(k) =~= regs);
    lemma_regions_bytes_concat(regs.take(k), regs.skip(k));
    assert(regs.skip(k) =~= seq![regs[k]] + regs.skip(k + 1));
    lemma_regions_bytes_concat(seq![regs[k]], regs.skip(k + 1));
    assert(seq![regs[k]].drop_last() =~= Seq::<Region>::empty());
    assert(seq![regs[k]].len() == 1 && seq![regs[k]].last() == regs[k]);
    assert(regions_bytes(Seq::<Region>::empty()) =~= Seq::<u8>::empty());
    assert(regions_bytes(seq![regs[k]].drop_last()) == regions_bytes(
        Seq::<Region>::empty(),
    )) by {
        lemma_regions_bytes_congruent(seq![regs[k]].drop_last(), Seq::<Region>::empty());
    }
    let enc = be64(regs[k].id) + be64(regs[k].payload@.len() as u64) + regs[k].payload@;
    assert(regions_bytes(seq![regs[k]]) =~= enc);
    let a = hdr + regions_bytes(regs.take(k));
    let t = regions_bytes(regs.skip(k + 1));
    assert(sb =~= a + enc + t);
    let pos = 16 + regions_bytes(regs.take(k)).len() as int;
    assert(a.len() == pos);
    assert(sb.subrange(pos, pos + 8) =~= be64(regs[k].id));
    assert(sb.subrange(pos + 8, pos + 16) =~= be64(regs[k].payload@.len() as u64));
    assert(sb.subrange(pos + 16, pos + 16 + regs[k].payload@.len() as int)
        =~= regs[k].payload@);
    assert(data.take(sb.len() as int) == sb);
    assert(data.subrange(pos, pos + 8) =~= sb.subrange(pos, pos + 8));
    assert(data.subrange(pos + 8, pos + 16) =~= sb.subrange(pos + 8, pos + 16));
    assert(data.subrange(pos + 16, pos + 16 + regs[k].payload@.len() as int) =~= sb.subrange(
        pos + 16,
        pos + 16 + regs[k].payload@.len() as int,
    ));
}

/// The header of a valid snapshot prefix: the version and the region count,
/// big endian, in the first sixteen bytes.
pub proof fn lemma_prefix_header(data: Seq<u8>, v: u64, regs: Seq<Region>)
    requires
        valid_snapshot_prefix(data, v, regs),
    ensures
        snapshot_bytes(v, regs).len() >= 16,
        data.subrange(0, 8) == be64(v),
        data.subrange(8, 16) == be64(regs.len() as u64),
{
    let sb = snapshot_bytes(v, regs);
    assert(sb.subrange(0, 8) =~= be64(v));
    assert(sb.subrange(8, 16) =~= be64(regs.len() as u64));
    assert(data.take(sb.len() as int) == sb);
    assert(data.subrange(0, 8) =~= sb.subrange(0, 8));
    assert(data.subrange(8, 16) =~= sb.subrange(8, 16));
}

/// A blob begins with at most one snapshot decomposition: the format is
/// self-describing, so two valid readings agree on the version and on every
/// region's id and payload.
pub proof fn lemma_snapshot_prefix_unique(
    data: Seq<u8>,
    v1: u64,
    r1: Seq<Region>,
    v2: u64,
    r2: Seq<Region>,
)
    requires
        valid_snapshot_prefix(data, v1, r1),
        valid_snapshot_prefix(data, v2, r2),
    ensures
        v1 == v2,
        region_views_match(r1, r2),
{
    lemma_prefix_header(data, v1, r1);
    lemma_prefix_header(data, v2, r2);
    lemma_be64_round_trip(v1);
    lemma_be64_round_trip(v2);
    lemma_be64_round_trip(r1.len() as u64);
    lemma_be64_round_trip(r2.len() as u64);
    assert(be64_value(be64(v1)) == be64_value(be64(v2)));
    assert(be64_value(be64(r1.len() as u64)) == be64_value(be64(r2.len() as u64)));
    lemma_regions_unique_from(data, v1, r1, v2, r2, 0);
}

#[verifier::rlimit(100)]
proof fn lemma_regions_unique_from(
    data: Seq<u8>,
    v1: u64,
    r1: Seq<Region>,
    v2: u64,
    r2: Seq<Region>,
    k: int,
)
    requires
        valid_snapshot_prefix(data, v1, r1),
        valid_snapshot_prefix(data, v2, r2),
        r1.len() == r2.len(),
        0 <= k <= r1.len(),
        region_views_match(r1.take(k), r2.take(k)),
    ensures
        region_views_match(r1, r2),
    decreases r1.len() - k,
{
    if k < r1.len() {
        lemma_prefix_region_at(data, v1, r1, k);
        lemma_prefix_region_at(data, v2, r2, k);
        lemma_regions_bytes_congruent(r1.take(k), r2.take(k));
        let pos = 16 + regions_bytes(r1.take(k)).len() as int;
        assert(data.subrange(pos, pos + 8) == be64(r1[k].id));
        assert(data.subrange(pos, pos + 8) == be64(r2[k].id));
        lemma_be64_round_trip(r1[k].id);
        lemma_be64_round_trip(r2[k].id);
        assert(r1[k].id == r2[k].id);
        lemma_be64_round_trip(r1[k].payload@.len() as u64);
        lemma_be64_round_trip(r2[k].payload@.len() as u64);
        assert(be64(r1[k].payload@.len() as u64) == be64(r2[k].payload@.len() as u64));
        assert(r1[k].payload@.len() == r2[k].payload@.len());
        assert(r1[k].payload@ == r2[k].payload@);
        assert(region_views_match(r1.take(k + 1), r2.take(k + 1))) by {
            assert forall|i: int| 0 <= i < k + 1 implies (#[trigger] r1.take(k + 1)[i]).id
                == r2.take(k + 1)[i].id && r1.take(k + 1)[i].payload@
                == r2.take(k + 1)[i].payload@ by {
                if i < k {
                    assert(r1.take(k)[i].id == r2.take(k)[i].id && r1.take(k)[i].payload@
                        == r2.take(k)[i].payload@);
                }
            }
        }
        lemma_regions_unique_from(data, v1, r1, v2, r2, k + 1);
    } else {
        assert(r1.take(k) =~= r1);
        assert(r2.take(k) =~= r2);
    }
}

impl RegionRegistry {
    pub open spec fn wf(self) -> bool {
        increasing_ids(self.regions@)
    }

    pub open spec fn has(self, id: u64) -> bool {
        exists|i: int| 0 <= i < self.regions@.len() && self.regions@[i].id == id
    }

    pub open spec fn index_of(self, id: u64) -> int {
        choose|i: int| 0 <= i < self.regions@.len() && self.regions@[i].id == id
    }

    pub fn new(version: u64) -> (r: RegionRegistry)
        ensures
            r.wf(),
            r.version == version,
            r.regions@.len() == 0,
    {
        RegionRegistry { version, regions: Vec::new() }
    }

    fn find(&self, id: u64) -> (r: Option<usize>)
        ensures
            match r {
                Some(i) => i < self.regions@.len() && self.regions@[i as int].id == id,
                None => !self.has(id),
            },
    {
        let mut i: usize = 0;
        while i < self.regions.len()
            invariant
                i <= self.regions@.len(),
                forall|j: int| 0 <= j < i ==> self.regions@[j].id != id,
            decreases self.regions@.len() - i,
        {
            if self.regions[i].id == id {
                return Some(i);
            }
            i = i + 1;
        }
        None
    }

    /// Registers the next region. Ids are append-only: one at or below an
    /// id already handed out is refused, so a region can never be
    /// renumbered or shadowed.
    pub fn register_region(&mut self, id: u64) -> (r: Result<(), String>)
        requires
            old(self).wf(),
        ensures
            final(self).wf(),
            r is Ok <==> (old(self).regions@.len() == 0 || old(self).regions@.last().id < id),
            r is Ok ==> {
                &&& final(self).regions@.len() == old(self).regions@.len() + 1
                &&& final(self).regions@.drop_last() == old(self).regions@
                &&& final(self).regions@.last().id == id
                &&& final(self).regions@.last().payload@.len() == 0
            },
            r is Err ==> *final(self) == *old(self),
            final(self).version == old(self).version,
    {
        if self.regions.len() > 0 {
            let last_id = self.regions[self.regions.len() - 1].id;
            if id <= last_id {
                return Err("region ids are append-only and never reassigned".to_owned());
            }
        }
        let ghost mid = self.regions@;
        self.regions.push(Region { id, payload: Vec::new() });
        proof {
            assert(self.regions@.drop_last() =~= mid);
            assert forall|a: int, b: int| 0 <= a < b < self.regions@.len()
                implies self.regions@[a].id < self.regions@[b].id by {
                if b < self.regions@.len() - 1 {
                    assert(self.regions@[a] == mid[a] && self.regions@[b] == mid[b]);
                } else {
                    assert(self.regions@[a] == mid[a]);
                    if a < mid.len() - 1 {
                        assert(mid[a].id < mid[mid.len() - 1].id);
                    }
                }
            }
        }
        Ok(())
    }

    /// Commits bytes into a region; a region never registered is an error.
    pub fn set_payload(&mut self, id: u64, payload: Vec<u8>) -> (r: Result<(), String>)
        requires
            old(self).wf(),
        ensures
            final(self).wf(),
            r is Ok <==> old(self).has(id),
            r is Ok ==> {
                &&& final(self).regions@.len() == old(self).regions@.len()
                &&& final(self).regions@ == old(self).regions@.update(
                    old(self).index_of(id),
                    (Region { id, payload }),
                )
            },
            r is Err ==> *final(self) == *old(self),
            final(self).version == old(self).version,
    {
        let found = self.find(id);
        match found {
            Some(i) => {
                proof {
                    assert(i as int == old(self).index_of(id));
                }
                self.regions.remove(i);
                self.regions.insert(i, Region { id, payload });
                proof {
                    assert(self.regions@ =~= old(self).regions@.update(
                        i as int,
                        (Region { id, payload: self.regions@[i as int].payload }),
                    ));
                    assert forall|a: int, b: int| 0 <= a < b < self.regions@.len()
                        implies self.regions@[a].id < self.regions@[b].id by {
                        assert(old(self).regions@[a].id < old(self).regions@[b].id);
                    }
                }
                Ok(())
            },
            None => Err("region was never registered".to_owned()),
        }
    }

    /// The bytes last committed into a region. A region absent from the
    /// registry — as after restoring an older writer's blob — reads as
    /// nothing, the documented default.
    pub fn get_payload(&self, id: u64) -> (r: Option<&Vec<u8>>)
        requires
            self.wf(),
        ensures
            r is Some <==> self.has(id),
            r matches Some(p) ==> *p == self.regions@[self.index_of(id)].payload,
    {
        match self.find(id) {
            Some(i) => {
                proof {
                    assert(i as int == self.index_of(id));
                }
                Some(&self.regions[i].payload)
            },
            None => None,
        }
    }

    /// Serializes the whole registry into one versioned, self-describing
    /// blob: exactly `snapshot_bytes` of the current regions.
    pub fn snapshot(&self) -> (r: Vec<u8>)
        requires
            self.regions@.len() <= u64::MAX,
        ensures
            r@ == snapshot_bytes(self.version, self.regions@),
    {
        let ghost regions = self.regions@;
        let mut out: Vec<u8> = Vec::new();
        push_be64(&mut out, self.version);
        push_be64(&mut out, self.regions.len() as u64);
        let mut i: usize = 0;
        proof {
            assert(regions.take(0) =~= Seq::<Region>::empty());
            assert(out@ =~= be64(self.version) + be64(regions.len() as u64) + regions_bytes(
                regions.take(0),
            ));
        }
        while i < self.regions.len()
            invariant
                i <= regions.len(),
                self.regions@ == regions,
                regions.len() <= u64::MAX,
                self.regions@.len() == regions.len(),
                out@ == be64(self.version) + be64(regions.len() as u64) + regions_bytes(
                    regions.take(i as int),
                ),
            decreases regions.len() - i,
        {
            let region = &self.regions[i];
            push_be64(&mut out, region.id);
            push_be64(&mut out, region.payload.len() as u64);
            let mut j: usize = 0;
            let ghost mid = out@;
            while j < region.payload.len()
                invariant
                    j <= region.payload@.len(),
                    region == self.regions@[i as int],
                    out@ == mid + region.payload@.take(j as int),
                decreases region.payload@.len() - j,
            {
                out.push(region.payload[j]);
                proof {
                    assert(out@ =~= mid + region.payload@.take(j as int + 1));
                }
                j = j + 1;
            }
            proof {
                assert(region.payload@.take(region.payload@.len() as int) =~= region.payload@);
                assert(regions.take(i as int + 1).drop_last() =~= regions.take(i as int));
                assert(regions.take(i as int + 1).last() == regions[i as int]);
                assert(out@ =~= be64(self.version) + be64(regions.len() as u64) + regions_bytes(
                    regions.take(i as int + 1),
                ));
            }
            i = i + 1;
        }
        proof {
            assert(regions.take(regions.len() as int) =~= regions);
        }
        out
    }

    /// Reads a snapshot blob back. Every structural fault — a truncated
    /// header, a region running past the blob, ids out of order — is an
    /// error: a blob that cannot be decoded must never start an instance.
    /// Bytes trailing the declared regions are ignored, so a blob written
    /// by a newer writer still restores.
    #[verifier::rlimit(100)]
    #[verifier::rlimit(100)]
    pub fn restore(data: &Vec<u8>) -> (r: Result<RegionRegistry, String>)
        ensures
            r matches Ok(reg) ==> reg.wf() && valid_snapshot_prefix(
                data@,
                reg.version,
                reg.regions@,
            ),
            (exists|v: u64, regs: Seq<Region>| valid_snapshot_prefix(data@, v, regs)) ==> r
                is Ok,
            r matches Ok(reg) ==> forall|v: u64, regs: Seq<Region>|
                #[trigger] valid_snapshot_prefix(data@, v, regs) ==> reg.version == v
                    && region_views_match(reg.regions@, regs),
    {
        let ghost hyp: Option<(u64, Seq<Region>)> = if exists|v: u64, regs: Seq<Region>|
            valid_snapshot_prefix(data@, v, regs) {
            Some(
                choose|v: u64, regs: Seq<Region>| valid_snapshot_prefix(data@, v, regs),
            )
        } else {
            None
        };
        if data.len() < 16 {
            proof {
                if hyp is Some {
                    lemma_prefix_header(data@, hyp.unwrap().0, hyp.unwrap().1);
                    assert(false);
                }
            }
            return Err("snapshot blob is truncated".to_owned());
        }
        let version = read_be64(data, 0);
        let count = read_be64(data, 8);
        let mut regions: Vec<Region> = Vec::new();
        let mut pos: usize = 16;
        let mut k: u64 = 0;
        proof {
            assert(data@.subrange(0, 8) =~= data@.take(16).subrange(0, 8));
            assert(data@.subrange(8, 16) =~= data@.take(16).subrange(8, 16));
            crate::codec::lemma_be64_round_trip(version);
            crate::codec::lemma_be64_round_trip(count);
            lemma_be64_of_value(data@.subrange(0, 8));
            lemma_be64_of_value(data@.subrange(8, 16));
            assert(regions@.take(0) =~= Seq::<Region>::empty());
            assert(be64(version) + be64(count) =~= data@.take(16));
            if hyp is Some {
                let v = hyp.unwrap().0;
                let regs = hyp.unwrap().1;
                lemma_prefix_header(data@, v, regs);
                crate::codec::lemma_be64_round_trip(v);
                crate::codec::lemma_be64_round_trip(regs.len() as u64);
                assert(version == v);
                assert(count == regs.len() as u64);
                assert(region_views_match(regions@, regs.take(0)));
            }
        }
        while k < count
            invariant
                k <= count,
                16 <= pos <= data@.len(),
                data@.len() <= usize::MAX,
                regions@.len() == k,
                increasing_ids(regions@),
                forall|i: int|
                    0 <= i < regions@.len() ==> (#[trigger] regions@[i]).payload@.len()
                        <= u64::MAX,
                be64(version) + be64(count) + regions_bytes(regions@) == data@.take(pos as int),
                hyp matches Some(pair) ==> {
                    &&& valid_snapshot_prefix(data@, pair.0, pair.1)
                    &&& version == pair.0
                    &&& count == pair.1.len() as u64
                    &&& region_views_match(regions@, pair.1.take(k as int))
                },
                hyp is None ==> !(exists|v: u64, regs: Seq<Region>|
                    valid_snapshot_prefix(data@, v, regs)),
            decreases count - k,
        {
            proof {
                if hyp is Some {
                    let v = hyp.unwrap().0;
                    let regs = hyp.unwrap().1;
                    lemma_prefix_region_at(data@, v, regs, k as int);
                    lemma_regions_bytes_congruent(regions@, regs.take(k as int));
                    assert(be64(version).len() == 8 && be64(count).len() == 8);
                    assert(data@.take(pos as int).len() == pos as int);
                    assert((be64(version) + be64(count) + regions_bytes(regions@)).len() == 16
                        + regions_bytes(regions@).len());
                    assert(pos as int == 16 + regions_bytes(regs.take(k as int)).len());
                    assert(pos + 16 + regs[k as int].payload@.len() <= data@.len());
                }
            }
            if data.len() - pos < 16 {
                proof {
                    if hyp is Some {
                        assert(false);
                    }
                }
                return Err("snapshot blob is truncated inside a region header".to_owned());
            }
            let id = read_be64(data, pos);
            let len = read_be64(data, pos + 8);
            proof {
                if hyp is Some {
                    let v = hyp.unwrap().0;
                    let regs = hyp.unwrap().1;
                    crate::codec::lemma_be64_round_trip(regs[k as int].id);
                    crate::codec::lemma_be64_round_trip(regs[k as int].payload@.len() as u64);
                    assert(id == regs[k as int].id);
                    assert(len == regs[k as int].payload@.len() as u64);
                }
            }
            if len > (data.len() - pos - 16) as u64 {
                proof {
                    if hyp is Some {
                        assert(false);
                    }
                }
                return Err("snapshot region runs past the end of the blob".to_owned());
            }
            if regions.len() > 0 {
                let last_id = regions[regions.len() - 1].id;
                if id <= last_id {
                    proof {
                        if hyp is Some {
                            let regs = hyp.unwrap().1;
                            assert(regions@[k as int - 1].id == regs[k as int - 1].id);
                            assert(regs[k as int - 1].id < regs[k as int].id);
                            assert(false);
                        }
                    }
                    return Err("snapshot region ids are out of order".to_owned());
                }
            }
            let len_usize = len as usize;
            proof {
                assert(len <= usize::MAX as u64);
                assert(len_usize as u64 == len);
                assert(pos + 16 + len_usize <= data@.len());
            }
            let mut payload: Vec<u8> = Vec::new();
            let mut j: usize = 0;
            while j < len_usize
                invariant
                    j <= len_usize,
                    data@.len() <= usize::MAX,
                    pos + 16 + len_usize <= data@.len(),
                    payload@ == data@.subrange(pos as int + 16, pos as int + 16 + j as int),
                decreases len_usize - j,
            {
                payload.push(data[pos + 16 + j]);
                proof {
                    assert(payload@ =~= data@.subrange(
                        pos as int + 16,
                        pos as int + 16 + j as int + 1,
                    ));
                }
                j = j + 1;
            }
            let ghost mid = regions@;
            let ghost prev_pos = pos as int;
            proof {
                lemma_be64_of_value(data@.subrange(prev_pos, prev_pos + 8));
                lemma_be64_of_value(data@.subrange(prev_pos + 8, prev_pos + 16));
                crate::codec::lemma_be64_round_trip(id);
                crate::codec::lemma_be64_round_trip(len);
            }
            regions.push(Region { id, payload });
            pos = pos + 16 + len_usize;
            proof {
                assert(regions@.drop_last() =~= mid);
                assert forall|a: int, b: int| 0 <= a < b < regions@.len()
                    implies regions@[a].id < regions@[b].id by {
                    if b < regions@.len() - 1 {
                        assert(regions@[a] == mid[a] && regions@[b] == mid[b]);
                    } else {
                        assert(regions@[a] == mid[a]);
                        if a < mid.len() - 1 {
                            assert(mid[a].id < mid[mid.len() - 1].id);
                        }
                    }
                }
                assert(regions_bytes(regions@) == regions_bytes(mid) + be64(id) + be64(len)
                    + regions@.last().payload@);
                assert(be64(id) =~= data@.subrange(prev_pos, prev_pos + 8));
                assert(be64(len) =~= data@.subrange(prev_pos + 8, prev_pos + 16));
                assert(regions@.last().payload@ =~= data@.subrange(
                    prev_pos + 16,
                    pos as int,
                ));
                assert(data@.take(pos as int) =~= data@.take(prev_pos) + data@.subrange(
                    prev_pos,
                    prev_pos + 8,
                ) + data@.subrange(prev_pos + 8, prev_pos + 16) + data@.subrange(
                    prev_pos + 16,
                    pos as int,
                ));
                if hyp is Some {
                    let regs = hyp.unwrap().1;
                    assert(regions@.last().payload@ == regs[k as int].payload@);
                    assert forall|i: int| 0 <= i < k + 1 implies (
                    #[trigger] regions@[i]).id == regs.take(k as int + 1)[i].id
                        && regions@[i].payload@ == regs.take(k as int + 1)[i].payload@ by {
                        if i < k as int {
                            assert(regions@[i] == mid[i]);
                            assert(mid[i].id == regs.take(k as int)[i].id && mid[i].payload@
                                == regs.take(k as int)[i].payload@);
                        }
                    }
                    assert(region_views_match(regions@, regs.take(k as int + 1)));
                }
            }
            k = k + 1;
        }
        proof {
            assert(snapshot_bytes(version, regions@) == data@.take(pos as int));
            assert(valid_snapshot_prefix(data@, version, regions@));
            if hyp is Some {
                let regs = hyp.unwrap().1;
                assert(regs.take(regs.len() as int) =~= regs);
            }
            assert forall|v2: u64, regs2: Seq<Region>|
                #[trigger] valid_snapshot_prefix(data@, v2, regs2) implies version == v2
                && region_views_match(regions@, regs2) by {
                lemma_snapshot_prefix_unique(data@, v2, regs2, version, regions@);
                assert forall|i: int| 0 <= i < regions@.len() implies (
                #[trigger] regions@[i]).id == regs2[i].id && regions@[i].payload@
                    == regs2[i].payload@ by {
                    assert(regs2[i].id == regions@[i].id && regs2[i].payload@
                        == regions@[i].payload@);
                }
            }
        }
        Ok(RegionRegistry { version, regions })
    }
}

/// An eight-byte string is exactly the big-endian encoding of the value it
/// stands for.
pub proof fn lemma_be64_of_value(b: Seq<u8>)
    requires
        b.len() == 8,
    ensures
        be64(be64_value(b)) == b,
{
    let v = be64_value(b);
    let b0 = b[0];
    let b1 = b[1];
    let b2 = b[2];
    let b3 = b[3];
    let b4 = b[4];
    let b5 = b[5];
    let b6 = b[6];
    let b7 = b[7];
    assert({
        let v2 = (b0 as u64) << 56 | (b1 as u64) << 48 | (b2 as u64) << 40 | (b3 as u64) << 32 | (
        b4 as u64) << 24 | (b5 as u64) << 16 | (b6 as u64) << 8 | (b7 as u64);
        ((v2 >> 56) & 0xff) as u8 == b0 && ((v2 >> 48) & 0xff) as u8 == b1 && ((v2 >> 40)
            & 0xff) as u8 == b2 && ((v2 >> 32) & 0xff) as u8 == b3 && ((v2 >> 24) & 0xff) as u8
            == b4 && ((v2 >> 16) & 0xff) as u8 == b5 && ((v2 >> 8) & 0xff) as u8 == b6 && (v2
            & 0xff) as u8 == b7
    }) by (bit_vector);
    assert(be64(v) =~= b);
}

} // verus!
