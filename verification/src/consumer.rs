//! The consumer side of the message relay: ingestion grouped by label, and
//! archival of oversized live sets into a cold history store.
//!
//! Incoming messages are grouped by `label` into independent sets kept in
//! arrival order; ingestion upserts by message id, so redelivery is
//! idempotent. Once a label's live set grows past the threshold, the archival
//! sweep moves its oldest messages into the cold store; the sweep re-arms
//! itself unconditionally. Deletion tries the live set first and falls
//! through to the cold set.

use vstd::prelude::*;
use crate::message::{Message, MessageType, MessageView};
use crate::principal::PrincipalId;
use crate::relay::{publish_relation, Outbox};

verus! {

/// A live set archives once it holds more messages than this.
pub const ARCHIVE_MESSAGE_THRESHOLD: usize = 5000;

/// How many messages one archival step moves per over-threshold label.
pub const ARCHIVE_MESSAGE_MIGRATION_SIZE: usize = 500;

/// A message as a consumer stores it: together with the producer it came from.
#[derive(Debug)]
pub struct StoredMessage {
    pub message: Message,
    pub sender: PrincipalId,
}

/// The mathematical content of a [`StoredMessage`].
pub ghost struct StoredMessageView {
    pub message: MessageView,
    pub sender: PrincipalId,
}

impl View for StoredMessage {
    type V = StoredMessageView;

    open spec fn view(&self) -> StoredMessageView {
        StoredMessageView { message: self.message@, sender: self.sender }
    }
}

/// All messages filed under one label, in arrival order.
#[derive(Debug)]
pub struct LabelSet {
    pub label: String,
    pub messages: Vec<StoredMessage>,
}

/// Whether some set carries this label.
pub open spec fn has_label(sets: Seq<LabelSet>, label: Seq<char>) -> bool {
    exists|i: int| 0 <= i < sets.len() && sets[i].label@ == label
}

/// The index of the set carrying this label; unique when labels are unique.
pub open spec fn label_index(sets: Seq<LabelSet>, label: Seq<char>) -> int {
    choose|i: int| 0 <= i < sets.len() && sets[i].label@ == label
}

/// The messages filed under a label, oldest first; empty if the label is
/// absent.
pub open spec fn msgs_of(sets: Seq<LabelSet>, label: Seq<char>) -> Seq<StoredMessage> {
    if has_label(sets, label) {
        sets[label_index(sets, label)].messages@
    } else {
        Seq::empty()
    }
}

/// How many messages are filed under a label.
pub open spec fn count_of(sets: Seq<LabelSet>, label: Seq<char>) -> nat {
    msgs_of(sets, label).len()
}

/// Labels are pairwise distinct.
pub open spec fn unique_labels(sets: Seq<LabelSet>) -> bool {
    forall|i: int, j: int| 0 <= i < j < sets.len() ==> sets[i].label@ != sets[j].label@
}

/// With unique labels, any set carrying the label is the one `msgs_of` reads.
pub proof fn lemma_msgs_of_index(sets: Seq<LabelSet>, label: Seq<char>, j: int)
    requires
        unique_labels(sets),
        0 <= j < sets.len(),
        sets[j].label@ == label,
    ensures
        has_label(sets, label),
        label_index(sets, label) == j,
        msgs_of(sets, label) == sets[j].messages@,
{
    assert(has_label(sets, label));
    let i = label_index(sets, label);
    if i != j {
        assert(sets[i].label@ != sets[j].label@);
    }
}

/// The consumer's store: live sets, cold history sets, the archival
/// parameters, and whether the archival sweep is armed.
#[derive(Debug)]
pub struct ConsumerStore {
    pub live: Vec<LabelSet>,
    pub cold: Vec<LabelSet>,
    pub archive_threshold: usize,
    pub migration_size: usize,
    pub archive_armed: bool,
}

impl ConsumerStore {
    /// Labels are unique in each store and message ids are unique within
    /// every live set.
    pub open spec fn wf(self) -> bool {
        &&& unique_labels(self.live@)
        &&& unique_labels(self.cold@)
        &&& forall|i: int|
            0 <= i < self.live@.len() ==> unique_ids((#[trigger] self.live@[i]).messages@)
    }

    pub fn new(archive_threshold: usize, migration_size: usize) -> (r: ConsumerStore)
        ensures
            r.wf(),
            r.live@.len() == 0,
            r.cold@.len() == 0,
            r.archive_threshold == archive_threshold,
            r.migration_size == migration_size,
            !r.archive_armed,
    {
        ConsumerStore {
            live: Vec::new(),
            cold: Vec::new(),
            archive_threshold,
            migration_size,
            archive_armed: false,
        }
    }
}

/// Message ids are pairwise distinct.
pub open spec fn unique_ids(msgs: Seq<StoredMessage>) -> bool {
    forall|i: int, j: int|
        0 <= i < j < msgs.len() ==> msgs[i].message.msg_id@ != msgs[j].message.msg_id@
}

fn find_label(sets: &Vec<LabelSet>, label: &String) -> (r: Option<usize>)
    ensures
        match r {
            Some(i) => i < sets@.len() && sets@[i as int].label@ == label@,
            None => !has_label(sets@, label@),
        },
{
    let mut i: usize = 0;
    while i < sets.len()
        invariant
            i <= sets@.len(),
            forall|j: int| 0 <= j < i ==> sets@[j].label@ != label@,
        decreases sets@.len() - i,
    {
        if sets[i].label.eq(label) {
            return Some(i);
        }
        i = i + 1;
    }
    None
}

fn find_id(msgs: &Vec<StoredMessage>, id: &String) -> (r: Option<usize>)
    ensures
        match r {
            Some(i) => i < msgs@.len() && msgs@[i as int].message.msg_id@ == id@,
            None => forall|j: int|
                0 <= j < msgs@.len() ==> msgs@[j].message.msg_id@ != id@,
        },
{
    let mut i: usize = 0;
    while i < msgs.len()
        invariant
            i <= msgs@.len(),
            forall|j: int| 0 <= j < i ==> msgs@[j].message.msg_id@ != id@,
        decreases msgs@.len() - i,
    {
        if msgs[i].message.msg_id.eq(id) {
            return Some(i);
        }
        i = i + 1;
    }
    None
}

/// Takes the oldest `n` messages off the front of a set.
fn drain_front(v: &mut Vec<StoredMessage>, n: usize) -> (r: Vec<StoredMessage>)
    requires
        n <= old(v)@.len(),
    ensures
        r@ == old(v)@.take(n as int),
        final(v)@ == old(v)@.skip(n as int),
{
    let mut moved: Vec<StoredMessage> = Vec::new();
    let mut k: usize = 0;
    while k < n
        invariant
            k <= n,
            n <= old(v)@.len(),
            moved@ == old(v)@.take(k as int),
            v@ == old(v)@.skip(k as int),
        decreases n - k,
    {
        let m = v.remove(0);
        moved.push(m);
        proof {
            assert(old(v)@.skip(k as int).remove(0) =~= old(v)@.skip(k as int + 1));
            assert(moved@ =~= old(v)@.take(k as int + 1));
        }
        k = k + 1;
    }
    moved
}

/// Appends messages to the cold set of a label, creating the set if absent.
fn cold_append(cold: &mut Vec<LabelSet>, label: String, msgs: Vec<StoredMessage>)
    requires
        unique_labels(old(cold)@),
    ensures
        unique_labels(final(cold)@),
        msgs_of(final(cold)@, label@) == msgs_of(old(cold)@, label@) + msgs@,
        forall|l: Seq<char>|
            l != label@ ==> msgs_of(final(cold)@, l) == msgs_of(old(cold)@, l),
{
    let ghost lbl = label@;
    let found = find_label(cold, &label);
    match found {
        Some(i) => {
            proof {
                lemma_msgs_of_index(old(cold)@, lbl, i as int);
            }
            let mut set = cold.remove(i);
            let mut incoming = msgs;
            set.messages.append(&mut incoming);
            let ghost mid = cold@;
            cold.push(set);
            proof {
                assert forall|a: int, b: int| 0 <= a < b < cold@.len()
                    implies cold@[a].label@ != cold@[b].label@ by {
                    let o = old(cold)@;
                    if b < cold@.len() - 1 {
                        let oa = if a < i as int { a } else { a + 1 };
                        let ob = if b < i as int { b } else { b + 1 };
                        assert(cold@[a] == o[oa] && cold@[b] == o[ob]);
                    } else {
                        let oa = if a < i as int { a } else { a + 1 };
                        assert(cold@[a] == o[oa]);
                        assert(cold@[b].label@ == lbl);
                        assert(o[oa].label@ != o[i as int].label@);
                    }
                }
                lemma_msgs_of_index(cold@, lbl, cold@.len() - 1);
                assert forall|l: Seq<char>| l != lbl implies msgs_of(cold@, l) == msgs_of(
                    old(cold)@,
                    l,
                ) by {
                    let o = old(cold)@;
                    if has_label(o, l) {
                        let j = label_index(o, l);
                        lemma_msgs_of_index(o, l, j);
                        let j2 = if j < i as int { j } else { j - 1 };
                        assert(cold@[j2] == o[j]);
                        lemma_msgs_of_index(cold@, l, j2);
                    } else {
                        if has_label(cold@, l) {
                            let j = label_index(cold@, l);
                            if j < cold@.len() - 1 {
                                let oj = if j < i as int { j } else { j + 1 };
                                assert(o[oj].label@ == l);
                            }
                            assert(false);
                        }
                    }
                }
            }
        },
        None => {
            let ghost mid = cold@;
            cold.push(LabelSet { label, messages: msgs });
            proof {
                assert forall|a: int, b: int| 0 <= a < b < cold@.len()
                    implies cold@[a].label@ != cold@[b].label@ by {
                    if b < cold@.len() - 1 {
                        assert(cold@[a] == mid[a] && cold@[b] == mid[b]);
                    } else {
                        assert(cold@[a] == mid[a]);
                    }
                }
                lemma_msgs_of_index(cold@, lbl, cold@.len() - 1);
                assert(msgs_of(old(cold)@, lbl) =~= Seq::<StoredMessage>::empty());
                assert(msgs_of(cold@, lbl) =~= msgs_of(old(cold)@, lbl) + msgs@);
                assert forall|l: Seq<char>| l != lbl implies msgs_of(cold@, l) == msgs_of(
                    old(cold)@,
                    l,
                ) by {
                    if has_label(mid, l) {
                        let j = label_index(mid, l);
                        lemma_msgs_of_index(mid, l, j);
                        assert(cold@[j] == mid[j]);
                        lemma_msgs_of_index(cold@, l, j);
                    } else {
                        if has_label(cold@, l) {
                            let j = label_index(cold@, l);
                            if j < cold@.len() - 1 {
                                assert(mid[j].label@ == l);
                            }
                            assert(false);
                        }
                    }
                }
            }
        },
    }
}

/// Whether a message with this id is filed in the set.
pub open spec fn has_id(msgs: Seq<StoredMessage>, id: Seq<char>) -> bool {
    exists|i: int| 0 <= i < msgs.len() && msgs[i].message.msg_id@ == id
}

/// The index of the message with this id; unique when ids are unique.
pub open spec fn id_index(msgs: Seq<StoredMessage>, id: Seq<char>) -> int {
    choose|i: int| 0 <= i < msgs.len() && msgs[i].message.msg_id@ == id
}

/// How many messages an archival step takes from a live set of size `n`.
pub open spec fn migrated(migration_size: nat, n: nat) -> nat {
    if migration_size <= n {
        migration_size
    } else {
        n
    }
}

/// While the archival sweep has processed the first `k` live sets: the cold
/// store already holds the migrated prefix of every over-threshold label among
/// them, and is untouched for every other label.
pub open spec fn archive_cold_tracks(
    olive: Seq<LabelSet>,
    ocold: Seq<LabelSet>,
    cold: Seq<LabelSet>,
    k: int,
    migration: usize,
    threshold: usize,
) -> bool {
    forall|l: Seq<char>|
        #![trigger msgs_of(cold, l)]
        {
            &&& (exists|j: int|
                0 <= j < k && (#[trigger] olive[j]).label@ == l && olive[j].messages@.len()
                    > threshold) ==> msgs_of(cold, l) == msgs_of(ocold, l) + msgs_of(
                olive,
                l,
            ).take(migrated(migration as nat, msgs_of(olive, l).len()) as int)
            &&& !(exists|j: int|
                0 <= j < k && (#[trigger] olive[j]).label@ == l && olive[j].messages@.len()
                    > threshold) ==> msgs_of(cold, l) == msgs_of(ocold, l)
        }
}

impl ConsumerStore {
    /// Ingests one message under its label: an upsert by message id, so a
    /// redelivered message replaces the copy already filed (idempotent, not
    /// an error). Brings the label's live set above the threshold, the
    /// archival sweep is armed.
    pub fn create_message(&mut self, message_type: &str, message: Message, principal: PrincipalId)
        requires
            old(self).wf(),
        ensures
            final(self).wf(),
            final(self).cold@ == old(self).cold@,
            final(self).archive_threshold == old(self).archive_threshold,
            final(self).migration_size == old(self).migration_size,
            ({
                let oldm = msgs_of(old(self).live@, message_type@);
                let newm = msgs_of(final(self).live@, message_type@);
                &&& has_id(oldm, message.msg_id@) ==> newm == oldm.update(
                    id_index(oldm, message.msg_id@),
                    (StoredMessage { message, sender: principal }),
                )
                &&& !has_id(oldm, message.msg_id@) ==> newm == oldm.push(
                    (StoredMessage { message, sender: principal }),
                )
            }),
            forall|l: Seq<char>|
                l != message_type@ ==> msgs_of(final(self).live@, l) == msgs_of(
                    old(self).live@,
                    l,
                ),
            final(self).archive_armed == (old(self).archive_armed || count_of(
                final(self).live@,
                message_type@,
            ) > old(self).archive_threshold as nat),
    {
        let label = message_type.to_owned();
        let ghost lbl = label@;
        let stored = StoredMessage { message, sender: principal };
        let found = find_label(&self.live, &label);
        match found {
            Some(i) => {
                proof {
                    lemma_msgs_of_index(old(self).live@, lbl, i as int);
                    assert(old(self).live@[i as int].wf_trigger_helper());
                }
                let mut set = self.live.remove(i);
                let ghost orig_msgs = set.messages@;
                proof {
                    assert(unique_ids(orig_msgs));
                }
                let fid = find_id(&set.messages, &stored.message.msg_id);
                match fid {
                    Some(k) => {
                        proof {
                            assert(k as int == id_index(orig_msgs, stored.message.msg_id@));
                        }
                        set.messages.remove(k);
                        set.messages.insert(k, stored);
                        proof {
                            assert(set.messages@ =~= orig_msgs.update(k as int, stored));
                            assert forall|a: int, b: int| 0 <= a < b < set.messages@.len()
                                implies set.messages@[a].message.msg_id@
                                != set.messages@[b].message.msg_id@ by {
                                assert(orig_msgs[a].message.msg_id@ != orig_msgs[b].message.msg_id@);
                            }
                        }
                    },
                    None => {
                        set.messages.push(stored);
                        proof {
                            assert forall|a: int, b: int| 0 <= a < b < set.messages@.len()
                                implies set.messages@[a].message.msg_id@
                                != set.messages@[b].message.msg_id@ by {
                                if b < set.messages@.len() - 1 {
                                    assert(orig_msgs[a].message.msg_id@
                                        != orig_msgs[b].message.msg_id@);
                                } else {
                                    assert(set.messages@[a] == orig_msgs[a]);
                                }
                            }
                        }
                    },
                }
                let over = set.messages.len() > self.archive_threshold;
                let ghost mid = self.live@;
                let ghost newset = set;
                self.live.push(set);
                if over {
                    self.archive_armed = true;
                }
                proof {
                    let o = old(self).live@;
                    assert forall|a: int, b: int| 0 <= a < b < self.live@.len()
                        implies self.live@[a].label@ != self.live@[b].label@ by {
                        if b < self.live@.len() - 1 {
                            let oa = if a < i as int { a } else { a + 1 };
                            let ob = if b < i as int { b } else { b + 1 };
                            assert(self.live@[a] == o[oa] && self.live@[b] == o[ob]);
                        } else {
                            let oa = if a < i as int { a } else { a + 1 };
                            assert(self.live@[a] == o[oa]);
                            assert(o[oa].label@ != o[i as int].label@);
                        }
                    }
                    lemma_msgs_of_index(self.live@, lbl, self.live@.len() - 1);
                    assert forall|l: Seq<char>| l != lbl implies msgs_of(self.live@, l) == msgs_of(
                        o,
                        l,
                    ) by {
                        if has_label(o, l) {
                            let j = label_index(o, l);
                            lemma_msgs_of_index(o, l, j);
                            let j2 = if j < i as int { j } else { j - 1 };
                            assert(self.live@[j2] == o[j]);
                            lemma_msgs_of_index(self.live@, l, j2);
                        } else {
                            if has_label(self.live@, l) {
                                let j = label_index(self.live@, l);
                                if j < self.live@.len() - 1 {
                                    let oj = if j < i as int { j } else { j + 1 };
                                    assert(o[oj].label@ == l);
                                }
                                assert(false);
                            }
                        }
                    }
                    assert forall|a: int| 0 <= a < self.live@.len() implies unique_ids(
                        (#[trigger] self.live@[a]).messages@,
                    ) by {
                        if a < self.live@.len() - 1 {
                            let oa = if a < i as int { a } else { a + 1 };
                            assert(self.live@[a] == o[oa]);
                            assert(o[oa].wf_trigger_helper());
                        } else {
                            assert(self.live@[a] == newset);
                        }
                    }
                }
            },
            None => {
                let mut msgs: Vec<StoredMessage> = Vec::new();
                msgs.push(stored);
                let over = msgs.len() > self.archive_threshold;
                let ghost mid = self.live@;
                let set = LabelSet { label, messages: msgs };
                let ghost newset = set;
                self.live.push(set);
                if over {
                    self.archive_armed = true;
                }
                proof {
                    let o = old(self).live@;
                    assert forall|a: int, b: int| 0 <= a < b < self.live@.len()
                        implies self.live@[a].label@ != self.live@[b].label@ by {
                        if b < self.live@.len() - 1 {
                            assert(self.live@[a] == o[a] && self.live@[b] == o[b]);
                        } else {
                            assert(self.live@[a] == o[a]);
                        }
                    }
                    lemma_msgs_of_index(self.live@, lbl, self.live@.len() - 1);
                    assert(msgs_of(o, lbl) =~= Seq::<StoredMessage>::empty());
                    assert(msgs_of(self.live@, lbl) =~= msgs_of(o, lbl).push(stored));
                    assert forall|l: Seq<char>| l != lbl implies msgs_of(self.live@, l) == msgs_of(
                        o,
                        l,
                    ) by {
                        if has_label(o, l) {
                            let j = label_index(o, l);
                            lemma_msgs_of_index(o, l, j);
                            assert(self.live@[j] == o[j]);
                            lemma_msgs_of_index(self.live@, l, j);
                        } else {
                            if has_label(self.live@, l) {
                                let j = label_index(self.live@, l);
                                if j < self.live@.len() - 1 {
                                    assert(o[j].label@ == l);
                                }
                                assert(false);
                            }
                        }
                    }
                    assert forall|a: int| 0 <= a < self.live@.len() implies unique_ids(
                        (#[trigger] self.live@[a]).messages@,
                    ) by {
                        if a < self.live@.len() - 1 {
                            assert(self.live@[a] == o[a]);
                            assert(o[a].wf_trigger_helper());
                        } else {
                            assert(self.live@[a] == newset);
                        }
                    }
                }
            },
        }
    }
}

impl LabelSet {
    /// Helps instantiate the store invariant at one set.
    pub open spec fn wf_trigger_helper(self) -> bool {
        unique_ids(self.messages@)
    }
}

/// What is left of a message sequence once every copy filed under `id` is
/// dropped, in order.
pub open spec fn without_id(msgs: Seq<StoredMessage>, id: Seq<char>) -> Seq<StoredMessage>
    decreases msgs.len(),
{
    if msgs.len() == 0 {
        Seq::empty()
    } else if msgs[0].message.msg_id@ == id {
        without_id(msgs.drop_first(), id)
    } else {
        seq![msgs[0]] + without_id(msgs.drop_first(), id)
    }
}

/// Removes every message with the given id, keeping the rest in order.
fn remove_id_all(msgs: Vec<StoredMessage>, id: &String) -> (r: Vec<StoredMessage>)
    ensures
        r@ == without_id(msgs@, id@),
{
    let ghost orig = msgs@;
    let mut rest = msgs;
    let mut kept: Vec<StoredMessage> = Vec::new();
    let ghost i: int = 0;
    while rest.len() > 0
        invariant
            0 <= i <= orig.len(),
            rest@ == orig.skip(i),
            without_id(orig, id@) == kept@ + without_id(orig.skip(i), id@),
        decreases rest@.len(),
    {
        let m = rest.remove(0);
        proof {
            assert(m == orig.skip(i)[0]);
            assert(orig.skip(i).remove(0) =~= orig.skip(i + 1));
            assert(orig.skip(i).drop_first() =~= orig.skip(i + 1));
            assert(orig.skip(i).len() > 0);
        }
        if m.message.msg_id.eq(id) {
            proof {
                assert(without_id(orig.skip(i), id@) == without_id(orig.skip(i + 1), id@));
            }
        } else {
            kept.push(m);
            proof {
                assert(without_id(orig.skip(i), id@) == seq![m] + without_id(
                    orig.skip(i + 1),
                    id@,
                ));
                assert(kept@ + without_id(orig.skip(i + 1), id@) =~= kept@.drop_last() + (
                seq![m] + without_id(orig.skip(i + 1), id@)));
            }
        }
        proof {
            i = i + 1;
        }
    }
    proof {
        assert(orig.skip(orig.len() as int).len() == 0);
        assert(without_id(orig.skip(orig.len() as int), id@)
            =~= Seq::<StoredMessage>::empty());
        assert(kept@ =~= kept@ + Seq::<StoredMessage>::empty());
    }
    kept
}

impl ConsumerStore {
    /// Deletes a message by label and id: the live store is tried first; if
    /// the label is not live, the cold store; a label found in neither is an
    /// error. A set left empty disappears with its label.
    /// Deletes a message by label and id: the live set is tried first; a
    /// message absent from the live set is looked for in the cold set, and
    /// every copy there is removed; an id found in neither store is an error
    /// and leaves both stores unchanged. A set left empty disappears with its
    /// label.
    pub fn delete_message(&mut self, message_type: &str, message_id: &str) -> (r: Result<
        (),
        String,
    >)
        requires
            old(self).wf(),
        ensures
            final(self).wf(),
            final(self).archive_threshold == old(self).archive_threshold,
            final(self).migration_size == old(self).migration_size,
            final(self).archive_armed == old(self).archive_armed,
            ({
                let lm = msgs_of(old(self).live@, message_type@);
                let cm = msgs_of(old(self).cold@, message_type@);
                &&& (r is Ok <==> (has_id(lm, message_id@) || has_id(cm, message_id@)))
                &&& has_id(lm, message_id@) ==> {
                    &&& final(self).cold@ == old(self).cold@
                    &&& msgs_of(final(self).live@, message_type@) == lm.remove(
                        id_index(lm, message_id@),
                    )
                    &&& has_label(final(self).live@, message_type@) == (lm.len() > 1)
                    &&& forall|l: Seq<char>|
                        l != message_type@ ==> msgs_of(final(self).live@, l) == msgs_of(
                            old(self).live@,
                            l,
                        )
                }
                &&& (!has_id(lm, message_id@) && has_id(cm, message_id@)) ==> {
                    &&& final(self).live@ == old(self).live@
                    &&& msgs_of(final(self).cold@, message_type@) == without_id(cm, message_id@)
                    &&& has_label(final(self).cold@, message_type@) == (without_id(
                        cm,
                        message_id@,
                    ).len() > 0)
                    &&& forall|l: Seq<char>|
                        l != message_type@ ==> msgs_of(final(self).cold@, l) == msgs_of(
                            old(self).cold@,
                            l,
                        )
                }
                &&& (!has_id(lm, message_id@) && !has_id(cm, message_id@)) ==> *final(self)
                    == *old(self)
            }),
    {
        let label = message_type.to_owned();
        let id = message_id.to_owned();
        let ghost lbl = label@;
        let found = find_label(&self.live, &label);
        match found {
            Some(i) => {
                proof {
                    lemma_msgs_of_index(old(self).live@, lbl, i as int);
                    assert(old(self).live@[i as int].wf_trigger_helper());
                }
                let fid = find_id(&self.live[i].messages, &id);
                match fid {
                    Some(k) => {
                        let mut set = self.live.remove(i);
                        let ghost orig_msgs = set.messages@;
                        proof {
                            assert(k as int == id_index(orig_msgs, id@));
                        }
                        set.messages.remove(k);
                        proof {
                            assert forall|a: int, b: int| 0 <= a < b < set.messages@.len()
                                implies set.messages@[a].message.msg_id@
                                != set.messages@[b].message.msg_id@ by {
                                let oa = if a < k as int { a } else { a + 1 };
                                let ob = if b < k as int { b } else { b + 1 };
                                assert(set.messages@[a] == orig_msgs[oa]);
                                assert(set.messages@[b] == orig_msgs[ob]);
                            }
                        }
                        let keep = set.messages.len() > 0;
                        let ghost newset = set;
                        if keep {
                            self.live.push(set);
                        }
                        proof {
                            let o = old(self).live@;
                            assert forall|a: int, b: int| 0 <= a < b < self.live@.len()
                                implies self.live@[a].label@ != self.live@[b].label@ by {
                                let oa = if a < i as int { a } else { a + 1 };
                                if keep && b == self.live@.len() - 1 {
                                    assert(self.live@[a] == o[oa]);
                                    assert(o[oa].label@ != o[i as int].label@);
                                } else {
                                    let ob = if b < i as int { b } else { b + 1 };
                                    assert(self.live@[a] == o[oa] && self.live@[b] == o[ob]);
                                }
                            }
                            if keep {
                                lemma_msgs_of_index(self.live@, lbl, self.live@.len() - 1);
                            } else {
                                if has_label(self.live@, lbl) {
                                    let j = label_index(self.live@, lbl);
                                    let oj = if j < i as int { j } else { j + 1 };
                                    assert(o[oj].label@ != o[i as int].label@);
                                    assert(false);
                                }
                                assert(msgs_of(self.live@, lbl)
                                    =~= Seq::<StoredMessage>::empty());
                            }
                            assert forall|l: Seq<char>| l != lbl implies msgs_of(self.live@, l)
                                == msgs_of(o, l) by {
                                if has_label(o, l) {
                                    let j = label_index(o, l);
                                    lemma_msgs_of_index(o, l, j);
                                    let j2 = if j < i as int { j } else { j - 1 };
                                    assert(self.live@[j2] == o[j]);
                                    lemma_msgs_of_index(self.live@, l, j2);
                                } else {
                                    if has_label(self.live@, l) {
                                        let j = label_index(self.live@, l);
                                        if !(keep && j == self.live@.len() - 1) {
                                            let oj = if j < i as int { j } else { j + 1 };
                                            assert(o[oj].label@ == l);
                                        }
                                        assert(false);
                                    }
                                }
                            }
                            assert forall|a: int| 0 <= a < self.live@.len() implies unique_ids(
                                (#[trigger] self.live@[a]).messages@,
                            ) by {
                                if keep && a == self.live@.len() - 1 {
                                    assert(self.live@[a] == newset);
                                } else {
                                    let oa = if a < i as int { a } else { a + 1 };
                                    assert(self.live@[a] == o[oa]);
                                    assert(o[oa].wf_trigger_helper());
                                }
                            }
                        }
                        return Ok(());
                    },
                    None => {},
                }
            },
            None => {},
        }
        proof {
            assert(!has_id(msgs_of(old(self).live@, lbl), id@)) by {
                if has_id(msgs_of(old(self).live@, lbl), id@) {
                    let a = id_index(msgs_of(old(self).live@, lbl), id@);
                    assert(msgs_of(old(self).live@, lbl)[a].message.msg_id@ == id@);
                }
            }
        }
        let found_cold = find_label(&self.cold, &label);
        match found_cold {
            Some(i) => {
                proof {
                    lemma_msgs_of_index(old(self).cold@, lbl, i as int);
                }
                let fid = find_id(&self.cold[i].messages, &id);
                match fid {
                    Some(_) => {},
                    None => {
                        proof {
                            if has_id(msgs_of(old(self).cold@, lbl), id@) {
                                let a = id_index(msgs_of(old(self).cold@, lbl), id@);
                                assert(msgs_of(old(self).cold@, lbl)[a].message.msg_id@
                                    == id@);
                            }
                        }
                        return Err("message not found in live or cold store".to_owned());
                    },
                }
                let set = self.cold.remove(i);
                let label_back = set.label;
                let filtered = remove_id_all(set.messages, &id);
                let keep = filtered.len() > 0;
                let ghost newset = LabelSet { label: label_back, messages: filtered };
                if keep {
                    self.cold.push(LabelSet { label: label_back, messages: filtered });
                }
                proof {
                    let o = old(self).cold@;
                    assert forall|a: int, b: int| 0 <= a < b < self.cold@.len()
                        implies self.cold@[a].label@ != self.cold@[b].label@ by {
                        let oa = if a < i as int { a } else { a + 1 };
                        if keep && b == self.cold@.len() - 1 {
                            assert(self.cold@[a] == o[oa]);
                            assert(o[oa].label@ != o[i as int].label@);
                        } else {
                            let ob = if b < i as int { b } else { b + 1 };
                            assert(self.cold@[a] == o[oa] && self.cold@[b] == o[ob]);
                        }
                    }
                    if keep {
                        lemma_msgs_of_index(self.cold@, lbl, self.cold@.len() - 1);
                    } else {
                        if has_label(self.cold@, lbl) {
                            let j = label_index(self.cold@, lbl);
                            let oj = if j < i as int { j } else { j + 1 };
                            assert(o[oj].label@ != o[i as int].label@);
                            assert(false);
                        }
                        assert(msgs_of(self.cold@, lbl) =~= Seq::<StoredMessage>::empty());
                        assert(msgs_of(self.cold@, lbl).len() == 0);
                    }
                    assert forall|l: Seq<char>| l != lbl implies msgs_of(self.cold@, l)
                        == msgs_of(o, l) by {
                        if has_label(o, l) {
                            let j = label_index(o, l);
                            lemma_msgs_of_index(o, l, j);
                            let j2 = if j < i as int { j } else { j - 1 };
                            assert(self.cold@[j2] == o[j]);
                            lemma_msgs_of_index(self.cold@, l, j2);
                        } else {
                            if has_label(self.cold@, l) {
                                let j = label_index(self.cold@, l);
                                if !(keep && j == self.cold@.len() - 1) {
                                    let oj = if j < i as int { j } else { j + 1 };
                                    assert(o[oj].label@ == l);
                                }
                                assert(false);
                            }
                        }
                    }
                }
                Ok(())
            },
            None => Err("message not found in live or cold store".to_owned()),
        }
    }
}

impl ConsumerStore {
    /// One archival sweep: for every live set grown past the threshold, the
    /// oldest messages move — in order — into the label's cold set; then the
    /// sweep re-arms itself unconditionally.
    ///
    /// Archival conservation: for every label, the live count and the cold
    /// count add up to what they added up to before, and the live count
    /// drops by `min(migration_size, live count)` exactly for the labels
    /// that were over the threshold.
    pub fn clean_message_store_task(&mut self)
        requires
            old(self).wf(),
        ensures
            final(self).wf(),
            final(self).archive_armed,
            final(self).archive_threshold == old(self).archive_threshold,
            final(self).migration_size == old(self).migration_size,
            forall|l: Seq<char>|
                #![trigger msgs_of(old(self).live@, l)]
                {
                    let oldm = msgs_of(old(self).live@, l);
                    let n = migrated(old(self).migration_size as nat, oldm.len()) as int;
                    if oldm.len() > old(self).archive_threshold {
                        msgs_of(final(self).live@, l) == oldm.skip(n) && msgs_of(
                            final(self).cold@,
                            l,
                        ) == msgs_of(old(self).cold@, l) + oldm.take(n)
                    } else {
                        msgs_of(final(self).live@, l) == oldm && msgs_of(final(self).cold@, l)
                            == msgs_of(old(self).cold@, l)
                    }
                },
            forall|l: Seq<char>|
                #![trigger count_of(old(self).live@, l)]
                count_of(final(self).live@, l) + count_of(final(self).cold@, l) == count_of(
                    old(self).live@,
                    l,
                ) + count_of(old(self).cold@, l),
    {
        let ghost olive = old(self).live@;
        let ghost ocold = old(self).cold@;
        let threshold = self.archive_threshold;
        let migration = self.migration_size;
        let mut done: Vec<LabelSet> = Vec::new();
        let ghost k: int = 0;
        while self.live.len() > 0
            invariant
                self.archive_threshold == threshold,
                self.migration_size == migration,
                self.archive_armed == old(self).archive_armed,
                0 <= k <= olive.len(),
                self.live@ == olive.skip(k),
                done@.len() == k,
                unique_labels(ocold),
                unique_labels(olive),
                forall|i: int| 0 <= i < olive.len() ==> (#[trigger] olive[i]).wf_trigger_helper(),
                unique_labels(self.cold@),
                forall|j: int|
                    0 <= j < k ==> (#[trigger] done@[j]).label@ == olive[j].label@,
                forall|j: int|
                    0 <= j < k ==> (#[trigger] done@[j]).messages@ == (if olive[j].messages@.len()
                        > threshold {
                        olive[j].messages@.skip(
                            migrated(migration as nat, olive[j].messages@.len()) as int,
                        )
                    } else {
                        olive[j].messages@
                    }),
                archive_cold_tracks(
                    olive,
                    ocold,
                    self.cold@,
                    k,
                    migration,
                    threshold,
                ),
            decreases self.live@.len(),
        {
            let mut set = self.live.remove(0);
            proof {
                assert(olive.skip(k).remove(0) =~= olive.skip(k + 1));
                assert(set == olive[k]);
                lemma_msgs_of_index(olive, set.label@, k);
            }
            if set.messages.len() > threshold {
                let n = if migration <= set.messages.len() {
                    migration
                } else {
                    set.messages.len()
                };
                let moved = drain_front(&mut set.messages, n);
                let label_copy = set.label.clone();
                let ghost pre_cold = self.cold@;
                cold_append(&mut self.cold, label_copy, moved);
                proof {
                    assert forall|l: Seq<char>|
                        #![trigger msgs_of(olive, l)]
                        {
                            &&& (exists|j: int|
                                0 <= j < k + 1 && (#[trigger] olive[j]).label@ == l
                                    && olive[j].messages@.len() > threshold) ==> msgs_of(
                                self.cold@,
                                l,
                            ) == msgs_of(ocold, l) + msgs_of(olive, l).take(
                                migrated(migration as nat, msgs_of(olive, l).len()) as int,
                            )
                            &&& !(exists|j: int|
                                0 <= j < k + 1 && (#[trigger] olive[j]).label@ == l
                                    && olive[j].messages@.len() > threshold) ==> msgs_of(
                                self.cold@,
                                l,
                            ) == msgs_of(ocold, l)
                        } by {
                        let oldm = msgs_of(olive, l);
                        let nn = migrated(migration as nat, oldm.len()) as int;
                        if l == set.label@ {
                            assert(olive[k].label@ == l && olive[k].messages@.len() > threshold);
                            assert(forall|j: int|
                                0 <= j < k ==> (#[trigger] olive[j]).label@ != l);
                            assert(msgs_of(pre_cold, l) == msgs_of(ocold, l));
                            assert(oldm == olive[k].messages@);
                            assert(nn == n as int);
                        } else {
                            assert(msgs_of(self.cold@, l) == msgs_of(pre_cold, l));
                            if exists|j: int|
                                0 <= j < k + 1 && (#[trigger] olive[j]).label@ == l
                                    && olive[j].messages@.len() > threshold {
                                let j = choose|j: int|
                                    0 <= j < k + 1 && (#[trigger] olive[j]).label@ == l
                                        && olive[j].messages@.len() > threshold;
                                assert(j < k);
                                assert(exists|jj: int|
                                    0 <= jj < k && (#[trigger] olive[jj]).label@ == l
                                        && olive[jj].messages@.len() > threshold);
                            } else {
                                if exists|jj: int|
                                    0 <= jj < k && (#[trigger] olive[jj]).label@ == l
                                        && olive[jj].messages@.len() > threshold {
                                    let jj = choose|jj: int|
                                        0 <= jj < k && (#[trigger] olive[jj]).label@ == l
                                            && olive[jj].messages@.len() > threshold;
                                    assert(0 <= jj < k + 1 && olive[jj].label@ == l
                                        && olive[jj].messages@.len() > threshold);
                                    assert(false);
                                }
                                assert(msgs_of(pre_cold, l) == msgs_of(ocold, l));
                                assert(msgs_of(self.cold@, l) == msgs_of(ocold, l));
                            }
                        }
                    }
                }
            } else {
                proof {
                    assert forall|l: Seq<char>|
                        #![trigger msgs_of(olive, l)]
                        {
                            &&& (exists|j: int|
                                0 <= j < k + 1 && (#[trigger] olive[j]).label@ == l
                                    && olive[j].messages@.len() > threshold) ==> msgs_of(
                                self.cold@,
                                l,
                            ) == msgs_of(ocold, l) + msgs_of(olive, l).take(
                                migrated(migration as nat, msgs_of(olive, l).len()) as int,
                            )
                            &&& !(exists|j: int|
                                0 <= j < k + 1 && (#[trigger] olive[j]).label@ == l
                                    && olive[j].messages@.len() > threshold) ==> msgs_of(
                                self.cold@,
                                l,
                            ) == msgs_of(ocold, l)
                        } by {
                        let oldm = msgs_of(olive, l);
                        if exists|j: int|
                            0 <= j < k + 1 && (#[trigger] olive[j]).label@ == l
                                && olive[j].messages@.len() > threshold {
                            let j = choose|j: int|
                                0 <= j < k + 1 && (#[trigger] olive[j]).label@ == l
                                    && olive[j].messages@.len() > threshold;
                            if j == k {
                                assert(olive[k as int].messages@.len() <= threshold);
                            }
                            assert(j < k);
                            assert(exists|jj: int|
                                0 <= jj < k && (#[trigger] olive[jj]).label@ == l
                                    && olive[jj].messages@.len() > threshold);
                        } else {
                            if exists|jj: int|
                                0 <= jj < k && (#[trigger] olive[jj]).label@ == l
                                    && olive[jj].messages@.len() > threshold {
                                let jj = choose|jj: int|
                                    0 <= jj < k && (#[trigger] olive[jj]).label@ == l
                                        && olive[jj].messages@.len() > threshold;
                                assert(0 <= jj < k + 1 && olive[jj].label@ == l
                                    && olive[jj].messages@.len() > threshold);
                                assert(false);
                            }
                            assert(msgs_of(self.cold@, l) == msgs_of(ocold, l));
                        }
                    }
                }
            }
            done.push(set);
            proof {
                k = k + 1;
                assert(archive_cold_tracks(olive, ocold, self.cold@, k, migration, threshold)) by {
                    assert forall|l: Seq<char>|
                    #![trigger msgs_of(self.cold@, l)]
                    {
                        &&& (exists|j: int|
                            0 <= j < k && (#[trigger] olive[j]).label@ == l
                                && olive[j].messages@.len() > threshold) ==> msgs_of(
                            self.cold@,
                            l,
                        ) == msgs_of(ocold, l) + msgs_of(olive, l).take(
                            migrated(migration as nat, msgs_of(olive, l).len()) as int,
                        )
                        &&& !(exists|j: int|
                            0 <= j < k && (#[trigger] olive[j]).label@ == l
                                && olive[j].messages@.len() > threshold) ==> msgs_of(
                            self.cold@,
                            l,
                        ) == msgs_of(ocold, l)
                    } by {
                    let oldm = msgs_of(olive, l);
                    assert(k == k - 1 + 1);
                    if exists|j: int|
                        0 <= j < k && (#[trigger] olive[j]).label@ == l
                            && olive[j].messages@.len() > threshold {
                        let j = choose|j: int|
                            0 <= j < k && (#[trigger] olive[j]).label@ == l
                                && olive[j].messages@.len() > threshold;
                        assert(0 <= j < (k - 1) + 1 && olive[j].label@ == l
                            && olive[j].messages@.len() > threshold);
                        assert(exists|jj: int|
                            0 <= jj < (k - 1) + 1 && (#[trigger] olive[jj]).label@ == l
                                && olive[jj].messages@.len() > threshold);
                    } else {
                        if exists|jj: int|
                            0 <= jj < (k - 1) + 1 && (#[trigger] olive[jj]).label@ == l
                                && olive[jj].messages@.len() > threshold {
                            let jj = choose|jj: int|
                                0 <= jj < (k - 1) + 1 && (#[trigger] olive[jj]).label@ == l
                                    && olive[jj].messages@.len() > threshold;
                            assert(0 <= jj < k && olive[jj].label@ == l
                                && olive[jj].messages@.len() > threshold);
                            assert(false);
                        }
                    }
                    }
                }
            }
        }
        self.live = done;
        self.archive_armed = true;
        proof {
            assert(k == olive.len());
            assert(archive_cold_tracks(
                olive,
                ocold,
                self.cold@,
                k,
                migration,
                threshold,
            ));
            assert forall|a: int, b: int| 0 <= a < b < self.live@.len()
                implies self.live@[a].label@ != self.live@[b].label@ by {
                assert(self.live@[a].label@ == olive[a].label@);
                assert(self.live@[b].label@ == olive[b].label@);
            }
            assert forall|a: int| 0 <= a < self.live@.len() implies unique_ids(
                (#[trigger] self.live@[a]).messages@,
            ) by {
                assert(olive[a].wf_trigger_helper());
                if olive[a].messages@.len() > threshold {
                    let n = migrated(migration as nat, olive[a].messages@.len()) as int;
                    let s = olive[a].messages@;
                    assert(self.live@[a].messages@ == s.skip(n));
                    assert forall|x: int, y: int| 0 <= x < y < s.skip(n).len()
                        implies s.skip(n)[x].message.msg_id@ != s.skip(n)[y].message.msg_id@ by {
                        assert(s.skip(n)[x] == s[x + n] && s.skip(n)[y] == s[y + n]);
                    }
                }
            }
            assert forall|l: Seq<char>|
                #![trigger msgs_of(olive, l)]
                {
                    let oldm = msgs_of(olive, l);
                    let n = migrated(old(self).migration_size as nat, oldm.len()) as int;
                    if oldm.len() > old(self).archive_threshold {
                        msgs_of(self.live@, l) == oldm.skip(n) && msgs_of(self.cold@, l)
                            == msgs_of(ocold, l) + oldm.take(n)
                    } else {
                        msgs_of(self.live@, l) == oldm && msgs_of(self.cold@, l) == msgs_of(
                            ocold,
                            l,
                        )
                    }
                } by {
                let oldm = msgs_of(olive, l);
                let n = migrated(old(self).migration_size as nat, oldm.len()) as int;
                if has_label(olive, l) {
                    let j = label_index(olive, l);
                    lemma_msgs_of_index(olive, l, j);
                    assert(self.live@[j].label@ == l);
                    lemma_msgs_of_index(self.live@, l, j);
                    if oldm.len() > old(self).archive_threshold {
                        assert(olive[j].messages@.len() > threshold);
                    } else {
                        if exists|jj: int|
                            0 <= jj < k && (#[trigger] olive[jj]).label@ == l
                                && olive[jj].messages@.len() > threshold {
                            let jj = choose|jj: int|
                                0 <= jj < k && (#[trigger] olive[jj]).label@ == l
                                    && olive[jj].messages@.len() > threshold;
                            assert(jj == j);
                        }
                    }
                } else {
                    assert(oldm =~= Seq::<StoredMessage>::empty());
                    if has_label(self.live@, l) {
                        let j = label_index(self.live@, l);
                        assert(olive[j].label@ == l);
                        assert(false);
                    }
                    if exists|jj: int|
                        0 <= jj < k && (#[trigger] olive[jj]).label@ == l
                            && olive[jj].messages@.len() > threshold {
                        let jj = choose|jj: int|
                            0 <= jj < k && (#[trigger] olive[jj]).label@ == l
                                && olive[jj].messages@.len() > threshold;
                        assert(has_label(olive, l));
                    }
                    assert(msgs_of(self.live@, l) =~= oldm);
                }
            }
            assert forall|l: Seq<char>|
                #![trigger count_of(olive, l)]
                count_of(self.live@, l) + count_of(self.cold@, l) == count_of(olive, l)
                    + count_of(ocold, l) by {
                let oldm = msgs_of(olive, l);
                let n = migrated(old(self).migration_size as nat, oldm.len()) as int;
                if oldm.len() > old(self).archive_threshold {
                    assert(msgs_of(self.live@, l).len() == oldm.skip(n).len());
                    assert(msgs_of(self.cold@, l).len() == msgs_of(ocold, l).len()
                        + oldm.take(n).len());
                }
            }
        }
    }
}

/// The payload labels a consumer knows how to decode.
pub open spec fn known_payload_type(l: Seq<char>) -> bool {
    l == "MsgUserInfo"@ || l == "MsgUserPost"@ || l == "MsgShareTrack"@
}

fn is_known_label(label: &String) -> (r: bool)
    ensures
        r == known_payload_type(label@),
{
    label.eq(&"MsgUserInfo".to_owned()) || label.eq(&"MsgUserPost".to_owned()) || label.eq(
        &"MsgShareTrack".to_owned(),
    )
}

/// The total number of live messages over all labels.
pub open spec fn sum_counts(sets: Seq<LabelSet>) -> nat
    decreases sets.len(),
{
    if sets.len() == 0 {
        0
    } else {
        sum_counts(sets.drop_last()) + sets.last().messages@.len()
    }
}

impl ConsumerStore {
    /// The size of every live set by label, and the total, saturated at the
    /// machine limit.
    pub fn get_message_size(&self) -> (r: (Vec<(String, usize)>, usize))
        ensures
            r.0@.len() == self.live@.len(),
            forall|i: int|
                0 <= i < r.0@.len() ==> (#[trigger] r.0@[i]).0@ == self.live@[i].label@
                    && r.0@[i].1 == self.live@[i].messages@.len(),
            sum_counts(self.live@) <= usize::MAX ==> r.1 == sum_counts(self.live@),
            sum_counts(self.live@) > usize::MAX ==> r.1 == usize::MAX,
    {
        let mut sizes: Vec<(String, usize)> = Vec::new();
        let mut total: usize = 0;
        let mut i: usize = 0;
        while i < self.live.len()
            invariant
                i <= self.live@.len(),
                sizes@.len() == i,
                forall|j: int|
                    0 <= j < i ==> (#[trigger] sizes@[j]).0@ == self.live@[j].label@
                        && sizes@[j].1 == self.live@[j].messages@.len(),
                sum_counts(self.live@.take(i as int)) <= usize::MAX ==> total == sum_counts(
                    self.live@.take(i as int),
                ),
                sum_counts(self.live@.take(i as int)) > usize::MAX ==> total == usize::MAX,
            decreases self.live@.len() - i,
        {
            let set = &self.live[i];
            let n = set.messages.len();
            sizes.push((set.label.clone(), n));
            if total <= usize::MAX - n {
                total = total + n;
            } else {
                total = usize::MAX;
            }
            proof {
                assert(self.live@.take(i + 1).drop_last() =~= self.live@.take(i as int));
                assert(self.live@.take(i + 1).last() == self.live@[i as int]);
            }
            i = i + 1;
        }
        proof {
            assert(self.live@.take(self.live@.len() as int) =~= self.live@);
        }
        (sizes, total)
    }

    /// The labels currently present in the live store, in the order their
    /// sets were created.
    pub fn get_message_keys(&self) -> (r: Vec<String>)
        ensures
            r@.len() == self.live@.len(),
            forall|i: int| 0 <= i < r@.len() ==> (#[trigger] r@[i])@ == self.live@[i].label@,
    {
        let mut keys: Vec<String> = Vec::new();
        let mut i: usize = 0;
        while i < self.live.len()
            invariant
                i <= self.live@.len(),
                keys@.len() == i,
                forall|j: int| 0 <= j < i ==> (#[trigger] keys@[j])@ == self.live@[j].label@,
            decreases self.live@.len() - i,
        {
            keys.push(self.live[i].label.clone());
            i = i + 1;
        }
        keys
    }

    /// Looks a message up in the live store by label and id.
    pub fn get_message(&self, message_type: &str, message_id: &str) -> (r: Option<(
        Message,
        PrincipalId,
    )>)
        requires
            self.wf(),
        ensures
            r is Some <==> (has_label(self.live@, message_type@) && has_id(
                msgs_of(self.live@, message_type@),
                message_id@,
            )),
            r matches Some(p) ==> {
                let m = msgs_of(self.live@, message_type@)[id_index(
                    msgs_of(self.live@, message_type@),
                    message_id@,
                )];
                p.0@ == m.message@ && p.1 == m.sender
            },
    {
        let label = message_type.to_owned();
        let id = message_id.to_owned();
        let found = find_label(&self.live, &label);
        match found {
            Some(i) => {
                proof {
                    lemma_msgs_of_index(self.live@, label@, i as int);
                    assert(self.live@[i as int].wf_trigger_helper());
                }
                let set = &self.live[i];
                let fid = find_id(&set.messages, &id);
                match fid {
                    Some(k) => {
                        proof {
                            assert(k as int == id_index(set.messages@, id@));
                        }
                        let m = &set.messages[k];
                        Some((m.message.duplicate(), m.sender))
                    },
                    None => None,
                }
            },
            None => None,
        }
    }

    /// Whether ingesting this message succeeds: the label must be known, a
    /// `Create` always files, `Delete` and `Update` need the id somewhere,
    /// and `Replace` is never supported.
    pub open spec fn ingest_step_ok(self, msg: Message) -> bool {
        &&& known_payload_type(msg.payload_type@)
        &&& match msg.msg_type {
            MessageType::Create => true,
            MessageType::Delete => has_id(msgs_of(self.live@, msg.payload_type@), msg.msg_id@)
                || has_id(msgs_of(self.cold@, msg.payload_type@), msg.msg_id@),
            MessageType::Update => has_id(msgs_of(self.live@, msg.payload_type@), msg.msg_id@)
                || has_id(msgs_of(self.cold@, msg.payload_type@), msg.msg_id@),
            MessageType::Replace => false,
        }
    }

    /// How one successful ingestion relates the store before and after.
    pub open spec fn ingest_step_rel(
        pre: ConsumerStore,
        post: ConsumerStore,
        msg: Message,
        caller: PrincipalId,
    ) -> bool {
        &&& post.wf()
        &&& post.archive_threshold == pre.archive_threshold
        &&& post.migration_size == pre.migration_size
        &&& match msg.msg_type {
            MessageType::Create => {
                let oldm = msgs_of(pre.live@, msg.payload_type@);
                let newm = msgs_of(post.live@, msg.payload_type@);
                &&& has_id(oldm, msg.msg_id@) ==> newm.len() == oldm.len()
                &&& !has_id(oldm, msg.msg_id@) ==> newm.len() == oldm.len() + 1
                &&& has_id(newm, msg.msg_id@)
                &&& newm[id_index(newm, msg.msg_id@)].message@ == msg@
                &&& newm[id_index(newm, msg.msg_id@)].sender == caller
            },
            MessageType::Delete => !has_id(
                msgs_of(post.live@, msg.payload_type@),
                msg.msg_id@,
            ),
            MessageType::Update => {
                let newm = msgs_of(post.live@, msg.payload_type@);
                &&& has_id(newm, msg.msg_id@)
                &&& newm[id_index(newm, msg.msg_id@)].message@ == msg@
                &&& newm[id_index(newm, msg.msg_id@)].sender == caller
            },
            MessageType::Replace => false,
        }
    }

    /// Ingests one incoming message according to its kind: `Create` files it,
    /// `Delete` removes it, `Update` removes then files it anew; `Replace` is
    /// not supported, nor is a payload label the consumer does not know.
    pub fn process_message(&mut self, msg: Message, caller: PrincipalId) -> (r: Result<
        String,
        String,
    >)
        requires
            old(self).wf(),
        ensures
            final(self).wf(),
            r is Ok <==> old(self).ingest_step_ok(msg),
            r is Err ==> *final(self) == *old(self),
            r is Ok ==> Self::ingest_step_rel(*old(self), *final(self), msg, caller),
            !known_payload_type(msg.payload_type@) ==> *final(self) == *old(self) && r is Err,
            known_payload_type(msg.payload_type@) ==> match msg.msg_type {
                MessageType::Create => r matches Ok(id) && id@ == msg.msg_id@ && ({
                    let oldm = msgs_of(old(self).live@, msg.payload_type@);
                    let newm = msgs_of(final(self).live@, msg.payload_type@);
                    &&& has_id(oldm, msg.msg_id@) ==> newm.len() == oldm.len()
                    &&& !has_id(oldm, msg.msg_id@) ==> newm.len() == oldm.len() + 1
                    &&& has_id(newm, msg.msg_id@)
                    &&& newm[id_index(newm, msg.msg_id@)].message@ == msg@
                    &&& newm[id_index(newm, msg.msg_id@)].sender == caller
                }),
                MessageType::Delete => {
                    &&& (r is Ok <==> (has_id(
                        msgs_of(old(self).live@, msg.payload_type@),
                        msg.msg_id@,
                    ) || has_id(msgs_of(old(self).cold@, msg.payload_type@), msg.msg_id@)))
                    &&& !has_id(msgs_of(final(self).live@, msg.payload_type@), msg.msg_id@)
                    &&& r is Err ==> *final(self) == *old(self)
                },
                MessageType::Update => {
                    &&& (r is Ok <==> (has_id(
                        msgs_of(old(self).live@, msg.payload_type@),
                        msg.msg_id@,
                    ) || has_id(msgs_of(old(self).cold@, msg.payload_type@), msg.msg_id@)))
                    &&& r is Err ==> *final(self) == *old(self)
                    &&& r is Ok ==> ({
                        let newm = msgs_of(final(self).live@, msg.payload_type@);
                        &&& has_id(newm, msg.msg_id@)
                        &&& newm[id_index(newm, msg.msg_id@)].message@ == msg@
                        &&& newm[id_index(newm, msg.msg_id@)].sender == caller
                    })
                },
                MessageType::Replace => *final(self) == *old(self) && r is Err,
            },
    {
        let label = msg.payload_type.clone();
        if !is_known_label(&label) {
            return Err("unknown payload type".to_owned());
        }
        let id = msg.msg_id.clone();
        match msg.msg_type {
            MessageType::Create => {
                let ghost pre = *self;
                self.create_message(label.as_str(), msg, caller);
                proof {
                    let oldm = msgs_of(pre.live@, label@);
                    let newm = msgs_of(self.live@, label@);
                    if has_id(oldm, id@) {
                        let b = id_index(oldm, id@);
                        assert(newm[b].message.msg_id@ == id@);
                    } else {
                        assert(newm[newm.len() - 1].message.msg_id@ == id@);
                    }
                    assert(has_id(newm, id@));
                    assert(self.live@[label_index(self.live@, label@)].wf_trigger_helper());
                    let a = id_index(newm, id@);
                    if has_id(oldm, id@) {
                        let b = id_index(oldm, id@);
                        if a != b {
                            assert(newm[a].message.msg_id@ != newm[b].message.msg_id@);
                        }
                    } else {
                        if a != newm.len() - 1 {
                            assert(newm[a].message.msg_id@
                                != newm[newm.len() - 1].message.msg_id@);
                        }
                    }
                }
                Ok(id)
            },
            MessageType::Delete => {
                self.delete_message(label.as_str(), id.as_str())?;
                proof {
                    if has_label(old(self).live@, label@) {
                        let oldm = msgs_of(old(self).live@, label@);
                        let newm = msgs_of(self.live@, label@);
                        assert(!has_id(newm, id@)) by {
                            if has_id(newm, id@) {
                                let a = id_index(newm, id@);
                                assert(newm[a].message.msg_id@ == id@);
                                if has_id(oldm, id@) {
                                    let b = id_index(oldm, id@);
                                    let oa = if a < b { a } else { a + 1 };
                                    assert(newm[a] == oldm[oa]);
                                    assert(old(self).live@[label_index(
                                        old(self).live@,
                                        label@,
                                    )].wf_trigger_helper());
                                } else {
                                    assert(oldm[a].message.msg_id@ == id@);
                                }
                            }
                        }
                    }
                }
                Ok(id)
            },
            MessageType::Update => {
                self.delete_message(label.as_str(), id.as_str())?;
                let ghost pre = *self;
                self.create_message(label.as_str(), msg, caller);
                proof {
                    let oldm = msgs_of(pre.live@, label@);
                    let newm = msgs_of(self.live@, label@);
                    if has_id(oldm, id@) {
                        let b = id_index(oldm, id@);
                        assert(newm[b].message.msg_id@ == id@);
                    } else {
                        assert(newm[newm.len() - 1].message.msg_id@ == id@);
                    }
                    assert(has_id(newm, id@));
                    assert(self.live@[label_index(self.live@, label@)].wf_trigger_helper());
                    let a = id_index(newm, id@);
                    if has_id(oldm, id@) {
                        let b = id_index(oldm, id@);
                        if a != b {
                            assert(newm[a].message.msg_id@ != newm[b].message.msg_id@);
                        }
                    } else {
                        if a != newm.len() - 1 {
                            assert(newm[a].message.msg_id@
                                != newm[newm.len() - 1].message.msg_id@);
                        }
                    }
                }
                Ok(id)
            },
            MessageType::Replace => Err("unsupported message type".to_owned()),
        }
    }

    /// Ingests a batch in order with [`Self::process_message`]'s semantics,
    /// stopping at the first failure: the store then reflects exactly the
    /// prefix before the failing message; on success every message was
    /// ingested and their count is returned.
    pub fn receive_batch_messages(&mut self, messages: Vec<Message>, caller: PrincipalId) -> (r:
        Result<usize, String>)
        requires
            old(self).wf(),
        ensures
            final(self).wf(),
            r matches Ok(n) ==> n == messages@.len(),
            r is Ok ==> Self::batch_outcome(*old(self), *final(self), messages@, caller, true),
            r is Err ==> Self::batch_outcome(
                *old(self),
                *final(self),
                messages@,
                caller,
                false,
            ),
    {
        let ghost mut chain: Seq<ConsumerStore> = seq![*old(self)];
        let mut k: usize = 0;
        while k < messages.len()
            invariant
                self.wf(),
                k <= messages@.len(),
                chain.len() == k + 1,
                chain[0] == *old(self),
                chain.last() == *self,
                forall|i: int|
                    0 <= i < k ==> (#[trigger] chain[i]).ingest_step_ok(messages@[i])
                        && Self::ingest_step_rel(chain[i], chain[i + 1], messages@[i], caller),
            decreases messages@.len() - k,
        {
            let msg = messages[k].duplicate();
            let ghost dup = msg;
            let ghost pre = *self;
            let outcome = self.process_message(msg, caller);
            proof {
                let orig = messages@[k as int];
                assert(dup@ == orig@);
                assert(dup.msg_type == orig.msg_type);
                assert(dup.payload_type@ == orig.payload_type@);
                assert(dup.msg_id@ == orig.msg_id@);
                assert(pre.ingest_step_ok(dup) == pre.ingest_step_ok(orig));
            }
            match outcome {
                Ok(_) => {
                    proof {
                        let orig = messages@[k as int];
                        assert(Self::ingest_step_rel(pre, *self, orig, caller)) by {
                            assert(Self::ingest_step_rel(pre, *self, dup, caller));
                        }
                        chain = chain.push(*self);
                    }
                    k = k + 1;
                },
                Err(e) => {
                    proof {
                        assert(Self::batch_chain(
                            chain,
                            *old(self),
                            *self,
                            messages@,
                            caller,
                            false,
                        ));
                        assert(Self::batch_outcome(*old(self), *self, messages@, caller, false))
                            by {
                            assert(exists|c: Seq<ConsumerStore>|
                                #[trigger] Self::batch_chain(
                                    c,
                                    *old(self),
                                    *self,
                                    messages@,
                                    caller,
                                    false,
                                ));
                        }
                    }
                    return Err(e);
                },
            }
        }
        proof {
            assert(Self::batch_chain(chain, *old(self), *self, messages@, caller, true));
            assert(Self::batch_outcome(*old(self), *self, messages@, caller, true)) by {
                assert(exists|c: Seq<ConsumerStore>|
                    #[trigger] Self::batch_chain(c, *old(self), *self, messages@, caller, true));
            }
        }
        Ok(k)
    }

    /// Some chain of single-message ingestions explains how the store moved
    /// from `pre` to `post` over the batch.
    pub open spec fn batch_outcome(
        pre: ConsumerStore,
        post: ConsumerStore,
        msgs: Seq<Message>,
        caller: PrincipalId,
        ok: bool,
    ) -> bool {
        exists|chain: Seq<ConsumerStore>|
            #[trigger] Self::batch_chain(chain, pre, post, msgs, caller, ok)
    }

    /// The store advances through a chain of single-message ingestions, in
    /// order: on success the chain covers the whole batch; on failure it
    /// covers exactly the prefix before the first message whose ingestion
    /// cannot succeed, and the store is the last state of that chain.
    pub open spec fn batch_chain(
        chain: Seq<ConsumerStore>,
        pre: ConsumerStore,
        post: ConsumerStore,
        msgs: Seq<Message>,
        caller: PrincipalId,
        ok: bool,
    ) -> bool {
        &&& chain.len() >= 1
        &&& chain[0] == pre
        &&& chain.last() == post
        &&& chain.len() - 1 <= msgs.len()
        &&& forall|i: int|
            0 <= i < chain.len() - 1 ==> (#[trigger] chain[i]).ingest_step_ok(msgs[i])
                && Self::ingest_step_rel(chain[i], chain[i + 1], msgs[i], caller)
        &&& (ok <==> chain.len() - 1 == msgs.len())
        &&& (!ok ==> chain.len() - 1 < msgs.len() && !chain.last().ingest_step_ok(
            msgs[chain.len() - 1],
        ))
    }
}

/// How many copies of an id a message sequence holds.
pub open spec fn id_count(msgs: Seq<StoredMessage>, id: Seq<char>) -> nat
    decreases msgs.len(),
{
    if msgs.len() == 0 {
        0
    } else {
        id_count(msgs.drop_last(), id) + (if msgs.last().message.msg_id@ == id {
            1nat
        } else {
            0nat
        })
    }
}

/// A sequence without the id holds no copy of it.
pub proof fn lemma_id_count_absent(msgs: Seq<StoredMessage>, id: Seq<char>)
    requires
        !has_id(msgs, id),
    ensures
        id_count(msgs, id) == 0,
    decreases msgs.len(),
{
    if msgs.len() > 0 {
        assert(!has_id(msgs.drop_last(), id)) by {
            if has_id(msgs.drop_last(), id) {
                let j = id_index(msgs.drop_last(), id);
                assert(msgs[j].message.msg_id@ == id);
            }
        }
        lemma_id_count_absent(msgs.drop_last(), id);
        assert(msgs.last().message.msg_id@ != id) by {
            if msgs.last().message.msg_id@ == id {
                assert(msgs[msgs.len() - 1].message.msg_id@ == id);
            }
        }
    }
}

/// Relay liveness: a freshly published message ends up in exactly one place.
/// If the delivery succeeded, the consumer's live set for its label holds
/// exactly one copy and the producer's outbox holds none; if it failed, the
/// outbox holds it and the consumer holds no copy.
pub proof fn lemma_relay_liveness(
    outbox_pre: Outbox,
    outbox_post: Outbox,
    consumer_pre: ConsumerStore,
    consumer_post: ConsumerStore,
    label: Seq<char>,
    m: Message,
    stored: StoredMessage,
    delivered: bool,
)
    requires
        !outbox_pre.contains_id(m.msg_id@),
        !has_id(msgs_of(consumer_pre.live@, label), m.msg_id@),
        publish_relation(outbox_pre, outbox_post, m@, delivered),
        stored.message.msg_id@ == m.msg_id@,
        delivered ==> msgs_of(consumer_post.live@, label) == msgs_of(
            consumer_pre.live@,
            label,
        ).push(stored),
        !delivered ==> consumer_post == consumer_pre,
    ensures
        delivered ==> id_count(msgs_of(consumer_post.live@, label), m.msg_id@) == 1
            && !outbox_post.contains_id(m.msg_id@),
        !delivered ==> outbox_post.contains_id(m.msg_id@) && id_count(
            msgs_of(consumer_post.live@, label),
            m.msg_id@,
        ) == 0,
{
    let pre = msgs_of(consumer_pre.live@, label);
    lemma_id_count_absent(pre, m.msg_id@);
    if delivered {
        let post = msgs_of(consumer_post.live@, label);
        assert(post.drop_last() =~= pre);
        assert(post.last() == stored);
    }
}

} // verus!
