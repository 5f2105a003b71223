//! The producer side of the message relay: at-least-once delivery with a
//! local outbox and batched retry.
//!
//! A publish attempts one remote delivery. On success nothing is retained;
//! on failure the message is filed in the outbox, and a failed call arms the
//! one-shot retry timer. When the timer fires, a batch is drained from the
//! outbox in insertion order and delivered in one bulk call: success removes
//! exactly the delivered messages, any failure leaves the outbox untouched
//! and re-arms the timer.

use vstd::prelude::*;
use crate::message::{Message, MessageView};

verus! {

/// How many outbox messages one retry batch carries.
pub const RETRY_BATCH_SIZE: usize = 50;

/// What one remote delivery attempt came back with: the consumer accepted the
/// message and returned its id, the consumer rejected it, or the call itself
/// failed.
#[derive(Debug)]
pub enum DeliveryOutcome {
    Accepted(String),
    Rejected(String),
    Failed(String),
}

/// What one bulk delivery attempt came back with.
#[derive(Debug)]
pub enum BatchOutcome {
    Accepted(u64),
    Rejected(String),
    Failed(String),
}

/// The local outbox: messages awaiting a successful delivery, in insertion
/// order, together with whether the retry timer is currently armed.
#[derive(Debug)]
pub struct Outbox {
    pub entries: Vec<Message>,
    pub retry_armed: bool,
}

/// How a publish attempt relates the outbox before and after: on success the
/// outbox is untouched; on failure the message is filed under its id (an
/// already-filed copy under the same id is replaced).
pub open spec fn publish_relation(pre: Outbox, post: Outbox, m: MessageView, delivered: bool) -> bool {
    if delivered {
        post == pre
    } else {
        &&& post.contains_id(m.msg_id)
        &&& post.entries@.len() > 0 && post.entries@.last()@ == m
        &&& !pre.contains_id(m.msg_id) ==> post.entries@.drop_last() == pre.entries@
    }
}

impl Outbox {
    /// Message ids in the outbox are unique.
    pub open spec fn wf(self) -> bool {
        forall|i: int, j: int|
            0 <= i < j < self.entries@.len() ==> self.entries@[i].msg_id@
                != self.entries@[j].msg_id@
    }

    pub open spec fn contains_id(self, id: Seq<char>) -> bool {
        exists|i: int| 0 <= i < self.entries@.len() && self.entries@[i].msg_id@ == id
    }

    pub open spec fn index_of_id(self, id: Seq<char>) -> int {
        choose|i: int| 0 <= i < self.entries@.len() && self.entries@[i].msg_id@ == id
    }

    pub fn new() -> (r: Outbox)
        ensures
            r.wf(),
            r.entries@.len() == 0,
            !r.retry_armed,
    {
        Outbox { entries: Vec::new(), retry_armed: false }
    }

    fn find_index(&self, id: &String) -> (r: Option<usize>)
        ensures
            match r {
                Some(i) => i < self.entries@.len() && self.entries@[i as int].msg_id@ == id@,
                None => !self.contains_id(id@),
            },
    {
        let mut i: usize = 0;
        while i < self.entries.len()
            invariant
                i <= self.entries@.len(),
                forall|j: int| 0 <= j < i ==> self.entries@[j].msg_id@ != id@,
            decreases self.entries@.len() - i,
        {
            if self.entries[i].msg_id.eq(id) {
                return Some(i);
            }
            i = i + 1;
        }
        None
    }

    /// Files a copy of the message in the outbox under its id, replacing any
    /// copy already filed under that id.
    pub fn create_message(&mut self, message_id: &String, message: &Message)
        requires
            old(self).wf(),
            message.msg_id@ == message_id@,
        ensures
            final(self).wf(),
            final(self).retry_armed == old(self).retry_armed,
            final(self).contains_id(message.msg_id@),
            final(self).entries@.len() > 0 && final(self).entries@.last()@ == message@,
            old(self).contains_id(message_id@) ==> final(self).entries@.drop_last()
                == old(self).entries@.remove(old(self).index_of_id(message_id@)),
            !old(self).contains_id(message_id@) ==> final(self).entries@.drop_last()
                == old(self).entries@,
    {
        let found = self.find_index(message_id);
        match found {
            Some(i) => {
                proof {
                    assert(i as int == old(self).index_of_id(message_id@));
                }
                self.entries.remove(i);
                proof {
                    assert forall|a: int| 0 <= a < self.entries@.len()
                        implies self.entries@[a].msg_id@ != message_id@ by {
                        if a < i {
                            assert(self.entries@[a] == old(self).entries@[a]);
                        } else {
                            assert(self.entries@[a] == old(self).entries@[a + 1]);
                        }
                    }
                }
            },
            None => {},
        }
        let ghost mid = self.entries@;
        self.entries.push(message.duplicate());
        proof {
            assert(self.entries@.drop_last() =~= mid);
            assert(self.entries@[self.entries@.len() - 1].msg_id@ == message.msg_id@);
            assert forall|a: int, b: int| 0 <= a < b < self.entries@.len()
                implies self.entries@[a].msg_id@ != self.entries@[b].msg_id@ by {
                if b < self.entries@.len() - 1 {
                    assert(self.entries@[a] == mid[a] && self.entries@[b] == mid[b]);
                } else {
                    assert(self.entries@[a] == mid[a]);
                }
            }
        }
    }

    /// One publish: the remote delivery was already attempted and `outcome`
    /// says how it went. Success retains nothing; both failure kinds — an
    /// application rejection and a failed call alike — file the message for
    /// retry and arm the retry timer. A freshly derived id therefore ends up
    /// in the outbox exactly when the delivery did not succeed.
    pub fn send_message(&mut self, msg: Message, outcome: DeliveryOutcome) -> (r: Result<
        String,
        String,
    >)
        requires
            old(self).wf(),
        ensures
            final(self).wf(),
            r is Ok <==> outcome is Accepted,
            outcome matches DeliveryOutcome::Accepted(id) ==> *final(self) == *old(self) && (
            r matches Ok(rid) && rid == id),
            !(outcome is Accepted) ==> publish_relation(*old(self), *final(self), msg@, false),
            !(outcome is Accepted) ==> final(self).retry_armed,
            outcome is Accepted ==> final(self).retry_armed == old(self).retry_armed,
            (outcome is Accepted && !old(self).contains_id(msg@.msg_id))
                ==> !final(self).contains_id(msg@.msg_id),
    {
        match outcome {
            DeliveryOutcome::Accepted(id) => Ok(id),
            DeliveryOutcome::Rejected(err) => {
                let id = msg.msg_id.clone();
                self.create_message(&id, &msg);
                self.retry_armed = true;
                Err(err)
            },
            DeliveryOutcome::Failed(err) => {
                let id = msg.msg_id.clone();
                self.create_message(&id, &msg);
                self.retry_armed = true;
                Err(err)
            },
        }
    }

    /// Drains up to one batch from the outbox in insertion order, leaving the
    /// outbox untouched: the copies are handed to the bulk delivery call.
    pub fn take_batch(&self) -> (r: Vec<Message>)
        ensures
            r@.len() == vstd::math::min(RETRY_BATCH_SIZE as int, self.entries@.len() as int),
            forall|i: int| 0 <= i < r@.len() ==> r@[i]@ == self.entries@[i]@,
    {
        let mut r: Vec<Message> = Vec::new();
        let mut i: usize = 0;
        let n = if self.entries.len() < RETRY_BATCH_SIZE {
            self.entries.len()
        } else {
            RETRY_BATCH_SIZE
        };
        while i < n
            invariant
                n == vstd::math::min(RETRY_BATCH_SIZE as int, self.entries@.len() as int),
                i <= n,
                r@.len() == i,
                forall|j: int| 0 <= j < i ==> r@[j]@ == self.entries@[j]@,
            decreases n - i,
        {
            r.push(self.entries[i].duplicate());
            i = i + 1;
        }
        r
    }

    /// Applies the outcome of one bulk delivery of the first `batch_len`
    /// outbox messages: success removes exactly those messages and disarms
    /// the timer; any failure leaves the outbox untouched and re-arms it.
    pub fn apply_batch_outcome(&mut self, batch_len: usize, outcome: BatchOutcome) -> (r: Result<
        u64,
        String,
    >)
        requires
            old(self).wf(),
            batch_len <= old(self).entries@.len(),
        ensures
            final(self).wf(),
            r is Ok <==> outcome is Accepted,
            outcome matches BatchOutcome::Accepted(n) ==> {
                &&& final(self).entries@ == old(self).entries@.skip(batch_len as int)
                &&& !final(self).retry_armed
                &&& r == Ok::<u64, String>(n)
            },
            !(outcome is Accepted) ==> {
                &&& final(self).entries@ == old(self).entries@
                &&& final(self).retry_armed
            },
    {
        match outcome {
            BatchOutcome::Accepted(n) => {
                let mut k: usize = 0;
                while k < batch_len
                    invariant
                        k <= batch_len,
                        batch_len <= old(self).entries@.len(),
                        self.entries@ == old(self).entries@.skip(k as int),
                        self.retry_armed == old(self).retry_armed,
                    decreases batch_len - k,
                {
                    self.entries.remove(0);
                    proof {
                        assert(old(self).entries@.skip(k as int).remove(0)
                            =~= old(self).entries@.skip(k as int + 1));
                    }
                    k = k + 1;
                }
                self.retry_armed = false;
                proof {
                    let s = old(self).entries@;
                    assert forall|a: int, b: int| 0 <= a < b < self.entries@.len()
                        implies self.entries@[a].msg_id@ != self.entries@[b].msg_id@ by {
                        assert(self.entries@[a] == s[a + batch_len]);
                        assert(self.entries@[b] == s[b + batch_len]);
                    }
                }
                Ok(n)
            },
            BatchOutcome::Rejected(err) => {
                self.retry_armed = true;
                Err(err)
            },
            BatchOutcome::Failed(err) => {
                self.retry_armed = true;
                Err(err)
            },
        }
    }
}

} // verus!
