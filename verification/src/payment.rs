//! The payment verifier: an order state machine reconciling local payment
//! intents against an external ledger balance, with timeout and refund.
//!
//! An order starts `Unpaid`. Confirmation sets it `Verifying`, fails it
//! `TimedOut` once the payment window has lapsed (checked lazily, only when
//! confirmation is asked for), and settles it `Paid` when the observed
//! balance covers the amount — or back to `Unpaid` so a later confirmation
//! can retry. A refund moves what the deposit address holds, minus the
//! transfer fee, back out and marks the order `Refunded`. `Paid`, `TimedOut`
//! and `Refunded` are terminal: no operation leaves that set.

use vstd::prelude::*;
use crate::codec::{be64, push_be64, lemma_be64_round_trip, be64_value};
use crate::principal::PrincipalId;
use crate::space_types::{QueryCommonReq, QuerySort};

verus! {

/// The payment window: how long an order may stay unpaid before it times
/// out, in nanoseconds.
pub const PAYMENT_TIMEOUT_NANOS: u64 = 900_000_000_000;

/// The genesis license price in e8s, charged when a license sets no fee.
pub const SPACE_LICENSE_PRICE_ICP: u64 = 100_000_000;

#[derive(Clone, Copy, PartialEq, Eq, Structural, Debug)]
pub enum PaymentStatus {
    Unpaid,
    Verifying,
    Paid,
    TimedOut,
    Refunded,
}

/// A state that no sequence of operations leaves.
pub open spec fn terminal(s: PaymentStatus) -> bool {
    s is Paid || s is TimedOut || s is Refunded
}

/// The transitions the order state machine allows in one operation.
pub open spec fn status_transition_ok(pre: PaymentStatus, post: PaymentStatus) -> bool {
    ||| pre == post
    ||| (pre is Unpaid && (post is Verifying || post is TimedOut))
    ||| (pre is Verifying && (post is Unpaid || post is Paid || post is TimedOut))
    ||| ((pre is Unpaid || pre is Verifying || pre is TimedOut) && post is Refunded)
}

/// Payment monotonicity: under the allowed transitions, the terminal set is
/// never left, a paid order stays paid, and a refunded order stays refunded.
pub proof fn lemma_terminal_absorbing(trace: Seq<PaymentStatus>)
    requires
        trace.len() > 0,
        forall|i: int| 0 <= i < trace.len() - 1 ==> status_transition_ok(
            #[trigger] trace[i],
            trace[i + 1],
        ),
    ensures
        terminal(trace[0]) ==> forall|i: int| 0 <= i < trace.len() ==> terminal(#[trigger] trace[i]),
        trace[0] is Paid ==> forall|i: int| 0 <= i < trace.len() ==> (#[trigger] trace[i]) is Paid,
        trace[0] is Refunded ==> forall|i: int|
            0 <= i < trace.len() ==> (#[trigger] trace[i]) is Refunded,
    decreases trace.len(),
{
    if trace.len() > 1 {
        let rest = trace.drop_first();
        assert forall|i: int| 0 <= i < rest.len() - 1 implies status_transition_ok(
            #[trigger] rest[i],
            rest[i + 1],
        ) by {
            assert(rest[i] == trace[i + 1] && rest[i + 1] == trace[i + 2]);
        }
        lemma_terminal_absorbing(rest);
        assert(status_transition_ok(trace[0], rest[0]));
        assert forall|i: int| 0 <= i < trace.len() && terminal(trace[0]) implies terminal(
            #[trigger] trace[i],
        ) by {
            if i > 0 {
                assert(trace[i] == rest[i - 1]);
            }
        }
        assert forall|i: int| 0 <= i < trace.len() && trace[0] is Paid implies (
        #[trigger] trace[i]) is Paid by {
            if i > 0 {
                assert(trace[i] == rest[i - 1]);
            }
        }
        assert forall|i: int| 0 <= i < trace.len() && trace[0] is Refunded implies (
        #[trigger] trace[i]) is Refunded by {
            if i > 0 {
                assert(trace[i] == rest[i - 1]);
            }
        }
    }
}

/// What a payment order pays for.
#[derive(Clone, Copy, PartialEq, Eq, Structural, Debug)]
pub struct LicensePrice {
    pub track_id: u64,
    pub price: u64,
}

impl LicensePrice {
    pub fn new_for_license(track_id: u64, price: u64) -> (r: LicensePrice)
        ensures
            r.track_id == track_id,
            r.price == price,
    {
        LicensePrice { track_id, price }
    }
}

#[derive(Clone, Copy, PartialEq, Eq, Structural, Debug)]
pub enum PaymentType {
    AwardPrice,
    SpacePrice,
    LicensePrice(LicensePrice),
}

/// One payment order.
#[derive(Debug)]
pub struct PaymentOrder {
    pub id: u64,
    pub payer: PrincipalId,
    pub amount: u64,
    pub payment_type: PaymentType,
    pub source: String,
    pub token: String,
    pub amount_paid: u64,
    pub status: PaymentStatus,
    pub verified_time: Option<u64>,
    pub shared_time: Option<u64>,
    pub created_time: u64,
}

impl PaymentOrder {
    pub fn duplicate(&self) -> (r: PaymentOrder)
        ensures
            r == *self,
    {
        PaymentOrder {
            id: self.id,
            payer: self.payer,
            amount: self.amount,
            payment_type: self.payment_type,
            source: self.source.clone(),
            token: self.token.clone(),
            amount_paid: self.amount_paid,
            status: self.status,
            verified_time: self.verified_time,
            shared_time: self.shared_time,
            created_time: self.created_time,
        }
    }
}

/// What a freshly created order hands back to the payer: where to deposit.
#[derive(Debug)]
pub struct PaymentInfo {
    pub id: u64,
    pub recipient: Vec<u8>,
    pub token: String,
    pub amount: u64,
    pub payment_type: PaymentType,
    pub created_time: u64,
}

/// An order as a query returns it.
#[derive(Debug)]
pub struct QueryOrder {
    pub id: u64,
    pub payer: PrincipalId,
    pub amount: u64,
    pub source: String,
    pub token: String,
    pub amount_paid: u64,
    pub status: PaymentStatus,
    pub verified_time: Option<u64>,
    pub created_time: u64,
    pub recipient: Vec<u8>,
}

impl QueryOrder {
    pub fn from_payment_order(order: PaymentOrder, recipient: Vec<u8>) -> (r: QueryOrder)
        ensures
            r.id == order.id,
            r.payer == order.payer,
            r.amount == order.amount,
            r.source == order.source,
            r.token == order.token,
            r.amount_paid == order.amount_paid,
            r.status == order.status,
            r.verified_time == order.verified_time,
            r.created_time == order.created_time,
            r.recipient == recipient,
    {
        QueryOrder {
            id: order.id,
            payer: order.payer,
            amount: order.amount,
            source: order.source,
            token: order.token,
            amount_paid: order.amount_paid,
            status: order.status,
            verified_time: order.verified_time,
            created_time: order.created_time,
            recipient,
        }
    }
}

/// The deposit address derived for one order: the payer's identity and the
/// order id, big endian, padded to a 32-byte subaccount.
pub open spec fn order_subaccount(payer: PrincipalId, order_id: u64) -> Seq<u8> {
    be64(payer.raw) + be64(order_id) + Seq::new(16, |i: int| 0u8)
}

/// Derives the deposit address attributing incoming funds to one order.
pub fn generate_order_subaccount(payer: PrincipalId, order_id: u64) -> (r: Vec<u8>)
    ensures
        r@ == order_subaccount(payer, order_id),
        r@.len() == 32,
{
    let mut out: Vec<u8> = Vec::new();
    push_be64(&mut out, payer.raw);
    push_be64(&mut out, order_id);
    let mut i: usize = 0;
    while i < 16
        invariant
            i <= 16,
            out@.len() == 16 + i,
            out@ == be64(payer.raw) + be64(order_id) + Seq::new(i as nat, |j: int| 0u8),
        decreases 16 - i,
    {
        out.push(0u8);
        proof {
            assert(out@ =~= be64(payer.raw) + be64(order_id) + Seq::new(
                (i + 1) as nat,
                |j: int| 0u8,
            ));
        }
        i = i + 1;
    }
    out
}

/// Deposit addresses are unique per `(payer, order id)` pair: two distinct
/// pairs derive distinct addresses.
pub proof fn lemma_order_subaccount_injective(
    p1: PrincipalId,
    id1: u64,
    p2: PrincipalId,
    id2: u64,
)
    requires
        order_subaccount(p1, id1) == order_subaccount(p2, id2),
    ensures
        p1 == p2 && id1 == id2,
{
    let a = order_subaccount(p1, id1);
    let b = order_subaccount(p2, id2);
    assert(a.subrange(0, 8) =~= be64(p1.raw));
    assert(a.subrange(8, 16) =~= be64(id1));
    assert(b.subrange(0, 8) =~= be64(p2.raw));
    assert(b.subrange(8, 16) =~= be64(id2));
    lemma_be64_round_trip(p1.raw);
    lemma_be64_round_trip(p2.raw);
    lemma_be64_round_trip(id1);
    lemma_be64_round_trip(id2);
    assert(be64_value(be64(p1.raw)) == be64_value(be64(p2.raw)));
    assert(be64_value(be64(id1)) == be64_value(be64(id2)));
}

/// What one confirmation step decided.
#[derive(Clone, Copy, PartialEq, Eq, Structural, Debug)]
pub enum ConfirmStep {
    AlreadyPaid,
    NotConfirmable,
    TimedOut,
    CheckBalance,
}

/// Whether the payment window has lapsed for an order created at
/// `created_time`, judged at `now`.
pub open spec fn spec_timed_out(created_time: u64, now: u64) -> bool {
    now > created_time && now - created_time > PAYMENT_TIMEOUT_NANOS
}

/// The first half of a confirmation, up to the point where the ledger would
/// be asked: a paid order succeeds at once without any balance query; a
/// terminal or refunded order fails; otherwise the order turns `Verifying`
/// and — lazily, only now — the payment window is checked.
pub fn begin_confirm(order: &mut PaymentOrder, now: u64) -> (r: ConfirmStep)
    ensures
        status_transition_ok(old(order).status, final(order).status),
        old(order).status is Paid ==> r == ConfirmStep::AlreadyPaid && *final(order) == *old(
            order,
        ),
        (old(order).status is TimedOut || old(order).status is Refunded) ==> r
            == ConfirmStep::NotConfirmable && *final(order) == *old(order),
        (old(order).status is Unpaid || old(order).status is Verifying) ==> {
            &&& spec_timed_out(old(order).created_time, now) ==> r == ConfirmStep::TimedOut
                && final(order).status is TimedOut
            &&& !spec_timed_out(old(order).created_time, now) ==> r == ConfirmStep::CheckBalance
                && final(order).status is Verifying
        },
        final(order).id == old(order).id,
        final(order).payer == old(order).payer,
        final(order).amount == old(order).amount,
        final(order).amount_paid == old(order).amount_paid,
        final(order).created_time == old(order).created_time,
        final(order).verified_time == old(order).verified_time,
        final(order).token == old(order).token,
{
    match order.status {
        PaymentStatus::Paid => ConfirmStep::AlreadyPaid,
        PaymentStatus::TimedOut => ConfirmStep::NotConfirmable,
        PaymentStatus::Refunded => ConfirmStep::NotConfirmable,
        _ => {
            order.status = PaymentStatus::Verifying;
            if now > order.created_time && now - order.created_time > PAYMENT_TIMEOUT_NANOS {
                order.status = PaymentStatus::TimedOut;
                ConfirmStep::TimedOut
            } else {
                ConfirmStep::CheckBalance
            }
        },
    }
}

/// The second half of a confirmation, fed the balance the ledger reported
/// for the order's deposit address: enough settles the order `Paid` and
/// records the verification time; anything less puts it back to `Unpaid` so
/// a later confirmation can retry.
pub fn finish_confirm(order: &mut PaymentOrder, amount_paid: u64, now: u64) -> (r: bool)
    requires
        old(order).status is Verifying,
    ensures
        status_transition_ok(old(order).status, final(order).status),
        final(order).amount_paid == amount_paid,
        r == (amount_paid > 0 && amount_paid >= old(order).amount),
        r ==> final(order).status is Paid && final(order).verified_time == Some(now),
        !r ==> final(order).status is Unpaid && final(order).verified_time == old(
            order,
        ).verified_time,
        final(order).id == old(order).id,
        final(order).payer == old(order).payer,
        final(order).amount == old(order).amount,
        final(order).created_time == old(order).created_time,
        final(order).token == old(order).token,
{
    order.amount_paid = amount_paid;
    if amount_paid == 0 || amount_paid < order.amount {
        order.status = PaymentStatus::Unpaid;
        false
    } else {
        order.status = PaymentStatus::Paid;
        order.verified_time = Some(now);
        true
    }
}

/// Whether a refund may be attempted at all: only by the order's payer, only
/// of an order that is neither paid nor already refunded, and only when
/// there is an amount to speak of.
pub open spec fn refundable(order: PaymentOrder, caller: PrincipalId) -> bool {
    &&& order.payer == caller
    &&& !(order.status is Paid)
    &&& !(order.status is Refunded)
    &&& order.amount != 0
}

/// How much of an observed balance a refund can move once the transfer fee
/// is taken out; a balance under the fee cannot cover a transfer at all.
pub fn refund_amount(balance: u64, fee: u64) -> (r: Option<u64>)
    ensures
        balance < fee ==> r is None,
        balance >= fee ==> r == Some((balance - fee) as u64),
{
    if balance < fee {
        None
    } else {
        Some(balance - fee)
    }
}

/// The third part of a refund, fed whether the single ledger transfer went
/// through: success records the observed balance and marks the order
/// `Refunded` with a timestamp; failure leaves the order exactly as it was —
/// retrying is the caller's business.
pub fn finish_refund(order: &mut PaymentOrder, balance: u64, transfer_ok: bool, now: u64) -> (r:
    bool)
    requires
        !(old(order).status is Paid),
        !(old(order).status is Refunded),
    ensures
        status_transition_ok(old(order).status, final(order).status),
        r == transfer_ok,
        r ==> final(order).status is Refunded && final(order).verified_time == Some(now)
            && final(order).amount_paid == balance,
        !r ==> *final(order) == *old(order),
        final(order).id == old(order).id,
        final(order).payer == old(order).payer,
        final(order).amount == old(order).amount,
{
    if transfer_ok {
        order.amount_paid = balance;
        order.status = PaymentStatus::Refunded;
        order.verified_time = Some(now);
        true
    } else {
        false
    }
}

/// The orders a payer owns within a keyed order sequence, oldest first.
pub open spec fn orders_of(s: Seq<(u64, PaymentOrder)>, payer: PrincipalId) -> Seq<PaymentOrder>
    decreases s.len(),
{
    if s.len() == 0 {
        Seq::empty()
    } else if s[0].1.payer == payer {
        seq![s[0].1] + orders_of(s.drop_first(), payer)
    } else {
        orders_of(s.drop_first(), payer)
    }
}

/// Clamps a paged request: pages count from one and a page holds between
/// one and one hundred entries.
pub fn check_page_size(page: u32, size: u32) -> (r: (usize, usize))
    ensures
        r.0 == (if page == 0 {
            1usize
        } else {
            page as usize
        }),
        r.1 == (if size == 0 {
            10usize
        } else if size > 100 {
            100usize
        } else {
            size as usize
        }),
{
    let p: usize = if page == 0 {
        1
    } else {
        page as usize
    };
    let s: usize = if size == 0 {
        10
    } else if size > 100 {
        100
    } else {
        size as usize
    };
    (p, s)
}

/// The keyed store of payment orders, in creation order.
#[derive(Debug)]
pub struct PayStore {
    pub orders: Vec<(u64, PaymentOrder)>,
}

impl PayStore {
    /// Order ids are unique and each entry is keyed by its order's own id.
    pub open spec fn wf(self) -> bool {
        &&& forall|i: int, j: int|
            0 <= i < j < self.orders@.len() ==> self.orders@[i].0 != self.orders@[j].0
        &&& forall|i: int|
            0 <= i < self.orders@.len() ==> (#[trigger] self.orders@[i]).1.id
                == self.orders@[i].0
    }

    pub open spec fn has_order(self, id: u64) -> bool {
        exists|i: int| 0 <= i < self.orders@.len() && self.orders@[i].0 == id
    }

    pub open spec fn order_index(self, id: u64) -> int {
        choose|i: int| 0 <= i < self.orders@.len() && self.orders@[i].0 == id
    }

    /// The order stored under an id; meaningful only when `has_order` holds.
    pub open spec fn spec_order(self, id: u64) -> PaymentOrder {
        self.orders@[self.order_index(id)].1
    }

    pub fn new() -> (r: PayStore)
        ensures
            r.wf(),
            r.orders@.len() == 0,
    {
        PayStore { orders: Vec::new() }
    }

    fn find_order(&self, id: u64) -> (r: Option<usize>)
        ensures
            match r {
                Some(i) => i < self.orders@.len() && self.orders@[i as int].0 == id,
                None => !self.has_order(id),
            },
    {
        let mut i: usize = 0;
        while i < self.orders.len()
            invariant
                i <= self.orders@.len(),
                forall|j: int| 0 <= j < i ==> self.orders@[j].0 != id,
            decreases self.orders@.len() - i,
        {
            if self.orders[i].0 == id {
                return Some(i);
            }
            i = i + 1;
        }
        None
    }

    /// Looks an order up by id.
    pub fn get_payment_order(&self, id: u64) -> (r: Option<PaymentOrder>)
        requires
            self.wf(),
        ensures
            r is Some <==> self.has_order(id),
            r matches Some(o) ==> o == self.spec_order(id),
    {
        match self.find_order(id) {
            Some(i) => {
                proof {
                    assert(i as int == self.order_index(id));
                }
                Some(self.orders[i].1.duplicate())
            },
            None => None,
        }
    }

    /// Creates a fresh order in `Unpaid` and hands back where to pay: the
    /// deposit address derived from the payer and the order id.
    pub fn create_award_order(
        &mut self,
        order_id: u64,
        payer: PrincipalId,
        source: String,
        token: String,
        amount: u64,
        payment_type: PaymentType,
        now: u64,
    ) -> (r: PaymentInfo)
        requires
            old(self).wf(),
            !old(self).has_order(order_id),
        ensures
            final(self).wf(),
            final(self).orders@.len() == old(self).orders@.len() + 1,
            final(self).orders@.drop_last() == old(self).orders@,
            final(self).has_order(order_id),
            ({
                let o = final(self).orders@.last().1;
                &&& final(self).orders@.last().0 == order_id
                &&& o.id == order_id
                &&& o.payer == payer
                &&& o.amount == amount
                &&& o.amount_paid == 0
                &&& o.status is Unpaid
                &&& o.verified_time is None
                &&& o.created_time == now
                &&& o.token == token
                &&& o.source == source
                &&& o.payment_type == payment_type
            }),
            r.id == order_id,
            r.recipient@ == order_subaccount(payer, order_id),
            r.token == token,
            r.amount == amount,
            r.payment_type == payment_type,
            r.created_time == now,
    {
        let order = PaymentOrder {
            id: order_id,
            payer,
            amount,
            payment_type,
            source,
            token: token.clone(),
            amount_paid: 0,
            status: PaymentStatus::Unpaid,
            verified_time: None,
            shared_time: None,
            created_time: now,
        };
        let ghost mid = self.orders@;
        self.orders.push((order_id, order));
        proof {
            assert forall|a: int, b: int| 0 <= a < b < self.orders@.len()
                implies self.orders@[a].0 != self.orders@[b].0 by {
                if b < self.orders@.len() - 1 {
                    assert(self.orders@[a] == mid[a] && self.orders@[b] == mid[b]);
                } else {
                    assert(self.orders@[a] == mid[a]);
                    assert(mid[a].0 != order_id);
                }
            }
            assert(self.orders@.drop_last() =~= mid);
            assert(self.orders@[self.orders@.len() - 1].0 == order_id);
        }
        let recipient = generate_order_subaccount(payer, order_id);
        PaymentInfo { id: order_id, recipient, token, amount, payment_type, created_time: now }
    }

    /// The first half of a store-level confirmation: looks the order up and
    /// runs it to the point where the ledger would be asked. The returned
    /// step says whether a balance query is owed.
    pub fn confirm_begin(&mut self, order_id: u64, now: u64) -> (r: Result<ConfirmStep, String>)
        requires
            old(self).wf(),
        ensures
            final(self).wf(),
            r is Ok <==> old(self).has_order(order_id),
            r is Err ==> *final(self) == *old(self),
            r matches Ok(step) ==> {
                let pre = old(self).spec_order(order_id);
                let post = final(self).spec_order(order_id);
                &&& final(self).has_order(order_id)
                &&& final(self).orders@.len() == old(self).orders@.len()
                &&& status_transition_ok(pre.status, post.status)
                &&& (pre.status is Paid ==> step == ConfirmStep::AlreadyPaid && post == pre)
                &&& ((pre.status is TimedOut || pre.status is Refunded) ==> step
                    == ConfirmStep::NotConfirmable && post == pre)
                &&& ((pre.status is Unpaid || pre.status is Verifying) ==> {
                    &&& spec_timed_out(pre.created_time, now) ==> step == ConfirmStep::TimedOut
                        && post.status is TimedOut
                    &&& !spec_timed_out(pre.created_time, now) ==> step
                        == ConfirmStep::CheckBalance && post.status is Verifying
                })
                &&& post.id == pre.id && post.payer == pre.payer && post.amount == pre.amount
                    && post.created_time == pre.created_time && post.amount_paid
                    == pre.amount_paid && post.verified_time == pre.verified_time
                &&& forall|j: int|
                    0 <= j < final(self).orders@.len() && final(self).orders@[j].0 != order_id
                        ==> final(self).orders@[j] == old(self).orders@[j]
            },
    {
        let found = self.find_order(order_id);
        match found {
            Some(i) => {
                proof {
                    assert(i as int == old(self).order_index(order_id));
                }
                let (key, order) = self.orders.remove(i);
                let mut order = order;
                let step = begin_confirm(&mut order, now);
                self.orders.insert(i, (key, order));
                proof {
                    assert(self.orders@ =~= old(self).orders@.update(
                        i as int,
                        (key, self.orders@[i as int].1),
                    ));
                    assert forall|a: int, b: int| 0 <= a < b < self.orders@.len()
                        implies self.orders@[a].0 != self.orders@[b].0 by {
                        assert(old(self).orders@[a].0 != old(self).orders@[b].0);
                    }
                    assert(self.orders@[i as int].0 == order_id);
                    assert(i as int == self.order_index(order_id));
                }
                Ok(step)
            },
            None => Err("order not found".to_owned()),
        }
    }

    /// The second half of a store-level confirmation, fed the balance the
    /// ledger reported. Success settles the order `Paid`; an insufficient
    /// balance records what was observed, puts the order back to `Unpaid`
    /// and reports the failure.
    pub fn confirm_finish(&mut self, order_id: u64, amount_paid: u64, now: u64) -> (r: Result<
        bool,
        String,
    >)
        requires
            old(self).wf(),
        ensures
            final(self).wf(),
            r is Err ==> !(old(self).has_order(order_id) && old(self).spec_order(
                order_id,
            ).status is Verifying) || !(amount_paid > 0 && amount_paid >= old(self).spec_order(
                order_id,
            ).amount),
            !old(self).has_order(order_id) ==> *final(self) == *old(self) && r is Err,
            (old(self).has_order(order_id) && !(old(self).spec_order(
                order_id,
            ).status is Verifying)) ==> *final(self) == *old(self) && r is Err,
            (old(self).has_order(order_id) && old(self).spec_order(order_id).status is Verifying)
                ==> {
                let pre = old(self).spec_order(order_id);
                let post = final(self).spec_order(order_id);
                let settled = amount_paid > 0 && amount_paid >= pre.amount;
                &&& final(self).has_order(order_id)
                &&& final(self).orders@.len() == old(self).orders@.len()
                &&& status_transition_ok(pre.status, post.status)
                &&& post.amount_paid == amount_paid
                &&& settled ==> post.status is Paid && post.verified_time == Some(now) && r
                    == Ok::<bool, String>(true)
                &&& !settled ==> post.status is Unpaid && post.verified_time
                    == pre.verified_time && r is Err
                &&& post.id == pre.id && post.payer == pre.payer && post.amount == pre.amount
                    && post.created_time == pre.created_time
                &&& forall|j: int|
                    0 <= j < final(self).orders@.len() && final(self).orders@[j].0 != order_id
                        ==> final(self).orders@[j] == old(self).orders@[j]
            },
    {
        let found = self.find_order(order_id);
        match found {
            Some(i) => {
                proof {
                    assert(i as int == old(self).order_index(order_id));
                }
                if !matches!(self.orders[i].1.status, PaymentStatus::Verifying) {
                    return Err("order is not awaiting verification".to_owned());
                }
                let (key, order) = self.orders.remove(i);
                let mut order = order;
                let settled = finish_confirm(&mut order, amount_paid, now);
                self.orders.insert(i, (key, order));
                proof {
                    assert(self.orders@ =~= old(self).orders@.update(
                        i as int,
                        (key, self.orders@[i as int].1),
                    ));
                    assert forall|a: int, b: int| 0 <= a < b < self.orders@.len()
                        implies self.orders@[a].0 != self.orders@[b].0 by {
                        assert(old(self).orders@[a].0 != old(self).orders@[b].0);
                    }
                    assert(self.orders@[i as int].0 == order_id);
                    assert(i as int == self.order_index(order_id));
                }
                if settled {
                    Ok(true)
                } else {
                    Err("order verification failed".to_owned())
                }
            },
            None => Err("order not found".to_owned()),
        }
    }

    /// Whether a refund may be attempted: the order must exist, belong to
    /// the caller, be neither paid nor refunded, and be over a zero amount.
    pub fn refund_precheck(&self, order_id: u64, caller: PrincipalId) -> (r: Result<(), String>)
        requires
            self.wf(),
        ensures
            r is Ok <==> (self.has_order(order_id) && refundable(
                self.spec_order(order_id),
                caller,
            )),
    {
        let found = self.find_order(order_id);
        match found {
            Some(i) => {
                proof {
                    assert(i as int == self.order_index(order_id));
                }
                let order = &self.orders[i].1;
                if order.payer.raw != caller.raw {
                    Err("caller is not the owner of the order".to_owned())
                } else if matches!(order.status, PaymentStatus::Paid) || matches!(
                    order.status,
                    PaymentStatus::Refunded,
                ) {
                    Err("order cannot be refunded in its current state".to_owned())
                } else if order.amount == 0 {
                    Err("order has no amount to refund".to_owned())
                } else {
                    Ok(())
                }
            },
            None => Err("order not found".to_owned()),
        }
    }

    /// The last part of a store-level refund, fed the observed balance and
    /// whether the single ledger transfer went through: success marks the
    /// order `Refunded`; failure records the balance and leaves the order's
    /// state for the caller to retry.
    pub fn refund_finish(
        &mut self,
        order_id: u64,
        caller: PrincipalId,
        balance: u64,
        transfer_ok: bool,
        now: u64,
    ) -> (r: Result<bool, String>)
        requires
            old(self).wf(),
        ensures
            final(self).wf(),
            r is Ok <==> (old(self).has_order(order_id) && refundable(
                old(self).spec_order(order_id),
                caller,
            ) && transfer_ok),
            !(old(self).has_order(order_id) && refundable(old(self).spec_order(order_id), caller))
                ==> *final(self) == *old(self),
            !transfer_ok ==> *final(self) == *old(self),
            (old(self).has_order(order_id) && refundable(old(self).spec_order(order_id), caller)
                && transfer_ok) ==> {
                let pre = old(self).spec_order(order_id);
                let post = final(self).spec_order(order_id);
                &&& final(self).has_order(order_id)
                &&& final(self).orders@.len() == old(self).orders@.len()
                &&& status_transition_ok(pre.status, post.status)
                &&& post.status is Refunded
                &&& post.verified_time == Some(now)
                &&& post.amount_paid == balance
                &&& post.id == pre.id && post.payer == pre.payer && post.amount == pre.amount
                &&& forall|j: int|
                    0 <= j < final(self).orders@.len() && final(self).orders@[j].0 != order_id
                        ==> final(self).orders@[j] == old(self).orders@[j]
            },
    {
        match self.refund_precheck(order_id, caller) {
            Ok(()) => {},
            Err(e) => {
                return Err(e);
            },
        }
        if !transfer_ok {
            return Err("refund process failed".to_owned());
        }
        let found = self.find_order(order_id);
        match found {
            Some(i) => {
                proof {
                    assert(i as int == old(self).order_index(order_id));
                }
                let (key, order) = self.orders.remove(i);
                let mut order = order;
                let ok = finish_refund(&mut order, balance, transfer_ok, now);
                self.orders.insert(i, (key, order));
                proof {
                    assert(self.orders@ =~= old(self).orders@.update(
                        i as int,
                        (key, self.orders@[i as int].1),
                    ));
                    assert forall|a: int, b: int| 0 <= a < b < self.orders@.len()
                        implies self.orders@[a].0 != self.orders@[b].0 by {
                        assert(old(self).orders@[a].0 != old(self).orders@[b].0);
                    }
                    assert(self.orders@[i as int].0 == order_id);
                    assert(i as int == self.order_index(order_id));
                }
                Ok(ok)
            },
            None => Err("order not found".to_owned()),
        }
    }
}

/// Copies the orders of one payer out of a keyed order sequence, in the
/// order given.
fn filter_orders(orders: &Vec<(u64, PaymentOrder)>, payer: PrincipalId) -> (r: Vec<PaymentOrder>)
    ensures
        r@ == orders_of(orders@, payer),
{
    let ghost orig = orders@;
    let mut out: Vec<PaymentOrder> = Vec::new();
    let mut i: usize = 0;
    proof {
        assert(orig.skip(0) =~= orig);
        assert(Seq::<PaymentOrder>::empty() + orders_of(orig, payer) =~= orders_of(orig, payer));
    }
    while i < orders.len()
        invariant
            i <= orig.len(),
            orders@ == orig,
            orders_of(orig, payer) == out@ + orders_of(orig.skip(i as int), payer),
        decreases orig.len() - i,
    {
        proof {
            assert(orig.skip(i as int).drop_first() =~= orig.skip(i as int + 1));
            assert(orig.skip(i as int)[0] == orig[i as int]);
        }
        if orders[i].1.payer.raw == payer.raw {
            out.push(orders[i].1.duplicate());
            proof {
                assert(orders_of(orig.skip(i as int), payer) == seq![orig[i as int].1]
                    + orders_of(orig.skip(i as int + 1), payer));
                assert(out@ + orders_of(orig.skip(i as int + 1), payer) =~= out@.drop_last() + (
                seq![orig[i as int].1] + orders_of(orig.skip(i as int + 1), payer)));
            }
        } else {
            proof {
                assert(orig[i as int].1.payer != payer);
                assert(orders_of(orig.skip(i as int), payer) == orders_of(
                    orig.skip(i as int + 1),
                    payer,
                ));
            }
        }
        i = i + 1;
    }
    proof {
        assert(orig.skip(orig.len() as int).len() == 0);
        assert(orders_of(orig.skip(orig.len() as int), payer)
            =~= Seq::<PaymentOrder>::empty());
        assert(out@ =~= out@ + Seq::<PaymentOrder>::empty());
    }
    out
}

/// Copies a keyed order sequence newest first.
fn reversed_orders(orders: &Vec<(u64, PaymentOrder)>) -> (r: Vec<(u64, PaymentOrder)>)
    ensures
        r@ == orders@.reverse(),
{
    let mut out: Vec<(u64, PaymentOrder)> = Vec::new();
    let mut i: usize = orders.len();
    while i > 0
        invariant
            i <= orders@.len(),
            out@.len() == orders@.len() - i,
            forall|k: int|
                0 <= k < out@.len() ==> #[trigger] out@[k] == orders@[orders@.len() - 1 - k],
        decreases i,
    {
        i = i - 1;
        out.push((orders[i].0, orders[i].1.duplicate()));
    }
    proof {
        assert(out@ =~= orders@.reverse());
    }
    out
}

impl PayStore {
    /// Pages through the caller's own orders. The total counts every order
    /// of the caller; the page holds those whose rank falls inside the
    /// requested window, each carrying its derived deposit address.
    pub fn limit_orders(&self, caller: PrincipalId, req: &QueryCommonReq) -> (r: (
        usize,
        bool,
        Vec<QueryOrder>,
    ))
        requires
            self.wf(),
        ensures
            ({
                let base = if req.sort is TimeAsc {
                    orders_of(self.orders@, caller)
                } else {
                    orders_of(self.orders@.reverse(), caller)
                };
                let p = if req.page == 0 {
                    1int
                } else {
                    req.page as int
                };
                let sz = if req.size == 0 {
                    10int
                } else if req.size > 100 {
                    100int
                } else {
                    req.size as int
                };
                let start = (p - 1) * sz;
                &&& r.0 == base.len()
                &&& r.1 == (base.len() > start + sz)
                &&& r.2@.len() == (if start >= base.len() {
                    0int
                } else if start + sz <= base.len() {
                    sz
                } else {
                    base.len() - start
                })
                &&& forall|k: int|
                    0 <= k < r.2@.len() ==> {
                        let o = base[start + k];
                        &&& (#[trigger] r.2@[k]).id == o.id
                        &&& r.2@[k].payer == o.payer
                        &&& r.2@[k].amount == o.amount
                        &&& r.2@[k].source == o.source
                        &&& r.2@[k].token == o.token
                        &&& r.2@[k].amount_paid == o.amount_paid
                        &&& r.2@[k].status == o.status
                        &&& r.2@[k].verified_time == o.verified_time
                        &&& r.2@[k].created_time == o.created_time
                        &&& r.2@[k].recipient@ == order_subaccount(o.payer, o.id)
                    }
            }),
    {
        let (page, size) = check_page_size(req.page, req.size);
        proof {
            let pw = page as int;
            let sw = size as int;
            assert(1 <= pw <= 0x1_0000_0000 && 0 <= sw <= 100);
            assert((pw - 1) * sw <= 0x1_0000_0000 * 100) by (nonlinear_arith)
                requires
                    1 <= pw <= 0x1_0000_0000 && 0 <= sw <= 100,
            ;
        }
        let start_wide: u64 = (page as u64 - 1) * (size as u64);
        let filtered = match req.sort {
            QuerySort::TimeAsc => filter_orders(&self.orders, caller),
            QuerySort::TimeDesc => {
                let rev = reversed_orders(&self.orders);
                filter_orders(&rev, caller)
            },
        };
        let total = filtered.len();
        let has_more = (total as u64) > start_wide + (size as u64);
        let mut data: Vec<QueryOrder> = Vec::new();
        if start_wide < total as u64 {
            let start = start_wide as usize;
            let end = if size < total - start {
                start + size
            } else {
                total
            };
            let mut k: usize = start;
            while k < end
                invariant
                    start <= k <= end,
                    end <= total,
                    total == filtered@.len(),
                    end as int == (if start + size <= total {
                        start + size
                    } else {
                        total as int
                    }),
                    data@.len() == k - start,
                    forall|j: int|
                        0 <= j < data@.len() ==> {
                            let o = filtered@[start + j];
                            &&& (#[trigger] data@[j]).id == o.id
                            &&& data@[j].payer == o.payer
                            &&& data@[j].amount == o.amount
                            &&& data@[j].source == o.source
                            &&& data@[j].token == o.token
                            &&& data@[j].amount_paid == o.amount_paid
                            &&& data@[j].status == o.status
                            &&& data@[j].verified_time == o.verified_time
                            &&& data@[j].created_time == o.created_time
                            &&& data@[j].recipient@ == order_subaccount(o.payer, o.id)
                        },
                decreases end - k,
            {
                let order = filtered[k].duplicate();
                let recipient = generate_order_subaccount(order.payer, order.id);
                data.push(QueryOrder::from_payment_order(order, recipient));
                k = k + 1;
            }
        }
        (total, has_more, data)
    }
}

} // verus!
