//! The gateway's book-keeping.
//!
//! A store is the gateway's two tables, payments and webhook deliveries, together with what
//! may be done to them. All of the gateway's state is in it, so "resume after a restart" needs
//! no special code path: whatever was due before the process died is still due when the same
//! rows are opened again, with the attempt counters intact.

use vstd::prelude::*;

use crate::clock::{in_calendar, Timestamp};
use crate::gateway::outcome::Plan;
use crate::gateway::records::{
    accepted, as_signed, decidable_from_row, due_delivery, due_from_row, payment_from_row,
    plan_of, queued, reported, retry_delay, DecidablePayment, DecidableView, DeliveryRecord,
    DeliveryRow, DueDelivery, DueView, Payment, PaymentRecord, PaymentRow, PaymentView,
};
use crate::gateway::schedule::{candidate, earliest, earliest_of, picks_earliest, positions};
use crate::ids::{id_with_prefix, new_delivery_id, new_refund_id};
use crate::text::{copy_opt, opt_str_view, same, same_opt, texts};

verus! {

/// How many payments are decided in one go.
pub const DECIDE_BATCH: usize = 50;

/// How many deliveries are attempted in one go, all of them at once.
pub const DELIVER_BATCH: usize = 20;

/// Why the tables do not take a row.
#[derive(Debug, Clone, Copy, PartialEq, Eq, Structural)]
pub enum StoreError {
    /// There is a payment with this `transaction_id` already.
    DuplicateTransaction,
    /// There is a delivery with this `delivery_id` already.
    DuplicateDelivery,
    /// A delivery that is due is of a payment whose outcome was not applied.
    UndecidedDelivery,
    /// The rows contradict each other.
    Inconsistent,
}

impl StoreError {
    /// What the error says: for a row that is not taken or cannot be read, what the database
    /// that the rows are kept in says of it.
    pub open spec fn said(self) -> Seq<char> {
        match self {
            StoreError::DuplicateTransaction =>
                "error returned from database: (code: 1555) UNIQUE constraint failed: payments.transaction_id"@,
            StoreError::DuplicateDelivery =>
                "error returned from database: (code: 1555) UNIQUE constraint failed: webhook_deliveries.delivery_id"@,
            StoreError::UndecidedDelivery =>
                "error occurred while decoding column \"decided_at\": unexpected null; try decoding as an `Option`"@,
            StoreError::Inconsistent => "the stored rows contradict each other"@,
        }
    }

    /// The error as a message.
    pub fn message(&self) -> (s: String)
        ensures
            s@ == self.said(),
    {
        match self {
            StoreError::DuplicateTransaction =>
                "error returned from database: (code: 1555) UNIQUE constraint failed: payments.transaction_id".to_owned(),
            StoreError::DuplicateDelivery =>
                "error returned from database: (code: 1555) UNIQUE constraint failed: webhook_deliveries.delivery_id".to_owned(),
            StoreError::UndecidedDelivery =>
                "error occurred while decoding column \"decided_at\": unexpected null; try decoding as an `Option`".to_owned(),
            StoreError::Inconsistent => "the stored rows contradict each other".to_owned(),
        }
    }
}

// ----------------------------------------------------------------------------------------
// The model
// ----------------------------------------------------------------------------------------

/// What one delivery adds to the tally of a payment: its attempts, or those acknowledged.
pub open spec fn weight(row: DeliveryRow, transaction_id: Seq<char>, acknowledged: bool) -> int {
    if row.transaction_id != transaction_id {
        0
    } else if acknowledged {
        row.acknowledged_count
    } else {
        row.attempts
    }
}

/// How many attempts the deliveries of a payment have seen, or how many of those were
/// acknowledged.
pub open spec fn tally(
    deliveries: Seq<DeliveryRow>,
    transaction_id: Seq<char>,
    acknowledged: bool,
) -> int
    decreases deliveries.len(),
{
    if deliveries.len() == 0 {
        0
    } else {
        tally(deliveries.drop_last(), transaction_id, acknowledged) + weight(
            deliveries.last(),
            transaction_id,
            acknowledged,
        )
    }
}

/// What a store holds.
#[verifier::ext_equal]
pub struct StoreView {
    pub payments: Seq<PaymentRow>,
    pub deliveries: Seq<DeliveryRow>,
}

impl StoreView {
    /// Whether the payment at a position has this `transaction_id`.
    pub open spec fn payment_at(self, transaction_id: Seq<char>, i: int) -> bool {
        0 <= i < self.payments.len() && self.payments[i].transaction_id == transaction_id
    }

    /// Whether there is a payment with this `transaction_id`.
    pub open spec fn has_payment(self, transaction_id: Seq<char>) -> bool {
        exists|i: int| self.payment_at(transaction_id, i)
    }

    /// The position of the payment with this `transaction_id`.
    pub open spec fn payment_index(self, transaction_id: Seq<char>) -> int {
        choose|i: int| self.payment_at(transaction_id, i)
    }

    /// Whether the payment at a position has this idempotency key.
    pub open spec fn key_at(self, key: Seq<char>, i: int) -> bool {
        0 <= i < self.payments.len() && self.payments[i].idempotency_key == Some(key)
    }

    /// Whether there is a payment with this idempotency key.
    pub open spec fn has_key(self, key: Seq<char>) -> bool {
        exists|i: int| self.key_at(key, i)
    }

    /// The position of the payment with this idempotency key.
    pub open spec fn key_index(self, key: Seq<char>) -> int {
        choose|i: int| self.key_at(key, i)
    }

    /// Whether the delivery at a position has this `delivery_id`.
    pub open spec fn delivery_at(self, delivery_id: Seq<char>, i: int) -> bool {
        0 <= i < self.deliveries.len() && self.deliveries[i].delivery_id == delivery_id
    }

    /// Whether there is a delivery with this `delivery_id`.
    pub open spec fn has_delivery(self, delivery_id: Seq<char>) -> bool {
        exists|i: int| self.delivery_at(delivery_id, i)
    }

    /// The position of the delivery with this `delivery_id`.
    pub open spec fn delivery_index(self, delivery_id: Seq<char>) -> int {
        choose|i: int| self.delivery_at(delivery_id, i)
    }

    /// Whether no two payments share a `transaction_id` or an idempotency key.
    pub open spec fn payments_distinct(self) -> bool {
        forall|i: int, j: int|
            #![trigger self.payments[i], self.payments[j]]
            0 <= i < j < self.payments.len() ==> {
                &&& self.payments[i].transaction_id != self.payments[j].transaction_id
                &&& self.payments[i].idempotency_key is Some ==> self.payments[i].idempotency_key
                    != self.payments[j].idempotency_key
            }
    }

    /// Whether no two deliveries share a `delivery_id`.
    pub open spec fn deliveries_distinct(self) -> bool {
        forall|i: int, j: int|
            #![trigger self.deliveries[i], self.deliveries[j]]
            0 <= i < j < self.deliveries.len() ==> self.deliveries[i].delivery_id
                != self.deliveries[j].delivery_id
    }

    /// Whether the delivery at a position is of a payment that is there.
    pub open spec fn delivery_owned(self, d: int) -> bool {
        self.has_payment(self.deliveries[d].transaction_id)
    }

    /// Whether the tallies of a payment are numbers that can be reported.
    pub open spec fn tallies_fit(self, transaction_id: Seq<char>) -> bool {
        &&& i64::MIN <= tally(self.deliveries, transaction_id, false) <= i64::MAX
        &&& i64::MIN <= tally(self.deliveries, transaction_id, true) <= i64::MAX
    }

    /// Whether the rows are consistent: what has to be unique is, each delivery is of a
    /// payment that is there, and the tallies are numbers that can be reported.
    pub open spec fn wf(self) -> bool {
        &&& self.payments_distinct()
        &&& self.deliveries_distinct()
        &&& forall|i: int| 0 <= i < self.payments.len() ==> (#[trigger] self.payments[i]).wf()
        &&& forall|d: int| 0 <= d < self.deliveries.len() ==> (#[trigger] self.deliveries[d]).wf()
        &&& forall|d: int| 0 <= d < self.deliveries.len() ==> #[trigger] self.delivery_owned(d)
        &&& forall|i: int|
            0 <= i < self.payments.len() ==> self.tallies_fit(
                (#[trigger] self.payments[i]).transaction_id,
            )
    }

    /// The payment at a position, as it is reported.
    pub open spec fn report(self, i: int) -> PaymentView {
        let row = self.payments[i];
        reported(
            row,
            tally(self.deliveries, row.transaction_id, false),
            tally(self.deliveries, row.transaction_id, true),
        )
    }

    /// The payment with this `transaction_id`, as it is reported.
    pub open spec fn payment(self, transaction_id: Seq<char>) -> Option<PaymentView> {
        if self.has_payment(transaction_id) {
            Some(self.report(self.payment_index(transaction_id)))
        } else {
            None
        }
    }

    /// The payment with this idempotency key, as it is reported.
    pub open spec fn payment_by_key(self, key: Seq<char>) -> Option<PaymentView> {
        if self.has_key(key) {
            Some(self.report(self.key_index(key)))
        } else {
            None
        }
    }
}

/// What the payments say.
pub open spec fn payment_rows(v: Seq<PaymentRecord>) -> Seq<PaymentRow> {
    v.map_values(|p: PaymentRecord| p@)
}

/// What the deliveries say.
pub open spec fn delivery_rows(v: Seq<DeliveryRecord>) -> Seq<DeliveryRow> {
    v.map_values(|d: DeliveryRecord| d@)
}

/// The gateway's tables.
#[derive(Debug)]
pub struct Store {
    payments: Vec<PaymentRecord>,
    deliveries: Vec<DeliveryRecord>,
}

impl View for Store {
    type V = StoreView;

    closed spec fn view(&self) -> StoreView {
        StoreView {
            payments: payment_rows(self.payments@),
            deliveries: delivery_rows(self.deliveries@),
        }
    }
}

// ----------------------------------------------------------------------------------------
// Facts about the model
// ----------------------------------------------------------------------------------------

pub(crate) proof fn lemma_payment_index(store: StoreView, transaction_id: Seq<char>, i: int)
    requires
        store.payments_distinct(),
        store.payment_at(transaction_id, i),
    ensures
        store.has_payment(transaction_id),
        store.payment_index(transaction_id) == i,
{
    let j = store.payment_index(transaction_id);
    assert(store.payment_at(transaction_id, j));
    if i < j {
        assert(store.payments[i].transaction_id != store.payments[j].transaction_id);
    } else if j < i {
        assert(store.payments[j].transaction_id != store.payments[i].transaction_id);
    }
}

pub(crate) proof fn lemma_key_index(store: StoreView, key: Seq<char>, i: int)
    requires
        store.payments_distinct(),
        store.key_at(key, i),
    ensures
        store.has_key(key),
        store.key_index(key) == i,
{
    let j = store.key_index(key);
    assert(store.key_at(key, j));
    if i < j {
        assert(store.payments[i].idempotency_key != store.payments[j].idempotency_key);
    } else if j < i {
        assert(store.payments[j].idempotency_key != store.payments[i].idempotency_key);
    }
}

pub(crate) proof fn lemma_delivery_index(store: StoreView, delivery_id: Seq<char>, i: int)
    requires
        store.deliveries_distinct(),
        store.delivery_at(delivery_id, i),
    ensures
        store.has_delivery(delivery_id),
        store.delivery_index(delivery_id) == i,
{
    let j = store.delivery_index(delivery_id);
    assert(store.delivery_at(delivery_id, j));
    if i < j {
        assert(store.deliveries[i].delivery_id != store.deliveries[j].delivery_id);
    } else if j < i {
        assert(store.deliveries[j].delivery_id != store.deliveries[i].delivery_id);
    }
}

proof fn lemma_tally_bounds(deliveries: Seq<DeliveryRow>, id: Seq<char>, acknowledged: bool)
    requires
        forall|d: int| 0 <= d < deliveries.len() ==> (#[trigger] deliveries[d]).wf(),
    ensures
        deliveries.len() * i64::MIN <= tally(deliveries, id, acknowledged) <= deliveries.len()
            * i64::MAX,
    decreases deliveries.len(),
{
    if deliveries.len() > 0 {
        assert(deliveries.last() == deliveries[deliveries.len() - 1]);
        assert forall|d: int| 0 <= d < deliveries.drop_last().len() implies (
        #[trigger] deliveries.drop_last()[d]).wf() by {
            assert(deliveries.drop_last()[d] == deliveries[d]);
        }
        lemma_tally_bounds(deliveries.drop_last(), id, acknowledged);
    }
}

proof fn lemma_tally_prefix(
    deliveries: Seq<DeliveryRow>,
    id: Seq<char>,
    acknowledged: bool,
    n: int,
)
    requires
        forall|d: int| 0 <= d < deliveries.len() ==> (#[trigger] deliveries[d]).wf(),
        0 <= n <= deliveries.len() <= usize::MAX,
    ensures
        i128::MIN < tally(deliveries.take(n), id, acknowledged) < i128::MAX,
{
    assert forall|d: int| 0 <= d < deliveries.take(n).len() implies (
    #[trigger] deliveries.take(n)[d]).wf() by {
        assert(deliveries.take(n)[d] == deliveries[d]);
    }
    lemma_tally_bounds(deliveries.take(n), id, acknowledged);
    assert(n <= u64::MAX);
}

proof fn lemma_tally_take(
    deliveries: Seq<DeliveryRow>,
    id: Seq<char>,
    acknowledged: bool,
    n: int,
)
    requires
        0 <= n < deliveries.len(),
    ensures
        tally(deliveries.take(n + 1), id, acknowledged) == tally(
            deliveries.take(n),
            id,
            acknowledged,
        ) + weight(deliveries[n], id, acknowledged),
{
    assert(deliveries.take(n + 1).drop_last() =~= deliveries.take(n));
    assert(deliveries.take(n + 1).last() == deliveries[n]);
}

pub(crate) proof fn lemma_tally_absent(deliveries: Seq<DeliveryRow>, id: Seq<char>, acknowledged: bool)
    requires
        forall|d: int| 0 <= d < deliveries.len() ==> (#[trigger] deliveries[d]).transaction_id != id,
    ensures
        tally(deliveries, id, acknowledged) == 0,
    decreases deliveries.len(),
{
    if deliveries.len() > 0 {
        let shorter = deliveries.drop_last();
        assert(deliveries.last() == deliveries[deliveries.len() - 1]);
        assert forall|d: int| 0 <= d < shorter.len() implies (#[trigger] shorter[d]).transaction_id
            != id by {
            assert(shorter[d] == deliveries[d]);
        }
        lemma_tally_absent(shorter, id, acknowledged);
    }
}

pub(crate) proof fn lemma_tally_update(
    deliveries: Seq<DeliveryRow>,
    i: int,
    row: DeliveryRow,
    id: Seq<char>,
    acknowledged: bool,
)
    requires
        0 <= i < deliveries.len(),
    ensures
        tally(deliveries.update(i, row), id, acknowledged) == tally(deliveries, id, acknowledged)
            - weight(deliveries[i], id, acknowledged) + weight(row, id, acknowledged),
    decreases deliveries.len(),
{
    let updated = deliveries.update(i, row);
    if i == deliveries.len() - 1 {
        assert(updated.drop_last() =~= deliveries.drop_last());
    } else {
        assert(updated.drop_last() =~= deliveries.drop_last().update(i, row));
        lemma_tally_update(deliveries.drop_last(), i, row, id, acknowledged);
    }
}

pub(crate) proof fn lemma_tally_quiet(
    deliveries: Seq<DeliveryRow>,
    more: Seq<DeliveryRow>,
    id: Seq<char>,
    acknowledged: bool,
)
    requires
        forall|d: int|
            0 <= d < more.len() ==> (#[trigger] more[d]).attempts == 0
                && more[d].acknowledged_count == 0,
    ensures
        tally(deliveries + more, id, acknowledged) == tally(deliveries, id, acknowledged),
    decreases more.len(),
{
    if more.len() == 0 {
        assert(deliveries + more =~= deliveries);
    } else {
        let fewer = more.drop_last();
        assert((deliveries + more).drop_last() =~= deliveries + fewer);
        assert((deliveries + more).last() == more[more.len() - 1]);
        assert forall|d: int| 0 <= d < fewer.len() implies (#[trigger] fewer[d]).attempts == 0
            && fewer[d].acknowledged_count == 0 by {
            assert(fewer[d] == more[d]);
        }
        lemma_tally_quiet(deliveries, fewer, id, acknowledged);
    }
}

// ----------------------------------------------------------------------------------------
// Reading
// ----------------------------------------------------------------------------------------

/// What reported payments say.
pub open spec fn payment_views(v: Seq<Payment>) -> Seq<PaymentView> {
    v.map_values(|p: Payment| p@)
}

/// What decidable payments say.
pub open spec fn decidable_views(v: Seq<DecidablePayment>) -> Seq<DecidableView> {
    v.map_values(|p: DecidablePayment| p@)
}

/// What deliveries that are due say.
pub open spec fn due_views(v: Seq<DueDelivery>) -> Seq<DueView> {
    v.map_values(|d: DueDelivery| d@)
}

/// The key by which a payment is listed under a booking reference: the newest first.
pub open spec fn listing_key(row: PaymentRow, booking_reference: Seq<char>) -> Option<i64> {
    if row.booking_reference == booking_reference {
        Some((-row.created_at.millis) as i64)
    } else {
        None
    }
}

/// The key by which a payment is decided: the longest known first.
pub open spec fn deciding_key(row: PaymentRow, now: Timestamp) -> Option<i64> {
    if row.decidable(now) {
        Some(row.decide_at.millis)
    } else {
        None
    }
}

/// The key by which a delivery is attempted: the longest due first.
pub open spec fn delivering_key(row: DeliveryRow, now: Timestamp) -> Option<i64> {
    if row.due(now) {
        Some(row.next_attempt_at.millis)
    } else {
        None
    }
}

impl StoreView {
    /// The payments of a booking, as they are reported: the newest first.
    pub open spec fn payments_of(self, booking_reference: Seq<char>) -> Seq<PaymentView> {
        earliest_of(
            self.payments.map_values(|p: PaymentRow| listing_key(p, booking_reference)),
            self.payments.len() as int,
        ).map_values(|i: int| self.report(i))
    }

    /// The plans of the payments to decide now: the longest known first, and no more than
    /// a batch.
    pub open spec fn decidable(self, now: Timestamp) -> Seq<DecidableView> {
        earliest_of(
            self.payments.map_values(|p: PaymentRow| deciding_key(p, now)),
            DECIDE_BATCH as int,
        ).map_values(|i: int| plan_of(self.payments[i]))
    }

    /// A delivery together with the payment that it is of.
    pub open spec fn due_at(self, d: int) -> DueView {
        let delivery = self.deliveries[d];
        due_delivery(delivery, self.payments[self.payment_index(delivery.transaction_id)])
    }

    /// Whether the delivery at a position is of a payment whose outcome was applied.
    pub open spec fn decided_at(self, d: int) -> bool {
        let id = self.deliveries[d].transaction_id;
        self.payments[self.payment_index(id)].decided_at is Some
    }

    /// The positions of the deliveries to attempt now: the longest due first, and no more than
    /// a batch.
    pub open spec fn due_positions(self, now: Timestamp) -> Seq<int> {
        earliest_of(
            self.deliveries.map_values(|d: DeliveryRow| delivering_key(d, now)),
            DELIVER_BATCH as int,
        )
    }

    /// The deliveries to attempt now. It is an error if one of them is of a payment whose
    /// outcome was not applied.
    pub open spec fn due(self, now: Timestamp) -> Result<Seq<DueView>, StoreError> {
        let picked = self.due_positions(now);
        if forall|a: int| 0 <= a < picked.len() ==> self.decided_at(#[trigger] picked[a]) {
            Ok(picked.map_values(|d: int| self.due_at(d)))
        } else {
            Err(StoreError::UndecidedDelivery)
        }
    }
}

impl Store {
    /// The stored payments.
    pub fn payments(&self) -> (v: &Vec<PaymentRecord>)
        ensures
            payment_rows(v@) == self@.payments,
    {
        &self.payments
    }

    /// The stored deliveries.
    pub fn deliveries(&self) -> (v: &Vec<DeliveryRecord>)
        ensures
            delivery_rows(v@) == self@.deliveries,
    {
        &self.deliveries
    }

    fn find_payment(&self, transaction_id: &str) -> (r: Option<usize>)
        requires
            self@.payments_distinct(),
        ensures
            match r {
                Some(i) => {
                    &&& i < self.payments@.len()
                    &&& self@.payment_at(transaction_id@, i as int)
                    &&& self@.has_payment(transaction_id@)
                    &&& self@.payment_index(transaction_id@) == i
                },
                None => !self@.has_payment(transaction_id@),
            },
    {
        let mut i: usize = 0;
        while i < self.payments.len()
            invariant
                i <= self.payments@.len(),
                self@.payments_distinct(),
                forall|j: int| 0 <= j < i ==> !#[trigger] self@.payment_at(transaction_id@, j),
            decreases self.payments@.len() - i,
        {
            if same(self.payments[i].transaction_id.as_str(), transaction_id) {
                proof {
                    lemma_payment_index(self@, transaction_id@, i as int);
                }
                return Some(i);
            }
            i += 1;
        }
        None
    }

    fn find_key(&self, key: &str) -> (r: Option<usize>)
        requires
            self@.payments_distinct(),
        ensures
            match r {
                Some(i) => {
                    &&& i < self.payments@.len()
                    &&& self@.key_at(key@, i as int)
                    &&& self@.has_key(key@)
                    &&& self@.key_index(key@) == i
                },
                None => !self@.has_key(key@),
            },
    {
        let mut i: usize = 0;
        while i < self.payments.len()
            invariant
                i <= self.payments@.len(),
                self@.payments_distinct(),
                forall|j: int| 0 <= j < i ==> !#[trigger] self@.key_at(key@, j),
            decreases self.payments@.len() - i,
        {
            if same_opt(&self.payments[i].idempotency_key, Some(key)) {
                proof {
                    lemma_key_index(self@, key@, i as int);
                }
                return Some(i);
            }
            i += 1;
        }
        None
    }

    fn find_delivery(&self, delivery_id: &str) -> (r: Option<usize>)
        requires
            self@.deliveries_distinct(),
        ensures
            match r {
                Some(i) => {
                    &&& i < self.deliveries@.len()
                    &&& self@.delivery_at(delivery_id@, i as int)
                    &&& self@.has_delivery(delivery_id@)
                    &&& self@.delivery_index(delivery_id@) == i
                },
                None => !self@.has_delivery(delivery_id@),
            },
    {
        let mut i: usize = 0;
        while i < self.deliveries.len()
            invariant
                i <= self.deliveries@.len(),
                self@.deliveries_distinct(),
                forall|j: int| 0 <= j < i ==> !#[trigger] self@.delivery_at(delivery_id@, j),
            decreases self.deliveries@.len() - i,
        {
            if same(self.deliveries[i].delivery_id.as_str(), delivery_id) {
                proof {
                    lemma_delivery_index(self@, delivery_id@, i as int);
                }
                return Some(i);
            }
            i += 1;
        }
        None
    }

    fn sum(&self, transaction_id: &str, acknowledged: bool) -> (n: i128)
        requires
            forall|d: int| 0 <= d < self@.deliveries.len() ==> (#[trigger] self@.deliveries[d]).wf(),
        ensures
            n == tally(self@.deliveries, transaction_id@, acknowledged),
    {
        let mut n: i128 = 0;
        let mut i: usize = 0;
        assert(self@.deliveries.take(0) =~= Seq::empty());
        while i < self.deliveries.len()
            invariant
                i <= self.deliveries@.len(),
                self@.deliveries.len() == self.deliveries@.len(),
                forall|d: int|
                    0 <= d < self@.deliveries.len() ==> (#[trigger] self@.deliveries[d]).wf(),
                n == tally(self@.deliveries.take(i as int), transaction_id@, acknowledged),
            decreases self.deliveries@.len() - i,
        {
            let row = &self.deliveries[i];
            proof {
                assert(row@ == self@.deliveries[i as int]);
                lemma_tally_take(self@.deliveries, transaction_id@, acknowledged, i as int);
                lemma_tally_prefix(self@.deliveries, transaction_id@, acknowledged, i + 1);
            }
            if same(row.transaction_id.as_str(), transaction_id) {
                n = n + if acknowledged {
                    row.acknowledged_count as i128
                } else {
                    row.attempts as i128
                };
            }
            i += 1;
        }
        assert(self@.deliveries.take(i as int) =~= self@.deliveries);
        n
    }

    fn count(&self, transaction_id: &str, acknowledged: bool) -> (n: i64)
        requires
            self@.wf(),
            self@.tallies_fit(transaction_id@),
        ensures
            n == tally(self@.deliveries, transaction_id@, acknowledged),
    {
        self.sum(transaction_id, acknowledged) as i64
    }

    fn report(&self, i: usize) -> (p: Payment)
        requires
            self@.wf(),
            i < self.payments@.len(),
        ensures
            p@ == self@.report(i as int),
            p@.wf(),
    {
        let row = &self.payments[i];
        assert(row@ == self@.payments[i as int]);
        let attempts = self.count(row.transaction_id.as_str(), false);
        let acknowledged = self.count(row.transaction_id.as_str(), true);
        payment_from_row(row, attempts, acknowledged)
    }

    /// Looks up an existing payment by its idempotency key.
    pub fn find_by_idempotency_key(&self, key: &str) -> (r: Option<Payment>)
        requires
            self@.wf(),
        ensures
            match r {
                Some(p) => self@.payment_by_key(key@) == Some(p@) && p@.wf(),
                None => self@.payment_by_key(key@) is None,
            },
    {
        match self.find_key(key) {
            Some(i) => Some(self.report(i)),
            None => None,
        }
    }

    /// Looks up a payment.
    pub fn get_payment(&self, transaction_id: &str) -> (r: Option<Payment>)
        requires
            self@.wf(),
        ensures
            match r {
                Some(p) => self@.payment(transaction_id@) == Some(p@) && p@.wf(),
                None => self@.payment(transaction_id@) is None,
            },
    {
        match self.find_payment(transaction_id) {
            Some(i) => Some(self.report(i)),
            None => None,
        }
    }

    /// The payments of a booking, the newest first.
    pub fn list_by_booking_reference(&self, booking_reference: &str) -> (r: Vec<Payment>)
        requires
            self@.wf(),
        ensures
            payment_views(r@) == self@.payments_of(booking_reference@),
            forall|i: int| 0 <= i < r@.len() ==> (#[trigger] r@[i])@.wf(),
    {
        let ghost wanted = self@.payments.map_values(
            |p: PaymentRow| listing_key(p, booking_reference@),
        );
        let mut keys: Vec<Option<i64>> = Vec::new();
        let mut i: usize = 0;
        while i < self.payments.len()
            invariant
                i <= self.payments@.len(),
                self@.wf(),
                wanted == self@.payments.map_values(
                    |p: PaymentRow| listing_key(p, booking_reference@),
                ),
                keys@ == wanted.take(i as int),
            decreases self.payments@.len() - i,
        {
            let row = &self.payments[i];
            assert(row@ == self@.payments[i as int]);
            assert(row@.wf());
            if same(row.booking_reference.as_str(), booking_reference) {
                keys.push(Some(-row.created_at.millis));
            } else {
                keys.push(None);
            }
            assert(keys@ =~= wanted.take(i + 1));
            i += 1;
        }
        assert(keys@ =~= wanted);
        let picked = earliest(&keys, self.payments.len());
        let mut r: Vec<Payment> = Vec::new();
        let mut n: usize = 0;
        while n < picked.len()
            invariant
                n <= picked@.len(),
                self@.wf(),
                wanted.len() == self.payments@.len(),
                positions(picked@) == earliest_of(wanted, self.payments@.len() as int),
                picks_earliest(wanted, self.payments@.len() as int, positions(picked@)),
                r@.len() == n,
                forall|a: int|
                    0 <= a < n ==> (#[trigger] r@[a])@ == self@.report(picked@[a] as int)
                        && r@[a]@.wf(),
            decreases picked@.len() - n,
        {
            assert(candidate(wanted, positions(picked@)[n as int]));
            r.push(self.report(picked[n]));
            n += 1;
        }
        assert(payment_views(r@) =~= self@.payments_of(booking_reference@));
        r
    }

    /// Payments whose outcome is now known but has not been applied yet.
    pub fn take_decidable(&self, now: Timestamp) -> (r: Vec<DecidablePayment>)
        ensures
            decidable_views(r@) == self@.decidable(now),
    {
        let ghost wanted = self@.payments.map_values(|p: PaymentRow| deciding_key(p, now));
        let mut keys: Vec<Option<i64>> = Vec::new();
        let mut i: usize = 0;
        while i < self.payments.len()
            invariant
                i <= self.payments@.len(),
                wanted == self@.payments.map_values(|p: PaymentRow| deciding_key(p, now)),
                keys@ == wanted.take(i as int),
            decreases self.payments@.len() - i,
        {
            let row = &self.payments[i];
            assert(row@ == self@.payments[i as int]);
            if row.is_pending() && row.decide_at.millis <= now.millis {
                keys.push(Some(row.decide_at.millis));
            } else {
                keys.push(None);
            }
            assert(keys@ =~= wanted.take(i + 1));
            i += 1;
        }
        assert(keys@ =~= wanted);
        let picked = earliest(&keys, DECIDE_BATCH);
        let mut r: Vec<DecidablePayment> = Vec::new();
        let mut n: usize = 0;
        while n < picked.len()
            invariant
                n <= picked@.len(),
                wanted.len() == self.payments@.len(),
                picks_earliest(wanted, DECIDE_BATCH as int, positions(picked@)),
                r@.len() == n,
                forall|a: int|
                    0 <= a < n ==> (#[trigger] r@[a])@ == plan_of(
                        self@.payments[picked@[a] as int],
                    ),
            decreases picked@.len() - n,
        {
            assert(candidate(wanted, positions(picked@)[n as int]));
            let row = &self.payments[picked[n]];
            assert(row@ == self@.payments[picked@[n as int] as int]);
            r.push(decidable_from_row(row));
            n += 1;
        }
        assert(decidable_views(r@) =~= self@.decidable(now));
        r
    }

    /// Deliveries whose next attempt is due.
    pub fn take_due_deliveries(&self, now: Timestamp) -> (r: Result<Vec<DueDelivery>, StoreError>)
        requires
            self@.wf(),
        ensures
            match r {
                Ok(v) => self@.due(now) == Ok::<Seq<DueView>, StoreError>(due_views(v@)),
                Err(e) => self@.due(now) == Err::<Seq<DueView>, StoreError>(e),
            },
            r matches Ok(v) ==> forall|i: int|
                0 <= i < v@.len() ==> (#[trigger] v@[i]).decided_at.wf(),
    {
        let ghost wanted = self@.deliveries.map_values(|d: DeliveryRow| delivering_key(d, now));
        let mut keys: Vec<Option<i64>> = Vec::new();
        let mut i: usize = 0;
        while i < self.deliveries.len()
            invariant
                i <= self.deliveries@.len(),
                wanted == self@.deliveries.map_values(|d: DeliveryRow| delivering_key(d, now)),
                keys@ == wanted.take(i as int),
            decreases self.deliveries@.len() - i,
        {
            let row = &self.deliveries[i];
            assert(row@ == self@.deliveries[i as int]);
            if row.completed_at.is_none() && row.next_attempt_at.millis <= now.millis {
                keys.push(Some(row.next_attempt_at.millis));
            } else {
                keys.push(None);
            }
            assert(keys@ =~= wanted.take(i + 1));
            i += 1;
        }
        assert(keys@ =~= wanted);
        let picked = earliest(&keys, DELIVER_BATCH);
        let ghost places = self@.due_positions(now);
        assert(places == positions(picked@));
        let mut r: Vec<DueDelivery> = Vec::new();
        let mut n: usize = 0;
        while n < picked.len()
            invariant
                n <= picked@.len(),
                self@.wf(),
                wanted.len() == self.deliveries@.len(),
                places == self@.due_positions(now),
                places == positions(picked@),
                picks_earliest(wanted, DELIVER_BATCH as int, places),
                r@.len() == n,
                forall|a: int|
                    0 <= a < n ==> (#[trigger] r@[a])@ == self@.due_at(places[a])
                        && r@[a].decided_at.wf(),
                forall|a: int| 0 <= a < n ==> self@.decided_at(#[trigger] places[a]),
            decreases picked@.len() - n,
        {
            assert(candidate(wanted, places[n as int]));
            assert(places[n as int] == picked@[n as int]);
            let row = &self.deliveries[picked[n]];
            assert(row@ == self@.deliveries[places[n as int]]);
            assert(self@.delivery_owned(places[n as int]));
            let i = self.find_payment(row.transaction_id.as_str()).unwrap();
            let payment = &self.payments[i];
            assert(payment@ == self@.payments[i as int]);
            match payment.decided_at {
                Some(decided_at) => {
                    r.push(due_from_row(row, payment, decided_at));
                },
                None => {
                    assert(!self@.decided_at(places[n as int]));
                    return Err(StoreError::UndecidedDelivery);
                },
            }
            n += 1;
        }
        assert(due_views(r@) =~= places.map_values(|d: int| self@.due_at(d)));
        Ok(r)
    }
}

// ----------------------------------------------------------------------------------------
// Writing
// ----------------------------------------------------------------------------------------

/// What became of a request for a refund.
#[derive(Debug)]
pub enum RefundResult {
    Refunded(String),
    AlreadyRefunded(String),
    NotRefundable(String),
    NotFound,
}

/// What the answer to a request for a refund says.
pub enum RefundView {
    Refunded(Seq<char>),
    AlreadyRefunded(Seq<char>),
    NotRefundable(Seq<char>),
    NotFound,
}

impl View for RefundResult {
    type V = RefundView;

    open spec fn view(&self) -> RefundView {
        match self {
            RefundResult::Refunded(id) => RefundView::Refunded(id@),
            RefundResult::AlreadyRefunded(id) => RefundView::AlreadyRefunded(id@),
            RefundResult::NotRefundable(status) => RefundView::NotRefundable(status@),
            RefundResult::NotFound => RefundView::NotFound,
        }
    }
}

/// Whether `ids` can name new deliveries: no two are the same, and none is taken.
pub open spec fn fresh_ids(store: StoreView, ids: Seq<Seq<char>>) -> bool {
    &&& ids.no_duplicates()
    &&& forall|k: int| 0 <= k < ids.len() ==> !store.has_delivery(#[trigger] ids[k])
}

/// The deliveries that are queued when an outcome is applied. They share one `event_id` and
/// are all due at the same instant.
pub open spec fn queued_deliveries(
    payment: DecidableView,
    event_id: Seq<char>,
    ids: Seq<Seq<char>>,
    now: Timestamp,
) -> Seq<DeliveryRow> {
    let first_attempt_at = Timestamp { millis: (now.millis + payment.deliver_after_ms) as i64 };
    ids.map_values(
        |id: Seq<char>| queued(id, event_id, payment.transaction_id, first_attempt_at, now),
    )
}

impl StoreView {
    /// Accepting a payment: what the store holds then, and whether the payment was written.
    pub open spec fn inserted(self, row: PaymentRow) -> (StoreView, Result<bool, StoreError>) {
        if row.idempotency_key is Some && self.has_key(row.idempotency_key->0) {
            (self, Ok(false))
        } else if self.has_payment(row.transaction_id) {
            (self, Err(StoreError::DuplicateTransaction))
        } else {
            (StoreView { payments: self.payments.push(row), ..self }, Ok(true))
        }
    }

    /// Whether there is a payment with this `transaction_id` whose outcome has not been
    /// applied yet.
    pub open spec fn pending(self, transaction_id: Seq<char>) -> bool {
        self.has_payment(transaction_id) && self.payments[self.payment_index(
            transaction_id,
        )].pending()
    }

    /// Applying an outcome: what the store holds then, and whether it was applied.
    pub open spec fn decision(
        self,
        payment: DecidableView,
        event_id: Seq<char>,
        ids: Seq<Seq<char>>,
        now: Timestamp,
    ) -> (StoreView, Result<bool, StoreError>) {
        let i = self.payment_index(payment.transaction_id);
        if !self.pending(payment.transaction_id) {
            (self, Ok(false))
        } else if !fresh_ids(self, ids) {
            (self, Err(StoreError::DuplicateDelivery))
        } else {
            (
                StoreView {
                    payments: self.payments.update(i, self.payments[i].decided(payment, now)),
                    deliveries: self.deliveries + queued_deliveries(payment, event_id, ids, now),
                },
                Ok(true),
            )
        }
    }

    /// What the store holds once the delivery with this `delivery_id`, if there is one, is
    /// replaced by `row`.
    pub open spec fn with_delivery(self, delivery_id: Seq<char>, row: DeliveryRow) -> StoreView {
        if self.has_delivery(delivery_id) {
            StoreView {
                deliveries: self.deliveries.update(self.delivery_index(delivery_id), row),
                ..self
            }
        } else {
            self
        }
    }

    /// The delivery with this `delivery_id`.
    pub open spec fn delivery(self, delivery_id: Seq<char>) -> DeliveryRow {
        self.deliveries[self.delivery_index(delivery_id)]
    }

    /// Whether one more attempt on this delivery can be counted.
    pub open spec fn has_room(self, delivery_id: Seq<char>) -> bool {
        let row = self.delivery(delivery_id);
        self.has_delivery(delivery_id) ==> {
            &&& row.attempts < i64::MAX
            &&& row.acknowledged_count < i64::MAX
            &&& tally(self.deliveries, row.transaction_id, false) < i64::MAX
            &&& tally(self.deliveries, row.transaction_id, true) < i64::MAX
        }
    }

    /// Refunding a payment: what the store holds then, and what is answered.
    pub open spec fn refunding(
        self,
        transaction_id: Seq<char>,
        refund_id: Seq<char>,
        now: Timestamp,
    ) -> (StoreView, RefundView) {
        let i = self.payment_index(transaction_id);
        let row = self.payments[i];
        if !self.has_payment(transaction_id) {
            (self, RefundView::NotFound)
        } else if row.refund_id is Some {
            (self, RefundView::AlreadyRefunded(row.refund_id->0))
        } else if row.status != "SUCCESS"@ {
            (self, RefundView::NotRefundable(row.status))
        } else {
            (
                StoreView {
                    payments: self.payments.update(i, row.refunded(refund_id, now)),
                    ..self
                },
                RefundView::Refunded(refund_id),
            )
        }
    }
}

proof fn lemma_push_payment(store: StoreView, row: PaymentRow)
    requires
        store.wf(),
        row.wf(),
        !store.has_payment(row.transaction_id),
        row.idempotency_key is Some ==> !store.has_key(row.idempotency_key->0),
    ensures
        (StoreView { payments: store.payments.push(row), ..store }).wf(),
{
    let next = StoreView { payments: store.payments.push(row), ..store };
    let n = store.payments.len() as int;
    assert forall|i: int, j: int|
        #![trigger next.payments[i], next.payments[j]]
        0 <= i < j < next.payments.len() implies {
        &&& next.payments[i].transaction_id != next.payments[j].transaction_id
        &&& next.payments[i].idempotency_key is Some ==> next.payments[i].idempotency_key
            != next.payments[j].idempotency_key
    } by {
        assert(next.payments[i] == store.payments[i]);
        if j == n {
            assert(!store.payment_at(row.transaction_id, i));
            if row.idempotency_key is Some {
                assert(!store.key_at(row.idempotency_key->0, i));
            }
        } else {
            assert(next.payments[j] == store.payments[j]);
        }
    }
    assert forall|d: int| 0 <= d < next.deliveries.len() implies #[trigger] next.delivery_owned(
        d,
    ) by {
        assert(store.delivery_owned(d));
        let id = store.deliveries[d].transaction_id;
        let i = store.payment_index(id);
        assert(store.payment_at(id, i));
        assert(next.payment_at(id, i));
        lemma_payment_index(next, id, i);
    }
    assert forall|i: int| 0 <= i < next.payments.len() implies next.tallies_fit(
        (#[trigger] next.payments[i]).transaction_id,
    ) by {
        if i == n {
            assert forall|d: int| 0 <= d < store.deliveries.len() implies (
            #[trigger] store.deliveries[d]).transaction_id != row.transaction_id by {
                assert(store.delivery_owned(d));
            }
            lemma_tally_absent(store.deliveries, row.transaction_id, false);
            lemma_tally_absent(store.deliveries, row.transaction_id, true);
        } else {
            assert(next.payments[i] == store.payments[i]);
            assert(store.tallies_fit(store.payments[i].transaction_id));
        }
    }
}

proof fn lemma_update_payment(store: StoreView, i: int, row: PaymentRow)
    requires
        store.wf(),
        row.wf(),
        0 <= i < store.payments.len(),
        row.transaction_id == store.payments[i].transaction_id,
        row.idempotency_key == store.payments[i].idempotency_key,
    ensures
        (StoreView { payments: store.payments.update(i, row), ..store }).wf(),
        forall|id: Seq<char>| #[trigger]
            store.has_payment(id) ==> {
                let next = StoreView { payments: store.payments.update(i, row), ..store };
                next.has_payment(id) && next.payment_index(id) == store.payment_index(id)
            },
{
    let next = StoreView { payments: store.payments.update(i, row), ..store };
    assert forall|a: int, b: int|
        #![trigger next.payments[a], next.payments[b]]
        0 <= a < b < next.payments.len() implies {
        &&& next.payments[a].transaction_id != next.payments[b].transaction_id
        &&& next.payments[a].idempotency_key is Some ==> next.payments[a].idempotency_key
            != next.payments[b].idempotency_key
    } by {
        assert(store.payments[a].transaction_id != store.payments[b].transaction_id);
    }
    assert forall|id: Seq<char>| #[trigger] store.has_payment(id) implies next.has_payment(id)
        && next.payment_index(id) == store.payment_index(id) by {
        let j = store.payment_index(id);
        assert(store.payment_at(id, j));
        assert(next.payment_at(id, j));
        lemma_payment_index(next, id, j);
    }
    assert forall|d: int| 0 <= d < next.deliveries.len() implies #[trigger] next.delivery_owned(
        d,
    ) by {
        assert(store.delivery_owned(d));
        assert(store.has_payment(store.deliveries[d].transaction_id));
    }
    assert forall|a: int| 0 <= a < next.payments.len() implies next.tallies_fit(
        (#[trigger] next.payments[a]).transaction_id,
    ) by {
        assert(next.payments[a].transaction_id == store.payments[a].transaction_id);
        assert(store.tallies_fit(store.payments[a].transaction_id));
    }
}

proof fn lemma_push_deliveries(store: StoreView, more: Seq<DeliveryRow>)
    requires
        store.wf(),
        forall|k: int|
            0 <= k < more.len() ==> {
                &&& (#[trigger] more[k]).wf()
                &&& more[k].attempts == 0
                &&& more[k].acknowledged_count == 0
                &&& !store.has_delivery(more[k].delivery_id)
                &&& store.has_payment(more[k].transaction_id)
            },
        forall|a: int, b: int|
            0 <= a < b < more.len() ==> (#[trigger] more[a]).delivery_id != (
            #[trigger] more[b]).delivery_id,
    ensures
        (StoreView { deliveries: store.deliveries + more, ..store }).wf(),
{
    let next = StoreView { deliveries: store.deliveries + more, ..store };
    let n = store.deliveries.len() as int;
    assert forall|d: int| 0 <= d < next.deliveries.len() implies (
    #[trigger] next.deliveries[d]).wf() && next.delivery_owned(d) by {
        if d < n {
            assert(next.deliveries[d] == store.deliveries[d]);
            assert(store.delivery_owned(d));
            let id = store.deliveries[d].transaction_id;
            let i = store.payment_index(id);
            assert(store.payment_at(id, i));
            lemma_payment_index(next, id, i);
        } else {
            assert(next.deliveries[d] == more[d - n]);
            let id = more[d - n].transaction_id;
            let i = store.payment_index(id);
            assert(store.payment_at(id, i));
            lemma_payment_index(next, id, i);
        }
    }
    assert forall|d: int| 0 <= d < next.deliveries.len() implies #[trigger] next.delivery_owned(
        d,
    ) by {
        assert(next.deliveries[d].wf());
    }
    assert forall|a: int, b: int|
        #![trigger next.deliveries[a], next.deliveries[b]]
        0 <= a < b < next.deliveries.len() implies next.deliveries[a].delivery_id
        != next.deliveries[b].delivery_id by {
        if b < n {
            assert(store.deliveries[a].delivery_id != store.deliveries[b].delivery_id);
        } else if a < n {
            assert(!store.has_delivery(more[b - n].delivery_id));
            assert(!store.delivery_at(more[b - n].delivery_id, a));
        } else {
            assert(more[a - n].delivery_id != more[b - n].delivery_id);
        }
    }
    assert forall|i: int| 0 <= i < next.payments.len() implies next.tallies_fit(
        (#[trigger] next.payments[i]).transaction_id,
    ) by {
        let id = next.payments[i].transaction_id;
        assert(store.tallies_fit(store.payments[i].transaction_id));
        lemma_tally_quiet(store.deliveries, more, id, false);
        lemma_tally_quiet(store.deliveries, more, id, true);
    }
}

proof fn lemma_update_delivery(store: StoreView, i: int, row: DeliveryRow)
    requires
        store.wf(),
        row.wf(),
        0 <= i < store.deliveries.len(),
        row.delivery_id == store.deliveries[i].delivery_id,
        row.transaction_id == store.deliveries[i].transaction_id,
        row.attempts == store.deliveries[i].attempts + 1,
        row.acknowledged_count == store.deliveries[i].acknowledged_count || row.acknowledged_count
            == store.deliveries[i].acknowledged_count + 1,
        tally(store.deliveries, row.transaction_id, false) < i64::MAX,
        tally(store.deliveries, row.transaction_id, true) < i64::MAX,
    ensures
        (StoreView { deliveries: store.deliveries.update(i, row), ..store }).wf(),
{
    let next = StoreView { deliveries: store.deliveries.update(i, row), ..store };
    assert forall|d: int| 0 <= d < next.deliveries.len() implies #[trigger] next.delivery_owned(
        d,
    ) by {
        assert(store.delivery_owned(d));
        let id = store.deliveries[d].transaction_id;
        let j = store.payment_index(id);
        assert(store.payment_at(id, j));
        assert(next.payment_at(id, j));
        lemma_payment_index(next, id, j);
    }
    assert forall|a: int, b: int|
        #![trigger next.deliveries[a], next.deliveries[b]]
        0 <= a < b < next.deliveries.len() implies next.deliveries[a].delivery_id
        != next.deliveries[b].delivery_id by {
        assert(store.deliveries[a].delivery_id != store.deliveries[b].delivery_id);
    }
    assert forall|a: int| 0 <= a < next.payments.len() implies next.tallies_fit(
        (#[trigger] next.payments[a]).transaction_id,
    ) by {
        let id = next.payments[a].transaction_id;
        assert(store.tallies_fit(store.payments[a].transaction_id));
        lemma_tally_update(store.deliveries, i, row, id, false);
        lemma_tally_update(store.deliveries, i, row, id, true);
    }
}

proof fn lemma_delivery_tallies(store: StoreView, i: int)
    requires
        store.wf(),
        0 <= i < store.deliveries.len(),
    ensures
        store.deliveries[i].wf(),
        store.tallies_fit(store.deliveries[i].transaction_id),
{
    let id = store.deliveries[i].transaction_id;
    assert(store.delivery_owned(i));
    let j = store.payment_index(id);
    assert(store.payment_at(id, j));
    assert(store.tallies_fit(store.payments[j].transaction_id));
}

impl Store {
    /// Records a newly accepted payment, along with the plan for how it will play out.
    ///
    /// Returns `false` if the `idempotency_key` was already taken, in which case nothing was
    /// written.
    pub fn insert_payment(
        &mut self,
        transaction_id: &str,
        idempotency_key: Option<&str>,
        booking_reference: &str,
        amount_minor: i64,
        currency: &str,
        callback_url: &str,
        scenario: &str,
        plan: &Plan,
        now: Timestamp,
    ) -> (r: Result<bool, StoreError>)
        requires
            old(self)@.wf(),
            now.wf(),
            in_calendar(now.millis + as_signed(plan@.decide_after_ms)),
        ensures
            final(self)@.wf(),
            (final(self)@, r) == old(self)@.inserted(
                accepted(
                    transaction_id@,
                    opt_str_view(idempotency_key),
                    booking_reference@,
                    amount_minor as int,
                    currency@,
                    callback_url@,
                    scenario@,
                    plan@,
                    now,
                ),
            ),
    {
        if let Some(key) = idempotency_key {
            if self.find_key(key).is_some() {
                return Ok(false);
            }
        }
        if self.find_payment(transaction_id).is_some() {
            return Err(StoreError::DuplicateTransaction);
        }
        let row = PaymentRecord::accept(
            transaction_id,
            idempotency_key,
            booking_reference,
            amount_minor,
            currency,
            callback_url,
            scenario,
            plan,
            now,
        );
        proof {
            lemma_push_payment(self@, row@);
        }
        self.payments.push(row);
        assert(self@.payments =~= old(self)@.payments.push(row@));
        Ok(true)
    }

    fn ids_are_fresh(&self, ids: &Vec<String>) -> (r: bool)
        requires
            self@.deliveries_distinct(),
        ensures
            r == fresh_ids(self@, texts(ids@)),
    {
        let ghost names = texts(ids@);
        let mut k: usize = 0;
        while k < ids.len()
            invariant
                k <= ids@.len(),
                names == texts(ids@),
                self@.deliveries_distinct(),
                forall|a: int| 0 <= a < k ==> !self@.has_delivery(#[trigger] names[a]),
                forall|a: int, b: int|
                    0 <= a < b < k ==> #[trigger] names[a] != #[trigger] names[b],
            decreases ids@.len() - k,
        {
            assert(names[k as int] == ids@[k as int]@);
            if self.find_delivery(ids[k].as_str()).is_some() {
                return false;
            }
            let mut j: usize = 0;
            while j < k
                invariant
                    j <= k < ids@.len(),
                    names == texts(ids@),
                    forall|a: int| 0 <= a < j ==> #[trigger] names[a] != names[k as int],
                decreases k - j,
            {
                assert(names[j as int] == ids@[j as int]@);
                assert(names[k as int] == ids@[k as int]@);
                if same(ids[j].as_str(), ids[k].as_str()) {
                    return false;
                }
                j += 1;
            }
            k += 1;
        }
        true
    }

    /// Applies a decided outcome and queues one delivery for each of `delivery_ids`.
    ///
    /// It does so only while the payment is still `PENDING`, so two overlapping ticks cannot
    /// both queue a delivery for the same payment.
    pub fn decide(
        &mut self,
        payment: &DecidablePayment,
        event_id: &str,
        delivery_ids: &Vec<String>,
        now: Timestamp,
    ) -> (r: Result<bool, StoreError>)
        requires
            old(self)@.wf(),
            now.wf(),
            in_calendar(now.millis + payment.deliver_after_ms),
        ensures
            final(self)@.wf(),
            (final(self)@, r) == old(self)@.decision(
                payment@,
                event_id@,
                texts(delivery_ids@),
                now,
            ),
    {
        // Non-zero only for the `late_success` scenario, which delivers long after the outcome
        // is known.
        let first_attempt_at = now.plus(payment.deliver_after_ms);
        let i = match self.find_payment(payment.transaction_id.as_str()) {
            Some(i) => i,
            None => {
                return Ok(false);
            },
        };
        assert(self.payments@[i as int]@ == self@.payments[i as int]);
        if !self.payments[i].is_pending() {
            return Ok(false);
        }
        if !self.ids_are_fresh(delivery_ids) {
            return Err(StoreError::DuplicateDelivery);
        }
        let ghost before = self@;
        let ghost row = before.payments[i as int].decided(payment@, now);
        self.payments[i].status = payment.outcome.as_str().to_owned();
        self.payments[i].failure_reason = copy_opt(&payment.failure_reason);
        self.payments[i].decided_at = Some(now);
        assert(self@.payments =~= before.payments.update(i as int, row));
        assert(self@.deliveries =~= before.deliveries);
        proof {
            lemma_update_payment(before, i as int, row);
        }
        let ghost decided = self@;
        let ghost more = queued_deliveries(payment@, event_id@, texts(delivery_ids@), now);
        let mut k: usize = 0;
        while k < delivery_ids.len()
            invariant
                k <= delivery_ids@.len(),
                more == queued_deliveries(payment@, event_id@, texts(delivery_ids@), now),
                first_attempt_at.millis == now.millis + payment.deliver_after_ms,
                self@.payments == decided.payments,
                self@.deliveries == decided.deliveries + more.take(k as int),
            decreases delivery_ids@.len() - k,
        {
            let row = DeliveryRecord::queue(
                delivery_ids[k].as_str(),
                event_id,
                payment.transaction_id.as_str(),
                first_attempt_at,
                now,
            );
            let ghost so_far = self@;
            self.deliveries.push(row);
            assert(row@ == more[k as int]);
            assert(self@.payments =~= so_far.payments);
            assert(self@.deliveries =~= so_far.deliveries.push(row@));
            assert(self@.deliveries =~= decided.deliveries + more.take(k + 1));
            k += 1;
        }
        proof {
            assert(more.take(k as int) =~= more);
            let id = payment@.transaction_id;
            assert(before.has_payment(id));
            let ids = texts(delivery_ids@);
            assert forall|a: int| 0 <= a < more.len() implies {
                &&& (#[trigger] more[a]).wf()
                &&& more[a].attempts == 0
                &&& more[a].acknowledged_count == 0
                &&& !decided.has_delivery(more[a].delivery_id)
                &&& decided.has_payment(more[a].transaction_id)
            } by {
                assert(!before.has_delivery(ids[a]));
                assert forall|d: int| !#[trigger] decided.delivery_at(ids[a], d) by {
                    assert(!before.delivery_at(ids[a], d));
                }
            }
            assert forall|a: int, b: int| 0 <= a < b < more.len() implies (
            #[trigger] more[a]).delivery_id != (#[trigger] more[b]).delivery_id by {
                assert(ids[a] != ids[b]);
            }
            lemma_push_deliveries(decided, more);
        }
        Ok(true)
    }

    /// Applies a decided outcome and, if the plan calls for it, queues the webhook.
    ///
    /// One delivery is queued per intended delivery, every one due at once: a planned
    /// duplicate goes out *simultaneously* rather than politely spaced out.
    pub fn apply_decision(
        &mut self,
        payment: &DecidablePayment,
        event_id: &str,
        now: Timestamp,
    ) -> (r: Result<bool, StoreError>)
        requires
            old(self)@.wf(),
            now.wf(),
            in_calendar(now.millis + payment.deliver_after_ms),
        ensures
            final(self)@.wf(),
            exists|ids: Seq<Seq<char>>|
                {
                    &&& new_delivery_ids(payment@, ids)
                    &&& (final(self)@, r) == #[trigger] old(self)@.decision(
                        payment@,
                        event_id@,
                        ids,
                        now,
                    )
                },
    {
        let mut delivery_ids: Vec<String> = Vec::new();
        if payment.deliver_webhook {
            let copies: i64 = if payment.deliveries < 1 {
                1
            } else {
                payment.deliveries
            };
            let mut k: i64 = 0;
            while k < copies
                invariant
                    0 <= k <= copies,
                    delivery_ids@.len() == k,
                    forall|a: int|
                        0 <= a < k ==> id_with_prefix(
                            #[trigger] texts(delivery_ids@)[a],
                            "dlv_"@,
                        ),
                decreases copies - k,
            {
                let ghost so_far = texts(delivery_ids@);
                let id = new_delivery_id();
                delivery_ids.push(id);
                assert(texts(delivery_ids@) =~= so_far.push(id@));
                k += 1;
            }
        }
        assert(new_delivery_ids(payment@, texts(delivery_ids@)));
        self.decide(payment, event_id, &delivery_ids, now)
    }

    /// Whether one more attempt on this delivery can be counted.
    pub fn can_count_attempt(&self, delivery_id: &str) -> (r: bool)
        requires
            self@.wf(),
        ensures
            r == self@.has_room(delivery_id@),
    {
        match self.find_delivery(delivery_id) {
            Some(i) => {
                proof {
                    lemma_delivery_tallies(self@, i as int);
                }
                let row = &self.deliveries[i];
                assert(row@ == self@.deliveries[i as int]);
                row.attempts < i64::MAX && row.acknowledged_count < i64::MAX && self.count(
                    row.transaction_id.as_str(),
                    false,
                ) < i64::MAX && self.count(row.transaction_id.as_str(), true) < i64::MAX
            },
            None => true,
        }
    }

    /// Records a rejected attempt for one delivery and schedules its next try.
    pub fn record_attempt_failed(
        &mut self,
        delivery_id: &str,
        status_code: Option<u16>,
        error: &str,
        retry_after_ms: u64,
        now: Timestamp,
    )
        requires
            old(self)@.wf(),
            old(self)@.has_room(delivery_id@),
            in_calendar(now.millis + retry_delay(retry_after_ms as int)),
        ensures
            final(self)@.wf(),
            final(self)@ == old(self)@.with_delivery(
                delivery_id@,
                old(self)@.delivery(delivery_id@).failed(
                    status_code,
                    error@,
                    retry_after_ms as int,
                    now,
                ),
            ),
    {
        if let Some(i) = self.find_delivery(delivery_id) {
            let ghost before = self@;
            proof {
                lemma_delivery_tallies(before, i as int);
                assert(self.deliveries@[i as int]@ == before.deliveries[i as int]);
                assert(before.deliveries[i as int].wf());
            }
            self.deliveries[i].fail(status_code, error, retry_after_ms, now);
            proof {
                let row = self.deliveries@[i as int]@;
                assert(self@.deliveries =~= before.deliveries.update(i as int, row));
                assert(self@.payments =~= before.payments);
                lemma_update_delivery(before, i as int, row);
            }
        }
    }

    /// Records a 2xx and completes this delivery.
    ///
    /// Deliveries are independent: a duplicate is a second delivery with the same `event_id`,
    /// and it completes on its own acknowledgement.
    pub fn record_attempt_acknowledged(
        &mut self,
        delivery_id: &str,
        status_code: u16,
        now: Timestamp,
    )
        requires
            old(self)@.wf(),
            old(self)@.has_room(delivery_id@),
            now.wf(),
        ensures
            final(self)@.wf(),
            final(self)@ == old(self)@.with_delivery(
                delivery_id@,
                old(self)@.delivery(delivery_id@).acknowledged(status_code, now),
            ),
    {
        if let Some(i) = self.find_delivery(delivery_id) {
            let ghost before = self@;
            proof {
                lemma_delivery_tallies(before, i as int);
                assert(self.deliveries@[i as int]@ == before.deliveries[i as int]);
                assert(before.deliveries[i as int].wf());
            }
            self.deliveries[i].acknowledge(status_code, now);
            proof {
                let row = self.deliveries@[i as int]@;
                assert(self@.deliveries =~= before.deliveries.update(i as int, row));
                assert(self@.payments =~= before.payments);
                lemma_update_delivery(before, i as int, row);
            }
        }
    }

    /// Refunds a successful payment under the given `refund_id`, if it is not refunded yet.
    pub fn refund_as(
        &mut self,
        transaction_id: &str,
        refund_id: String,
        now: Timestamp,
    ) -> (r: RefundResult)
        requires
            old(self)@.wf(),
            now.wf(),
        ensures
            final(self)@.wf(),
            (final(self)@, r@) == old(self)@.refunding(transaction_id@, refund_id@, now),
    {
        let i = match self.find_payment(transaction_id) {
            Some(i) => i,
            None => {
                return RefundResult::NotFound;
            },
        };
        let ghost before = self@;
        assert(self.payments@[i as int]@ == before.payments[i as int]);
        assert(before.payments[i as int].wf());
        if let Some(existing) = &self.payments[i].refund_id {
            return RefundResult::AlreadyRefunded(existing.clone());
        }
        if !same(self.payments[i].status.as_str(), "SUCCESS") {
            return RefundResult::NotRefundable(self.payments[i].status.clone());
        }
        // `status` deliberately stays SUCCESS. A refund is a separate fact about a payment
        // that did succeed, not a retroactive change to its outcome.
        self.payments[i].refund_id = Some(refund_id.clone());
        self.payments[i].refunded_at = Some(now);
        proof {
            let row = before.payments[i as int].refunded(refund_id@, now);
            assert(self@.payments =~= before.payments.update(i as int, row));
            assert(self@.deliveries =~= before.deliveries);
            lemma_update_payment(before, i as int, row);
        }
        RefundResult::Refunded(refund_id)
    }

    /// Refunds a successful payment. Idempotent: calling it twice returns the same id.
    pub fn refund(&mut self, transaction_id: &str, now: Timestamp) -> (r: RefundResult)
        requires
            old(self)@.wf(),
            now.wf(),
        ensures
            final(self)@.wf(),
            exists|refund_id: Seq<char>|
                {
                    &&& id_with_prefix(refund_id, "rfnd_"@)
                    &&& (final(self)@, r@) == #[trigger] old(self)@.refunding(
                        transaction_id@,
                        refund_id,
                        now,
                    )
                },
    {
        let refund_id = new_refund_id();
        self.refund_as(transaction_id, refund_id, now)
    }
}

/// Whether `ids` are identifiers as they are made for the deliveries of a payment.
pub open spec fn new_delivery_ids(payment: DecidableView, ids: Seq<Seq<char>>) -> bool {
    &&& ids.len() == payment.copies()
    &&& forall|k: int| 0 <= k < ids.len() ==> id_with_prefix(#[trigger] ids[k], "dlv_"@)
}

// ----------------------------------------------------------------------------------------
// Opening
// ----------------------------------------------------------------------------------------

impl Store {
    /// Opens the store on the rows that were written down. Rows that contradict each other
    /// are refused.
    pub fn open(
        payments: Vec<PaymentRecord>,
        deliveries: Vec<DeliveryRecord>,
    ) -> (r: Result<Store, StoreError>)
        ensures
            ({
                let rows = StoreView {
                    payments: payment_rows(payments@),
                    deliveries: delivery_rows(deliveries@),
                };
                match r {
                    Ok(store) => rows.wf() && store@ == rows,
                    Err(e) => !rows.wf() && e == StoreError::Inconsistent,
                }
            }),
    {
        let store = Store { payments, deliveries };
        if store.is_consistent() {
            Ok(store)
        } else {
            Err(StoreError::Inconsistent)
        }
    }

    fn are_payments_distinct(&self) -> (r: bool)
        ensures
            r == self@.payments_distinct(),
    {
        let mut j: usize = 0;
        while j < self.payments.len()
            invariant
                j <= self.payments@.len(),
                forall|a: int, b: int|
                    #![trigger self@.payments[a], self@.payments[b]]
                    0 <= a < b < j ==> {
                        &&& self@.payments[a].transaction_id != self@.payments[b].transaction_id
                        &&& self@.payments[a].idempotency_key is Some
                            ==> self@.payments[a].idempotency_key
                            != self@.payments[b].idempotency_key
                    },
            decreases self.payments@.len() - j,
        {
            let mut i: usize = 0;
            while i < j
                invariant
                    i <= j < self.payments@.len(),
                    forall|a: int|
                        0 <= a < i ==> {
                            &&& (#[trigger] self@.payments[a]).transaction_id
                                != self@.payments[j as int].transaction_id
                            &&& self@.payments[a].idempotency_key is Some
                                ==> self@.payments[a].idempotency_key
                                != self@.payments[j as int].idempotency_key
                        },
                decreases j - i,
            {
                let a = &self.payments[i];
                let b = &self.payments[j];
                assert(a@ == self@.payments[i as int] && b@ == self@.payments[j as int]);
                if same(a.transaction_id.as_str(), b.transaction_id.as_str()) {
                    return false;
                }
                if let Some(key) = &a.idempotency_key {
                    if same_opt(&b.idempotency_key, Some(key.as_str())) {
                        return false;
                    }
                }
                i += 1;
            }
            j += 1;
        }
        true
    }

    fn are_deliveries_distinct(&self) -> (r: bool)
        ensures
            r == self@.deliveries_distinct(),
    {
        let mut j: usize = 0;
        while j < self.deliveries.len()
            invariant
                j <= self.deliveries@.len(),
                forall|a: int, b: int|
                    #![trigger self@.deliveries[a], self@.deliveries[b]]
                    0 <= a < b < j ==> self@.deliveries[a].delivery_id
                        != self@.deliveries[b].delivery_id,
            decreases self.deliveries@.len() - j,
        {
            let mut i: usize = 0;
            while i < j
                invariant
                    i <= j < self.deliveries@.len(),
                    forall|a: int|
                        0 <= a < i ==> (#[trigger] self@.deliveries[a]).delivery_id
                            != self@.deliveries[j as int].delivery_id,
                decreases j - i,
            {
                let a = &self.deliveries[i];
                let b = &self.deliveries[j];
                assert(a@ == self@.deliveries[i as int] && b@ == self@.deliveries[j as int]);
                if same(a.delivery_id.as_str(), b.delivery_id.as_str()) {
                    return false;
                }
                i += 1;
            }
            j += 1;
        }
        true
    }

    fn do_tallies_fit(&self, transaction_id: &str) -> (r: bool)
        requires
            forall|d: int| 0 <= d < self@.deliveries.len() ==> (#[trigger] self@.deliveries[d]).wf(),
        ensures
            r == self@.tallies_fit(transaction_id@),
    {
        let attempts = self.sum(transaction_id, false);
        let acknowledged = self.sum(transaction_id, true);
        i64::MIN as i128 <= attempts && attempts <= i64::MAX as i128 && i64::MIN as i128
            <= acknowledged && acknowledged <= i64::MAX as i128
    }

    fn is_consistent(&self) -> (r: bool)
        ensures
            r == self@.wf(),
    {
        if !self.are_payments_distinct() || !self.are_deliveries_distinct() {
            return false;
        }
        let mut d: usize = 0;
        while d < self.deliveries.len()
            invariant
                d <= self.deliveries@.len(),
                self@.payments_distinct(),
                forall|a: int|
                    0 <= a < d ==> (#[trigger] self@.deliveries[a]).wf(),
                forall|a: int| 0 <= a < d ==> #[trigger] self@.delivery_owned(a),
            decreases self.deliveries@.len() - d,
        {
            let row = &self.deliveries[d];
            assert(row@ == self@.deliveries[d as int]);
            if !row.is_valid() {
                return false;
            }
            let owned = self.find_payment(row.transaction_id.as_str()).is_some();
            assert(owned == self@.delivery_owned(d as int));
            if !owned {
                return false;
            }
            d += 1;
        }
        let mut i: usize = 0;
        while i < self.payments.len()
            invariant
                i <= self.payments@.len(),
                forall|a: int| 0 <= a < self@.deliveries.len() ==> (#[trigger] self@.deliveries[a]).wf(),
                forall|a: int| 0 <= a < i ==> (#[trigger] self@.payments[a]).wf(),
                forall|a: int|
                    0 <= a < i ==> self@.tallies_fit((#[trigger] self@.payments[a]).transaction_id),
            decreases self.payments@.len() - i,
        {
            let row = &self.payments[i];
            assert(row@ == self@.payments[i as int]);
            if !row.is_valid() || !self.do_tallies_fit(row.transaction_id.as_str()) {
                return false;
            }
            i += 1;
        }
        true
    }
}

/// Each error says which row is not taken or cannot be read.
pub proof fn store_error_says_what_is_wrong(e: StoreError)
    ensures
        e is DuplicateTransaction ==> e.said()
            == "error returned from database: (code: 1555) UNIQUE constraint failed: payments.transaction_id"@,
        e is DuplicateDelivery ==> e.said()
            == "error returned from database: (code: 1555) UNIQUE constraint failed: webhook_deliveries.delivery_id"@,
        e is UndecidedDelivery ==> e.said()
            == "error occurred while decoding column \"decided_at\": unexpected null; try decoding as an `Option`"@,
        e is Inconsistent ==> e.said() == "the stored rows contradict each other"@,
{
}

} // verus!
