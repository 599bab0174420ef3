//! What the gateway writes down about payments and webhook deliveries.
//!
//! Everything about a payment's future — outcome, timing, delivery count — is written down
//! when the payment is accepted, and every delivery attempt as it happens. That is what makes
//! "keep retrying the webhook until it is acknowledged" survive a restart.

use vstd::prelude::*;

use crate::clock::Timestamp;
use crate::gateway::outcome::{Outcome, Plan, PlanView};
use crate::text::{copy_opt, opt_view, own_opt, same};

verus! {

// ----------------------------------------------------------------------------------------
// Payments as they are stored
// ----------------------------------------------------------------------------------------

/// A payment as it is stored.
#[derive(Debug)]
pub struct PaymentRecord {
    pub transaction_id: String,
    pub idempotency_key: Option<String>,
    pub booking_reference: String,
    pub amount_minor: i64,
    pub currency: String,
    pub callback_url: String,
    pub scenario: String,
    pub status: String,
    pub failure_reason: Option<String>,
    pub planned_outcome: String,
    pub planned_failure_reason: Option<String>,
    pub deliver_webhook: bool,
    pub deliver_after_ms: i64,
    pub planned_deliveries: i64,
    pub created_at: Timestamp,
    pub decide_at: Timestamp,
    pub decided_at: Option<Timestamp>,
    pub refund_id: Option<String>,
    pub refunded_at: Option<Timestamp>,
}

/// What a stored payment says.
#[verifier::ext_equal]
pub struct PaymentRow {
    pub transaction_id: Seq<char>,
    pub idempotency_key: Option<Seq<char>>,
    pub booking_reference: Seq<char>,
    pub amount_minor: int,
    pub currency: Seq<char>,
    pub callback_url: Seq<char>,
    pub scenario: Seq<char>,
    pub status: Seq<char>,
    pub failure_reason: Option<Seq<char>>,
    pub planned_outcome: Seq<char>,
    pub planned_failure_reason: Option<Seq<char>>,
    pub deliver_webhook: bool,
    pub deliver_after_ms: int,
    pub planned_deliveries: int,
    pub created_at: Timestamp,
    pub decide_at: Timestamp,
    pub decided_at: Option<Timestamp>,
    pub refund_id: Option<Seq<char>>,
    pub refunded_at: Option<Timestamp>,
}

impl View for PaymentRecord {
    type V = PaymentRow;

    open spec fn view(&self) -> PaymentRow {
        PaymentRow {
            transaction_id: self.transaction_id@,
            idempotency_key: opt_view(self.idempotency_key),
            booking_reference: self.booking_reference@,
            amount_minor: self.amount_minor as int,
            currency: self.currency@,
            callback_url: self.callback_url@,
            scenario: self.scenario@,
            status: self.status@,
            failure_reason: opt_view(self.failure_reason),
            planned_outcome: self.planned_outcome@,
            planned_failure_reason: opt_view(self.planned_failure_reason),
            deliver_webhook: self.deliver_webhook,
            deliver_after_ms: self.deliver_after_ms as int,
            planned_deliveries: self.planned_deliveries as int,
            created_at: self.created_at,
            decide_at: self.decide_at,
            decided_at: self.decided_at,
            refund_id: opt_view(self.refund_id),
            refunded_at: self.refunded_at,
        }
    }
}

/// Whether a point in time is missing or within the calendar.
pub open spec fn opt_wf(at: Option<Timestamp>) -> bool {
    at matches Some(t) ==> t.wf()
}

fn opt_is_valid(at: Option<Timestamp>) -> (r: bool)
    ensures
        r == opt_wf(at),
{
    match at {
        Some(t) => t.is_valid(),
        None => true,
    }
}

impl PaymentRow {
    /// Whether every point in time in it is within the calendar.
    pub open spec fn wf(self) -> bool {
        &&& self.created_at.wf()
        &&& self.decide_at.wf()
        &&& opt_wf(self.decided_at)
        &&& opt_wf(self.refunded_at)
    }

    /// Whether the outcome of this payment has not been applied yet.
    pub open spec fn pending(self) -> bool {
        self.status == "PENDING"@
    }

    /// Whether the outcome of this payment has not been applied yet and is known by now.
    pub open spec fn decidable(self, now: Timestamp) -> bool {
        self.pending() && self.decide_at.millis <= now.millis
    }

    /// This payment once its outcome has been applied.
    pub open spec fn decided(self, payment: DecidableView, now: Timestamp) -> PaymentRow {
        PaymentRow {
            status: payment.outcome.label(),
            failure_reason: payment.failure_reason,
            decided_at: Some(now),
            ..self
        }
    }

    /// This payment once it has been refunded. Its status stays what it was.
    pub open spec fn refunded(self, refund_id: Seq<char>, now: Timestamp) -> PaymentRow {
        PaymentRow { refund_id: Some(refund_id), refunded_at: Some(now), ..self }
    }
}

/// A number of milliseconds as the database keeps it: it has 64 bits and a sign.
pub open spec fn as_signed(n: int) -> int {
    if n <= i64::MAX {
        n
    } else {
        n - 0x1_0000_0000_0000_0000
    }
}

/// A number of milliseconds as the database keeps it.
pub fn to_signed(n: u64) -> (r: i64)
    ensures
        r == as_signed(n as int),
{
    if n <= 0x7fff_ffff_ffff_ffff {
        n as i64
    } else {
        -1 - ((u64::MAX - n) as i64)
    }
}

/// What a payment that was just accepted is stored as.
pub open spec fn accepted(
    transaction_id: Seq<char>,
    idempotency_key: Option<Seq<char>>,
    booking_reference: Seq<char>,
    amount_minor: int,
    currency: Seq<char>,
    callback_url: Seq<char>,
    scenario: Seq<char>,
    plan: PlanView,
    now: Timestamp,
) -> PaymentRow {
    PaymentRow {
        transaction_id,
        idempotency_key,
        booking_reference,
        amount_minor,
        currency,
        callback_url,
        scenario,
        status: "PENDING"@,
        failure_reason: None,
        planned_outcome: plan.outcome.label(),
        planned_failure_reason: plan.failure_reason,
        deliver_webhook: plan.deliver_webhook,
        deliver_after_ms: as_signed(plan.deliver_after_ms),
        planned_deliveries: plan.deliveries,
        created_at: now,
        decide_at: Timestamp { millis: (now.millis + as_signed(plan.decide_after_ms)) as i64 },
        decided_at: None,
        refund_id: None,
        refunded_at: None,
    }
}

impl PaymentRecord {
    /// A payment that was just accepted, along with the plan for how it will play out.
    pub fn accept(
        transaction_id: &str,
        idempotency_key: Option<&str>,
        booking_reference: &str,
        amount_minor: i64,
        currency: &str,
        callback_url: &str,
        scenario: &str,
        plan: &Plan,
        now: Timestamp,
    ) -> (r: PaymentRecord)
        requires
            now.wf(),
            crate::clock::in_calendar(now.millis + as_signed(plan@.decide_after_ms)),
        ensures
            r@ == accepted(
                transaction_id@,
                crate::text::opt_str_view(idempotency_key),
                booking_reference@,
                amount_minor as int,
                currency@,
                callback_url@,
                scenario@,
                plan@,
                now,
            ),
            r@.wf(),
    {
        PaymentRecord {
            transaction_id: transaction_id.to_owned(),
            idempotency_key: own_opt(idempotency_key),
            booking_reference: booking_reference.to_owned(),
            amount_minor,
            currency: currency.to_owned(),
            callback_url: callback_url.to_owned(),
            scenario: scenario.to_owned(),
            status: "PENDING".to_owned(),
            failure_reason: None,
            planned_outcome: plan.outcome.as_str().to_owned(),
            planned_failure_reason: own_opt(plan.failure_reason),
            deliver_webhook: plan.deliver_webhook,
            deliver_after_ms: to_signed(plan.deliver_after_ms),
            planned_deliveries: plan.deliveries,
            created_at: now,
            decide_at: now.plus(to_signed(plan.decide_after_ms)),
            decided_at: None,
            refund_id: None,
            refunded_at: None,
        }
    }

    /// Whether every point in time in it is within the calendar.
    pub fn is_valid(&self) -> (r: bool)
        ensures
            r == self@.wf(),
    {
        self.created_at.is_valid() && self.decide_at.is_valid() && opt_is_valid(self.decided_at)
            && opt_is_valid(self.refunded_at)
    }

    /// Whether the outcome of this payment has not been applied yet.
    pub fn is_pending(&self) -> (r: bool)
        ensures
            r == self@.pending(),
    {
        same(self.status.as_str(), "PENDING")
    }
}

// ----------------------------------------------------------------------------------------
// Deliveries as they are stored
// ----------------------------------------------------------------------------------------

/// An intended delivery as it is stored. A planned duplicate is two of these that share one
/// `event_id`, both due at the same instant.
#[derive(Debug)]
pub struct DeliveryRecord {
    pub delivery_id: String,
    pub event_id: String,
    pub transaction_id: String,
    pub attempts: i64,
    pub acknowledged_count: i64,
    pub next_attempt_at: Timestamp,
    pub last_status_code: Option<i64>,
    pub last_error: Option<String>,
    pub created_at: Timestamp,
    pub completed_at: Option<Timestamp>,
}

/// What a stored delivery says.
#[verifier::ext_equal]
pub struct DeliveryRow {
    pub delivery_id: Seq<char>,
    pub event_id: Seq<char>,
    pub transaction_id: Seq<char>,
    pub attempts: int,
    pub acknowledged_count: int,
    pub next_attempt_at: Timestamp,
    pub last_status_code: Option<i64>,
    pub last_error: Option<Seq<char>>,
    pub created_at: Timestamp,
    pub completed_at: Option<Timestamp>,
}

impl View for DeliveryRecord {
    type V = DeliveryRow;

    open spec fn view(&self) -> DeliveryRow {
        DeliveryRow {
            delivery_id: self.delivery_id@,
            event_id: self.event_id@,
            transaction_id: self.transaction_id@,
            attempts: self.attempts as int,
            acknowledged_count: self.acknowledged_count as int,
            next_attempt_at: self.next_attempt_at,
            last_status_code: self.last_status_code,
            last_error: opt_view(self.last_error),
            created_at: self.created_at,
            completed_at: self.completed_at,
        }
    }
}

/// A status code as the database keeps it.
pub open spec fn stored_code(code: Option<u16>) -> Option<i64> {
    match code {
        Some(c) => Some(c as i64),
        None => None,
    }
}

/// How long a retry is put off. A delay too long for the calendar is no delay at all.
pub open spec fn retry_delay(retry_after_ms: int) -> int {
    if retry_after_ms <= i64::MAX {
        retry_after_ms
    } else {
        0
    }
}

impl DeliveryRow {
    /// Whether every point in time in it is within the calendar, and the counts are numbers of
    /// 64 bits.
    pub open spec fn wf(self) -> bool {
        &&& self.next_attempt_at.wf()
        &&& self.created_at.wf()
        &&& opt_wf(self.completed_at)
        &&& i64::MIN <= self.attempts <= i64::MAX
        &&& i64::MIN <= self.acknowledged_count <= i64::MAX
    }

    /// Whether this delivery was acknowledged and is over.
    pub open spec fn complete(self) -> bool {
        self.completed_at is Some
    }

    /// Whether the next attempt is to be made by now.
    pub open spec fn due(self, now: Timestamp) -> bool {
        !self.complete() && self.next_attempt_at.millis <= now.millis
    }

    /// This delivery after an attempt that was not acknowledged.
    pub open spec fn failed(
        self,
        status_code: Option<u16>,
        error: Seq<char>,
        retry_after_ms: int,
        now: Timestamp,
    ) -> DeliveryRow {
        DeliveryRow {
            attempts: self.attempts + 1,
            last_status_code: stored_code(status_code),
            last_error: Some(error),
            next_attempt_at: Timestamp { millis: (now.millis + retry_delay(retry_after_ms)) as i64 },
            ..self
        }
    }

    /// This delivery after an attempt that was acknowledged.
    pub open spec fn acknowledged(self, status_code: u16, now: Timestamp) -> DeliveryRow {
        DeliveryRow {
            attempts: self.attempts + 1,
            acknowledged_count: self.acknowledged_count + 1,
            last_status_code: Some(status_code as i64),
            last_error: None,
            completed_at: Some(now),
            ..self
        }
    }
}

/// A delivery that was just queued.
pub open spec fn queued(
    delivery_id: Seq<char>,
    event_id: Seq<char>,
    transaction_id: Seq<char>,
    first_attempt_at: Timestamp,
    now: Timestamp,
) -> DeliveryRow {
    DeliveryRow {
        delivery_id,
        event_id,
        transaction_id,
        attempts: 0,
        acknowledged_count: 0,
        next_attempt_at: first_attempt_at,
        last_status_code: None,
        last_error: None,
        created_at: now,
        completed_at: None,
    }
}

impl DeliveryRecord {
    /// A delivery that was just queued.
    pub fn queue(
        delivery_id: &str,
        event_id: &str,
        transaction_id: &str,
        first_attempt_at: Timestamp,
        now: Timestamp,
    ) -> (r: DeliveryRecord)
        ensures
            r@ == queued(delivery_id@, event_id@, transaction_id@, first_attempt_at, now),
    {
        DeliveryRecord {
            delivery_id: delivery_id.to_owned(),
            event_id: event_id.to_owned(),
            transaction_id: transaction_id.to_owned(),
            attempts: 0,
            acknowledged_count: 0,
            next_attempt_at: first_attempt_at,
            last_status_code: None,
            last_error: None,
            created_at: now,
            completed_at: None,
        }
    }

    /// Whether every point in time in it is within the calendar.
    pub fn is_valid(&self) -> (r: bool)
        ensures
            r == self@.wf(),
    {
        self.next_attempt_at.is_valid() && self.created_at.is_valid() && opt_is_valid(
            self.completed_at,
        )
    }

    /// Records a rejected attempt and schedules the next try.
    pub fn fail(
        &mut self,
        status_code: Option<u16>,
        error: &str,
        retry_after_ms: u64,
        now: Timestamp,
    )
        requires
            old(self)@.wf(),
            old(self).attempts < i64::MAX,
            crate::clock::in_calendar(now.millis + retry_delay(retry_after_ms as int)),
        ensures
            final(self)@ == old(self)@.failed(status_code, error@, retry_after_ms as int, now),
            final(self)@.wf(),
    {
        let delay: i64 = if retry_after_ms <= 0x7fff_ffff_ffff_ffff {
            retry_after_ms as i64
        } else {
            0
        };
        self.attempts = self.attempts + 1;
        self.last_status_code = match status_code {
            Some(code) => Some(code as i64),
            None => None,
        };
        self.last_error = Some(error.to_owned());
        self.next_attempt_at = now.plus(delay);
    }

    /// Records a 2xx and completes this delivery.
    pub fn acknowledge(&mut self, status_code: u16, now: Timestamp)
        requires
            old(self)@.wf(),
            old(self).attempts < i64::MAX,
            old(self).acknowledged_count < i64::MAX,
            now.wf(),
        ensures
            final(self)@ == old(self)@.acknowledged(status_code, now),
            final(self)@.wf(),
    {
        self.attempts = self.attempts + 1;
        self.acknowledged_count = self.acknowledged_count + 1;
        self.last_status_code = Some(status_code as i64);
        self.last_error = None;
        self.completed_at = Some(now);
    }
}

// ----------------------------------------------------------------------------------------
// What is read back
// ----------------------------------------------------------------------------------------

/// A payment as reported over the API.
#[derive(Debug)]
pub struct Payment {
    pub transaction_id: String,
    pub booking_reference: String,
    pub amount_minor: i64,
    pub currency: String,
    pub status: String,
    pub failure_reason: Option<String>,
    pub scenario: String,
    pub created_at: Timestamp,
    pub decided_at: Option<Timestamp>,
    pub refund_id: Option<String>,
    pub refunded_at: Option<Timestamp>,
    pub webhook_attempts: i64,
    pub webhook_acknowledged: bool,
    pub webhook_suppressed: bool,
}

/// What a reported payment says.
#[verifier::ext_equal]
pub struct PaymentView {
    pub transaction_id: Seq<char>,
    pub booking_reference: Seq<char>,
    pub amount_minor: int,
    pub currency: Seq<char>,
    pub status: Seq<char>,
    pub failure_reason: Option<Seq<char>>,
    pub scenario: Seq<char>,
    pub created_at: Timestamp,
    pub decided_at: Option<Timestamp>,
    pub refund_id: Option<Seq<char>>,
    pub refunded_at: Option<Timestamp>,
    pub webhook_attempts: int,
    pub webhook_acknowledged: bool,
    pub webhook_suppressed: bool,
}

impl PaymentView {
    /// Whether every point in time in it is within the calendar.
    pub open spec fn wf(self) -> bool {
        self.created_at.wf() && opt_wf(self.decided_at) && opt_wf(self.refunded_at)
    }
}

impl View for Payment {
    type V = PaymentView;

    open spec fn view(&self) -> PaymentView {
        PaymentView {
            transaction_id: self.transaction_id@,
            booking_reference: self.booking_reference@,
            amount_minor: self.amount_minor as int,
            currency: self.currency@,
            status: self.status@,
            failure_reason: opt_view(self.failure_reason),
            scenario: self.scenario@,
            created_at: self.created_at,
            decided_at: self.decided_at,
            refund_id: opt_view(self.refund_id),
            refunded_at: self.refunded_at,
            webhook_attempts: self.webhook_attempts as int,
            webhook_acknowledged: self.webhook_acknowledged,
            webhook_suppressed: self.webhook_suppressed,
        }
    }
}

/// A stored payment as it is reported, given how many attempts its deliveries have seen and
/// how many of those were acknowledged.
pub open spec fn reported(row: PaymentRow, attempts: int, acknowledged: int) -> PaymentView {
    PaymentView {
        transaction_id: row.transaction_id,
        booking_reference: row.booking_reference,
        amount_minor: row.amount_minor,
        currency: row.currency,
        status: row.status,
        failure_reason: row.failure_reason,
        scenario: row.scenario,
        created_at: row.created_at,
        decided_at: row.decided_at,
        refund_id: row.refund_id,
        refunded_at: row.refunded_at,
        webhook_attempts: attempts,
        webhook_acknowledged: acknowledged > 0,
        webhook_suppressed: !row.deliver_webhook,
    }
}

/// A stored payment as it is reported.
pub fn payment_from_row(row: &PaymentRecord, attempts: i64, acknowledged: i64) -> (p: Payment)
    ensures
        p@ == reported(row@, attempts as int, acknowledged as int),
        p.transaction_id@ == row.transaction_id@,
        p.booking_reference@ == row.booking_reference@,
        p.amount_minor == row.amount_minor,
        p.currency@ == row.currency@,
        p.status@ == row.status@,
        opt_view(p.failure_reason) == opt_view(row.failure_reason),
        p.scenario@ == row.scenario@,
        p.created_at == row.created_at,
        p.decided_at == row.decided_at,
        opt_view(p.refund_id) == opt_view(row.refund_id),
        p.refunded_at == row.refunded_at,
        p.webhook_attempts == attempts,
        p.webhook_acknowledged == (acknowledged > 0),
        p.webhook_suppressed == !row.deliver_webhook,
{
    Payment {
        transaction_id: row.transaction_id.clone(),
        booking_reference: row.booking_reference.clone(),
        amount_minor: row.amount_minor,
        currency: row.currency.clone(),
        status: row.status.clone(),
        failure_reason: copy_opt(&row.failure_reason),
        scenario: row.scenario.clone(),
        created_at: row.created_at,
        decided_at: row.decided_at,
        refund_id: copy_opt(&row.refund_id),
        refunded_at: row.refunded_at,
        webhook_attempts: attempts,
        webhook_acknowledged: acknowledged > 0,
        webhook_suppressed: !row.deliver_webhook,
    }
}

/// A webhook delivery that is due to be attempted.
#[derive(Debug)]
pub struct DueDelivery {
    /// Identifies this delivery row. Two rows can share one `event_id`.
    pub delivery_id: String,
    pub event_id: String,
    pub transaction_id: String,
    pub booking_reference: String,
    pub amount_minor: i64,
    pub currency: String,
    pub status: String,
    pub failure_reason: Option<String>,
    pub callback_url: String,
    pub decided_at: Timestamp,
    pub attempts: i64,
}

/// What a delivery that is due says.
#[verifier::ext_equal]
pub struct DueView {
    pub delivery_id: Seq<char>,
    pub event_id: Seq<char>,
    pub transaction_id: Seq<char>,
    pub booking_reference: Seq<char>,
    pub amount_minor: int,
    pub currency: Seq<char>,
    pub status: Seq<char>,
    pub failure_reason: Option<Seq<char>>,
    pub callback_url: Seq<char>,
    pub decided_at: Timestamp,
    pub attempts: int,
}

impl View for DueDelivery {
    type V = DueView;

    open spec fn view(&self) -> DueView {
        DueView {
            delivery_id: self.delivery_id@,
            event_id: self.event_id@,
            transaction_id: self.transaction_id@,
            booking_reference: self.booking_reference@,
            amount_minor: self.amount_minor as int,
            currency: self.currency@,
            status: self.status@,
            failure_reason: opt_view(self.failure_reason),
            callback_url: self.callback_url@,
            decided_at: self.decided_at,
            attempts: self.attempts as int,
        }
    }
}

/// A delivery of a decided payment, as it is handed to the worker.
pub open spec fn due_delivery(delivery: DeliveryRow, payment: PaymentRow) -> DueView {
    DueView {
        delivery_id: delivery.delivery_id,
        event_id: delivery.event_id,
        transaction_id: delivery.transaction_id,
        booking_reference: payment.booking_reference,
        amount_minor: payment.amount_minor,
        currency: payment.currency,
        status: payment.status,
        failure_reason: payment.failure_reason,
        callback_url: payment.callback_url,
        decided_at: payment.decided_at->0,
        attempts: delivery.attempts,
    }
}

/// A delivery of a decided payment, as it is handed to the worker.
pub fn due_from_row(
    delivery: &DeliveryRecord,
    payment: &PaymentRecord,
    decided_at: Timestamp,
) -> (d: DueDelivery)
    requires
        payment.decided_at == Some(decided_at),
    ensures
        d@ == due_delivery(delivery@, payment@),
        d.delivery_id@ == delivery.delivery_id@,
        d.event_id@ == delivery.event_id@,
        d.transaction_id@ == delivery.transaction_id@,
        d.attempts == delivery.attempts,
        d.booking_reference@ == payment.booking_reference@,
        d.amount_minor == payment.amount_minor,
        d.currency@ == payment.currency@,
        d.status@ == payment.status@,
        opt_view(d.failure_reason) == opt_view(payment.failure_reason),
        d.callback_url@ == payment.callback_url@,
        payment.decided_at == Some(d.decided_at),
{
    DueDelivery {
        delivery_id: delivery.delivery_id.clone(),
        event_id: delivery.event_id.clone(),
        transaction_id: delivery.transaction_id.clone(),
        booking_reference: payment.booking_reference.clone(),
        amount_minor: payment.amount_minor,
        currency: payment.currency.clone(),
        status: payment.status.clone(),
        failure_reason: copy_opt(&payment.failure_reason),
        callback_url: payment.callback_url.clone(),
        decided_at,
        attempts: delivery.attempts,
    }
}

/// A payment whose outcome is known but not applied yet.
#[derive(Debug)]
pub struct DecidablePayment {
    pub transaction_id: String,
    pub outcome: Outcome,
    /// Chosen when the payment was accepted, so it does not change across restarts.
    pub failure_reason: Option<String>,
    pub deliver_webhook: bool,
    /// Extra delay between deciding and the first delivery attempt.
    pub deliver_after_ms: i64,
    pub deliveries: i64,
}

/// What a decidable payment says.
#[verifier::ext_equal]
pub struct DecidableView {
    pub transaction_id: Seq<char>,
    pub outcome: Outcome,
    pub failure_reason: Option<Seq<char>>,
    pub deliver_webhook: bool,
    pub deliver_after_ms: int,
    pub deliveries: int,
}

impl View for DecidablePayment {
    type V = DecidableView;

    open spec fn view(&self) -> DecidableView {
        DecidableView {
            transaction_id: self.transaction_id@,
            outcome: self.outcome,
            failure_reason: opt_view(self.failure_reason),
            deliver_webhook: self.deliver_webhook,
            deliver_after_ms: self.deliver_after_ms as int,
            deliveries: self.deliveries as int,
        }
    }
}

impl DecidableView {
    /// How many deliveries are queued when the outcome is applied.
    pub open spec fn copies(self) -> int {
        if !self.deliver_webhook {
            0
        } else if self.deliveries < 1 {
            1
        } else {
            self.deliveries
        }
    }
}

/// A stored payment's plan, as it is handed to the worker.
pub open spec fn plan_of(row: PaymentRow) -> DecidableView {
    DecidableView {
        transaction_id: row.transaction_id,
        outcome: if row.planned_outcome == "SUCCESS"@ {
            Outcome::Success
        } else {
            Outcome::Failed
        },
        failure_reason: row.planned_failure_reason,
        deliver_webhook: row.deliver_webhook,
        deliver_after_ms: row.deliver_after_ms,
        deliveries: row.planned_deliveries,
    }
}

/// A stored payment's plan, as it is handed to the worker.
pub fn decidable_from_row(row: &PaymentRecord) -> (p: DecidablePayment)
    ensures
        p@ == plan_of(row@),
        p.transaction_id@ == row.transaction_id@,
        p.outcome is Success <==> row.planned_outcome@ == "SUCCESS"@,
        opt_view(p.failure_reason) == opt_view(row.planned_failure_reason),
        p.deliver_webhook == row.deliver_webhook,
        p.deliver_after_ms == row.deliver_after_ms,
        p.deliveries == row.planned_deliveries,
{
    DecidablePayment {
        transaction_id: row.transaction_id.clone(),
        outcome: if same(row.planned_outcome.as_str(), "SUCCESS") {
            Outcome::Success
        } else {
            Outcome::Failed
        },
        failure_reason: copy_opt(&row.planned_failure_reason),
        deliver_webhook: row.deliver_webhook,
        deliver_after_ms: row.deliver_after_ms,
        deliveries: row.planned_deliveries,
    }
}

} // verus!
