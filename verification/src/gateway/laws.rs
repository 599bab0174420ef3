//! What the gateway promises of its book-keeping as a whole.

use vstd::prelude::*;

use crate::clock::Timestamp;
use crate::gateway::config::Config;
use crate::gateway::outcome::{plannable, Outcome, PlanView, Scenario};
use crate::gateway::records::{
    accepted, as_signed, plan_of, reported, DecidableView, DeliveryRow, PaymentRow, PaymentView,
};
use crate::gateway::schedule::{candidate, earliest_exists, earliest_of};
use crate::gateway::store::{
    deciding_key, delivering_key, lemma_key_index, lemma_payment_index, lemma_tally_absent,
    lemma_tally_quiet, lemma_tally_update, queued_deliveries, tally, RefundView, StoreError,
    StoreView, DECIDE_BATCH, DELIVER_BATCH,
};

verus! {

// ----------------------------------------------------------------------------------------
// Accepting
// ----------------------------------------------------------------------------------------

/// A payment that was accepted can be read back, by its `transaction_id` and by its
/// idempotency key, and says what was written. No other payment changes.
pub proof fn accepted_payment_reads_back(store: StoreView, row: PaymentRow, other: Seq<char>)
    requires
        store.wf(),
        store.inserted(row).1 == Ok::<bool, StoreError>(true),
        other != row.transaction_id,
    ensures
        ({
            let next = store.inserted(row).0;
            &&& next.payment(row.transaction_id) == Some(reported(row, 0, 0))
            &&& row.idempotency_key matches Some(key) ==> next.payment_by_key(key) == Some(
                reported(row, 0, 0),
            )
            &&& next.payment(other) == store.payment(other)
        }),
{
    let next = store.inserted(row).0;
    let n = store.payments.len() as int;
    assert(next.payments[n] == row);
    assert forall|d: int| 0 <= d < store.deliveries.len() implies (
    #[trigger] store.deliveries[d]).transaction_id != row.transaction_id by {
        assert(store.delivery_owned(d));
    }
    lemma_tally_absent(store.deliveries, row.transaction_id, false);
    lemma_tally_absent(store.deliveries, row.transaction_id, true);
    assert(next.payment_at(row.transaction_id, n));
    let i = next.payment_index(row.transaction_id);
    assert(next.payment_at(row.transaction_id, i));
    if i < n {
        assert(store.payment_at(row.transaction_id, i));
    }
    if row.idempotency_key is Some {
        let key = row.idempotency_key->0;
        assert(next.key_at(key, n));
        let k = next.key_index(key);
        assert(next.key_at(key, k));
        if k < n {
            assert(store.key_at(key, k));
        }
    }
    if store.has_payment(other) {
        let a = store.payment_index(other);
        assert(store.payment_at(other, a));
        assert(next.payment_at(other, a));
    }
    if next.has_payment(other) {
        let b = next.payment_index(other);
        assert(next.payment_at(other, b));
        assert(store.payment_at(other, b));
        let a = store.payment_index(other);
        assert(store.payment_at(other, a));
        if a < b {
            assert(store.payments[a].transaction_id != store.payments[b].transaction_id);
        } else if b < a {
            assert(store.payments[b].transaction_id != store.payments[a].transaction_id);
        }
    }
}

/// Replaying an idempotency key never creates a second charge: once a payment was accepted
/// under a key, another one under the same key changes nothing, and the key still leads to
/// the first.
pub proof fn key_is_charged_once(store: StoreView, first: PaymentRow, again: PaymentRow)
    requires
        store.wf(),
        store.inserted(first).1 == Ok::<bool, StoreError>(true),
        first.idempotency_key is Some,
        again.idempotency_key == first.idempotency_key,
    ensures
        ({
            let next = store.inserted(first).0;
            &&& next.inserted(again) == (next, Ok::<bool, StoreError>(false))
            &&& next.payment_by_key(first.idempotency_key->0) == Some(reported(first, 0, 0))
        }),
{
    let next = store.inserted(first).0;
    let n = store.payments.len() as int;
    assert(next.payments[n] == first);
    assert(next.key_at(first.idempotency_key->0, n));
    let other = first.transaction_id.push('x');
    assert(other.len() != first.transaction_id.len());
    accepted_payment_reads_back(store, first, other);
}

/// What was planned when a payment was accepted is what the worker is handed when it decides
/// the payment, however much later that is: nothing is drawn again.
pub proof fn stored_plan_is_the_plan(
    transaction_id: Seq<char>,
    idempotency_key: Option<Seq<char>>,
    booking_reference: Seq<char>,
    amount_minor: int,
    currency: Seq<char>,
    callback_url: Seq<char>,
    scenario: Seq<char>,
    plan: PlanView,
    now: Timestamp,
)
    ensures
        plan_of(
            accepted(
                transaction_id,
                idempotency_key,
                booking_reference,
                amount_minor,
                currency,
                callback_url,
                scenario,
                plan,
                now,
            ),
        ) == (DecidableView {
            transaction_id,
            outcome: plan.outcome,
            failure_reason: plan.failure_reason,
            deliver_webhook: plan.deliver_webhook,
            deliver_after_ms: as_signed(plan.deliver_after_ms),
            deliveries: plan.deliveries,
        }),
{
    reveal_strlit("SUCCESS");
    reveal_strlit("FAILED");
    assert("SUCCESS"@.len() != "FAILED"@.len());
}

// ----------------------------------------------------------------------------------------
// Deciding
// ----------------------------------------------------------------------------------------

/// An outcome is applied once: whoever decides the same payment again, with whatever event,
/// changes nothing. Two overlapping ticks cannot both queue a delivery.
pub proof fn outcome_is_applied_once(
    store: StoreView,
    payment: DecidableView,
    event_id: Seq<char>,
    ids: Seq<Seq<char>>,
    now: Timestamp,
    again: DecidableView,
    other_event_id: Seq<char>,
    other_ids: Seq<Seq<char>>,
    later: Timestamp,
)
    requires
        store.wf(),
        store.decision(payment, event_id, ids, now).1 == Ok::<bool, StoreError>(true),
        again.transaction_id == payment.transaction_id,
    ensures
        ({
            let next = store.decision(payment, event_id, ids, now).0;
            next.decision(again, other_event_id, other_ids, later) == (next, Ok::<
                bool,
                StoreError,
            >(false))
        }),
{
    let next = store.decision(payment, event_id, ids, now).0;
    lemma_decided(store, payment, event_id, ids, now);
    lemma_labels();
}

/// Once an outcome is applied, polling finds it, whether or not a webhook is ever sent: the
/// payment reports the outcome and the reason that were planned.
pub proof fn outcome_can_be_polled(
    store: StoreView,
    payment: DecidableView,
    event_id: Seq<char>,
    ids: Seq<Seq<char>>,
    now: Timestamp,
)
    requires
        store.wf(),
        store.decision(payment, event_id, ids, now).1 == Ok::<bool, StoreError>(true),
    ensures
        ({
            let next = store.decision(payment, event_id, ids, now).0;
            let before = store.payment(payment.transaction_id)->0;
            next.payment(payment.transaction_id) == Some(
                PaymentView {
                    status: payment.outcome.label(),
                    failure_reason: payment.failure_reason,
                    decided_at: Some(now),
                    ..before
                },
            )
        }),
{
    lemma_decided(store, payment, event_id, ids, now);
    lemma_tally_quiet(
        store.deliveries,
        queued_deliveries(payment, event_id, ids, now),
        payment.transaction_id,
        false,
    );
    lemma_tally_quiet(
        store.deliveries,
        queued_deliveries(payment, event_id, ids, now),
        payment.transaction_id,
        true,
    );
}

/// Applying an outcome queues one delivery per identifier. They are of one event and due at
/// the same instant, so a duplicate goes out at the same time as its twin.
pub proof fn duplicates_share_event_and_instant(
    store: StoreView,
    payment: DecidableView,
    event_id: Seq<char>,
    ids: Seq<Seq<char>>,
    now: Timestamp,
    a: int,
    b: int,
)
    requires
        store.wf(),
        store.decision(payment, event_id, ids, now).1 == Ok::<bool, StoreError>(true),
        store.deliveries.len() <= a < store.deliveries.len() + ids.len(),
        store.deliveries.len() <= b < store.deliveries.len() + ids.len(),
    ensures
        ({
            let next = store.decision(payment, event_id, ids, now).0;
            &&& next.deliveries.len() == store.deliveries.len() + ids.len()
            &&& next.deliveries[a].event_id == event_id
            &&& next.deliveries[a].transaction_id == payment.transaction_id
            &&& next.deliveries[a].event_id == next.deliveries[b].event_id
            &&& next.deliveries[a].next_attempt_at == next.deliveries[b].next_attempt_at
            &&& a != b ==> next.deliveries[a].delivery_id != next.deliveries[b].delivery_id
        }),
{
    let n = store.deliveries.len() as int;
    assert(a != b ==> ids[a - n] != ids[b - n]);
}

/// A webhook that the plan suppresses is never queued: applying the outcome leaves the
/// deliveries as they were.
pub proof fn lost_webhook_is_never_queued(
    store: StoreView,
    payment: DecidableView,
    event_id: Seq<char>,
    ids: Seq<Seq<char>>,
    now: Timestamp,
)
    requires
        !payment.deliver_webhook,
        ids.len() == payment.copies(),
    ensures
        store.decision(payment, event_id, ids, now).0.deliveries == store.deliveries,
{
    assert(store.decision(payment, event_id, ids, now).0.deliveries =~= store.deliveries);
}

/// While the batch is not full, no payment whose outcome is known is passed over; and only
/// such payments are handed out.
pub proof fn known_outcomes_are_handed_out(store: StoreView, now: Timestamp, i: int)
    requires
        0 <= i < store.payments.len(),
    ensures
        store.payments[i].decidable(now) && store.decidable(now).len() < DECIDE_BATCH
            ==> store.decidable(now).contains(plan_of(store.payments[i])),
        forall|a: int|
            0 <= a < store.decidable(now).len() ==> exists|j: int|
                0 <= j < store.payments.len() && (#[trigger] store.payments[j]).decidable(now)
                    && plan_of(store.payments[j]) == #[trigger] store.decidable(now)[a],
{
    let keys = store.payments.map_values(|p: PaymentRow| deciding_key(p, now));
    earliest_exists(keys, DECIDE_BATCH as int);
    let picked = earliest_of(keys, DECIDE_BATCH as int);
    assert(store.decidable(now).len() == picked.len());
    if store.payments[i].decidable(now) && picked.len() < DECIDE_BATCH {
        assert(candidate(keys, i));
        let a = choose|a: int| 0 <= a < picked.len() && picked[a] == i;
        assert(store.decidable(now)[a] == plan_of(store.payments[i]));
    }
    assert forall|a: int| 0 <= a < store.decidable(now).len() implies exists|j: int|
        0 <= j < store.payments.len() && (#[trigger] store.payments[j]).decidable(now) && plan_of(
            store.payments[j],
        ) == #[trigger] store.decidable(now)[a] by {
        assert(candidate(keys, picked[a]));
        assert(store.payments[picked[a]].decidable(now));
    }
}

// ----------------------------------------------------------------------------------------
// Delivering
// ----------------------------------------------------------------------------------------

/// While the batch is not full, no delivery that is due is passed over, so a delivery that
/// was due before a restart is attempted after it; and only deliveries that are due are
/// handed out.
pub proof fn due_deliveries_are_handed_out(store: StoreView, now: Timestamp, d: int)
    requires
        0 <= d < store.deliveries.len(),
        store.due(now) is Ok,
    ensures
        store.deliveries[d].due(now) && store.due(now)->Ok_0.len() < DELIVER_BATCH ==> store.due(
            now,
        )->Ok_0.contains(store.due_at(d)),
        forall|a: int|
            0 <= a < store.due(now)->Ok_0.len() ==> exists|j: int|
                0 <= j < store.deliveries.len() && (#[trigger] store.deliveries[j]).due(now)
                    && store.due_at(j) == #[trigger] store.due(now)->Ok_0[a],
{
    let keys = store.deliveries.map_values(|d: DeliveryRow| delivering_key(d, now));
    earliest_exists(keys, DELIVER_BATCH as int);
    let picked = store.due_positions(now);
    let handed = store.due(now)->Ok_0;
    assert(handed.len() == picked.len());
    if store.deliveries[d].due(now) && picked.len() < DELIVER_BATCH {
        assert(candidate(keys, d));
        let a = choose|a: int| 0 <= a < picked.len() && picked[a] == d;
        assert(handed[a] == store.due_at(d));
    }
    assert forall|a: int| 0 <= a < handed.len() implies exists|j: int|
        0 <= j < store.deliveries.len() && (#[trigger] store.deliveries[j]).due(now)
            && store.due_at(j) == #[trigger] handed[a] by {
        assert(candidate(keys, picked[a]));
        assert(store.deliveries[picked[a]].due(now));
    }
}

/// There is no attempt limit: a failed attempt never completes a delivery. From the instant
/// at which the retry is scheduled the delivery is due again, and not before.
pub proof fn failed_delivery_is_retried(
    delivery: DeliveryRow,
    status_code: Option<u16>,
    error: Seq<char>,
    retry_after_ms: int,
    now: Timestamp,
    later: Timestamp,
)
    requires
        !delivery.complete(),
    ensures
        ({
            let next = delivery.failed(status_code, error, retry_after_ms, now);
            &&& !next.complete()
            &&& next.due(later) <==> next.next_attempt_at.millis <= later.millis
            &&& next.attempts == delivery.attempts + 1
        }),
{
}

/// A delivery that was acknowledged is never attempted again.
pub proof fn acknowledged_delivery_is_over(
    delivery: DeliveryRow,
    status_code: u16,
    now: Timestamp,
    later: Timestamp,
)
    ensures
        delivery.acknowledged(status_code, now).complete(),
        !delivery.acknowledged(status_code, now).due(later),
{
}

/// Deliveries are independent: recording an attempt on one leaves the others, and every
/// payment, as they were.
pub proof fn deliveries_are_independent(
    store: StoreView,
    delivery_id: Seq<char>,
    row: DeliveryRow,
    d: int,
)
    requires
        store.wf(),
        0 <= d < store.deliveries.len(),
        store.deliveries[d].delivery_id != delivery_id,
    ensures
        store.with_delivery(delivery_id, row).deliveries[d] == store.deliveries[d],
        store.with_delivery(delivery_id, row).payments == store.payments,
{
    if store.has_delivery(delivery_id) {
        assert(store.delivery_at(delivery_id, store.delivery_index(delivery_id)));
    }
}

/// Every attempt is counted in what the payment reports, and one acknowledgement is enough
/// for it to report the webhook as acknowledged, as long as no count was below zero before.
pub proof fn attempts_are_reported(
    store: StoreView,
    delivery_id: Seq<char>,
    status_code: Option<u16>,
    error: Seq<char>,
    retry_after_ms: int,
    now: Timestamp,
    code: u16,
)
    requires
        store.wf(),
        store.has_delivery(delivery_id),
        tally(store.deliveries, store.delivery(delivery_id).transaction_id, true) >= 0,
    ensures
        ({
            let delivery = store.delivery(delivery_id);
            let id = delivery.transaction_id;
            let before = store.payment(id)->0;
            let failed = store.with_delivery(
                delivery_id,
                delivery.failed(status_code, error, retry_after_ms, now),
            );
            let acknowledged = store.with_delivery(delivery_id, delivery.acknowledged(code, now));
            &&& failed.payment(id) == Some(
                PaymentView { webhook_attempts: before.webhook_attempts + 1, ..before },
            )
            &&& acknowledged.payment(id) == Some(
                PaymentView {
                    webhook_attempts: before.webhook_attempts + 1,
                    webhook_acknowledged: true,
                    ..before
                },
            )
        }),
{
    let i = store.delivery_index(delivery_id);
    assert(store.delivery_at(delivery_id, i));
    let delivery = store.delivery(delivery_id);
    let id = delivery.transaction_id;
    assert(store.delivery_owned(i));
    let j = store.payment_index(id);
    assert(store.payment_at(id, j));
    let failed_row = delivery.failed(status_code, error, retry_after_ms, now);
    let acknowledged_row = delivery.acknowledged(code, now);
    let failed = store.with_delivery(delivery_id, failed_row);
    let acknowledged = store.with_delivery(delivery_id, acknowledged_row);
    assert(failed.payments == store.payments);
    assert(acknowledged.payments == store.payments);
    assert(failed.payment_at(id, j));
    assert(acknowledged.payment_at(id, j));
    lemma_payment_index(failed, id, j);
    lemma_payment_index(acknowledged, id, j);
    lemma_tally_update(store.deliveries, i, failed_row, id, false);
    lemma_tally_update(store.deliveries, i, failed_row, id, true);
    lemma_tally_update(store.deliveries, i, acknowledged_row, id, false);
    lemma_tally_update(store.deliveries, i, acknowledged_row, id, true);
}

// ----------------------------------------------------------------------------------------
// Refunding
// ----------------------------------------------------------------------------------------

/// Refunding is idempotent: asked again, at any later time and with any other identifier in
/// hand, the gateway answers with the first refund's identifier and changes nothing.
pub proof fn refund_is_idempotent(
    store: StoreView,
    transaction_id: Seq<char>,
    refund_id: Seq<char>,
    now: Timestamp,
    other_refund_id: Seq<char>,
    later: Timestamp,
)
    requires
        store.wf(),
        store.refunding(transaction_id, refund_id, now).1 is Refunded,
    ensures
        ({
            let next = store.refunding(transaction_id, refund_id, now).0;
            next.refunding(transaction_id, other_refund_id, later) == (
                next,
                RefundView::AlreadyRefunded(refund_id),
            )
        }),
{
    let next = store.refunding(transaction_id, refund_id, now).0;
    lemma_refunded(store, transaction_id, refund_id, now);
}

/// A refund is a fact beside the outcome: a payment that was refunded still reports SUCCESS.
pub proof fn refunded_payment_stays_successful(
    store: StoreView,
    transaction_id: Seq<char>,
    refund_id: Seq<char>,
    now: Timestamp,
)
    requires
        store.wf(),
        store.refunding(transaction_id, refund_id, now).1 is Refunded,
    ensures
        ({
            let next = store.refunding(transaction_id, refund_id, now).0;
            let before = store.payment(transaction_id)->0;
            &&& before.status == "SUCCESS"@
            &&& next.payment(transaction_id) == Some(
                PaymentView { refund_id: Some(refund_id), refunded_at: Some(now), ..before },
            )
        }),
{
    lemma_refunded(store, transaction_id, refund_id, now);
}

/// Money is only given back where it was taken: whatever is not a successful payment is
/// refused, and nothing changes.
pub proof fn only_successful_payments_are_refunded(
    store: StoreView,
    transaction_id: Seq<char>,
    refund_id: Seq<char>,
    now: Timestamp,
)
    requires
        store.wf(),
        store.payment(transaction_id) matches Some(p) ==> p.status != "SUCCESS"@
            && p.refund_id is None,
    ensures
        store.refunding(transaction_id, refund_id, now).0 == store,
        match store.payment(transaction_id) {
            Some(p) => store.refunding(transaction_id, refund_id, now).1
                == RefundView::NotRefundable(p.status),
            None => store.refunding(transaction_id, refund_id, now).1 == RefundView::NotFound,
        },
{
}

// ----------------------------------------------------------------------------------------
// From one end to the other
// ----------------------------------------------------------------------------------------

/// What a forced scenario leads to once its time has come: how the payment is decided, how
/// many deliveries are queued, and when. `duplicate` is delivered twice, `lost` never,
/// everything else once; `late_success` late, and everything else at once.
pub proof fn forced_scenarios_play_out(
    scenario: Scenario,
    config: Config,
    plan: PlanView,
    transaction_id: Seq<char>,
    idempotency_key: Option<Seq<char>>,
    booking_reference: Seq<char>,
    amount_minor: int,
    currency: Seq<char>,
    callback_url: Seq<char>,
    now: Timestamp,
)
    requires
        scenario !is Random,
        plannable(scenario, config, plan),
    ensures
        ({
            let row = accepted(
                transaction_id,
                idempotency_key,
                booking_reference,
                amount_minor,
                currency,
                callback_url,
                scenario.label(),
                plan,
                now,
            );
            let payment = plan_of(row);
            &&& payment.outcome is Failed <==> scenario is Failure
            &&& payment.failure_reason is Some <==> scenario is Failure
            &&& payment.copies() == if scenario is Lost {
                0int
            } else if scenario is Duplicate {
                2
            } else {
                1
            }
            &&& payment.deliver_after_ms == if scenario is LateSuccess {
                as_signed(config.late_webhook_delay_ms as int)
            } else {
                0
            }
            &&& scenario is Instant ==> row.decidable(now)
        }),
{
    stored_plan_is_the_plan(
        transaction_id,
        idempotency_key,
        booking_reference,
        amount_minor,
        currency,
        callback_url,
        scenario.label(),
        plan,
        now,
    );
}

/// Whether `row` is what an attempt makes of a delivery.
pub open spec fn is_attempted(delivery: DeliveryRow, row: DeliveryRow) -> bool {
    ||| exists|status_code: Option<u16>, error: Seq<char>, retry_after_ms: int, now: Timestamp|
        row == #[trigger] delivery.failed(status_code, error, retry_after_ms, now)
    ||| exists|status_code: u16, now: Timestamp|
        row == #[trigger] delivery.acknowledged(status_code, now)
}

/// Whether `next` is what one operation makes of `store`.
pub open spec fn follows(store: StoreView, next: StoreView) -> bool {
    ||| exists|row: PaymentRow| next == (#[trigger] store.inserted(row)).0 && row.pending()
    ||| exists|payment: DecidableView, event_id: Seq<char>, ids: Seq<Seq<char>>, now: Timestamp|
        next == (#[trigger] store.decision(payment, event_id, ids, now)).0
    ||| exists|delivery_id: Seq<char>, row: DeliveryRow|
        next == #[trigger] store.with_delivery(delivery_id, row) && is_attempted(
            store.delivery(delivery_id),
            row,
        )
    ||| exists|transaction_id: Seq<char>, refund_id: Seq<char>, now: Timestamp|
        next == (#[trigger] store.refunding(transaction_id, refund_id, now)).0
}

/// Whether `later` is a payment further on in its life: the terms and the plan under which it
/// was accepted are what they were, an outcome that was applied stands, and so does a refund.
pub open spec fn further_on(row: PaymentRow, later: PaymentRow) -> bool {
    &&& later == (PaymentRow {
        status: later.status,
        failure_reason: later.failure_reason,
        decided_at: later.decided_at,
        refund_id: later.refund_id,
        refunded_at: later.refunded_at,
        ..row
    })
    &&& !row.pending() ==> {
        &&& later.status == row.status
        &&& later.failure_reason == row.failure_reason
        &&& later.decided_at == row.decided_at
    }
    &&& row.refund_id is Some ==> {
        &&& later.refund_id == row.refund_id
        &&& later.refunded_at == row.refunded_at
    }
}

/// Whether each store of a history is what one operation makes of the store before it.
pub open spec fn history(stores: Seq<StoreView>) -> bool {
    &&& forall|k: int| 0 <= k < stores.len() ==> (#[trigger] stores[k]).wf()
    &&& forall|k: int| 0 < k < stores.len() ==> follows(stores[k - 1], #[trigger] stores[k])
}

/// However the gateway goes on from here, no payment is forgotten and none is rewritten: what
/// was accepted and planned stays, and so do an outcome and a refund once they are there.
pub proof fn history_only_moves_forward(stores: Seq<StoreView>, i: int)
    requires
        history(stores),
        stores.len() > 0,
        0 <= i < stores[0].payments.len(),
    ensures
        i < stores.last().payments.len(),
        further_on(stores[0].payments[i], stores.last().payments[i]),
    decreases stores.len(),
{
    if stores.len() > 1 {
        let earlier = stores.drop_last();
        assert forall|k: int| 0 <= k < earlier.len() implies (#[trigger] earlier[k]).wf() by {
            assert(earlier[k] == stores[k]);
        }
        assert forall|k: int| 0 < k < earlier.len() implies follows(
            earlier[k - 1],
            #[trigger] earlier[k],
        ) by {
            assert(earlier[k] == stores[k] && earlier[k - 1] == stores[k - 1]);
        }
        history_only_moves_forward(earlier, i);
        let n = stores.len() - 1;
        assert(stores[n].wf() && stores[n - 1].wf());
        assert(follows(stores[n - 1], stores[n]));
        lemma_step_moves_forward(stores[n - 1], stores[n], i);
    }
}

/// However the gateway goes on from here, an idempotency key leads to the payment that it led
/// to at first: there is never a second charge under it.
pub proof fn key_leads_to_one_payment_forever(stores: Seq<StoreView>, key: Seq<char>)
    requires
        history(stores),
        stores.len() > 0,
        stores[0].has_key(key),
    ensures
        stores.last().has_key(key),
        stores.last().payment_by_key(key)->0.transaction_id == stores[0].payment_by_key(
            key,
        )->0.transaction_id,
        forall|a: int, b: int|
            stores.last().key_at(key, a) && stores.last().key_at(key, b) ==> a == b,
{
    let i = stores[0].key_index(key);
    assert(stores[0].key_at(key, i));
    history_only_moves_forward(stores, i);
    let last = stores.last();
    assert(last == stores[stores.len() - 1]);
    assert(last.wf());
    assert(last.key_at(key, i));
    lemma_key_index(last, key, i);
    assert forall|a: int, b: int| last.key_at(key, a) && last.key_at(key, b) implies a == b by {
        lemma_key_index(last, key, a);
        lemma_key_index(last, key, b);
    }
}

/// An outcome is applied once and for all: however the gateway goes on after it was applied,
/// whoever decides the same payment again changes nothing.
pub proof fn outcome_is_applied_once_for_all(
    store: StoreView,
    payment: DecidableView,
    event_id: Seq<char>,
    ids: Seq<Seq<char>>,
    now: Timestamp,
    stores: Seq<StoreView>,
    again: DecidableView,
    other_event_id: Seq<char>,
    other_ids: Seq<Seq<char>>,
    later: Timestamp,
)
    requires
        store.wf(),
        store.decision(payment, event_id, ids, now).1 == Ok::<bool, StoreError>(true),
        history(stores),
        stores.len() > 0,
        stores[0] == store.decision(payment, event_id, ids, now).0,
        again.transaction_id == payment.transaction_id,
    ensures
        store.pending(payment.transaction_id),
        stores.last().decision(again, other_event_id, other_ids, later) == (
            stores.last(),
            Ok::<bool, StoreError>(false),
        ),
{
    let id = payment.transaction_id;
    lemma_decided(store, payment, event_id, ids, now);
    let i = store.payment_index(id);
    assert(store.payment_at(id, i));
    assert(stores[0].payments[i] == store.payments[i].decided(payment, now));
    lemma_labels();
    assert(!stores[0].payments[i].pending());
    history_only_moves_forward(stores, i);
    let last = stores.last();
    assert(last == stores[stores.len() - 1]);
    assert(last.wf());
    assert(last.payment_at(id, i));
    lemma_payment_index(last, id, i);
}

/// A decision that is not applied changes nothing, neither a payment nor a delivery.
pub proof fn unapplied_decision_changes_nothing(
    store: StoreView,
    payment: DecidableView,
    event_id: Seq<char>,
    ids: Seq<Seq<char>>,
    now: Timestamp,
)
    requires
        store.decision(payment, event_id, ids, now).1 != Ok::<bool, StoreError>(true),
    ensures
        store.decision(payment, event_id, ids, now).0 == store,
{
}

/// A call that decides a payment.
pub struct Decision {
    pub payment: DecidableView,
    pub event_id: Seq<char>,
    pub ids: Seq<Seq<char>>,
    pub now: Timestamp,
}

/// What a call makes of a store, and what it returns.
pub open spec fn decided_by(store: StoreView, call: Decision) -> (
    StoreView,
    Result<bool, StoreError>,
) {
    store.decision(call.payment, call.event_id, call.ids, call.now)
}

/// What one call after another makes of a store, and what they return.
pub open spec fn decided_by_all(store: StoreView, calls: Seq<Decision>) -> (
    StoreView,
    Seq<Result<bool, StoreError>>,
)
    decreases calls.len(),
{
    if calls.len() == 0 {
        (store, Seq::empty())
    } else {
        let (before, answers) = decided_by_all(store, calls.drop_last());
        let (after, answer) = decided_by(before, calls.last());
        (after, answers.push(answer))
    }
}

/// Whether a call was answered that the outcome was applied.
pub open spec fn is_applied(answer: Result<bool, StoreError>) -> bool {
    answer == Ok::<bool, StoreError>(true)
}

/// Whether the call at a position is the one whose outcome was applied.
pub open spec fn applied_alone(answers: Seq<Result<bool, StoreError>>, t: int) -> bool {
    &&& 0 <= t < answers.len()
    &&& is_applied(answers[t])
    &&& forall|i: int| 0 <= i < answers.len() && i != t ==> !is_applied(#[trigger] answers[i])
}

/// Whether all deliveries of a payment are of one event, and there are none while its outcome
/// has not been applied.
pub open spec fn rows_agree(store: StoreView, transaction_id: Seq<char>) -> bool {
    &&& store.pending(transaction_id) ==> forall|d: int|
        0 <= d < store.deliveries.len() ==> (#[trigger] store.deliveries[d]).transaction_id
            != transaction_id
    &&& forall|a: int, b: int|
        #![trigger store.deliveries[a], store.deliveries[b]]
        0 <= a < store.deliveries.len() && 0 <= b < store.deliveries.len()
            && store.deliveries[a].transaction_id == transaction_id
            && store.deliveries[b].transaction_id == transaction_id
            ==> store.deliveries[a].event_id == store.deliveries[b].event_id
}

/// Of any number of calls that decide one payment, with whatever outcomes, events and
/// identifiers and at whatever times, at most one applies its outcome, and only if the payment
/// was pending before the first. All the others leave every payment and every delivery as they
/// were, so that the end is what that one call makes of the beginning. What is queued on the
/// way is of one event, and so are all deliveries of the payment if they were before.
pub proof fn payment_is_decided_by_one_call(
    store: StoreView,
    transaction_id: Seq<char>,
    calls: Seq<Decision>,
)
    requires
        store.payments_distinct(),
        forall|i: int|
            0 <= i < calls.len() ==> (#[trigger] calls[i]).payment.transaction_id
                == transaction_id,
    ensures
        ({
            let (end, answers) = decided_by_all(store, calls);
            &&& answers.len() == calls.len()
            &&& (forall|i: int| 0 <= i < answers.len() ==> !is_applied(#[trigger] answers[i]))
                ==> end == store
            &&& forall|t: int|
                0 <= t < answers.len() && is_applied(#[trigger] answers[t]) ==> {
                    &&& applied_alone(answers, t)
                    &&& store.pending(transaction_id)
                    &&& end == decided_by(store, calls[t]).0
                    &&& is_applied(decided_by(store, calls[t]).1)
                    &&& !end.pending(transaction_id)
                }
            &&& forall|a: int, b: int|
                #![trigger end.deliveries[a], end.deliveries[b]]
                store.deliveries.len() <= a < end.deliveries.len() && store.deliveries.len() <= b
                    < end.deliveries.len() ==> end.deliveries[a].event_id
                    == end.deliveries[b].event_id
            &&& rows_agree(store, transaction_id) ==> rows_agree(end, transaction_id)
        }),
{
    lemma_one_call(store, transaction_id, calls);
    let (end, answers) = decided_by_all(store, calls);
    if exists|t: int| 0 <= t < answers.len() && is_applied(#[trigger] answers[t]) {
        let t = choose|t: int| 0 <= t < answers.len() && is_applied(#[trigger] answers[t]);
        let call = calls[t];
        let n = store.deliveries.len() as int;
        let more = queued_deliveries(call.payment, call.event_id, call.ids, call.now);
        assert(end.deliveries == store.deliveries + more);
        assert forall|d: int| n <= d < end.deliveries.len() implies (
        #[trigger] end.deliveries[d]).event_id == call.event_id by {
            assert(end.deliveries[d] == more[d - n]);
        }
        if rows_agree(store, transaction_id) {
            assert forall|d: int| 0 <= d < n implies (#[trigger] end.deliveries[d]).transaction_id
                != transaction_id by {
                assert(end.deliveries[d] == store.deliveries[d]);
            }
        }
    }
}

/// Whether every delivery is of a payment whose outcome was applied, and all deliveries of a
/// payment are of one event.
pub open spec fn orderly(store: StoreView) -> bool {
    &&& forall|d: int|
        0 <= d < store.deliveries.len() ==> {
            let row = store.payments[store.payment_index(
                (#[trigger] store.deliveries[d]).transaction_id,
            )];
            !row.pending() && row.decided_at is Some
        }
    &&& forall|a: int, b: int|
        #![trigger store.deliveries[a], store.deliveries[b]]
        0 <= a < store.deliveries.len() && 0 <= b < store.deliveries.len()
            && store.deliveries[a].transaction_id == store.deliveries[b].transaction_id
            ==> store.deliveries[a].event_id == store.deliveries[b].event_id
}

/// However the gateway goes on, all deliveries of a payment are of one event, as they are
/// while there are none: a receiver that acts once per event acts once per payment.
pub proof fn deliveries_of_a_payment_share_one_event(stores: Seq<StoreView>)
    requires
        history(stores),
        stores.len() > 0,
        orderly(stores[0]),
    ensures
        orderly(stores.last()),
    decreases stores.len(),
{
    if stores.len() > 1 {
        let earlier = stores.drop_last();
        assert forall|k: int| 0 <= k < earlier.len() implies (#[trigger] earlier[k]).wf() by {
            assert(earlier[k] == stores[k]);
        }
        assert forall|k: int| 0 < k < earlier.len() implies follows(
            earlier[k - 1],
            #[trigger] earlier[k],
        ) by {
            assert(earlier[k] == stores[k] && earlier[k - 1] == stores[k - 1]);
        }
        deliveries_of_a_payment_share_one_event(earlier);
        let n = stores.len() - 1;
        assert(stores[n].wf() && stores[n - 1].wf());
        assert(follows(stores[n - 1], stores[n]));
        lemma_step_stays_orderly(stores[n - 1], stores[n]);
    }
}

/// A store without deliveries is orderly, and an orderly store hands out what is due.
pub proof fn orderly_stores_deliver(store: StoreView, now: Timestamp)
    requires
        store.wf(),
        orderly(store),
    ensures
        store.due(now) is Ok,
        orderly(StoreView { deliveries: Seq::empty(), ..store }),
{
    let keys = store.deliveries.map_values(|d: DeliveryRow| delivering_key(d, now));
    earliest_exists(keys, DELIVER_BATCH as int);
    let picked = store.due_positions(now);
    assert forall|a: int| 0 <= a < picked.len() implies store.decided_at(#[trigger] picked[a]) by {
        assert(candidate(keys, picked[a]));
        let id = store.deliveries[picked[a]].transaction_id;
        assert(store.payments[store.payment_index(id)].decided_at is Some);
    }
}

// ----------------------------------------------------------------------------------------
// Steps on the way
// ----------------------------------------------------------------------------------------

proof fn lemma_decided(
    store: StoreView,
    payment: DecidableView,
    event_id: Seq<char>,
    ids: Seq<Seq<char>>,
    now: Timestamp,
)
    requires
        store.payments_distinct(),
        store.decision(payment, event_id, ids, now).1 == Ok::<bool, StoreError>(true),
    ensures
        ({
            let id = payment.transaction_id;
            let next = store.decision(payment, event_id, ids, now).0;
            let i = store.payment_index(id);
            &&& store.has_payment(id)
            &&& next.has_payment(id)
            &&& next.payment_index(id) == i
            &&& next.payments[i] == store.payments[i].decided(payment, now)
            &&& store.payments[i].transaction_id == id
        }),
{
    let id = payment.transaction_id;
    let next = store.decision(payment, event_id, ids, now).0;
    let i = store.payment_index(id);
    assert(store.payment_at(id, i));
    assert(next.payment_at(id, i));
    lemma_still_distinct(store, next, i);
    lemma_payment_index(next, id, i);
}

proof fn lemma_refunded(
    store: StoreView,
    transaction_id: Seq<char>,
    refund_id: Seq<char>,
    now: Timestamp,
)
    requires
        store.wf(),
        store.refunding(transaction_id, refund_id, now).1 is Refunded,
    ensures
        ({
            let next = store.refunding(transaction_id, refund_id, now).0;
            let i = store.payment_index(transaction_id);
            &&& store.has_payment(transaction_id)
            &&& next.has_payment(transaction_id)
            &&& next.payment_index(transaction_id) == i
            &&& next.payments[i] == store.payments[i].refunded(refund_id, now)
        }),
{
    let next = store.refunding(transaction_id, refund_id, now).0;
    let i = store.payment_index(transaction_id);
    assert(store.payment_at(transaction_id, i));
    assert(next.payment_at(transaction_id, i));
    lemma_still_distinct(store, next, i);
    lemma_payment_index(next, transaction_id, i);
}

proof fn lemma_still_distinct(store: StoreView, next: StoreView, i: int)
    requires
        store.payments_distinct(),
        0 <= i < store.payments.len(),
        next.payments == store.payments.update(i, next.payments[i]),
        next.payments[i].transaction_id == store.payments[i].transaction_id,
        next.payments[i].idempotency_key == store.payments[i].idempotency_key,
    ensures
        next.payments_distinct(),
{
    assert forall|a: int, b: int|
        #![trigger next.payments[a], next.payments[b]]
        0 <= a < b < next.payments.len() implies {
        &&& next.payments[a].transaction_id != next.payments[b].transaction_id
        &&& next.payments[a].idempotency_key is Some ==> next.payments[a].idempotency_key
            != next.payments[b].idempotency_key
    } by {
        assert(store.payments[a].transaction_id != store.payments[b].transaction_id);
    }
}

proof fn lemma_step_moves_forward(store: StoreView, next: StoreView, i: int)
    requires
        store.wf(),
        follows(store, next),
        0 <= i < store.payments.len(),
    ensures
        i < next.payments.len(),
        further_on(store.payments[i], next.payments[i]),
{
    let row = store.payments[i];
    if exists|r: PaymentRow| next == (#[trigger] store.inserted(r)).0 && r.pending() {
    } else if exists|
        payment: DecidableView,
        event_id: Seq<char>,
        ids: Seq<Seq<char>>,
        now: Timestamp,
    |
        next == (#[trigger] store.decision(payment, event_id, ids, now)).0 {
        let (payment, event_id, ids, now) = choose|
            payment: DecidableView,
            event_id: Seq<char>,
            ids: Seq<Seq<char>>,
            now: Timestamp,
        |
            next == (#[trigger] store.decision(payment, event_id, ids, now)).0;
        let j = store.payment_index(payment.transaction_id);
        if store.pending(payment.transaction_id) {
            assert(store.payment_at(payment.transaction_id, j));
        }
    } else if exists|delivery_id: Seq<char>, r: DeliveryRow|
        next == #[trigger] store.with_delivery(delivery_id, r) && is_attempted(
            store.delivery(delivery_id),
            r,
        ) {
        assert(next.payments == store.payments);
    } else {
        let (transaction_id, refund_id, now) = choose|
            transaction_id: Seq<char>,
            refund_id: Seq<char>,
            now: Timestamp,
        |
            next == (#[trigger] store.refunding(transaction_id, refund_id, now)).0;
        let j = store.payment_index(transaction_id);
        if store.has_payment(transaction_id) {
            assert(store.payment_at(transaction_id, j));
        }
    }
}

proof fn lemma_labels()
    ensures
        forall|outcome: Outcome| #[trigger] outcome.label() != "PENDING"@,
{
    reveal_strlit("SUCCESS");
    reveal_strlit("FAILED");
    reveal_strlit("PENDING");
    assert forall|outcome: Outcome| #[trigger] outcome.label() != "PENDING"@ by {
        assert(outcome.label().len() != "PENDING"@.len() || outcome.label()[0] != "PENDING"@[0]);
    }
}

proof fn lemma_step_stays_orderly(store: StoreView, next: StoreView)
    requires
        store.wf(),
        next.wf(),
        follows(store, next),
        orderly(store),
    ensures
        orderly(next),
{
    lemma_labels();
    // The payment of a delivery stays where it is and keeps its outcome.
    assert forall|d: int| 0 <= d < store.deliveries.len() implies ({
        let id = (#[trigger] store.deliveries[d]).transaction_id;
        let row = next.payments[next.payment_index(id)];
        !row.pending() && row.decided_at is Some
    }) by {
        let id = store.deliveries[d].transaction_id;
        assert(store.delivery_owned(d));
        let i = store.payment_index(id);
        assert(store.payment_at(id, i));
        lemma_step_moves_forward(store, next, i);
        assert(next.payment_at(id, i));
        lemma_payment_index(next, id, i);
    }
    if exists|r: PaymentRow| next == (#[trigger] store.inserted(r)).0 && r.pending() {
        assert(next.deliveries == store.deliveries);
    } else if exists|
        payment: DecidableView,
        event_id: Seq<char>,
        ids: Seq<Seq<char>>,
        now: Timestamp,
    |
        next == (#[trigger] store.decision(payment, event_id, ids, now)).0 {
        let (payment, event_id, ids, now) = choose|
            payment: DecidableView,
            event_id: Seq<char>,
            ids: Seq<Seq<char>>,
            now: Timestamp,
        |
            next == (#[trigger] store.decision(payment, event_id, ids, now)).0;
        if store.decision(payment, event_id, ids, now).1 == Ok::<bool, StoreError>(true) {
            lemma_decided(store, payment, event_id, ids, now);
            let n = store.deliveries.len() as int;
            let id = payment.transaction_id;
            let more = queued_deliveries(payment, event_id, ids, now);
            assert forall|d: int| 0 <= d < next.deliveries.len() implies ({
                let row = next.payments[next.payment_index(
                    (#[trigger] next.deliveries[d]).transaction_id,
                )];
                !row.pending() && row.decided_at is Some
            }) by {
                if d < n {
                    assert(next.deliveries[d] == store.deliveries[d]);
                } else {
                    assert(next.deliveries[d] == more[d - n]);
                }
            }
            assert forall|a: int, b: int|
                #![trigger next.deliveries[a], next.deliveries[b]]
                0 <= a < next.deliveries.len() && 0 <= b < next.deliveries.len()
                    && next.deliveries[a].transaction_id == next.deliveries[b].transaction_id
                implies next.deliveries[a].event_id == next.deliveries[b].event_id by {
                // Before it was decided, the payment had no deliveries.
                if a < n {
                    assert(next.deliveries[a] == store.deliveries[a]);
                    assert(store.deliveries[a].transaction_id != id);
                } else {
                    assert(next.deliveries[a] == more[a - n]);
                }
                if b < n {
                    assert(next.deliveries[b] == store.deliveries[b]);
                    assert(store.deliveries[b].transaction_id != id);
                } else {
                    assert(next.deliveries[b] == more[b - n]);
                }
            }
        }
    } else if exists|delivery_id: Seq<char>, r: DeliveryRow|
        next == #[trigger] store.with_delivery(delivery_id, r) && is_attempted(
            store.delivery(delivery_id),
            r,
        ) {
        let (delivery_id, r) = choose|delivery_id: Seq<char>, r: DeliveryRow|
            next == #[trigger] store.with_delivery(delivery_id, r) && is_attempted(
                store.delivery(delivery_id),
                r,
            );
        let k = store.delivery_index(delivery_id);
        if store.has_delivery(delivery_id) {
            assert(store.delivery_at(delivery_id, k));
            assert forall|d: int| 0 <= d < next.deliveries.len() implies ({
                &&& (#[trigger] next.deliveries[d]).transaction_id
                    == store.deliveries[d].transaction_id
                &&& next.deliveries[d].event_id == store.deliveries[d].event_id
            }) by {}
        }
    } else {
        assert(next.deliveries == store.deliveries);
    }
}

proof fn lemma_one_call(store: StoreView, transaction_id: Seq<char>, calls: Seq<Decision>)
    requires
        store.payments_distinct(),
        forall|i: int|
            0 <= i < calls.len() ==> (#[trigger] calls[i]).payment.transaction_id
                == transaction_id,
    ensures
        ({
            let (end, answers) = decided_by_all(store, calls);
            &&& answers.len() == calls.len()
            &&& (forall|i: int| 0 <= i < answers.len() ==> !is_applied(#[trigger] answers[i]))
                ==> end == store
            &&& forall|t: int|
                0 <= t < answers.len() && is_applied(#[trigger] answers[t]) ==> {
                    &&& applied_alone(answers, t)
                    &&& store.pending(transaction_id)
                    &&& end == decided_by(store, calls[t]).0
                    &&& is_applied(decided_by(store, calls[t]).1)
                    &&& !end.pending(transaction_id)
                }
        }),
    decreases calls.len(),
{
    if calls.len() > 0 {
        let earlier = calls.drop_last();
        assert forall|i: int| 0 <= i < earlier.len() implies (
        #[trigger] earlier[i]).payment.transaction_id == transaction_id by {
            assert(earlier[i] == calls[i]);
        }
        lemma_one_call(store, transaction_id, earlier);
        let (before, said) = decided_by_all(store, earlier);
        let (end, answers) = decided_by_all(store, calls);
        let n = calls.len() - 1;
        let call = calls[n];
        assert(calls.last() == call);
        assert(call.payment.transaction_id == transaction_id);
        assert forall|i: int| 0 <= i < n implies #[trigger] answers[i] == said[i] by {}
        if exists|t: int| 0 <= t < said.len() && is_applied(#[trigger] said[t]) {
            let t = choose|t: int| 0 <= t < said.len() && is_applied(#[trigger] said[t]);
            assert(!before.pending(transaction_id));
            assert(decided_by(before, call) == (before, Ok::<bool, StoreError>(false)));
            assert(earlier[t] == calls[t]);
            assert(is_applied(answers[t]));
            assert(!is_applied(answers[n]));
            assert(applied_alone(answers, t));
        } else {
            assert(before == store);
            if is_applied(answers[n]) {
                lemma_decided(store, call.payment, call.event_id, call.ids, call.now);
                lemma_labels();
            } else {
                assert(end == store);
            }
        }
    }
}

} // verus!
