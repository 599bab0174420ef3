//! What the gateway's worker promises: which payments it decides and how, which deliveries it
//! attempts, what each webhook says, and what becomes of a delivery that was attempted. All of
//! it is said in terms of the stored rows.

use vstd::arithmetic::power2::pow2;
use vstd::prelude::*;

use crate::clock::{iso_text, Timestamp, LAST_MILLIS};
use crate::dice::between_draw;
use crate::gateway::api_laws::{lemma_names, says_text};
use crate::gateway::config::Config;
use crate::gateway::delivery::{
    attempt_finished, backoff_drawn, backoff_grows_to_the_cap, can_decide, decided_due,
    decisions, delivery_body, delivery_posted, Event, Reception,
};
use crate::gateway::records::{as_signed, DecidableView, DeliveryRow, DueView, PaymentRow};
use crate::gateway::schedule::{before, candidate, earliest_exists, earliest_of};
use crate::gateway::signature::signature_of_body;
use crate::gateway::store::{
    deciding_key, delivering_key, lemma_delivery_index, lemma_payment_index, new_delivery_ids,
    StoreError, StoreView,
};
use crate::ids::id_with_prefix;
use crate::json::{lemma_says, names_distinct, says, JsonView};
use crate::text::{decimal, opt_str_view};

verus! {

// ----------------------------------------------------------------------------------------
// What becomes of a delivery that was attempted
// ----------------------------------------------------------------------------------------

/// Whether an attempt was answered with a 2xx.
pub open spec fn answered_2xx(reception: Reception) -> bool {
    reception matches Reception::Answered(code) && 200 <= code < 300
}

/// Whether nothing but the delivery at a position may differ between two stores.
pub open spec fn same_but_for(store: StoreView, after: StoreView, d: int) -> bool {
    &&& after.payments == store.payments
    &&& after.deliveries.len() == store.deliveries.len()
    &&& forall|e: int|
        0 <= e < store.deliveries.len() && e != d ==> after.deliveries[e] == store.deliveries[e]
}

/// Whether `later` is the same delivery after one attempt more.
pub open spec fn attempted_once_more(row: DeliveryRow, later: DeliveryRow) -> bool {
    &&& later.delivery_id == row.delivery_id
    &&& later.event_id == row.event_id
    &&& later.transaction_id == row.transaction_id
    &&& later.created_at == row.created_at
    &&& later.attempts == row.attempts + 1
}

/// A 2xx completes a delivery: it is counted as acknowledged, and no wait is drawn.
pub proof fn success_completes_a_delivery(
    store: StoreView,
    config: Config,
    d: int,
    attempt: int,
    reception: Reception,
    state: Seq<u8>,
    now: Timestamp,
)
    requires
        store.wf(),
        0 <= d < store.deliveries.len(),
        answered_2xx(reception),
    ensures
        ({
            let row = store.deliveries[d];
            let (after, later, answer) = attempt_finished(
                store,
                config,
                row.delivery_id,
                attempt,
                reception,
                state,
                now,
            );
            let done = after.deliveries[d];
            &&& answer == Some(true)
            &&& later == state
            &&& same_but_for(store, after, d)
            &&& attempted_once_more(row, done)
            &&& done.acknowledged_count == row.acknowledged_count + 1
            &&& done.completed_at == Some(now)
            &&& done.last_error is None
            &&& reception matches Reception::Answered(code) ==> done.last_status_code == Some(
                code as i64,
            )
        }),
{
    let id = store.deliveries[d].delivery_id;
    assert(store.delivery_at(id, d));
    lemma_delivery_index(store, id, d);
}

/// Whatever else comes of an attempt, be it a refusal of the receiver or no answer at all, the
/// delivery is no more complete than it was: the attempt is counted, what went wrong is noted,
/// and the delivery is due again once the wait that was drawn is over. Only where that is
/// beyond the end of the calendar, nothing is written.
pub proof fn failure_is_retried(
    store: StoreView,
    config: Config,
    d: int,
    attempt: int,
    reception: Reception,
    state: Seq<u8>,
    now: Timestamp,
)
    requires
        store.wf(),
        now.wf(),
        0 <= d < store.deliveries.len(),
        !answered_2xx(reception),
    ensures
        ({
            let row = store.deliveries[d];
            let (after, later, answer) = attempt_finished(
                store,
                config,
                row.delivery_id,
                attempt,
                reception,
                state,
                now,
            );
            let (wait, drawn) = backoff_drawn(config, attempt, state);
            let tried = after.deliveries[d];
            &&& later == drawn
            &&& same_but_for(store, after, d)
            &&& now.millis + wait <= LAST_MILLIS ==> answer == Some(false)
                && tried.next_attempt_at.millis == now.millis + wait
            &&& now.millis + wait > LAST_MILLIS && wait <= i64::MAX ==> answer is None
            &&& i64::MAX < wait <= u64::MAX ==> answer == Some(false) && tried.next_attempt_at
                == now
            &&& answer is None ==> after == store
            &&& answer != Some(true)
            &&& answer == Some(false) ==> {
                &&& attempted_once_more(row, tried)
                &&& tried.completed_at == row.completed_at
                &&& tried.acknowledged_count == row.acknowledged_count
                &&& match reception {
                    Reception::Answered(code) => {
                        &&& tried.last_status_code == Some(code as i64)
                        &&& tried.last_error == Some("HTTP "@ + decimal(code as nat))
                    },
                    Reception::Unanswered { is_connect, is_timeout, error } => {
                        &&& tried.last_status_code is None
                        &&& tried.last_error == Some(
                            if is_connect {
                                "connection refused"@
                            } else if is_timeout {
                                "timed out"@
                            } else {
                                error@
                            },
                        )
                    },
                }
            }
        }),
{
    let id = store.deliveries[d].delivery_id;
    assert(store.delivery_at(id, d));
    lemma_delivery_index(store, id, d);
    backoff_grows_to_the_cap(config, attempt, attempt);
}

/// For every reception, a delivery is complete after an attempt if and only if it was complete
/// before or the receiver answered with a 2xx.
pub proof fn only_a_2xx_completes(
    store: StoreView,
    config: Config,
    d: int,
    attempt: int,
    reception: Reception,
    state: Seq<u8>,
    now: Timestamp,
)
    requires
        store.wf(),
        0 <= d < store.deliveries.len(),
    ensures
        ({
            let row = store.deliveries[d];
            let (after, _, answer) = attempt_finished(
                store,
                config,
                row.delivery_id,
                attempt,
                reception,
                state,
                now,
            );
            &&& after.deliveries[d].completed_at is Some <==> (row.completed_at is Some || (
            reception matches Reception::Answered(code) && 200 <= code < 300))
            &&& answer == Some(true) <==> (reception matches Reception::Answered(code) && 200
                <= code < 300)
        }),
{
    let id = store.deliveries[d].delivery_id;
    assert(store.delivery_at(id, d));
    lemma_delivery_index(store, id, d);
}

/// The wait after an attempt is the first wait of the settings, doubled for each attempt before
/// this one and capped, and the jitter that was drawn on top of it. Drawn is no more than a
/// fifth of the wait, or one millisecond where that is more.
pub proof fn wait_is_backoff_and_jitter(config: Config, attempt: int, state: Seq<u8>)
    requires
        1 <= attempt,
    ensures
        ({
            let doubled = config.webhook_backoff_base_ms * pow2((attempt - 1) as nat);
            let cap = config.webhook_backoff_max_ms;
            let base = if doubled < cap {
                doubled
            } else {
                cap as int
            };
            let most = if base < 5 {
                1
            } else {
                base / 5
            };
            let (jitter, drawn) = between_draw(state, 0, most as u64);
            &&& backoff_drawn(config, attempt, state) == (base + jitter, drawn)
            &&& jitter <= most ==> base <= backoff_drawn(config, attempt, state).0 <= base + most
        }),
{
    backoff_grows_to_the_cap(config, attempt, attempt);
}

/// An attempt at a delivery that is not there is answered as any other, and changes nothing.
pub proof fn attempt_at_nothing_changes_nothing(
    store: StoreView,
    config: Config,
    delivery_id: Seq<char>,
    attempt: int,
    reception: Reception,
    state: Seq<u8>,
    now: Timestamp,
)
    requires
        forall|d: int|
            0 <= d < store.deliveries.len() ==> (#[trigger] store.deliveries[d]).delivery_id
                != delivery_id,
    ensures
        attempt_finished(store, config, delivery_id, attempt, reception, state, now).0 == store,
{
    if store.has_delivery(delivery_id) {
        let d = store.delivery_index(delivery_id);
        assert(store.delivery_at(delivery_id, d));
    }
}

// ----------------------------------------------------------------------------------------
// Which deliveries are attempted, and what is sent
// ----------------------------------------------------------------------------------------

/// Whether a delivery is to be attempted by now.
pub open spec fn is_due(row: DeliveryRow, now: Timestamp) -> bool {
    row.completed_at is None && row.next_attempt_at.millis <= now.millis
}

/// Whether what is handed to the worker is the delivery at a position, together with the
/// payment at another.
pub open spec fn is_handed(due: DueView, store: StoreView, d: int, i: int) -> bool {
    let row = store.deliveries[d];
    let payment = store.payments[i];
    &&& 0 <= d < store.deliveries.len()
    &&& 0 <= i < store.payments.len()
    &&& payment.transaction_id == row.transaction_id
    &&& due.delivery_id == row.delivery_id
    &&& due.event_id == row.event_id
    &&& due.transaction_id == row.transaction_id
    &&& due.attempts == row.attempts
    &&& due.booking_reference == payment.booking_reference
    &&& due.amount_minor == payment.amount_minor
    &&& due.currency == payment.currency
    &&& due.status == payment.status
    &&& due.failure_reason == payment.failure_reason
    &&& due.callback_url == payment.callback_url
    &&& payment.decided_at == Some(due.decided_at)
}

/// Whether these are the deliveries at the given positions, with the payments that they are
/// of: no more than twenty, each of them due, none of them twice, the longest due first; and
/// none that is due is passed over but for want of room, and then for none that is due later.
pub open spec fn hands_out(
    store: StoreView,
    now: Timestamp,
    handed: Seq<DueView>,
    places: Seq<int>,
    owners: Seq<int>,
) -> bool {
    &&& handed.len() == places.len() == owners.len()
    &&& handed.len() <= 20
    &&& places.no_duplicates()
    &&& forall|a: int|
        0 <= a < handed.len() ==> is_handed(#[trigger] handed[a], store, places[a], owners[a])
    &&& forall|a: int| 0 <= a < places.len() ==> is_due(store.deliveries[#[trigger] places[a]], now)
    &&& forall|a: int, b: int|
        0 <= a < b < places.len() ==> store.deliveries[#[trigger] places[a]].next_attempt_at.millis
            <= store.deliveries[#[trigger] places[b]].next_attempt_at.millis
    &&& forall|d: int|
        0 <= d < store.deliveries.len() && is_due(#[trigger] store.deliveries[d], now)
            && !places.contains(d) ==> handed.len() == 20 && forall|a: int|
            0 <= a < places.len() ==> store.deliveries[#[trigger] places[a]].next_attempt_at.millis
                <= store.deliveries[d].next_attempt_at.millis
}

/// The worker is handed the deliveries that are due, each with the stored row of the payment
/// that it is of. Only where one of them is of a payment that was not decided, nothing is
/// handed out.
pub proof fn due_deliveries_come_with_their_payments(store: StoreView, now: Timestamp)
    requires
        store.wf(),
    ensures
        match store.due(now) {
            Ok(handed) => exists|places: Seq<int>, owners: Seq<int>| #[trigger]
                hands_out(store, now, handed, places, owners),
            Err(e) => e == StoreError::UndecidedDelivery && exists|d: int, i: int|
                #![trigger store.deliveries[d], store.payments[i]]
                {
                    &&& 0 <= d < store.deliveries.len()
                    &&& 0 <= i < store.payments.len()
                    &&& is_due(store.deliveries[d], now)
                    &&& store.payments[i].transaction_id == store.deliveries[d].transaction_id
                    &&& store.payments[i].decided_at is None
                },
        },
{
    let keys = store.deliveries.map_values(|d: DeliveryRow| delivering_key(d, now));
    earliest_exists(keys, 20);
    let places = store.due_positions(now);
    let owners = places.map_values(
        |d: int| store.payment_index(store.deliveries[d].transaction_id),
    );
    assert forall|a: int| 0 <= a < places.len() implies ({
        let d = #[trigger] places[a];
        let i = owners[a];
        &&& 0 <= d < store.deliveries.len()
        &&& 0 <= i < store.payments.len()
        &&& is_due(store.deliveries[d], now)
        &&& store.payments[i].transaction_id == store.deliveries[d].transaction_id
    }) by {
        let d = places[a];
        assert(candidate(keys, d));
        assert(store.delivery_owned(d));
        let id = store.deliveries[d].transaction_id;
        assert(store.payment_at(id, store.payment_index(id)));
    }
    match store.due(now) {
        Ok(handed) => {
            assert forall|a: int| 0 <= a < handed.len() implies is_handed(
                #[trigger] handed[a],
                store,
                places[a],
                owners[a],
            ) by {
                assert(store.decided_at(places[a]));
                assert(handed[a] == store.due_at(places[a]));
            }
            assert forall|a: int, b: int| 0 <= a < b < places.len() implies #[trigger] places[a]
                != #[trigger] places[b] && store.deliveries[places[a]].next_attempt_at.millis
                <= store.deliveries[places[b]].next_attempt_at.millis by {
                assert(before(keys, places[a], places[b]));
            }
            assert forall|d: int|
                0 <= d < store.deliveries.len() && is_due(#[trigger] store.deliveries[d], now)
                    && !places.contains(d) implies handed.len() == 20 && forall|a: int|
                0 <= a < places.len()
                    ==> store.deliveries[#[trigger] places[a]].next_attempt_at.millis
                    <= store.deliveries[d].next_attempt_at.millis by {
                assert(candidate(keys, d));
                assert forall|a: int| 0 <= a < places.len() implies store.deliveries[
                #[trigger] places[a]].next_attempt_at.millis
                    <= store.deliveries[d].next_attempt_at.millis by {
                    assert(before(keys, places[a], d));
                }
            }
            assert(hands_out(store, now, handed, places, owners));
        },
        Err(e) => {
            let a = choose|a: int| 0 <= a < places.len() && !store.decided_at(#[trigger] places[a]);
            let d = places[a];
            let i = owners[a];
            assert(store.payments[i].decided_at is None);
            assert(is_due(store.deliveries[d], now));
        },
    }
}

/// Whether the body of a webhook tells of the delivery at a position and of the payment at
/// another.
pub open spec fn webhook_says(body: JsonView, store: StoreView, d: int, i: int) -> bool {
    let row = store.deliveries[d];
    let payment = store.payments[i];
    &&& says(body, "event_id"@, JsonView::Text(row.event_id))
    &&& says(body, "transaction_id"@, JsonView::Text(payment.transaction_id))
    &&& says(body, "booking_reference"@, JsonView::Text(payment.booking_reference))
    &&& says(body, "status"@, JsonView::Text(payment.status))
    &&& says(body, "amount_minor"@, JsonView::Int(payment.amount_minor))
    &&& says(body, "currency"@, JsonView::Text(payment.currency))
    &&& says_text(body, "failure_reason"@, payment.failure_reason)
    &&& payment.decided_at matches Some(t) ==> says(
        body,
        "occurred_at"@,
        JsonView::Text(iso_text(t.millis)),
    )
    &&& says(body, "attempt"@, JsonView::Int(row.attempts + 1))
}

/// Each webhook tells its receiver, at the address that came with the payment, which payment
/// was decided and how, as the payment is stored, and how often it was told. Its headers name
/// the event, once more as an idempotency key, and carry the signature of the bytes that are
/// sent under the secret of the settings.
pub proof fn webhook_tells_the_stored_payment(
    store: StoreView,
    config: Config,
    handed: DueView,
    d: int,
    i: int,
    raw: Seq<u8>,
)
    requires
        is_handed(handed, store, d, i),
    ensures
        webhook_says(delivery_body(handed, handed.attempts + 1), store, d, i),
        ({
            let post = delivery_posted(config, handed, raw);
            let event_id = store.deliveries[d].event_id;
            let signature = signature_of_body(
                vstd::utf8::encode_utf8(config.webhook_secret@),
                raw,
            );
            &&& post.url == store.payments[i].callback_url
            &&& post.body == raw
            &&& post.headers.len() == 4
            &&& post.headers.contains(("content-type"@, "application/json"@))
            &&& post.headers.contains(("x-payment-event-id"@, event_id))
            &&& post.headers.contains(("x-payment-signature"@, signature))
            &&& post.headers.contains(("idempotency-key"@, event_id))
        }),
{
    let members = delivery_body(handed, handed.attempts + 1)->Object_0;
    lemma_names();
    assert(names_distinct(members));
    lemma_says(members, 0);
    lemma_says(members, 1);
    lemma_says(members, 2);
    lemma_says(members, 3);
    lemma_says(members, 4);
    lemma_says(members, 5);
    lemma_says(members, 6);
    lemma_says(members, 7);
    lemma_says(members, 8);
    let post = delivery_posted(config, handed, raw);
    let event_id = store.deliveries[d].event_id;
    assert(post.headers[0] == ("content-type"@, "application/json"@));
    assert(post.headers[1] == ("x-payment-event-id"@, event_id));
    assert(post.headers[2] == ("x-payment-signature"@, signature_of_body(
        vstd::utf8::encode_utf8(config.webhook_secret@),
        raw,
    )));
    assert(post.headers[3] == ("idempotency-key"@, event_id));
}

/// An event is told field by field.
pub proof fn event_is_told_in_full(event: Event)
    ensures
        says(event.body(), "event_id"@, JsonView::Text(event.event_id@)),
        says(event.body(), "transaction_id"@, JsonView::Text(event.transaction_id@)),
        says(event.body(), "booking_reference"@, JsonView::Text(event.booking_reference@)),
        says(event.body(), "status"@, JsonView::Text(event.status@)),
        says(event.body(), "amount_minor"@, JsonView::Int(event.amount_minor as int)),
        says(event.body(), "currency"@, JsonView::Text(event.currency@)),
        says_text(event.body(), "failure_reason"@, opt_str_view(event.failure_reason)),
        says(event.body(), "occurred_at"@, JsonView::Text(iso_text(event.occurred_at.millis))),
        says(event.body(), "attempt"@, JsonView::Int(event.attempt as int)),
{
    let members = event.body()->Object_0;
    lemma_names();
    assert(names_distinct(members));
    lemma_says(members, 0);
    lemma_says(members, 1);
    lemma_says(members, 2);
    lemma_says(members, 3);
    lemma_says(members, 4);
    lemma_says(members, 5);
    lemma_says(members, 6);
    lemma_says(members, 7);
    lemma_says(members, 8);
}

// ----------------------------------------------------------------------------------------
// Which payments are decided, and how
// ----------------------------------------------------------------------------------------

/// Whether the outcome of a payment is to be applied by now.
pub open spec fn is_known(row: PaymentRow, now: Timestamp) -> bool {
    row.status == "PENDING"@ && row.decide_at.millis <= now.millis
}

/// Whether a plan is the one that was written down with the payment at a position.
pub open spec fn is_plan_of(plan: DecidableView, row: PaymentRow) -> bool {
    &&& plan.transaction_id == row.transaction_id
    &&& plan.outcome is Success <==> row.planned_outcome == "SUCCESS"@
    &&& plan.failure_reason == row.planned_failure_reason
    &&& plan.deliver_webhook == row.deliver_webhook
    &&& plan.deliver_after_ms == row.deliver_after_ms
    &&& plan.deliveries == row.planned_deliveries
}

/// Whether these are the plans of the payments at the given positions: no more than fifty, each
/// of them known by now, none of them twice, the longest known first; and none that is known is
/// passed over but for want of room, and then for none that is known later.
pub open spec fn picks_known(
    store: StoreView,
    now: Timestamp,
    plans: Seq<DecidableView>,
    places: Seq<int>,
) -> bool {
    &&& plans.len() == places.len()
    &&& plans.len() <= 50
    &&& places.no_duplicates()
    &&& forall|a: int|
        0 <= a < places.len() ==> {
            &&& 0 <= #[trigger] places[a] < store.payments.len()
            &&& is_known(store.payments[places[a]], now)
            &&& is_plan_of(plans[a], store.payments[places[a]])
        }
    &&& forall|a: int, b: int|
        0 <= a < b < places.len() ==> store.payments[#[trigger] places[a]].decide_at.millis
            <= store.payments[#[trigger] places[b]].decide_at.millis
    &&& forall|i: int|
        0 <= i < store.payments.len() && is_known(#[trigger] store.payments[i], now)
            && !places.contains(i) ==> plans.len() == 50 && forall|a: int|
            0 <= a < places.len() ==> store.payments[#[trigger] places[a]].decide_at.millis
                <= store.payments[i].decide_at.millis
}

/// The worker is handed the payments whose outcome is known by now, each with the plan that was
/// written down with it.
pub proof fn known_payments_come_with_their_plans(store: StoreView, now: Timestamp) -> (places:
    Seq<int>)
    ensures
        picks_known(store, now, store.decidable(now), places),
{
    let keys = store.payments.map_values(|p: PaymentRow| deciding_key(p, now));
    earliest_exists(keys, 50);
    let places = earliest_of(keys, 50);
    let plans = store.decidable(now);
    assert forall|a: int| 0 <= a < places.len() implies {
        &&& 0 <= #[trigger] places[a] < store.payments.len()
        &&& is_known(store.payments[places[a]], now)
        &&& is_plan_of(plans[a], store.payments[places[a]])
    } by {
        assert(candidate(keys, places[a]));
    }
    assert forall|a: int, b: int| 0 <= a < b < places.len() implies #[trigger] places[a]
        != #[trigger] places[b] && store.payments[places[a]].decide_at.millis
        <= store.payments[places[b]].decide_at.millis by {
        assert(before(keys, places[a], places[b]));
    }
    assert forall|i: int|
        0 <= i < store.payments.len() && is_known(#[trigger] store.payments[i], now)
            && !places.contains(i) implies plans.len() == 50 && forall|a: int|
        0 <= a < places.len() ==> store.payments[#[trigger] places[a]].decide_at.millis
            <= store.payments[i].decide_at.millis by {
        assert(candidate(keys, i));
        assert forall|a: int| 0 <= a < places.len() implies store.payments[
        #[trigger] places[a]].decide_at.millis <= store.payments[i].decide_at.millis by {
            assert(before(keys, places[a], i));
        }
    }
    places
}

/// Whether `later` is a payment to which the outcome of a plan was applied.
pub open spec fn is_decided(
    row: PaymentRow,
    later: PaymentRow,
    plan: DecidableView,
    now: Timestamp,
) -> bool {
    &&& later.status == if plan.outcome is Success {
        "SUCCESS"@
    } else {
        "FAILED"@
    }
    &&& later.failure_reason == plan.failure_reason
    &&& later.decided_at == Some(now)
    &&& later == (PaymentRow {
        status: later.status,
        failure_reason: later.failure_reason,
        decided_at: later.decided_at,
        ..row
    })
}

/// Whether a delivery of an event is queued and was not attempted yet.
pub open spec fn is_queued(
    row: DeliveryRow,
    delivery_id: Seq<char>,
    event_id: Seq<char>,
    plan: DecidableView,
    now: Timestamp,
) -> bool {
    &&& row.delivery_id == delivery_id
    &&& row.event_id == event_id
    &&& row.transaction_id == plan.transaction_id
    &&& row.attempts == 0
    &&& row.acknowledged_count == 0
    &&& i64::MIN <= now.millis + plan.deliver_after_ms <= i64::MAX ==> row.next_attempt_at.millis
        == now.millis + plan.deliver_after_ms
    &&& row.last_status_code is None
    &&& row.last_error is None
    &&& row.created_at == now
    &&& row.completed_at is None
}

/// An outcome is applied to a payment that is pending, and to no other. The payment then has
/// the outcome, the reason and the time, and one delivery is queued for each identifier, of the
/// event and after the delay that was planned; everything else stays as it was. An identifier
/// that is taken, or given twice, stops it, and then nothing changes.
pub proof fn pending_payment_is_decided(
    store: StoreView,
    plan: DecidableView,
    event_id: Seq<char>,
    ids: Seq<Seq<char>>,
    now: Timestamp,
    i: int,
)
    requires
        store.payments_distinct(),
        0 <= i < store.payments.len(),
        store.payments[i].transaction_id == plan.transaction_id,
    ensures
        ({
            let (after, answer) = store.decision(plan, event_id, ids, now);
            let n = store.deliveries.len() as int;
            let free = ids.no_duplicates() && forall|k: int, d: int|
                #![trigger ids[k], store.deliveries[d]]
                0 <= k < ids.len() && 0 <= d < n ==> store.deliveries[d].delivery_id != ids[k];
            if store.payments[i].status != "PENDING"@ {
                after == store && answer == Ok::<bool, StoreError>(false)
            } else if !free {
                after == store && answer == Err::<bool, StoreError>(StoreError::DuplicateDelivery)
            } else {
                &&& answer == Ok::<bool, StoreError>(true)
                &&& after.payments.len() == store.payments.len()
                &&& is_decided(store.payments[i], after.payments[i], plan, now)
                &&& forall|j: int|
                    0 <= j < store.payments.len() && j != i ==> after.payments[j]
                        == store.payments[j]
                &&& after.deliveries.len() == n + ids.len()
                &&& forall|d: int| 0 <= d < n ==> after.deliveries[d] == store.deliveries[d]
                &&& forall|k: int|
                    0 <= k < ids.len() ==> is_queued(
                        #[trigger] after.deliveries[n + k],
                        ids[k],
                        event_id,
                        plan,
                        now,
                    )
            }
        }),
{
    let id = plan.transaction_id;
    assert(store.payment_at(id, i));
    lemma_payment_index(store, id, i);
    let n = store.deliveries.len() as int;
    assert forall|k: int, d: int|
        #![trigger ids[k], store.deliveries[d]]
        0 <= k < ids.len() && 0 <= d < n && store.deliveries[d].delivery_id
            == ids[k] implies store.has_delivery(ids[k]) by {
        assert(store.delivery_at(ids[k], d));
    }
    if forall|k: int, d: int|
        #![trigger ids[k], store.deliveries[d]]
        0 <= k < ids.len() && 0 <= d < n ==> store.deliveries[d].delivery_id != ids[k] {
        assert forall|k: int| 0 <= k < ids.len() implies !store.has_delivery(#[trigger] ids[k]) by {
            if store.has_delivery(ids[k]) {
                let d = store.delivery_index(ids[k]);
                assert(store.delivery_at(ids[k], d));
                assert(store.deliveries[d].delivery_id == ids[k]);
            }
        }
    }
}

/// Nothing is decided of a payment that is not there.
pub proof fn missing_payment_is_not_decided(
    store: StoreView,
    plan: DecidableView,
    event_id: Seq<char>,
    ids: Seq<Seq<char>>,
    now: Timestamp,
)
    requires
        forall|i: int|
            0 <= i < store.payments.len() ==> (#[trigger] store.payments[i]).transaction_id
                != plan.transaction_id,
    ensures
        store.decision(plan, event_id, ids, now) == (store, Ok::<bool, StoreError>(false)),
{
    if store.has_payment(plan.transaction_id) {
        let i = store.payment_index(plan.transaction_id);
        assert(store.payment_at(plan.transaction_id, i));
    }
}

/// As many identifiers are made for the deliveries of a payment as were planned, one at the
/// least; and none where the webhook is not to be delivered.
pub proof fn planned_deliveries_are_named(plan: DecidableView, ids: Seq<Seq<char>>)
    requires
        new_delivery_ids(plan, ids),
    ensures
        !plan.deliver_webhook ==> ids.len() == 0,
        plan.deliver_webhook && plan.deliveries >= 1 ==> ids.len() == plan.deliveries,
        plan.deliver_webhook && plan.deliveries < 1 ==> ids.len() == 1,
        forall|k: int|
            0 <= k < ids.len() ==> (#[trigger] ids[k]).len() == 36 && ids[k].take(4) == "dlv_"@,
{
    reveal_strlit("dlv_");
    assert forall|k: int| 0 <= k < ids.len() implies (#[trigger] ids[k]).len() == 36
        && ids[k].take(4) == "dlv_"@ by {
        assert(id_with_prefix(ids[k], "dlv_"@));
        assert(ids[k].take(4) =~= "dlv_"@);
    }
}

/// Whether a store has a delivery of an event that was queued and not attempted yet.
pub open spec fn has_queued(
    store: StoreView,
    delivery_id: Seq<char>,
    event_id: Seq<char>,
    plan: DecidableView,
    now: Timestamp,
) -> bool {
    exists|d: int|
        0 <= d < store.deliveries.len() && is_queued(
            #[trigger] store.deliveries[d],
            delivery_id,
            event_id,
            plan,
            now,
        )
}

/// A round of the worker that is not stopped by an error applies the outcome of every payment
/// that it was handed, as it was planned, and queues the deliveries that were planned. No other
/// payment changes, and no delivery that was there before.
pub proof fn round_decides_what_is_known(
    store: StoreView,
    now: Timestamp,
    event_ids: Seq<Seq<char>>,
    delivery_ids: Seq<Seq<Seq<char>>>,
    after: StoreView,
    r: Result<Seq<bool>, StoreError>,
) -> (places: Seq<int>)
    requires
        store.wf(),
        decided_due(store, now, event_ids, delivery_ids, after, r),
        r is Ok,
    ensures
        ({
            let plans = store.decidable(now);
            &&& picks_known(store, now, plans, places)
            &&& r->Ok_0.len() == plans.len()
            &&& forall|a: int| 0 <= a < plans.len() ==> #[trigger] r->Ok_0[a]
            &&& after.payments.len() == store.payments.len()
            &&& forall|i: int|
                0 <= i < store.payments.len() && !places.contains(i) ==> #[trigger] after.payments[i]
                    == store.payments[i]
            &&& forall|a: int|
                0 <= a < places.len() ==> is_decided(
                    store.payments[#[trigger] places[a]],
                    after.payments[places[a]],
                    plans[a],
                    now,
                )
            &&& store.deliveries.len() <= after.deliveries.len()
            &&& forall|d: int|
                0 <= d < store.deliveries.len() ==> #[trigger] after.deliveries[d]
                    == store.deliveries[d]
            &&& forall|a: int, k: int|
                #![trigger delivery_ids[a][k]]
                0 <= a < plans.len() && 0 <= k < delivery_ids[a].len() ==> has_queued(
                    after,
                    delivery_ids[a][k],
                    event_ids[a],
                    plans[a],
                    now,
                )
            &&& forall|a: int|
                0 <= a < plans.len() ==> (#[trigger] delivery_ids[a]).len() == if
                    !plans[a].deliver_webhook {
                    0
                } else if plans[a].deliveries < 1 {
                    1
                } else {
                    plans[a].deliveries
                }
        }),
{
    let places = known_payments_come_with_their_plans(store, now);
    let plans = store.decidable(now);
    let n = plans.len() as int;
    assert(plans.take(n) =~= plans);
    lemma_round(store, places, plans, event_ids, delivery_ids, now);
    assert forall|a: int| 0 <= a < plans.len() implies (#[trigger] delivery_ids[a]).len() == if
        !plans[a].deliver_webhook {
        0
    } else if plans[a].deliveries < 1 {
        1
    } else {
        plans[a].deliveries
    } by {
        assert(new_delivery_ids(plans[a], delivery_ids[a]));
    }
    places
}

proof fn lemma_round(
    store: StoreView,
    places: Seq<int>,
    plans: Seq<DecidableView>,
    event_ids: Seq<Seq<char>>,
    delivery_ids: Seq<Seq<Seq<char>>>,
    now: Timestamp,
)
    requires
        store.payments_distinct(),
        plans.len() == places.len(),
        places.no_duplicates(),
        forall|a: int|
            0 <= a < places.len() ==> {
                &&& 0 <= #[trigger] places[a] < store.payments.len()
                &&& store.payments[places[a]].status == "PENDING"@
                &&& plans[a].transaction_id == store.payments[places[a]].transaction_id
            },
        decisions(store, plans, event_ids, delivery_ids, now).1 is Ok,
    ensures
        ({
            let (after, r) = decisions(store, plans, event_ids, delivery_ids, now);
            &&& after.payments_distinct()
            &&& r->Ok_0.len() == plans.len()
            &&& forall|a: int| 0 <= a < plans.len() ==> #[trigger] r->Ok_0[a]
            &&& after.payments.len() == store.payments.len()
            &&& forall|i: int|
                0 <= i < store.payments.len() ==> (#[trigger] after.payments[i]).transaction_id
                    == store.payments[i].transaction_id
            &&& forall|i: int|
                0 <= i < store.payments.len() && !places.contains(i) ==> #[trigger] after.payments[i]
                    == store.payments[i]
            &&& forall|a: int|
                0 <= a < places.len() ==> is_decided(
                    store.payments[#[trigger] places[a]],
                    after.payments[places[a]],
                    plans[a],
                    now,
                )
            &&& store.deliveries.len() <= after.deliveries.len()
            &&& forall|d: int|
                0 <= d < store.deliveries.len() ==> #[trigger] after.deliveries[d]
                    == store.deliveries[d]
            &&& forall|a: int, k: int|
                #![trigger delivery_ids[a][k]]
                0 <= a < plans.len() && 0 <= k < delivery_ids[a].len() ==> has_queued(
                    after,
                    delivery_ids[a][k],
                    event_ids[a],
                    plans[a],
                    now,
                )
        }),
    decreases plans.len(),
{
    if plans.len() > 0 {
        let n = plans.len() - 1;
        let fewer = plans.drop_last();
        let sooner = places.drop_last();
        lemma_round(store, sooner, fewer, event_ids, delivery_ids, now);
        let (mid, said) = decisions(store, fewer, event_ids, delivery_ids, now);
        let (after, r) = decisions(store, plans, event_ids, delivery_ids, now);
        let i = places[n];
        assert(!sooner.contains(i));
        assert(mid.payments[i] == store.payments[i]);
        assert((after, Ok::<bool, StoreError>(true)) == mid.decision(
            plans[n],
            event_ids[n],
            delivery_ids[n],
            now,
        )) by {
            pending_payment_is_decided(mid, plans[n], event_ids[n], delivery_ids[n], now, i);
        }
        pending_payment_is_decided(mid, plans[n], event_ids[n], delivery_ids[n], now, i);
        assert forall|a: int, b: int|
            #![trigger after.payments[a], after.payments[b]]
            0 <= a < b < after.payments.len() implies {
            &&& after.payments[a].transaction_id != after.payments[b].transaction_id
            &&& after.payments[a].idempotency_key is Some ==> after.payments[a].idempotency_key
                != after.payments[b].idempotency_key
        } by {
            assert(mid.payments[a].transaction_id != mid.payments[b].transaction_id);
        }
        assert forall|j: int| 0 <= j < store.payments.len() && !places.contains(j) implies
        #[trigger] after.payments[j] == store.payments[j] by {
            assert(places[n] == i);
            assert(j != i);
            if sooner.contains(j) {
                let a = choose|a: int| 0 <= a < sooner.len() && sooner[a] == j;
                assert(places[a] == j);
            }
        }
        assert forall|a: int| 0 <= a < places.len() implies is_decided(
            store.payments[#[trigger] places[a]],
            after.payments[places[a]],
            plans[a],
            now,
        ) by {
            if a < n {
                assert(sooner[a] == places[a] && fewer[a] == plans[a]);
                assert(places[a] != places[n]);
            }
        }
        assert forall|a: int, k: int|
            #![trigger delivery_ids[a][k]]
            0 <= a < plans.len() && 0 <= k < delivery_ids[a].len() implies has_queued(
            after,
            delivery_ids[a][k],
            event_ids[a],
            plans[a],
            now,
        ) by {
            let m = mid.deliveries.len() as int;
            if a < n {
                assert(fewer[a] == plans[a]);
                assert(has_queued(mid, delivery_ids[a][k], event_ids[a], plans[a], now));
                let d = choose|d: int|
                    0 <= d < m && is_queued(
                        #[trigger] mid.deliveries[d],
                        delivery_ids[a][k],
                        event_ids[a],
                        plans[a],
                        now,
                    );
                assert(after.deliveries[d] == mid.deliveries[d]);
            } else {
                assert(is_queued(
                    after.deliveries[m + k],
                    delivery_ids[a][k],
                    event_ids[a],
                    plans[a],
                    now,
                ));
            }
        }
    }
}

/// The payments that were handed out can be decided as long as the first attempt at each of
/// their deliveries is within the calendar.
pub proof fn payments_can_be_decided(payments: Seq<DecidableView>, now: Timestamp)
    ensures
        can_decide(payments, now) <==> forall|a: int|
            0 <= a < payments.len() ==> crate::clock::FIRST_MILLIS <= now.millis + (
            #[trigger] payments[a]).deliver_after_ms <= LAST_MILLIS,
{
}

/// A number of milliseconds is kept as it is, as long as it fits in 64 bits with a sign; from
/// there on it is counted from the other end.
pub proof fn delay_is_kept(n: int)
    requires
        0 <= n <= u64::MAX,
    ensures
        n <= i64::MAX ==> as_signed(n) == n,
        n > i64::MAX ==> as_signed(n) == n - u64::MAX - 1,
        i64::MIN <= as_signed(n) <= i64::MAX,
{
}

} // verus!
