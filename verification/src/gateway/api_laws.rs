//! What the gateway's HTTP API promises to those who call it, said in terms of the requests that
//! they send and the rows that are stored.

use vstd::prelude::*;

use crate::clock::{iso_text, Timestamp};
use crate::gateway::config::Config;
use crate::gateway::outcome::{
    named_scenario, normalised, reveal_scenario_names, PlanView, Scenario,
};
use crate::gateway::records::{DecidableView, DeliveryRow, PaymentRow, PaymentView};
use crate::gateway::schedule::{candidate, earliest_exists, earliest_of};
use crate::gateway::server::{
    acceptance, creates, creation_body, listing, lookup, payment_body, plan_drawn, refunds_to,
    scenario_asked, url_parses, ErrorView, ForceHeader, ReplyView, RequestView,
};
use crate::gateway::store::{
    lemma_delivery_index, lemma_key_index, lemma_payment_index, listing_key, tally, StoreError, StoreView,
};
use crate::json::{lemma_says, names_distinct, says, JsonView};
use crate::text::{blank, debug_quoted, trimmed, trimmed_start};

verus! {

// ----------------------------------------------------------------------------------------
// What is known of a payment
// ----------------------------------------------------------------------------------------

/// How many attempts the deliveries of a payment have seen, all in all.
pub open spec fn attempts_made(store: StoreView, transaction_id: Seq<char>) -> int {
    store.deliveries.fold_left(
        0int,
        |n: int, d: DeliveryRow|
            if d.transaction_id == transaction_id {
                n + d.attempts
            } else {
                n
            },
    )
}

/// How many attempts at the deliveries of a payment were acknowledged, all in all.
pub open spec fn attempts_acknowledged(store: StoreView, transaction_id: Seq<char>) -> int {
    store.deliveries.fold_left(
        0int,
        |n: int, d: DeliveryRow|
            if d.transaction_id == transaction_id {
                n + d.acknowledged_count
            } else {
                n
            },
    )
}

/// Whether a value says under `name` the given text, or null where there is none.
pub open spec fn says_text(body: JsonView, name: Seq<char>, text: Option<Seq<char>>) -> bool {
    match text {
        Some(t) => says(body, name, JsonView::Text(t)),
        None => says(body, name, JsonView::Null),
    }
}

/// Whether a value says under `name` when something happened, or null where it has not.
pub open spec fn says_when(body: JsonView, name: Seq<char>, at: Option<Timestamp>) -> bool {
    match at {
        Some(t) => says(body, name, JsonView::Text(iso_text(t.millis))),
        None => says(body, name, JsonView::Null),
    }
}

/// Whether a value tells of the payment at a position all that is known of it.
pub open spec fn tells_of(body: JsonView, store: StoreView, i: int) -> bool {
    let row = store.payments[i];
    &&& says(body, "transaction_id"@, JsonView::Text(row.transaction_id))
    &&& says(body, "booking_reference"@, JsonView::Text(row.booking_reference))
    &&& says(body, "amount_minor"@, JsonView::Int(row.amount_minor))
    &&& says(body, "currency"@, JsonView::Text(row.currency))
    &&& says(body, "status"@, JsonView::Text(row.status))
    &&& says_text(body, "failure_reason"@, row.failure_reason)
    &&& says(body, "scenario"@, JsonView::Text(row.scenario))
    &&& says(body, "created_at"@, JsonView::Text(iso_text(row.created_at.millis)))
    &&& says_when(body, "decided_at"@, row.decided_at)
    &&& says_text(body, "refund_id"@, row.refund_id)
    &&& says_when(body, "refunded_at"@, row.refunded_at)
    &&& says(
        body,
        "webhook_attempts"@,
        JsonView::Int(attempts_made(store, row.transaction_id)),
    )
    &&& says(
        body,
        "webhook_acknowledged"@,
        JsonView::Bool(attempts_acknowledged(store, row.transaction_id) > 0),
    )
    &&& says(body, "webhook_suppressed"@, JsonView::Bool(!row.deliver_webhook))
}

/// Polling a payment gives back its stored row, field by field, whatever has happened to it,
/// together with what its deliveries have seen.
pub proof fn polling_tells_the_stored_row(store: StoreView, i: int)
    requires
        store.wf(),
        0 <= i < store.payments.len(),
    ensures
        lookup(store, store.payments[i].transaction_id) matches Ok(reply) && reply.status == 200
            && !reply.idempotent_replay && tells_of(reply.body, store, i),
{
    let id = store.payments[i].transaction_id;
    assert(store.payment_at(id, i));
    lemma_payment_index(store, id, i);
    lemma_report_tells(store, i);
}

/// Polling a payment that is not there is answered with 404, and with a body that says which
/// payment is missing.
pub proof fn polling_an_unknown_payment_is_refused(store: StoreView, transaction_id: Seq<char>)
    requires
        forall|i: int|
            0 <= i < store.payments.len() ==> (#[trigger] store.payments[i]).transaction_id
                != transaction_id,
    ensures
        lookup(store, transaction_id) matches Err(e) && e.reply().status == 404 && is_error(
            e.reply().body,
            "NOT_FOUND"@,
            "no payment with transaction_id "@ + transaction_id,
        ),
{
    if store.has_payment(transaction_id) {
        let i = store.payment_index(transaction_id);
        assert(store.payment_at(transaction_id, i));
    }
    lemma_error(lookup(store, transaction_id)->Err_0);
}

/// Once an outcome was applied, polling the payment shows it: `SUCCESS` where it was planned
/// to succeed, `FAILED` where it was planned to fail, with the reason that was planned and the
/// time at which it was applied.
pub proof fn polling_shows_the_outcome(
    store: StoreView,
    payment: DecidableView,
    event_id: Seq<char>,
    ids: Seq<Seq<char>>,
    now: Timestamp,
)
    requires
        store.wf(),
        store.decision(payment, event_id, ids, now).0.wf(),
        store.decision(payment, event_id, ids, now).1 == Ok::<bool, StoreError>(true),
    ensures
        ({
            let next = store.decision(payment, event_id, ids, now).0;
            lookup(next, payment.transaction_id) matches Ok(reply) && {
                &&& reply.status == 200
                &&& payment.outcome is Success ==> says(
                    reply.body,
                    "status"@,
                    JsonView::Text("SUCCESS"@),
                )
                &&& payment.outcome is Failed ==> says(
                    reply.body,
                    "status"@,
                    JsonView::Text("FAILED"@),
                )
                &&& says_text(reply.body, "failure_reason"@, payment.failure_reason)
                &&& says(reply.body, "decided_at"@, JsonView::Text(iso_text(now.millis)))
            }
        }),
{
    let id = payment.transaction_id;
    let next = store.decision(payment, event_id, ids, now).0;
    let i = store.payment_index(id);
    assert(store.payment_at(id, i));
    assert(next.payment_at(id, i));
    polling_tells_the_stored_row(next, i);
}

// ----------------------------------------------------------------------------------------
// What is known of a booking's payments
// ----------------------------------------------------------------------------------------

/// Whether what is reported is the stored row of the payment at a position, together with what
/// its deliveries have seen.
pub open spec fn reports(p: PaymentView, store: StoreView, i: int) -> bool {
    let row = store.payments[i];
    &&& p.transaction_id == row.transaction_id
    &&& p.booking_reference == row.booking_reference
    &&& p.amount_minor == row.amount_minor
    &&& p.currency == row.currency
    &&& p.status == row.status
    &&& p.failure_reason == row.failure_reason
    &&& p.scenario == row.scenario
    &&& p.created_at == row.created_at
    &&& p.decided_at == row.decided_at
    &&& p.refund_id == row.refund_id
    &&& p.refunded_at == row.refunded_at
    &&& p.webhook_attempts == attempts_made(store, row.transaction_id)
    &&& p.webhook_acknowledged == (attempts_acknowledged(store, row.transaction_id) > 0)
    &&& p.webhook_suppressed == !row.deliver_webhook
}

/// A payment is found under its `transaction_id` and under its idempotency key, and what is
/// reported of it is its stored row. Nothing is found under what no payment has.
pub proof fn found_payment_is_the_stored_one(store: StoreView, i: int)
    requires
        store.wf(),
        0 <= i < store.payments.len(),
    ensures
        store.payment(store.payments[i].transaction_id) matches Some(p) && reports(p, store, i),
        store.payments[i].idempotency_key matches Some(key) ==> (store.payment_by_key(
            key,
        ) matches Some(p) && reports(p, store, i)),
        forall|id: Seq<char>|
            (forall|j: int|
                0 <= j < store.payments.len() ==> (#[trigger] store.payments[j]).transaction_id
                    != id) ==> (#[trigger] store.payment(id)) is None,
        forall|key: Seq<char>|
            (forall|j: int|
                0 <= j < store.payments.len() ==> (#[trigger] store.payments[j]).idempotency_key
                    != Some(key)) ==> (#[trigger] store.payment_by_key(key)) is None,
{
    let row = store.payments[i];
    assert(store.payment_at(row.transaction_id, i));
    lemma_payment_index(store, row.transaction_id, i);
    lemma_tallies(store.deliveries, row.transaction_id);
    if row.idempotency_key is Some {
        let key = row.idempotency_key->0;
        assert(store.key_at(key, i));
        lemma_key_index(store, key, i);
    }
    assert forall|id: Seq<char>|
        (forall|j: int|
            0 <= j < store.payments.len() ==> (#[trigger] store.payments[j]).transaction_id
                != id) implies (#[trigger] store.payment(id)) is None by {
        if store.has_payment(id) {
            let j = store.payment_index(id);
            assert(store.payment_at(id, j));
        }
    }
    assert forall|key: Seq<char>|
        (forall|j: int|
            0 <= j < store.payments.len() ==> (#[trigger] store.payments[j]).idempotency_key
                != Some(key)) implies (#[trigger] store.payment_by_key(key)) is None by {
        if store.has_key(key) {
            let j = store.key_index(key);
            assert(store.key_at(key, j));
        }
    }
}

/// Whether the payment at a position is among those that are reported.
pub open spec fn is_listed(listed: Seq<PaymentView>, store: StoreView, i: int) -> bool {
    exists|a: int| 0 <= a < listed.len() && reports(#[trigger] listed[a], store, i)
}

/// Whether what is reported is one of the stored payments of a booking.
pub open spec fn is_of_booking(p: PaymentView, store: StoreView, reference: Seq<char>) -> bool {
    exists|i: int|
        0 <= i < store.payments.len() && (#[trigger] store.payments[i]).booking_reference
            == reference && reports(p, store, i)
}

/// The payments listed under a booking reference are all of the booking's payments, each of
/// them once, and no other, whatever their status: the newest first, each with its stored row.
pub proof fn listing_is_complete(store: StoreView, reference: Seq<char>)
    requires
        store.wf(),
    ensures
        ({
            let listed = store.payments_of(reference);
            &&& forall|i: int|
                0 <= i < store.payments.len() && store.payments[i].booking_reference == reference
                    ==> #[trigger] is_listed(listed, store, i)
            &&& forall|a: int|
                0 <= a < listed.len() ==> is_of_booking(#[trigger] listed[a], store, reference)
            &&& forall|a: int, b: int|
                #![trigger listed[a], listed[b]]
                0 <= a < b < listed.len() ==> {
                    &&& listed[a].transaction_id != listed[b].transaction_id
                    &&& listed[a].created_at.millis >= listed[b].created_at.millis
                }
        }),
{
    let picked = lemma_picked(store, reference);
    let listed = store.payments_of(reference);
    assert forall|a: int| 0 <= a < listed.len() implies reports(
        #[trigger] listed[a],
        store,
        picked[a],
    ) by {
        assert(listed[a] == store.report(picked[a]));
        lemma_tallies(store.deliveries, store.payments[picked[a]].transaction_id);
    }
    lemma_complete(store, reference, listed, picked);
}

/// Asked for a booking's payments, the gateway answers with a list that tells, item by item,
/// all that is known of each of them. Asked without a booking reference it answers with 400.
pub proof fn listing_tells_the_stored_rows(store: StoreView, reference: Seq<char>)
    requires
        store.wf(),
    ensures
        listing(store, Some(reference)) matches Ok(reply) && {
            &&& reply.status == 200
            &&& says(reply.body, "booking_reference"@, JsonView::Text(reference))
            &&& exists|items: Seq<JsonView>, picked: Seq<int>|
                {
                    &&& says(reply.body, "payments"@, JsonView::List(items))
                    &&& #[trigger] lists(store, reference, items, picked)
                }
        },
        listing(store, None) matches Err(e) && e.reply().status == 400 && is_error(
            e.reply().body,
            "INVALID_REQUEST"@,
            "booking_reference query parameter is required"@,
        ),
{
    lemma_names();
    lemma_error(listing(store, None)->Err_0);
    let reply = listing(store, Some(reference))->Ok_0;
    let members = reply.body->Object_0;
    assert(names_distinct(members));
    lemma_says(members, 0);
    lemma_says(members, 1);
    let picked = lemma_picked(store, reference);
    let listed = store.payments_of(reference);
    let items = members[1].value->List_0;
    assert(items.len() == picked.len());
    assert forall|a: int| 0 <= a < items.len() implies tells_of(
        #[trigger] items[a],
        store,
        picked[a],
    ) by {
        assert(items[a] == payment_body(listed[a]));
        assert(listed[a] == store.report(picked[a]));
        lemma_report_tells(store, picked[a]);
    }
    assert(lists(store, reference, items, picked));
}

/// Whether the items of a list tell of the payments at these positions, which are those of all
/// the booking's payments, each once, the newest first.
pub open spec fn lists(
    store: StoreView,
    reference: Seq<char>,
    items: Seq<JsonView>,
    picked: Seq<int>,
) -> bool {
    &&& items.len() == picked.len()
    &&& picked.no_duplicates()
    &&& forall|i: int|
        picked.contains(i) <==> 0 <= i < store.payments.len() && (
        #[trigger] store.payments[i]).booking_reference == reference
    &&& forall|a: int|
        0 <= a < items.len() ==> tells_of(#[trigger] items[a], store, picked[a])
    &&& forall|a: int, b: int|
        0 <= a < b < picked.len() ==> store.payments[#[trigger] picked[a]].created_at.millis
            >= store.payments[#[trigger] picked[b]].created_at.millis
}

// ----------------------------------------------------------------------------------------
// Asking for a payment
// ----------------------------------------------------------------------------------------

/// Whether an answer to a request for a payment tells of the payment at a position.
pub open spec fn names_payment(body: JsonView, store: StoreView, i: int) -> bool {
    let row = store.payments[i];
    &&& says(body, "transaction_id"@, JsonView::Text(row.transaction_id))
    &&& says(body, "status"@, JsonView::Text(row.status))
    &&& says(body, "booking_reference"@, JsonView::Text(row.booking_reference))
    &&& says(body, "amount_minor"@, JsonView::Int(row.amount_minor))
    &&& says(body, "currency"@, JsonView::Text(row.currency))
    &&& says(body, "scenario"@, JsonView::Text(row.scenario))
}

/// Whether a request for a payment makes sense.
pub open spec fn is_sound(request: RequestView) -> bool {
    &&& !blank(request.booking_reference)
    &&& request.amount_minor > 0
    &&& vstd::utf8::encode_utf8(request.currency).len() == 3
    &&& url_parses(request.callback_url)
}

/// A request under an idempotency key that a stored payment has is answered with that payment
/// as it is now, whatever has happened to it since it was accepted and whatever else the
/// request asks for. It changes nothing, and nothing is drawn for it.
pub proof fn replay_tells_the_stored_payment(
    before: StoreView,
    config: Config,
    state: Seq<u8>,
    request: RequestView,
    header: ForceHeader,
    transaction_id: Seq<char>,
    now: Timestamp,
    after: StoreView,
    later: Seq<u8>,
    outcome: Option<Result<ReplyView, ErrorView>>,
    i: int,
)
    requires
        before.wf(),
        creates(
            before,
            config,
            state,
            request,
            header,
            transaction_id,
            now,
            after,
            later,
            outcome,
        ),
        is_sound(request),
        0 <= i < before.payments.len(),
        request.idempotency_key is Some,
        before.payments[i].idempotency_key == request.idempotency_key,
    ensures
        after == before,
        later == state,
        outcome matches Some(Ok(reply)) && reply.status == 202 && reply.idempotent_replay
            && names_payment(reply.body, before, i),
{
    let key = request.idempotency_key->0;
    assert(before.key_at(key, i));
    lemma_key_index(before, key, i);
    lemma_creation_says(before, i);
}

/// A request whose idempotency key is claimed by another one in the meantime is answered with
/// the payment that has the key, as it is now, and changes nothing.
pub proof fn overtaken_request_is_replayed(
    store: StoreView,
    request: RequestView,
    scenario: Scenario,
    plan: PlanView,
    transaction_id: Seq<char>,
    now: Timestamp,
    i: int,
)
    requires
        store.wf(),
        0 <= i < store.payments.len(),
        request.idempotency_key is Some,
        store.payments[i].idempotency_key == request.idempotency_key,
    ensures
        ({
            let (after, answer) = acceptance(store, request, scenario, plan, transaction_id, now);
            &&& after == store
            &&& answer matches Ok(reply) && reply.status == 202 && reply.idempotent_replay
                && names_payment(reply.body, store, i)
        }),
{
    let key = request.idempotency_key->0;
    assert(store.key_at(key, i));
    lemma_key_index(store, key, i);
    lemma_creation_says(store, i);
}

/// A request that makes no sense is answered with 400 and with what is wrong with it: the
/// first of a blank booking reference, an amount of nothing or less, a currency that is not
/// three bytes long, and a callback that is no absolute URL. It changes nothing, and nothing is
/// drawn for it.
pub proof fn unsound_request_is_refused(
    before: StoreView,
    config: Config,
    state: Seq<u8>,
    request: RequestView,
    header: ForceHeader,
    transaction_id: Seq<char>,
    now: Timestamp,
    after: StoreView,
    later: Seq<u8>,
    outcome: Option<Result<ReplyView, ErrorView>>,
)
    requires
        creates(
            before,
            config,
            state,
            request,
            header,
            transaction_id,
            now,
            after,
            later,
            outcome,
        ),
        !is_sound(request),
    ensures
        after == before,
        later == state,
        outcome matches Some(Err(e)) && e.reply().status == 400 && is_error(
            e.reply().body,
            "INVALID_REQUEST"@,
            if blank(request.booking_reference) {
                "booking_reference must not be empty"@
            } else if request.amount_minor <= 0 {
                "amount_minor must be greater than zero"@
            } else if vstd::utf8::encode_utf8(request.currency).len() != 3 {
                "currency must be a 3-letter code"@
            } else {
                "callback_url must be an absolute URL, e.g. http://127.0.0.1:8080/webhooks/payments"@
            },
        ),
{
    lemma_error(outcome->0->Err_0);
}

/// A request whose header names no scenario is answered with 400, changes nothing, and nothing
/// is drawn for it.
pub proof fn unknown_scenario_is_refused(
    before: StoreView,
    config: Config,
    state: Seq<u8>,
    request: RequestView,
    header: ForceHeader,
    transaction_id: Seq<char>,
    now: Timestamp,
    after: StoreView,
    later: Seq<u8>,
    outcome: Option<Result<ReplyView, ErrorView>>,
)
    requires
        creates(
            before,
            config,
            state,
            request,
            header,
            transaction_id,
            now,
            after,
            later,
            outcome,
        ),
        is_sound(request),
        key_is_free(before, request),
        scenario_asked(header) is Err,
    ensures
        after == before,
        later == state,
        outcome matches Some(Err(e)) && e.reply().status == 400 && is_error(
            e.reply().body,
            "INVALID_REQUEST"@,
            scenario_asked(header)->Err_0,
        ),
{
    lemma_key_is_free(before, request);
    lemma_error(outcome->0->Err_0);
}

/// Whether no payment has the idempotency key of a request.
pub open spec fn key_is_free(store: StoreView, request: RequestView) -> bool {
    forall|i: int|
        0 <= i < store.payments.len() && request.idempotency_key is Some ==> (
        #[trigger] store.payments[i]).idempotency_key != request.idempotency_key
}

/// Whether `row` is what a request asks for, under the given plan and scenario: pending, on
/// the terms of the request, and with its future written down.
pub open spec fn is_accepted(
    row: PaymentRow,
    request: RequestView,
    scenario: Scenario,
    plan: PlanView,
    transaction_id: Seq<char>,
    now: Timestamp,
) -> bool {
    &&& row.transaction_id == transaction_id
    &&& row.idempotency_key == request.idempotency_key
    &&& row.booking_reference == request.booking_reference
    &&& row.amount_minor == request.amount_minor
    &&& row.currency == request.currency
    &&& row.callback_url == request.callback_url
    &&& row.scenario == scenario_name(scenario)
    &&& row.status == "PENDING"@
    &&& row.failure_reason is None
    &&& row.planned_outcome == if plan.outcome is Success {
        "SUCCESS"@
    } else {
        "FAILED"@
    }
    &&& row.planned_failure_reason == plan.failure_reason
    &&& row.deliver_webhook == plan.deliver_webhook
    &&& plan.deliver_after_ms <= i64::MAX ==> row.deliver_after_ms == plan.deliver_after_ms
    &&& row.planned_deliveries == plan.deliveries
    &&& row.created_at == now
    &&& 0 <= plan.decide_after_ms <= i64::MAX - now.millis ==> row.decide_at.millis == now.millis
        + plan.decide_after_ms
    &&& row.decided_at is None
    &&& row.refund_id is None
    &&& row.refunded_at is None
}

/// What a scenario is called.
pub open spec fn scenario_name(scenario: Scenario) -> Seq<char> {
    match scenario {
        Scenario::Random => "random"@,
        Scenario::Success => "success"@,
        Scenario::Failure => "failure"@,
        Scenario::Lost => "lost"@,
        Scenario::Duplicate => "duplicate"@,
        Scenario::LateSuccess => "late_success"@,
        Scenario::Instant => "instant"@,
    }
}

/// A sound request under a key that is free, with a header that names a scenario, is accepted:
/// one payment more is stored, on the terms that were asked for and with the plan that was
/// drawn; everything else stays as it was; and the answer names that payment as `PENDING`. It
/// comes to nothing only where the plan reaches beyond the calendar, or the identifier is
/// taken.
pub proof fn sound_request_is_accepted(
    before: StoreView,
    config: Config,
    state: Seq<u8>,
    request: RequestView,
    header: ForceHeader,
    transaction_id: Seq<char>,
    now: Timestamp,
    after: StoreView,
    later: Seq<u8>,
    outcome: Option<Result<ReplyView, ErrorView>>,
)
    requires
        now.wf(),
        creates(
            before,
            config,
            state,
            request,
            header,
            transaction_id,
            now,
            after,
            later,
            outcome,
        ),
        is_sound(request),
        key_is_free(before, request),
        scenario_asked(header) is Ok,
        forall|i: int|
            0 <= i < before.payments.len() ==> (#[trigger] before.payments[i]).transaction_id
                != transaction_id,
    ensures
        ({
            let (plan, drawn) = plan_drawn(header, config, state);
            let n = before.payments.len() as int;
            &&& later == drawn
            &&& after.deliveries == before.deliveries
            &&& match outcome {
                None => after == before && (now.millis + plan.decide_after_ms
                    > crate::clock::LAST_MILLIS || plan.decide_after_ms < 0),
                Some(Ok(reply)) => {
                    &&& after.payments.len() == n + 1
                    &&& forall|i: int| 0 <= i < n ==> after.payments[i] == before.payments[i]
                    &&& is_accepted(
                        after.payments[n],
                        request,
                        scenario_asked(header)->Ok_0,
                        plan,
                        transaction_id,
                        now,
                    )
                    &&& reply.status == 202
                    &&& !reply.idempotent_replay
                    &&& names_payment(reply.body, after, n)
                },
                Some(Err(_)) => false,
            }
        }),
{
    lemma_key_is_free(before, request);
    if before.has_payment(transaction_id) {
        let i = before.payment_index(transaction_id);
        assert(before.payment_at(transaction_id, i));
    }
    if outcome is Some {
        let n = before.payments.len() as int;
        lemma_creation_says(after, n);
    }
}

/// The header of a request names its scenario: none means that the dice are rolled, and a text
/// means the scenario with that name, of which some have another name besides. Anything else is
/// refused.
pub proof fn header_names_the_scenario(scenario: Scenario, raw: String)
    ensures
        scenario_asked(ForceHeader::Absent) == Ok::<Scenario, Seq<char>>(Scenario::Random),
        scenario_asked(ForceHeader::Unreadable) == Err::<Scenario, Seq<char>>(
            "X-Force-Scenario must be valid ASCII"@,
        ),
        raw@ == scenario_name(scenario) || also_called(scenario, raw@) ==> scenario_asked(
            ForceHeader::Text(raw),
        ) == Ok::<Scenario, Seq<char>>(scenario),
        scenario_asked(ForceHeader::Text(raw)) == Ok::<Scenario, Seq<char>>(scenario) ==> exists|
            name: Seq<char>,
        | #[trigger]
            is_spelled(raw@, name) && (name == scenario_name(scenario) || also_called(
                scenario,
                name,
            )),
        scenario_asked(ForceHeader::Text(raw)) matches Err(message) ==> exists|name: Seq<char>|
            #[trigger] is_spelled(raw@, name) && message == "unknown scenario "@ + debug_quoted(
                name,
            )
                + "; expected one of: random, success, failure, lost, duplicate, late_success, instant"@,
{
    assert(is_spelled(raw@, normalised(raw@)));
    if raw@ == scenario_name(scenario) || also_called(scenario, raw@) {
        lemma_scenario_name(scenario, raw@);
    }
}

/// Whether a text spells a name: white space around it does not count, nor does the letter case,
/// and a `-` counts as a `_`.
pub open spec fn is_spelled(raw: Seq<char>, name: Seq<char>) -> bool {
    let bare = trimmed(raw);
    &&& name.len() == bare.len()
    &&& forall|k: int|
        0 <= k < bare.len() ==> #[trigger] name[k] == if bare[k] == '-' {
            '_'
        } else if 'A' <= bare[k] <= 'Z' {
            (bare[k] as u32 + 32) as char
        } else {
            bare[k]
        }
}

/// The other names of a scenario.
pub open spec fn also_called(scenario: Scenario, name: Seq<char>) -> bool {
    ||| scenario is Failure && (name == "failed"@ || name == "fail"@)
    ||| scenario is LateSuccess && name == "late"@
}

// ----------------------------------------------------------------------------------------
// Asking for a refund
// ----------------------------------------------------------------------------------------

/// A payment that succeeded and was not refunded yet is refunded: from then on its row bears
/// the identifier that is answered and the time, and is otherwise what it was. A payment that
/// was refunded before is answered with its first identifier, marked as a replay. Any other
/// payment is refused with 409. But for the first, nothing changes.
pub proof fn refund_is_answered(
    before: StoreView,
    transaction_id: Seq<char>,
    refund_id: Seq<char>,
    now: Timestamp,
    after: StoreView,
    answer: Result<ReplyView, ErrorView>,
    i: int,
)
    requires
        before.wf(),
        refunds_to(before, transaction_id, refund_id, now, after, answer),
        0 <= i < before.payments.len(),
        before.payments[i].transaction_id == transaction_id,
    ensures
        ({
            let row = before.payments[i];
            let refunded = PaymentRow {
                refund_id: Some(refund_id),
                refunded_at: Some(now),
                ..row
            };
            if row.refund_id is Some {
                &&& after == before
                &&& answer matches Ok(reply) && reply.status == 200 && reply.idempotent_replay
                    && names_refund(reply.body, row.refund_id->0, transaction_id)
            } else if row.status == "SUCCESS"@ {
                &&& after.deliveries == before.deliveries
                &&& after.payments.len() == before.payments.len()
                &&& forall|j: int|
                    0 <= j < before.payments.len() && j != i ==> after.payments[j]
                        == before.payments[j]
                &&& after.payments[i] == refunded
                &&& answer matches Ok(reply) && reply.status == 200 && !reply.idempotent_replay
                    && names_refund(reply.body, refund_id, transaction_id)
            } else {
                &&& after == before
                &&& answer matches Err(e) && e.reply().status == 409 && is_error(
                    e.reply().body,
                    "CONFLICT"@,
                    "cannot refund a payment with status "@ + row.status,
                )
            }
        }),
{
    assert(before.payment_at(transaction_id, i));
    lemma_payment_index(before, transaction_id, i);
    if answer is Ok {
        lemma_names();
        let members = answer->Ok_0.body->Object_0;
        assert(names_distinct(members));
        lemma_says(members, 0);
        lemma_says(members, 1);
        lemma_says(members, 2);
    } else {
        lemma_error(answer->Err_0);
    }
}

/// Asked to refund a payment that is not there, the gateway answers with 404 and changes
/// nothing.
pub proof fn refunding_an_unknown_payment_is_refused(
    before: StoreView,
    transaction_id: Seq<char>,
    refund_id: Seq<char>,
    now: Timestamp,
    after: StoreView,
    answer: Result<ReplyView, ErrorView>,
)
    requires
        refunds_to(before, transaction_id, refund_id, now, after, answer),
        forall|i: int|
            0 <= i < before.payments.len() ==> (#[trigger] before.payments[i]).transaction_id
                != transaction_id,
    ensures
        after == before,
        answer matches Err(e) && e.reply().status == 404 && is_error(
            e.reply().body,
            "NOT_FOUND"@,
            "no payment with transaction_id "@ + transaction_id,
        ),
{
    if before.has_payment(transaction_id) {
        let i = before.payment_index(transaction_id);
        assert(before.payment_at(transaction_id, i));
    }
    lemma_error(answer->Err_0);
}

/// Whether the body of an answer tells of a refund.
pub open spec fn names_refund(
    body: JsonView,
    refund_id: Seq<char>,
    transaction_id: Seq<char>,
) -> bool {
    &&& says(body, "refund_id"@, JsonView::Text(refund_id))
    &&& says(body, "transaction_id"@, JsonView::Text(transaction_id))
    &&& says(body, "status"@, JsonView::Text("REFUNDED"@))
}

/// Each kind of refusal has its own status and code, and says what is wrong.
pub proof fn refusal_says_why(message: Seq<char>)
    ensures
        ({
            let reply = ErrorView::Invalid(message).reply();
            reply.status == 400 && is_error(reply.body, "INVALID_REQUEST"@, message)
        }),
        ({
            let reply = ErrorView::Conflict(message).reply();
            reply.status == 409 && is_error(reply.body, "CONFLICT"@, message)
        }),
        ({
            let reply = ErrorView::NotFound(message).reply();
            reply.status == 404 && is_error(
                reply.body,
                "NOT_FOUND"@,
                "no payment with transaction_id "@ + message,
            )
        }),
        ({
            let reply = ErrorView::Database(message).reply();
            reply.status == 500 && is_error(reply.body, "GATEWAY_ERROR"@, message)
        }),
{
    lemma_error(ErrorView::Invalid(message));
    lemma_error(ErrorView::Conflict(message));
    lemma_error(ErrorView::NotFound(message));
    lemma_error(ErrorView::Database(message));
}

// ----------------------------------------------------------------------------------------
// Steps on the way
// ----------------------------------------------------------------------------------------

/// Whether a body is that of a refusal with this code and message.
pub open spec fn is_error(body: JsonView, code: Seq<char>, message: Seq<char>) -> bool {
    &&& body is Object
    &&& body->Object_0.len() == 1
    &&& body->Object_0[0].name == "error"@
    &&& says(body->Object_0[0].value, "code"@, JsonView::Text(code))
    &&& says(body->Object_0[0].value, "message"@, JsonView::Text(message))
}

proof fn lemma_error(e: ErrorView)
    ensures
        is_error(e.reply().body, e.code(), e.said()),
{
    lemma_names();
    let inner = e.reply().body->Object_0[0].value->Object_0;
    assert(names_distinct(inner));
    lemma_says(inner, 0);
    lemma_says(inner, 1);
}

proof fn lemma_tallies(deliveries: Seq<DeliveryRow>, id: Seq<char>)
    ensures
        ({
            let store = StoreView { payments: Seq::empty(), deliveries };
            &&& attempts_made(store, id) == tally(deliveries, id, false)
            &&& attempts_acknowledged(store, id) == tally(deliveries, id, true)
        }),
        forall|store: StoreView|
            store.deliveries == deliveries ==> #[trigger] attempts_made(store, id) == tally(
                deliveries,
                id,
                false,
            ),
        forall|store: StoreView|
            store.deliveries == deliveries ==> #[trigger] attempts_acknowledged(store, id) == tally(
                deliveries,
                id,
                true,
            ),
    decreases deliveries.len(),
{
    if deliveries.len() > 0 {
        lemma_tallies(deliveries.drop_last(), id);
        let shorter = StoreView { payments: Seq::empty(), deliveries: deliveries.drop_last() };
        let store = StoreView { payments: Seq::empty(), deliveries };
        assert(attempts_made(shorter, id) == tally(deliveries.drop_last(), id, false));
        assert(attempts_acknowledged(shorter, id) == tally(deliveries.drop_last(), id, true));
    }
}

proof fn lemma_picked(store: StoreView, reference: Seq<char>) -> (picked: Seq<int>)
    requires
        store.wf(),
    ensures
        picked.len() == store.payments_of(reference).len(),
        picked.no_duplicates(),
        forall|a: int|
            0 <= a < picked.len() ==> #[trigger] store.payments_of(reference)[a] == store.report(
                picked[a],
            ),
        forall|i: int|
            picked.contains(i) <==> 0 <= i < store.payments.len() && (
            #[trigger] store.payments[i]).booking_reference == reference,
        forall|a: int, b: int|
            0 <= a < b < picked.len() ==> store.payments[#[trigger] picked[a]].created_at.millis
                >= store.payments[#[trigger] picked[b]].created_at.millis,
{
    let keys = store.payments.map_values(|p: PaymentRow| listing_key(p, reference));
    let limit = store.payments.len() as int;
    earliest_exists(keys, limit);
    let picked = earliest_of(keys, limit);
    assert forall|a: int, b: int| 0 <= a < b < picked.len() implies #[trigger] picked[a]
        != #[trigger] picked[b] && store.payments[picked[a]].created_at.millis
        >= store.payments[picked[b]].created_at.millis by {
        assert(candidate(keys, picked[a]) && candidate(keys, picked[b]));
        assert(store.payments[picked[a]].wf() && store.payments[picked[b]].wf());
    }
    assert(picked.no_duplicates());
    assert forall|i: int|
        picked.contains(i) <==> 0 <= i < store.payments.len() && (
        #[trigger] store.payments[i]).booking_reference == reference by {
        if picked.contains(i) {
            let a = choose|a: int| 0 <= a < picked.len() && picked[a] == i;
            assert(candidate(keys, picked[a]));
        } else if 0 <= i < store.payments.len() && store.payments[i].booking_reference
            == reference {
            assert(candidate(keys, i));
            lemma_no_room(picked, i, limit);
        }
    }
    picked
}

proof fn lemma_complete(
    store: StoreView,
    reference: Seq<char>,
    listed: Seq<PaymentView>,
    picked: Seq<int>,
)
    requires
        store.payments_distinct(),
        picked.len() == listed.len(),
        picked.no_duplicates(),
        forall|a: int|
            0 <= a < listed.len() ==> reports(#[trigger] listed[a], store, picked[a]),
        forall|i: int|
            picked.contains(i) <==> 0 <= i < store.payments.len() && (
            #[trigger] store.payments[i]).booking_reference == reference,
        forall|a: int, b: int|
            0 <= a < b < picked.len() ==> store.payments[#[trigger] picked[a]].created_at.millis
                >= store.payments[#[trigger] picked[b]].created_at.millis,
    ensures
        forall|i: int|
            0 <= i < store.payments.len() && store.payments[i].booking_reference == reference
                ==> #[trigger] is_listed(listed, store, i),
        forall|a: int|
            0 <= a < listed.len() ==> is_of_booking(#[trigger] listed[a], store, reference),
        forall|a: int, b: int|
            #![trigger listed[a], listed[b]]
            0 <= a < b < listed.len() ==> {
                &&& listed[a].transaction_id != listed[b].transaction_id
                &&& listed[a].created_at.millis >= listed[b].created_at.millis
            },
{
    assert forall|i: int|
        0 <= i < store.payments.len() && store.payments[i].booking_reference
            == reference implies #[trigger] is_listed(listed, store, i) by {
        assert(picked.contains(i));
        let a = choose|a: int| 0 <= a < picked.len() && picked[a] == i;
        assert(reports(listed[a], store, picked[a]));
    }
    assert forall|a: int| 0 <= a < listed.len() implies is_of_booking(
        #[trigger] listed[a],
        store,
        reference,
    ) by {
        assert(picked.contains(picked[a]));
        assert(store.payments[picked[a]].booking_reference == reference);
    }
    assert forall|a: int, b: int|
        #![trigger listed[a], listed[b]]
        0 <= a < b < listed.len() implies {
        &&& listed[a].transaction_id != listed[b].transaction_id
        &&& listed[a].created_at.millis >= listed[b].created_at.millis
    } by {
        let i = picked[a];
        let j = picked[b];
        assert(picked.contains(i) && picked.contains(j));
        assert(store.payments[i].booking_reference == reference);
        assert(store.payments[j].booking_reference == reference);
        if i < j {
            assert(store.payments[i].transaction_id != store.payments[j].transaction_id);
        } else {
            assert(store.payments[j].transaction_id != store.payments[i].transaction_id);
        }
    }
}

proof fn lemma_key_is_free(store: StoreView, request: RequestView)
    requires
        key_is_free(store, request),
    ensures
        request.idempotency_key matches Some(key) ==> !store.has_key(key),
{
    if request.idempotency_key is Some {
        let key = request.idempotency_key->0;
        if store.has_key(key) {
            let i = store.key_index(key);
            assert(store.key_at(key, i));
        }
    }
}

proof fn lemma_creation_says(store: StoreView, i: int)
    requires
        0 <= i < store.payments.len(),
    ensures
        ({
            let row = store.payments[i];
            let body = creation_body(
                row.transaction_id,
                row.status,
                row.booking_reference,
                row.amount_minor,
                row.currency,
                row.scenario,
            );
            names_payment(body, store, i)
        }),
{
    let row = store.payments[i];
    let members = creation_body(
        row.transaction_id,
        row.status,
        row.booking_reference,
        row.amount_minor,
        row.currency,
        row.scenario,
    )->Object_0;
    lemma_names();
    assert(names_distinct(members));
    lemma_says(members, 0);
    lemma_says(members, 1);
    lemma_says(members, 2);
    lemma_says(members, 3);
    lemma_says(members, 4);
    lemma_says(members, 5);
}

proof fn lemma_scenario_name(scenario: Scenario, name: Seq<char>)
    requires
        name == scenario_name(scenario) || also_called(scenario, name),
    ensures
        named_scenario(normalised(name)) == Some(scenario),
{
    reveal_scenario_names();
    assert(trimmed_start(name) == name);
    assert(trimmed(name) == name);
    assert(normalised(name) =~= name);
}

/// Positions below `n`, no two of them alike and none of them `i`, are fewer than `n`.
proof fn lemma_no_room(picked: Seq<int>, i: int, n: int)
    requires
        picked.no_duplicates(),
        forall|a: int| 0 <= a < picked.len() ==> 0 <= #[trigger] picked[a] < n,
        0 <= i < n,
        !picked.contains(i),
    ensures
        picked.len() < n,
{
    picked.unique_seq_to_set();
    let all = vstd::set_lib::set_int_range(0, n);
    vstd::set_lib::lemma_int_range(0, n);
    let others = all.remove(i);
    assert(picked.to_set().subset_of(others)) by {
        assert forall|x: int| picked.to_set().contains(x) implies others.contains(x) by {
            let a = choose|a: int| 0 <= a < picked.len() && picked[a] == x;
            assert(0 <= picked[a] < n);
        }
    }
    vstd::set_lib::lemma_len_subset(picked.to_set(), others);
}

proof fn lemma_report_tells(store: StoreView, i: int)
    requires
        0 <= i < store.payments.len(),
    ensures
        tells_of(payment_body(store.report(i)), store, i),
{
    let body = payment_body(store.report(i));
    let members = body->Object_0;
    lemma_tallies(store.deliveries, store.payments[i].transaction_id);
    lemma_names();
    assert(names_distinct(members));
    lemma_says(members, 0);
    lemma_says(members, 1);
    lemma_says(members, 2);
    lemma_says(members, 3);
    lemma_says(members, 4);
    lemma_says(members, 5);
    lemma_says(members, 6);
    lemma_says(members, 7);
    lemma_says(members, 8);
    lemma_says(members, 9);
    lemma_says(members, 10);
    lemma_says(members, 11);
    lemma_says(members, 12);
    lemma_says(members, 13);
}

/// What tells the names of members apart: their lengths and their first letters.
pub(crate) proof fn lemma_names()
    ensures
        "transaction_id"@.len() == 14 && "transaction_id"@[0] == 't',
        "booking_reference"@.len() == 17,
        "amount_minor"@.len() == 12,
        "currency"@.len() == 8 && "currency"@[0] == 'c',
        "status"@.len() == 6,
        "failure_reason"@.len() == 14 && "failure_reason"@[0] == 'f',
        "scenario"@.len() == 8 && "scenario"@[0] == 's',
        "created_at"@.len() == 10 && "created_at"@[0] == 'c',
        "decided_at"@.len() == 10 && "decided_at"@[0] == 'd',
        "refund_id"@.len() == 9,
        "refunded_at"@.len() == 11 && "refunded_at"@[0] == 'r',
        "webhook_attempts"@.len() == 16,
        "webhook_acknowledged"@.len() == 20,
        "webhook_suppressed"@.len() == 18,
        "event_id"@.len() == 8 && "event_id"@[0] == 'e',
        "occurred_at"@.len() == 11 && "occurred_at"@[0] == 'o',
        "attempt"@.len() == 7,
        "payments"@.len() == 8,
        "code"@.len() == 4,
        "message"@.len() == 7,
{
    reveal_strlit("transaction_id");
    reveal_strlit("booking_reference");
    reveal_strlit("amount_minor");
    reveal_strlit("currency");
    reveal_strlit("status");
    reveal_strlit("failure_reason");
    reveal_strlit("scenario");
    reveal_strlit("created_at");
    reveal_strlit("decided_at");
    reveal_strlit("refund_id");
    reveal_strlit("refunded_at");
    reveal_strlit("webhook_attempts");
    reveal_strlit("webhook_acknowledged");
    reveal_strlit("webhook_suppressed");
    reveal_strlit("event_id");
    reveal_strlit("occurred_at");
    reveal_strlit("attempt");
    reveal_strlit("payments");
    reveal_strlit("code");
    reveal_strlit("message");
}

// ----------------------------------------------------------------------------------------
// Opening the store
// ----------------------------------------------------------------------------------------

/// Whether a point in time is within the calendar.
pub open spec fn on_calendar(at: Timestamp) -> bool {
    crate::clock::FIRST_MILLIS <= at.millis <= crate::clock::LAST_MILLIS
}

/// Whether a sum is a number of 64 bits.
pub open spec fn is_reportable(n: int) -> bool {
    i64::MIN <= n <= i64::MAX
}

/// Stored rows can be opened if and only if what has to be unique is, every delivery is of a
/// payment that is there, and every time and every number in them can be reported. Nothing else
/// is asked of them, so whatever was due before a restart is due after it.
pub proof fn consistent_rows_can_be_opened(rows: StoreView)
    ensures
        rows.wf() <==> {
            &&& forall|i: int, j: int|
                #![trigger rows.payments[i], rows.payments[j]]
                0 <= i < j < rows.payments.len() ==> {
                    &&& rows.payments[i].transaction_id != rows.payments[j].transaction_id
                    &&& rows.payments[i].idempotency_key is Some
                        ==> rows.payments[i].idempotency_key != rows.payments[j].idempotency_key
                }
            &&& forall|d: int, e: int|
                #![trigger rows.deliveries[d], rows.deliveries[e]]
                0 <= d < e < rows.deliveries.len() ==> rows.deliveries[d].delivery_id
                    != rows.deliveries[e].delivery_id
            &&& forall|i: int|
                0 <= i < rows.payments.len() ==> is_row((#[trigger] rows.payments[i]), rows)
            &&& forall|d: int|
                0 <= d < rows.deliveries.len() ==> is_delivery_row(
                    (#[trigger] rows.deliveries[d]),
                    rows,
                )
        },
{
    assert forall|d: int| 0 <= d < rows.deliveries.len() implies (rows.delivery_owned(d) <==> exists|
        i: int,
    |
        0 <= i < rows.payments.len() && (#[trigger] rows.payments[i]).transaction_id
            == rows.deliveries[d].transaction_id) by {
        let id = rows.deliveries[d].transaction_id;
        if rows.delivery_owned(d) {
            assert(rows.payment_at(id, rows.payment_index(id)));
        }
        if exists|i: int|
            0 <= i < rows.payments.len() && (#[trigger] rows.payments[i]).transaction_id == id {
            let i = choose|i: int|
                0 <= i < rows.payments.len() && (#[trigger] rows.payments[i]).transaction_id == id;
            assert(rows.payment_at(id, i));
        }
    }
    assert forall|i: int| 0 <= i < rows.payments.len() implies (rows.tallies_fit(
        (#[trigger] rows.payments[i]).transaction_id,
    ) <==> is_reportable(attempts_made(rows, rows.payments[i].transaction_id)) && is_reportable(
        attempts_acknowledged(rows, rows.payments[i].transaction_id),
    )) by {
        lemma_tallies(rows.deliveries, rows.payments[i].transaction_id);
    }
    if rows.wf() {
        assert forall|d: int| 0 <= d < rows.deliveries.len() implies is_delivery_row(
            #[trigger] rows.deliveries[d],
            rows,
        ) by {
            assert(rows.deliveries[d].wf());
            assert(rows.delivery_owned(d));
        }
        assert forall|i: int| 0 <= i < rows.payments.len() implies is_row(
            #[trigger] rows.payments[i],
            rows,
        ) by {
            assert(rows.payments[i].wf());
        }
    }
}

/// Whether a stored payment can be reported.
pub open spec fn is_row(row: PaymentRow, rows: StoreView) -> bool {
    &&& on_calendar(row.created_at)
    &&& on_calendar(row.decide_at)
    &&& row.decided_at matches Some(t) ==> on_calendar(t)
    &&& row.refunded_at matches Some(t) ==> on_calendar(t)
    &&& is_reportable(attempts_made(rows, row.transaction_id))
    &&& is_reportable(attempts_acknowledged(rows, row.transaction_id))
}

/// Whether a stored delivery can be attempted, and is of a payment that is there.
pub open spec fn is_delivery_row(row: DeliveryRow, rows: StoreView) -> bool {
    &&& on_calendar(row.next_attempt_at)
    &&& on_calendar(row.created_at)
    &&& row.completed_at matches Some(t) ==> on_calendar(t)
    &&& is_reportable(row.attempts)
    &&& is_reportable(row.acknowledged_count)
    &&& exists|i: int|
        0 <= i < rows.payments.len() && (#[trigger] rows.payments[i]).transaction_id
            == row.transaction_id
}

/// One more attempt at a delivery can be counted as long as nothing that counts attempts has
/// reached the limit of 64 bits.
pub proof fn attempts_can_be_counted(store: StoreView, d: int)
    requires
        store.wf(),
        0 <= d < store.deliveries.len(),
    ensures
        ({
            let row = store.deliveries[d];
            store.has_room(row.delivery_id) <==> {
                &&& row.attempts < i64::MAX
                &&& row.acknowledged_count < i64::MAX
                &&& attempts_made(store, row.transaction_id) < i64::MAX
                &&& attempts_acknowledged(store, row.transaction_id) < i64::MAX
            }
        }),
{
    let row = store.deliveries[d];
    assert(store.delivery_at(row.delivery_id, d));
    lemma_delivery_index(store, row.delivery_id, d);
    lemma_tallies(store.deliveries, row.transaction_id);
}

} // verus!
