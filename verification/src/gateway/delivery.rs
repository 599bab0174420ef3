//! Deciding pending payments, then delivering webhooks.
//!
//! ## Deliveries are concurrent
//!
//! Every delivery due on a tick is dispatched **at once**, not one after another. A planned
//! duplicate is two deliveries sharing one `event_id` and one `next_attempt_at`, so both
//! requests hit the receiver simultaneously. Real providers behave this way, and a receiver
//! that dedups with a separate read-then-write will double-apply under it.
//!
//! ## Retry policy
//!
//! A delivery is acknowledged only by a **2xx**. Anything else — 4xx, 5xx, connection
//! refused, timeout — is a failed attempt, and the gateway will try again, **forever**,
//! with exponential backoff: base, 2x, 4x, 8x, … capped at `WEBHOOK_BACKOFF_MAX_MS`, with
//! up to 20% jitter.
//!
//! There is no attempt limit and no dead-letter queue.

use rand::rngs::StdRng;
use vstd::arithmetic::power2::pow2;
use vstd::prelude::*;

use crate::clock::{in_calendar, iso, iso_text, Timestamp};
use crate::dice::{between_draw, draw_between, generator_state};
use crate::gateway::config::Config;
use crate::gateway::records::{retry_delay, DecidableView, DeliveryRow, DueDelivery, DueView};
use crate::gateway::signature::{sign, signature_of_body};
use crate::gateway::store::{decidable_views, new_delivery_ids, Store, StoreError, StoreView};
use crate::ids::{id_with_prefix, new_event_id};
use crate::json::{member, put, text_or_null, Json, JsonView, Member};
use crate::text::{borrow_opt, decimal, join, opt_str_view, own_opt, to_decimal};

verus! {

/// How long the worker rests between two rounds, in milliseconds.
pub const TICK_MS: u64 = 250;

// ----------------------------------------------------------------------------------------
// Backoff
// ----------------------------------------------------------------------------------------

/// How many times the first wait has been doubled by this attempt.
pub open spec fn doublings(attempt: int) -> nat {
    if attempt <= 1 {
        0
    } else {
        (attempt - 1) as nat
    }
}

/// How long to wait after this attempt, before jitter: the first wait, doubled for each
/// attempt before this one, and capped.
pub open spec fn backoff_base(config: Config, attempt: int) -> int {
    let wait = config.webhook_backoff_base_ms * pow2(doublings(attempt));
    if wait <= config.webhook_backoff_max_ms {
        wait
    } else {
        config.webhook_backoff_max_ms as int
    }
}

/// The most by which jitter lengthens a wait: a fifth of it, and one millisecond at least.
pub open spec fn max_jitter(base: int) -> int {
    if base / 5 < 1 {
        1
    } else {
        base / 5
    }
}

/// Whether every wait that can come after this attempt is a number of 64 bits.
pub open spec fn backoff_fits(config: Config, attempt: int) -> bool {
    let base = backoff_base(config, attempt);
    base + max_jitter(base) <= u64::MAX
}

/// How long to wait after this attempt, before jitter.
pub fn base_backoff(config: &Config, attempt: i64) -> (base: u64)
    ensures
        base == backoff_base(*config, attempt as int),
{
    let first = config.webhook_backoff_base_ms;
    let max = config.webhook_backoff_max_ms;
    let times: i64 = if attempt <= 1 {
        0
    } else {
        attempt - 1
    };
    proof {
        vstd::arithmetic::power2::lemma2_to64();
        lemma_doubled(first as int, 0, times as nat);
    }
    if first == 0 {
        return 0;
    }
    if first >= max {
        return max;
    }
    let mut wait: u64 = first;
    let mut i: i64 = 0;
    // A wait that has reached the cap stays there, so a long-running retry does not go on
    // doubling.
    while i < times
        invariant
            0 <= i <= times,
            first > 0,
            first == config.webhook_backoff_base_ms,
            max == config.webhook_backoff_max_ms,
            times == doublings(attempt as int),
            wait == first * pow2(i as nat),
            wait <= max,
        decreases times - i,
    {
        proof {
            vstd::arithmetic::power2::lemma_pow2_unfold((i + 1) as nat);
            lemma_doubled(first as int, (i + 1) as nat, times as nat);
            assert(first * (2 * pow2(i as nat)) == 2 * (first * pow2(i as nat)))
                by (nonlinear_arith);
        }
        if wait > max / 2 {
            return max;
        }
        wait = wait * 2;
        i += 1;
    }
    wait
}

proof fn lemma_doubled(first: int, a: nat, b: nat)
    requires
        0 <= first,
    ensures
        0 <= first * pow2(a),
        a <= b ==> first * pow2(a) <= first * pow2(b),
        first * pow2(0) == first,
        first == 0 ==> first * pow2(b) == 0,
{
    vstd::arithmetic::power2::lemma2_to64();
    if a < b {
        vstd::arithmetic::power2::lemma_pow2_strictly_increases(a, b);
    }
    let p = pow2(a) as int;
    let q = pow2(b) as int;
    assert(0 <= first * p) by (nonlinear_arith)
        requires
            0 <= first,
            0 <= p,
    ;
    assert(p <= q ==> first * p <= first * q) by (nonlinear_arith)
        requires
            0 <= first,
    ;
    assert(first == 0 ==> first * q == 0) by (nonlinear_arith);
    assert(first * 1 == first);
}

fn jitter_limit(base: u64) -> (j: u64)
    ensures
        j == max_jitter(base as int),
{
    if base / 5 < 1 {
        1
    } else {
        base / 5
    }
}

/// How long to wait after this attempt, with the given jitter.
pub fn backoff_with(config: &Config, attempt: i64, jitter: u64) -> (ms: u64)
    requires
        backoff_base(*config, attempt as int) + jitter <= u64::MAX,
    ensures
        ms == backoff_base(*config, attempt as int) + jitter,
{
    base_backoff(config, attempt) + jitter
}

/// How long to wait after this attempt, and the generator's state after drawing the jitter.
pub open spec fn backoff_drawn(config: Config, attempt: int, state: Seq<u8>) -> (int, Seq<u8>) {
    let base = backoff_base(config, attempt);
    let (jitter, s) = between_draw(state, 0, max_jitter(base) as u64);
    (base + jitter, s)
}

/// Exponential backoff with jitter, capped.
pub fn backoff_for(config: &Config, attempt: i64, rng: &mut StdRng) -> (ms: u64)
    requires
        backoff_fits(*config, attempt as int),
    ensures
        (ms as int, generator_state(*final(rng))) == backoff_drawn(
            *config,
            attempt as int,
            generator_state(*old(rng)),
        ),
        ({
            let base = backoff_base(*config, attempt as int);
            base <= ms <= base + max_jitter(base)
        }),
{
    let base = base_backoff(config, attempt);
    // Jitter stops a fleet of retries from synchronising.
    let jitter = draw_between(rng, 0, jitter_limit(base));
    backoff_with(config, attempt, jitter)
}

/// Exponential backoff with jitter, capped. `None` where the wait that was drawn is no number
/// of 64 bits.
pub fn try_backoff_for(config: &Config, attempt: i64, rng: &mut StdRng) -> (r: Option<u64>)
    ensures
        ({
            let (ms, state) = backoff_drawn(
                *config,
                attempt as int,
                generator_state(*old(rng)),
            );
            &&& generator_state(*final(rng)) == state
            &&& match r {
                Some(wait) => wait == ms,
                None => ms > u64::MAX,
            }
        }),
        ({
            let base = backoff_base(*config, attempt as int);
            r matches Some(wait) ==> base <= wait <= base + max_jitter(base)
        }),
{
    let base = base_backoff(config, attempt);
    let jitter = draw_between(rng, 0, jitter_limit(base));
    base.checked_add(jitter)
}

/// The wait grows from attempt to attempt and never exceeds the cap.
pub proof fn backoff_grows_to_the_cap(config: Config, attempt: int, later: int)
    requires
        attempt <= later,
    ensures
        0 <= backoff_base(config, attempt) <= backoff_base(config, later)
            <= config.webhook_backoff_max_ms,
{
    lemma_doubled(
        config.webhook_backoff_base_ms as int,
        doublings(attempt),
        doublings(later),
    );
}

/// The first wait is the base, and each attempt after it doubles the wait, as far as the cap
/// allows.
pub proof fn backoff_doubles(config: Config, attempt: int)
    requires
        1 <= attempt,
    ensures
        backoff_base(config, 1) == if config.webhook_backoff_base_ms
            <= config.webhook_backoff_max_ms {
            config.webhook_backoff_base_ms
        } else {
            config.webhook_backoff_max_ms
        },
        2 * backoff_base(config, attempt) <= config.webhook_backoff_max_ms ==> backoff_base(
            config,
            attempt + 1,
        ) == 2 * backoff_base(config, attempt),
        2 * backoff_base(config, attempt) >= config.webhook_backoff_max_ms ==> backoff_base(
            config,
            attempt + 1,
        ) == config.webhook_backoff_max_ms,
{
    let base = config.webhook_backoff_base_ms as int;
    let n = doublings(attempt);
    vstd::arithmetic::power2::lemma_pow2_unfold((n + 1) as nat);
    lemma_doubled(base, n, n);
    let p = pow2(n) as int;
    assert(base * (2 * p) == 2 * (base * p)) by (nonlinear_arith);
    assert(doublings(attempt + 1) == n + 1);
}

/// Jitter adds no more than a fifth to a wait of five milliseconds or more.
pub proof fn jitter_is_at_most_a_fifth(base: int)
    requires
        5 <= base,
    ensures
        5 * max_jitter(base) <= base,
{
}

/// However long a webhook is retried, and whatever the settings below half of what 64 bits
/// hold, the wait is at most twice the cap.
pub proof fn backoff_never_overflows(config: Config, attempt: int)
    requires
        1 <= config.webhook_backoff_max_ms,
        config.webhook_backoff_max_ms <= u64::MAX / 2,
    ensures
        backoff_fits(config, attempt),
        ({
            let base = backoff_base(config, attempt);
            base + max_jitter(base) <= 2 * config.webhook_backoff_max_ms
        }),
{
    backoff_grows_to_the_cap(config, attempt, attempt);
    let base = backoff_base(config, attempt);
}

// ----------------------------------------------------------------------------------------
// Deciding
// ----------------------------------------------------------------------------------------

/// Deciding payments one after another: what the store holds then, and which outcomes were
/// applied. The first error stops it; what was decided before stays decided.
pub open spec fn decisions(
    store: StoreView,
    payments: Seq<DecidableView>,
    event_ids: Seq<Seq<char>>,
    delivery_ids: Seq<Seq<Seq<char>>>,
    now: Timestamp,
) -> (StoreView, Result<Seq<bool>, StoreError>)
    decreases payments.len(),
{
    if payments.len() == 0 {
        (store, Ok(Seq::empty()))
    } else {
        let (before, done) = decisions(
            store,
            payments.drop_last(),
            event_ids,
            delivery_ids,
            now,
        );
        let n = payments.len() - 1;
        match done {
            Err(e) => (before, Err(e)),
            Ok(applied) => {
                let (after, r) = before.decision(payments[n], event_ids[n], delivery_ids[n], now);
                match r {
                    Err(e) => (after, Err(e)),
                    Ok(b) => (after, Ok(applied.push(b))),
                }
            },
        }
    }
}

/// Whether the first attempt at every delivery of these payments is within the calendar.
pub open spec fn can_decide(payments: Seq<DecidableView>, now: Timestamp) -> bool {
    forall|i: int|
        0 <= i < payments.len() ==> in_calendar(
            now.millis + (#[trigger] payments[i]).deliver_after_ms,
        )
}

/// Whether identifiers are as they are made for events and for the deliveries of payments.
pub open spec fn new_ids(
    payments: Seq<DecidableView>,
    event_ids: Seq<Seq<char>>,
    delivery_ids: Seq<Seq<Seq<char>>>,
) -> bool {
    &&& event_ids.len() == payments.len()
    &&& delivery_ids.len() == payments.len()
    &&& forall|i: int|
        0 <= i < payments.len() ==> id_with_prefix(#[trigger] event_ids[i], "evt_"@)
    &&& forall|i: int|
        0 <= i < payments.len() ==> new_delivery_ids(payments[i], #[trigger] delivery_ids[i])
}

/// Whether deciding the payments that are to be decided now leads to `after` and `r`, where
/// these identifiers are made on the way. After an error no more are made.
pub open spec fn decided_due(
    before: StoreView,
    now: Timestamp,
    event_ids: Seq<Seq<char>>,
    delivery_ids: Seq<Seq<Seq<char>>>,
    after: StoreView,
    r: Result<Seq<bool>, StoreError>,
) -> bool {
    let n = event_ids.len() as int;
    let payments = before.decidable(now);
    &&& n <= payments.len()
    &&& r is Ok ==> n == payments.len()
    &&& new_ids(payments.take(n), event_ids, delivery_ids)
    &&& decisions(before, payments.take(n), event_ids, delivery_ids, now) == (after, r)
}

/// What was said of each payment.
pub open spec fn answers(r: Result<Vec<bool>, StoreError>) -> Result<Seq<bool>, StoreError> {
    match r {
        Ok(v) => Ok(v@),
        Err(e) => Err(e),
    }
}

/// Whether the first attempt at every delivery of the payments to decide now is within the
/// calendar.
pub fn can_decide_due_payments(store: &Store, now: Timestamp) -> (r: bool)
    ensures
        r == can_decide(store@.decidable(now), now),
{
    let due = store.take_decidable(now);
    let mut i: usize = 0;
    while i < due.len()
        invariant
            i <= due@.len(),
            decidable_views(due@) == store@.decidable(now),
            forall|j: int|
                0 <= j < i ==> in_calendar(
                    now.millis + (#[trigger] store@.decidable(now)[j]).deliver_after_ms,
                ),
        decreases due@.len() - i,
    {
        assert(due@[i as int]@ == store@.decidable(now)[i as int]);
        if now.checked_plus(due[i].deliver_after_ms).is_none() {
            return false;
        }
        i += 1;
    }
    assert(due@.len() == decidable_views(due@).len());
    true
}

/// Applies outcomes whose "thinking time" has elapsed. Says of each payment whether its
/// outcome was applied.
pub fn decide_due_payments(store: &mut Store, now: Timestamp) -> (r: Result<Vec<bool>, StoreError>)
    requires
        old(store)@.wf(),
        now.wf(),
        can_decide(old(store)@.decidable(now), now),
    ensures
        final(store)@.wf(),
        exists|event_ids: Seq<Seq<char>>, delivery_ids: Seq<Seq<Seq<char>>>| #[trigger]
            decided_due(
                old(store)@,
                now,
                event_ids,
                delivery_ids,
                final(store)@,
                answers(r),
            ),
{
    let due = store.take_decidable(now);
    let ghost before = store@;
    let ghost payments = before.decidable(now);
    let ghost mut event_ids = Seq::<Seq<char>>::empty();
    let ghost mut delivery_ids = Seq::<Seq<Seq<char>>>::empty();
    let mut applied: Vec<bool> = Vec::new();
    let mut i: usize = 0;
    assert(payments.take(0) =~= Seq::empty());
    while i < due.len()
        invariant
            i <= due@.len(),
            before == old(store)@,
            payments == before.decidable(now),
            payments == decidable_views(due@),
            store@.wf(),
            now.wf(),
            can_decide(payments, now),
            new_ids(payments.take(i as int), event_ids, delivery_ids),
            decisions(before, payments.take(i as int), event_ids, delivery_ids, now) == (
                store@,
                Ok::<Seq<bool>, StoreError>(applied@),
            ),
        decreases due@.len() - i,
    {
        assert(due@[i as int]@ == payments[i as int]);
        let event_id = new_event_id();
        let ghost so_far = store@;
        let r = store.apply_decision(&due[i], event_id.as_str(), now);
        proof {
            let ids = choose|ids: Seq<Seq<char>>|
                {
                    &&& new_delivery_ids(payments[i as int], ids)
                    &&& (store@, r) == #[trigger] so_far.decision(
                        payments[i as int],
                        event_id@,
                        ids,
                        now,
                    )
                };
            let more_events = event_ids.push(event_id@);
            let more_deliveries = delivery_ids.push(ids);
            let head = payments.take(i + 1);
            assert(head.drop_last() =~= payments.take(i as int));
            lemma_decisions_prefix(
                before,
                payments.take(i as int),
                event_ids,
                delivery_ids,
                more_events,
                more_deliveries,
                now,
            );
            assert(new_ids(head, more_events, more_deliveries)) by {
                assert forall|a: int| 0 <= a < head.len() implies id_with_prefix(
                    #[trigger] more_events[a],
                    "evt_"@,
                ) by {
                    if a < i {
                        assert(event_ids[a] == more_events[a]);
                    }
                }
                assert forall|a: int| 0 <= a < head.len() implies new_delivery_ids(
                    head[a],
                    #[trigger] more_deliveries[a],
                ) by {
                    if a < i {
                        assert(delivery_ids[a] == more_deliveries[a]);
                        assert(payments.take(i as int)[a] == head[a]);
                    }
                }
            }
            event_ids = more_events;
            delivery_ids = more_deliveries;
        }
        match r {
            Ok(done) => {
                applied.push(done);
            },
            Err(e) => {
                assert(decided_due(before, now, event_ids, delivery_ids, store@, answers(Err(e))));
                return Err(e);
            },
        }
        i += 1;
    }
    proof {
        assert(payments.take(i as int) =~= payments);
        assert(decided_due(before, now, event_ids, delivery_ids, store@, answers(Ok(applied))));
    }
    Ok(applied)
}

proof fn lemma_decisions_prefix(
    store: StoreView,
    payments: Seq<DecidableView>,
    event_ids: Seq<Seq<char>>,
    delivery_ids: Seq<Seq<Seq<char>>>,
    more_events: Seq<Seq<char>>,
    more_deliveries: Seq<Seq<Seq<char>>>,
    now: Timestamp,
)
    requires
        payments.len() <= event_ids.len() <= more_events.len(),
        payments.len() <= delivery_ids.len() <= more_deliveries.len(),
        forall|i: int| 0 <= i < payments.len() ==> event_ids[i] == more_events[i],
        forall|i: int| 0 <= i < payments.len() ==> delivery_ids[i] == more_deliveries[i],
    ensures
        decisions(store, payments, event_ids, delivery_ids, now) == decisions(
            store,
            payments,
            more_events,
            more_deliveries,
            now,
        ),
    decreases payments.len(),
{
    if payments.len() > 0 {
        lemma_decisions_prefix(
            store,
            payments.drop_last(),
            event_ids,
            delivery_ids,
            more_events,
            more_deliveries,
            now,
        );
    }
}

// ----------------------------------------------------------------------------------------
// What is sent
// ----------------------------------------------------------------------------------------

/// What a webhook tells its receiver.
pub struct Event<'a> {
    pub event_id: &'a str,
    pub transaction_id: &'a str,
    pub booking_reference: &'a str,
    pub status: &'a str,
    pub amount_minor: i64,
    pub currency: &'a str,
    pub failure_reason: Option<&'a str>,
    pub occurred_at: Timestamp,
    pub attempt: i64,
}

impl<'a> Event<'a> {
    /// The event as a JSON object.
    pub open spec fn body(self) -> JsonView {
        JsonView::Object(
            seq![
                member("event_id"@, JsonView::Text(self.event_id@)),
                member("transaction_id"@, JsonView::Text(self.transaction_id@)),
                member("booking_reference"@, JsonView::Text(self.booking_reference@)),
                member("status"@, JsonView::Text(self.status@)),
                member("amount_minor"@, JsonView::Int(self.amount_minor as int)),
                member("currency"@, JsonView::Text(self.currency@)),
                member("failure_reason"@, text_or_null(opt_str_view(self.failure_reason))),
                member("occurred_at"@, JsonView::Text(iso_text(self.occurred_at.millis))),
                member("attempt"@, JsonView::Int(self.attempt as int)),
            ],
        )
    }

    /// The event as a JSON object.
    pub fn to_json(&self) -> (j: Json)
        requires
            self.occurred_at.wf(),
        ensures
            j@ == self.body(),
    {
        let mut members: Vec<Member> = Vec::new();
        put(&mut members, "event_id", Json::text(self.event_id));
        put(&mut members, "transaction_id", Json::text(self.transaction_id));
        put(&mut members, "booking_reference", Json::text(self.booking_reference));
        put(&mut members, "status", Json::text(self.status));
        put(&mut members, "amount_minor", Json::Int(self.amount_minor));
        put(&mut members, "currency", Json::text(self.currency));
        put(&mut members, "failure_reason", Json::text_or_null(&own_opt(self.failure_reason)));
        put(&mut members, "occurred_at", Json::Text(iso(self.occurred_at)));
        put(&mut members, "attempt", Json::Int(self.attempt));
        let j = Json::object(members);
        assert(j@->Object_0 =~= self.body()->Object_0);
        j
    }
}

/// The body of an attempt at a delivery.
pub open spec fn delivery_body(delivery: DueView, attempt: int) -> JsonView {
    JsonView::Object(
        seq![
            member("event_id"@, JsonView::Text(delivery.event_id)),
            member("transaction_id"@, JsonView::Text(delivery.transaction_id)),
            member("booking_reference"@, JsonView::Text(delivery.booking_reference)),
            member("status"@, JsonView::Text(delivery.status)),
            member("amount_minor"@, JsonView::Int(delivery.amount_minor)),
            member("currency"@, JsonView::Text(delivery.currency)),
            member("failure_reason"@, text_or_null(delivery.failure_reason)),
            member("occurred_at"@, JsonView::Text(iso_text(delivery.decided_at.millis))),
            member("attempt"@, JsonView::Int(attempt)),
        ],
    )
}

/// The body of an attempt at a delivery.
pub fn build_body(delivery: &DueDelivery, attempt: i64) -> (j: Json)
    requires
        delivery.decided_at.wf(),
    ensures
        j@ == delivery_body(delivery@, attempt as int),
{
    let event = Event {
        event_id: delivery.event_id.as_str(),
        transaction_id: delivery.transaction_id.as_str(),
        booking_reference: delivery.booking_reference.as_str(),
        status: delivery.status.as_str(),
        amount_minor: delivery.amount_minor,
        currency: delivery.currency.as_str(),
        failure_reason: borrow_opt(&delivery.failure_reason),
        occurred_at: delivery.decided_at,
        attempt,
    };
    let j = event.to_json();
    assert(j@->Object_0 =~= delivery_body(delivery@, attempt as int)->Object_0);
    j
}

/// The body of the next attempt at a delivery.
pub fn delivery_json(delivery: &DueDelivery) -> (j: Json)
    requires
        delivery.decided_at.wf(),
        delivery.attempts < i64::MAX,
    ensures
        j@ == delivery_body(delivery@, delivery.attempts + 1),
{
    build_body(delivery, delivery.attempts + 1)
}

/// A header of a request.
#[derive(Debug)]
pub struct Header {
    pub name: String,
    pub value: String,
}

/// What a header says.
pub open spec fn header(name: Seq<char>, value: Seq<char>) -> (Seq<char>, Seq<char>) {
    (name, value)
}

/// What headers say.
pub open spec fn headers_view(headers: Seq<Header>) -> Seq<(Seq<char>, Seq<char>)> {
    headers.map_values(|h: Header| header(h.name@, h.value@))
}

/// The headers of a webhook: the kind of its body, the event that it is about, the signature
/// of the bytes that are sent, and the event again as an idempotency key.
pub open spec fn webhook_headers(
    secret: Seq<char>,
    event_id: Seq<char>,
    body: Seq<u8>,
) -> Seq<(Seq<char>, Seq<char>)> {
    seq![
        header("content-type"@, "application/json"@),
        header("x-payment-event-id"@, event_id),
        header(
            "x-payment-signature"@,
            signature_of_body(vstd::utf8::encode_utf8(secret), body),
        ),
        header("idempotency-key"@, event_id),
    ]
}

/// The headers under which a webhook is posted. The signature is of the very bytes that are
/// sent.
pub fn build_headers(secret: &str, event_id: &str, body: &[u8]) -> (headers: Vec<Header>)
    ensures
        headers_view(headers@) == webhook_headers(secret@, event_id@, body@),
{
    let signature = sign(secret, body);
    let mut headers: Vec<Header> = Vec::new();
    headers.push(
        Header { name: "content-type".to_owned(), value: "application/json".to_owned() },
    );
    headers.push(Header { name: "x-payment-event-id".to_owned(), value: event_id.to_owned() });
    headers.push(Header { name: "x-payment-signature".to_owned(), value: signature });
    headers.push(Header { name: "idempotency-key".to_owned(), value: event_id.to_owned() });
    assert(headers_view(headers@) =~= webhook_headers(secret@, event_id@, body@));
    headers
}

/// A webhook, ready to be posted.
#[derive(Debug)]
pub struct Post {
    pub url: String,
    pub headers: Vec<Header>,
    pub body: Vec<u8>,
}

/// What is posted.
#[verifier::ext_equal]
pub struct PostView {
    pub url: Seq<char>,
    pub headers: Seq<(Seq<char>, Seq<char>)>,
    pub body: Seq<u8>,
}

impl View for Post {
    type V = PostView;

    open spec fn view(&self) -> PostView {
        PostView { url: self.url@, headers: headers_view(self.headers@), body: self.body@ }
    }
}

/// What is posted to tell `url` of an event in the given bytes.
pub open spec fn webhook_post(
    secret: Seq<char>,
    url: Seq<char>,
    event_id: Seq<char>,
    body: Seq<u8>,
) -> PostView {
    PostView { url, headers: webhook_headers(secret, event_id, body), body }
}

/// A webhook that tells `url` of an event in the given bytes.
pub fn build_post(secret: &str, url: &str, event_id: &str, body: &Vec<u8>) -> (post: Post)
    ensures
        post@ == webhook_post(secret@, url@, event_id@, body@),
{
    let headers = build_headers(secret, event_id, body.as_slice());
    let copy = body.clone();
    assert(copy@ =~= body@);
    Post { url: url.to_owned(), headers, body: copy }
}

/// What is posted to the receiver of a delivery, given the bytes of the body.
pub open spec fn delivery_posted(config: Config, delivery: DueView, raw: Seq<u8>) -> PostView {
    webhook_post(config.webhook_secret@, delivery.callback_url, delivery.event_id, raw)
}

/// The post of an attempt at a delivery: it goes to the delivery's own receiver, about its own
/// event, and is signed with the secret of the settings.
pub fn delivery_post(config: &Config, delivery: &DueDelivery, raw: &Vec<u8>) -> (post: Post)
    ensures
        post@ == delivery_posted(*config, delivery@, raw@),
{
    build_post(
        config.webhook_secret.as_str(),
        delivery.callback_url.as_str(),
        delivery.event_id.as_str(),
        raw,
    )
}

/// Every webhook is posted to the delivery's callback, carries the signature of the very bytes
/// that are sent, and names the event twice: as itself and as an idempotency key. Its body
/// names the event, the payment and how it was decided, and is numbered one above the attempts
/// before it.
pub proof fn webhook_tells_its_delivery(config: Config, delivery: DueView, raw: Seq<u8>)
    ensures
        ({
            let post = delivery_posted(config, delivery, raw);
            let signature = signature_of_body(
                vstd::utf8::encode_utf8(config.webhook_secret@),
                post.body,
            );
            let body = delivery_body(delivery, delivery.attempts + 1);
            &&& post.url == delivery.callback_url
            &&& post.headers.contains(header("x-payment-signature"@, signature))
            &&& post.headers.contains(header("x-payment-event-id"@, delivery.event_id))
            &&& post.headers.contains(header("idempotency-key"@, delivery.event_id))
            &&& body->Object_0.contains(
                member("event_id"@, JsonView::Text(delivery.event_id)),
            )
            &&& body->Object_0.contains(
                member("transaction_id"@, JsonView::Text(delivery.transaction_id)),
            )
            &&& body->Object_0.contains(member("status"@, JsonView::Text(delivery.status)))
            &&& body->Object_0.contains(
                member("attempt"@, JsonView::Int(delivery.attempts + 1)),
            )
        }),
{
    let post = delivery_posted(config, delivery, raw);
    let body = delivery_body(delivery, delivery.attempts + 1);
    let signature = signature_of_body(
        vstd::utf8::encode_utf8(config.webhook_secret@),
        post.body,
    );
    assert(post.headers[1] == header("x-payment-event-id"@, delivery.event_id));
    assert(post.headers[2] == header("x-payment-signature"@, signature));
    assert(post.headers[3] == header("idempotency-key"@, delivery.event_id));
    assert(body->Object_0[0] == member("event_id"@, JsonView::Text(delivery.event_id)));
    assert(body->Object_0[1] == member(
        "transaction_id"@,
        JsonView::Text(delivery.transaction_id),
    ));
    assert(body->Object_0[3] == member("status"@, JsonView::Text(delivery.status)));
    assert(body->Object_0[8] == member("attempt"@, JsonView::Int(delivery.attempts + 1)));
}

// ----------------------------------------------------------------------------------------
// What comes back
// ----------------------------------------------------------------------------------------

/// What came of posting a webhook.
#[derive(Debug)]
pub enum Reception {
    /// The receiver answered with this status code.
    Answered(u16),
    /// There was no answer.
    Unanswered {
        /// Whether the connection could not be made.
        is_connect: bool,
        /// Whether the receiver took too long.
        is_timeout: bool,
        /// The error in full.
        error: String,
    },
}

/// Whether a status code is a success.
pub open spec fn success_code(code: u16) -> bool {
    200 <= code <= 299
}

/// Whether a status code is a success.
pub fn is_success(code: u16) -> (r: bool)
    ensures
        r == success_code(code),
{
    200 <= code && code <= 299
}

/// What is noted of an error: the useful part of it.
pub open spec fn error_note(
    is_connect: bool,
    is_timeout: bool,
    error: Seq<char>,
) -> Seq<char> {
    if is_connect {
        "connection refused"@
    } else if is_timeout {
        "timed out"@
    } else {
        error
    }
}

/// What is noted of an error: the useful part of it.
pub fn concise_error(is_connect: bool, is_timeout: bool, error: &str) -> (s: String)
    ensures
        s@ == error_note(is_connect, is_timeout, error@),
{
    if is_connect {
        "connection refused".to_owned()
    } else if is_timeout {
        "timed out".to_owned()
    } else {
        error.to_owned()
    }
}

impl Reception {
    /// Whether the webhook was acknowledged.
    pub open spec fn acknowledged(self) -> bool {
        self matches Reception::Answered(code) && success_code(code)
    }

    /// Whether the webhook was acknowledged.
    pub fn is_acknowledged(&self) -> (r: bool)
        ensures
            r == self.acknowledged(),
    {
        match self {
            Reception::Answered(code) => is_success(*code),
            Reception::Unanswered { .. } => false,
        }
    }

    /// The status code, if there was an answer.
    pub open spec fn code(self) -> Option<u16> {
        match self {
            Reception::Answered(code) => Some(code),
            Reception::Unanswered { .. } => None,
        }
    }

    /// What is noted of an attempt that was not acknowledged.
    pub open spec fn note(self) -> Seq<char> {
        match self {
            Reception::Answered(code) => "HTTP "@ + decimal(code as nat),
            Reception::Unanswered { is_connect, is_timeout, error } => error_note(
                is_connect,
                is_timeout,
                error@,
            ),
        }
    }
}

/// What a delivery becomes by an attempt, given how long a retry would wait.
pub open spec fn attempted(
    delivery: DeliveryRow,
    reception: Reception,
    retry_after_ms: int,
    now: Timestamp,
) -> DeliveryRow {
    if reception.acknowledged() {
        delivery.acknowledged(reception.code()->0, now)
    } else {
        delivery.failed(reception.code(), reception.note(), retry_after_ms, now)
    }
}

/// Records what came of an attempt at a delivery. Only a 2xx completes it; after anything
/// else it is tried again once `retry_after_ms` have passed. Returns whether the delivery
/// was acknowledged.
pub fn record_reception(
    store: &mut Store,
    delivery_id: &str,
    reception: &Reception,
    retry_after_ms: u64,
    now: Timestamp,
) -> (acknowledged: bool)
    requires
        old(store)@.wf(),
        old(store)@.has_room(delivery_id@),
        now.wf(),
        in_calendar(now.millis + retry_delay(retry_after_ms as int)),
    ensures
        final(store)@.wf(),
        final(store)@ == old(store)@.with_delivery(
            delivery_id@,
            attempted(
                old(store)@.delivery(delivery_id@),
                *reception,
                retry_after_ms as int,
                now,
            ),
        ),
        acknowledged == reception.acknowledged(),
{
    match reception {
        Reception::Answered(code) => {
            if is_success(*code) {
                store.record_attempt_acknowledged(delivery_id, *code, now);
                return true;
            }
            let note = join("HTTP ", to_decimal(*code as u64).as_str());
            store.record_attempt_failed(
                delivery_id,
                Some(*code),
                note.as_str(),
                retry_after_ms,
                now,
            );
        },
        Reception::Unanswered { is_connect, is_timeout, error } => {
            let note = concise_error(*is_connect, *is_timeout, error.as_str());
            store.record_attempt_failed(delivery_id, None, note.as_str(), retry_after_ms, now);
        },
    }
    false
}

/// Whether a retry after this wait can be scheduled.
pub open spec fn can_wait(wait: int, now: Timestamp) -> bool {
    wait <= u64::MAX && in_calendar(now.millis + retry_delay(wait))
}

/// Finishing an attempt at a delivery: what the store holds then, and the generator's state.
/// A wait is drawn only where there is something to wait for. Where the wait that was drawn
/// ends outside the calendar, nothing is written.
pub open spec fn attempt_finished(
    store: StoreView,
    config: Config,
    delivery_id: Seq<char>,
    attempt: int,
    reception: Reception,
    state: Seq<u8>,
    now: Timestamp,
) -> (StoreView, Seq<u8>, Option<bool>) {
    let delivery = store.delivery(delivery_id);
    let (wait, after) = backoff_drawn(config, attempt, state);
    if reception.acknowledged() {
        (
            store.with_delivery(delivery_id, attempted(delivery, reception, 0, now)),
            state,
            Some(true),
        )
    } else if can_wait(wait, now) {
        (
            store.with_delivery(delivery_id, attempted(delivery, reception, wait, now)),
            after,
            Some(false),
        )
    } else {
        (store, after, None)
    }
}

/// Records what came of an attempt at a delivery, with a wait before the next one that grows
/// with every attempt. Returns whether the delivery was acknowledged, or `None` where the wait
/// that was drawn ends outside the calendar and nothing was written.
pub fn finish_attempt(
    store: &mut Store,
    config: &Config,
    delivery: &DueDelivery,
    reception: &Reception,
    rng: &mut StdRng,
    now: Timestamp,
) -> (acknowledged: Option<bool>)
    requires
        old(store)@.wf(),
        old(store)@.has_room(delivery.delivery_id@),
        delivery.attempts < i64::MAX,
        now.wf(),
    ensures
        final(store)@.wf(),
        (final(store)@, generator_state(*final(rng)), acknowledged) == attempt_finished(
            old(store)@,
            *config,
            delivery.delivery_id@,
            delivery.attempts + 1,
            *reception,
            generator_state(*old(rng)),
            now,
        ),
        acknowledged == Some(true) <==> (*reception matches Reception::Answered(code) && 200 <= code
            < 300),
        ({
            let base = backoff_base(*config, delivery.attempts + 1);
            let longest = base + max_jitter(base);
            let d = old(store)@.delivery_index(delivery.delivery_id@);
            acknowledged == Some(false) && old(store)@.has_delivery(delivery.delivery_id@)
                && longest <= i64::MAX ==> now.millis + base
                <= final(store)@.deliveries[d].next_attempt_at.millis <= now.millis + longest
        }),
{
    proof {
        let id = delivery.delivery_id@;
        if store@.has_delivery(id) {
            assert(store@.delivery_at(id, store@.delivery_index(id)));
        }
    }
    let wait: u64 = if reception.is_acknowledged() {
        0
    } else {
        let wait = match try_backoff_for(config, delivery.attempts + 1, rng) {
            Some(wait) => wait,
            None => {
                return None;
            },
        };
        let delay: i64 = if wait <= 0x7fff_ffff_ffff_ffff {
            wait as i64
        } else {
            0
        };
        if now.checked_plus(delay).is_none() {
            return None;
        }
        wait
    };
    Some(record_reception(store, delivery.delivery_id.as_str(), reception, wait, now))
}

/// Nothing but a 2xx acknowledges a webhook: after any other answer, and after none, the
/// delivery is still open and is tried again.
pub proof fn only_success_acknowledges(
    delivery: DeliveryRow,
    reception: Reception,
    retry_after_ms: int,
    now: Timestamp,
)
    requires
        !delivery.complete(),
    ensures
        attempted(delivery, reception, retry_after_ms, now).complete() <==> (
        reception matches Reception::Answered(code) && 200 <= code < 300),
        attempted(delivery, reception, retry_after_ms, now).attempts == delivery.attempts + 1,
{
}

/// An attempt at a delivery: what came of it, how long a retry would wait, and when it was.
pub struct Attempt {
    pub reception: Reception,
    pub retry_after_ms: int,
    pub at: Timestamp,
}

/// What a delivery becomes by one attempt after another.
pub open spec fn attempted_all(delivery: DeliveryRow, attempts: Seq<Attempt>) -> DeliveryRow
    decreases attempts.len(),
{
    if attempts.len() == 0 {
        delivery
    } else {
        let last = attempts.last();
        attempted(
            attempted_all(delivery, attempts.drop_last()),
            last.reception,
            last.retry_after_ms,
            last.at,
        )
    }
}

/// The gateway keeps calling, forever, until it receives a 2xx: however many attempts were
/// made, the delivery is over if and only if one of them was acknowledged, and every one of
/// them was counted.
pub proof fn retried_until_acknowledged(delivery: DeliveryRow, attempts: Seq<Attempt>)
    requires
        !delivery.complete(),
    ensures
        attempted_all(delivery, attempts).complete() <==> exists|k: int|
            0 <= k < attempts.len() && (#[trigger] attempts[k]).reception.acknowledged(),
        attempted_all(delivery, attempts).attempts == delivery.attempts + attempts.len(),
        attempted_all(delivery, attempts).event_id == delivery.event_id,
    decreases attempts.len(),
{
    if attempts.len() > 0 {
        let earlier = attempts.drop_last();
        retried_until_acknowledged(delivery, earlier);
        let n = attempts.len() - 1;
        assert(attempts.last() == attempts[n]);
        if exists|k: int|
            0 <= k < earlier.len() && (#[trigger] earlier[k]).reception.acknowledged() {
            let k = choose|k: int|
                0 <= k < earlier.len() && (#[trigger] earlier[k]).reception.acknowledged();
            assert(attempts[k].reception.acknowledged());
        }
        if exists|k: int|
            0 <= k < attempts.len() && (#[trigger] attempts[k]).reception.acknowledged() {
            let k = choose|k: int|
                0 <= k < attempts.len() && (#[trigger] attempts[k]).reception.acknowledged();
            if k < n {
                assert(earlier[k].reception.acknowledged());
            }
        }
    }
}

} // verus!
