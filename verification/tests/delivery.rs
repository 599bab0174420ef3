use payment_gateway::clock::{Timestamp, LAST_MILLIS};
use payment_gateway::gateway::config::Config;
use payment_gateway::gateway::delivery::{
    backoff_for, backoff_with, base_backoff, build_body, build_post, can_decide_due_payments,
    concise_error, decide_due_payments, delivery_json, delivery_post, finish_attempt,
    is_success, record_reception, try_backoff_for, Reception, TICK_MS,
};
use payment_gateway::gateway::outcome::{Outcome, Plan};
use payment_gateway::gateway::records::DueDelivery;
use payment_gateway::gateway::store::Store;
use payment_gateway::json::Json;
use rand::rngs::StdRng;
use rand::SeedableRng;

const NOW: Timestamp = Timestamp { millis: 1_700_000_000_000 };

fn at(ms: i64) -> Timestamp {
    Timestamp { millis: NOW.millis + ms }
}

fn self_test_config() -> Config {
    Config::for_self_test("sqlite://:memory:".to_owned())
}

fn plan(deliveries: i64, deliver_webhook: bool) -> Plan {
    Plan {
        outcome: Outcome::Success,
        failure_reason: None,
        decide_after_ms: 0,
        deliver_webhook,
        deliver_after_ms: 0,
        deliveries,
    }
}

fn insert(store: &mut Store, transaction_id: &str, plan: &Plan) {
    let written = store.insert_payment(
        transaction_id,
        None,
        "bkg_1",
        20_000,
        "INR",
        "http://127.0.0.1:8080/webhooks/payments",
        "random",
        plan,
        NOW,
    );
    assert_eq!(written, Ok(true));
}

fn due(store: &Store, now: Timestamp) -> Vec<DueDelivery> {
    store.take_due_deliveries(now).unwrap()
}

fn empty() -> Store {
    Store::open(Vec::new(), Vec::new()).unwrap()
}

#[test]
fn backoff_grows_then_caps() {
    let config = Config {
        webhook_backoff_base_ms: 1_000,
        webhook_backoff_max_ms: 30_000,
        ..Config::for_self_test("sqlite://:memory:".to_owned())
    };
    let mut rng = StdRng::seed_from_u64(1);

    let mut ms = |attempt| backoff_for(&config, attempt, &mut rng);

    // 1s, 2s, 4s, 8s … then flat at the 30s cap. Jitter adds up to 20% on top.
    assert!((1_000..1_200).contains(&ms(1)));
    assert!((2_000..2_400).contains(&ms(2)));
    assert!((4_000..4_800).contains(&ms(3)));
    assert!((8_000..9_600).contains(&ms(4)));
    assert!((30_000..36_000).contains(&ms(20)), "should be capped");
}

#[test]
fn backoff_never_overflows_on_a_long_running_retry() {
    let config = Config::for_self_test("sqlite://:memory:".to_owned());
    let mut rng = StdRng::seed_from_u64(1);

    // A webhook against a permanently-down endpoint really does reach these numbers.
    for attempt in [100_i64, 10_000, i64::MAX] {
        let waited = backoff_for(&config, attempt, &mut rng);
        assert!(waited <= config.webhook_backoff_max_ms * 2);
    }
}

#[test]
fn the_wait_doubles_from_the_base_up_to_the_cap() {
    let config = Config {
        webhook_backoff_base_ms: 3,
        webhook_backoff_max_ms: 1_000_000,
        ..self_test_config()
    };
    assert_eq!(base_backoff(&config, i64::MIN), 3);
    assert_eq!(base_backoff(&config, 1), 3);
    assert_eq!(base_backoff(&config, 2), 6);
    assert_eq!(base_backoff(&config, 17), 3 * 65_536);
    assert_eq!(base_backoff(&config, 18), 3 * 131_072);
    assert_eq!(base_backoff(&config, 19), 3 * 262_144);
    assert_eq!(base_backoff(&config, 20), 1_000_000);
    assert_eq!(base_backoff(&config, i64::MAX), 1_000_000);
    assert_eq!(backoff_with(&config, 2, 1), 7);

    let huge = Config { webhook_backoff_base_ms: u64::MAX, ..self_test_config() };
    assert_eq!(base_backoff(&huge, 5), 200);
    let endless = Config {
        webhook_backoff_base_ms: u64::MAX,
        webhook_backoff_max_ms: u64::MAX,
        ..self_test_config()
    };
    let mut rng = StdRng::seed_from_u64(1);
    assert_eq!(try_backoff_for(&endless, 1, &mut rng), None);
    let wait = try_backoff_for(&config, 2, &mut rng).unwrap();
    assert!((6..=7).contains(&wait));
    let none = Config { webhook_backoff_base_ms: 0, ..self_test_config() };
    assert_eq!(base_backoff(&none, i64::MAX), 0);
    let capped = Config { webhook_backoff_max_ms: 0, ..self_test_config() };
    assert_eq!(base_backoff(&capped, 3), 0);
}

#[test]
fn the_wait_doubles_beyond_the_seventeenth_attempt() {
    let config = Config {
        webhook_backoff_base_ms: 1,
        webhook_backoff_max_ms: 1_000_000,
        ..self_test_config()
    };
    let mut rng = StdRng::seed_from_u64(1);
    assert!((131_072..=157_286).contains(&backoff_for(&config, 18, &mut rng)));
}

#[test]
fn an_attempt_posts_what_its_delivery_says() {
    let body = delivery_json(&due_delivery());
    assert!(matches!(member(&body, "attempt"), Json::Int(3)));
    assert_eq!(text(member(&body, "event_id")), "evt_1");

    let config = Config { webhook_secret: "key".to_owned(), ..self_test_config() };
    let raw = b"The quick brown fox jumps over the lazy dog".to_vec();
    let post = delivery_post(&config, &due_delivery(), &raw);
    assert_eq!(post.url, "http://h/");
    assert_eq!(post.body, raw);
    let pairs: Vec<(&str, &str)> =
        post.headers.iter().map(|h| (h.name.as_str(), h.value.as_str())).collect();
    assert_eq!(
        pairs,
        vec![
            ("content-type", "application/json"),
            ("x-payment-event-id", "evt_1"),
            (
                "x-payment-signature",
                "sha256=f7bc83f430538424b13298e6aa6fb143ef4d59a14946175997479dbc2d1a3cd8",
            ),
            ("idempotency-key", "evt_1"),
        ]
    );
}

#[test]
fn a_post_carries_the_bytes_that_are_signed() {
    let body = b"The quick brown fox jumps over the lazy dog".to_vec();
    let post = build_post("key", "http://h/", "evt_1", &body);
    assert_eq!(post.url, "http://h/");
    assert_eq!(post.body, body);
    assert_eq!(
        post.headers[2].value,
        "sha256=f7bc83f430538424b13298e6aa6fb143ef4d59a14946175997479dbc2d1a3cd8"
    );
}

#[test]
fn a_tick_is_a_quarter_of_a_second() {
    assert_eq!(TICK_MS, 250);
}

#[test]
fn only_2xx_is_a_success() {
    for code in 0..=u16::MAX {
        assert_eq!(is_success(code), (200..300).contains(&code));
    }
}

#[test]
fn errors_are_shortened() {
    assert_eq!(concise_error(true, true, "long"), "connection refused");
    assert_eq!(concise_error(false, true, "long"), "timed out");
    assert_eq!(concise_error(false, false, "long"), "long");
}

fn due_delivery() -> DueDelivery {
    DueDelivery {
        delivery_id: "dlv_1".to_owned(),
        event_id: "evt_1".to_owned(),
        transaction_id: "txn_1".to_owned(),
        booking_reference: "bkg_1".to_owned(),
        amount_minor: 5,
        currency: "INR".to_owned(),
        status: "FAILED".to_owned(),
        failure_reason: Some("card_declined".to_owned()),
        callback_url: "http://h/".to_owned(),
        decided_at: NOW,
        attempts: 2,
    }
}

fn member<'a>(json: &'a Json, name: &str) -> &'a Json {
    match json {
        Json::Object(members) => {
            &members.iter().find(|m| m.name == name).expect("member").value
        }
        _ => panic!("no object"),
    }
}

fn text(json: &Json) -> &str {
    match json {
        Json::Text(s) => s.as_str(),
        _ => panic!("no text: {json:?}"),
    }
}

#[test]
fn the_body_tells_the_receiver_everything() {
    let body = build_body(&due_delivery(), 3);
    assert_eq!(text(member(&body, "event_id")), "evt_1");
    assert_eq!(text(member(&body, "transaction_id")), "txn_1");
    assert_eq!(text(member(&body, "booking_reference")), "bkg_1");
    assert_eq!(text(member(&body, "status")), "FAILED");
    assert!(matches!(member(&body, "amount_minor"), Json::Int(5)));
    assert_eq!(text(member(&body, "currency")), "INR");
    assert_eq!(text(member(&body, "failure_reason")), "card_declined");
    assert_eq!(text(member(&body, "occurred_at")), "2023-11-14T22:13:20.000Z");
    assert!(matches!(member(&body, "attempt"), Json::Int(3)));

    let body = build_body(&DueDelivery { failure_reason: None, ..due_delivery() }, 1);
    assert!(matches!(member(&body, "failure_reason"), Json::Null));
}

#[test]
fn a_rejected_webhook_is_retried_until_it_is_accepted() {
    let mut store = empty();
    let config = self_test_config();
    let mut rng = StdRng::seed_from_u64(5);
    insert(&mut store, "txn_1", &plan(1, true));
    assert!(can_decide_due_payments(&store, NOW));
    assert_eq!(decide_due_payments(&mut store, NOW), Ok(vec![true]));

    let mut now = NOW;
    for attempt in 1..=3_i64 {
        let waiting = due(&store, now);
        assert_eq!(waiting.len(), 1);
        assert_eq!(waiting[0].attempts, attempt - 1);
        assert!(store.can_count_attempt(&waiting[0].delivery_id));
        let acknowledged = finish_attempt(
            &mut store,
            &config,
            &waiting[0],
            &Reception::Answered(500),
            &mut rng,
            now,
        );
        assert_eq!(acknowledged, Some(false));
        assert!(due(&store, now).is_empty(), "not before the wait is over");
        let next = store.deliveries()[0].next_attempt_at.millis - now.millis;
        let base = 50 * (1 << (attempt - 1));
        assert!((base..=base + base / 5).contains(&next));
        now = store.deliveries()[0].next_attempt_at;
    }
    let waiting = due(&store, now);
    let before = rng.clone();
    let acknowledged =
        finish_attempt(&mut store, &config, &waiting[0], &Reception::Answered(204), &mut rng, now);
    assert_eq!(acknowledged, Some(true));
    assert_eq!(rng, before, "there is nothing to wait for");
    assert!(due(&store, at(1_000_000_000)).is_empty());

    let payment = store.get_payment("txn_1").unwrap();
    assert_eq!(payment.webhook_attempts, 4);
    assert!(payment.webhook_acknowledged);
    assert_eq!(payment.status, "SUCCESS");
}

#[test]
fn what_came_back_is_noted() {
    let mut store = empty();
    insert(&mut store, "txn_1", &plan(1, true));
    assert_eq!(decide_due_payments(&mut store, NOW), Ok(vec![true]));
    let id = store.deliveries()[0].delivery_id.clone();

    record_reception(&mut store, &id, &Reception::Answered(404), 10, NOW);
    assert_eq!(store.deliveries()[0].last_status_code, Some(404));
    assert_eq!(store.deliveries()[0].last_error.as_deref(), Some("HTTP 404"));
    assert_eq!(store.deliveries()[0].next_attempt_at, at(10));

    let refused = Reception::Unanswered {
        is_connect: true,
        is_timeout: false,
        error: "tcp connect error".to_owned(),
    };
    record_reception(&mut store, &id, &refused, u64::MAX, NOW);
    assert_eq!(store.deliveries()[0].last_status_code, None);
    assert_eq!(store.deliveries()[0].last_error.as_deref(), Some("connection refused"));
    assert_eq!(store.deliveries()[0].next_attempt_at, NOW);

    assert!(record_reception(&mut store, &id, &Reception::Answered(200), 10, at(7)));
    assert_eq!(store.deliveries()[0].last_status_code, Some(200));
    assert_eq!(store.deliveries()[0].last_error, None);
    assert_eq!(store.deliveries()[0].completed_at, Some(at(7)));
    assert_eq!(store.deliveries()[0].attempts, 3);
}

#[test]
fn a_duplicate_is_two_deliveries_of_one_event_at_one_instant() {
    let mut store = empty();
    insert(&mut store, "txn_1", &plan(2, true));
    assert_eq!(decide_due_payments(&mut store, at(5)), Ok(vec![true]));
    let waiting = due(&store, at(5));
    assert_eq!(waiting.len(), 2);
    assert_eq!(waiting[0].event_id, waiting[1].event_id);
    assert!(waiting[0].event_id.starts_with("evt_"));
    assert_ne!(waiting[0].delivery_id, waiting[1].delivery_id);

    let first = waiting[0].delivery_id.clone();
    record_reception(&mut store, &first, &Reception::Answered(200), 10, at(6));
    let left = due(&store, at(6));
    assert_eq!(left.len(), 1);
    assert_eq!(left[0].delivery_id, waiting[1].delivery_id);
}

#[test]
fn a_lost_webhook_is_never_queued_yet_the_outcome_can_be_polled() {
    let mut store = empty();
    insert(&mut store, "txn_1", &plan(1, false));
    assert_eq!(decide_due_payments(&mut store, NOW), Ok(vec![true]));
    assert!(store.deliveries().is_empty());
    let payment = store.get_payment("txn_1").unwrap();
    assert_eq!(payment.status, "SUCCESS");
    assert!(payment.webhook_suppressed);
    assert_eq!(decide_due_payments(&mut store, NOW), Ok(vec![]));
}

#[test]
fn payments_are_decided_in_batches_the_longest_known_first() {
    let mut store = empty();
    for i in 0..60_u64 {
        let plan = Plan { decide_after_ms: 60 - i, ..plan(1, true) };
        insert(&mut store, &format!("txn_{i}"), &plan);
    }
    let waiting = store.take_decidable(at(60));
    assert_eq!(waiting.len(), 50);
    assert_eq!(waiting[0].transaction_id, "txn_59");
    assert_eq!(waiting[49].transaction_id, "txn_10");
    assert_eq!(decide_due_payments(&mut store, at(60)).unwrap().len(), 50);
    assert_eq!(decide_due_payments(&mut store, at(60)).unwrap().len(), 10);
    assert_eq!(due(&store, at(60)).len(), 20);
}

#[test]
fn delays_beyond_the_calendar_are_noticed() {
    let mut store = empty();
    insert(&mut store, "txn_1", &Plan { deliver_after_ms: i64::MAX as u64, ..plan(1, true) });
    assert!(!can_decide_due_payments(&store, NOW));
    let mut store = empty();
    insert(&mut store, "txn_1", &plan(1, true));
    assert_eq!(decide_due_payments(&mut store, NOW), Ok(vec![true]));
    let waiting = due(&store, NOW);
    let mut finish = |wait: u64| {
        let config = Config {
            webhook_backoff_base_ms: wait,
            webhook_backoff_max_ms: wait,
            ..self_test_config()
        };
        let mut rng = StdRng::seed_from_u64(1);
        let failed = Reception::Answered(500);
        finish_attempt(&mut store, &config, &waiting[0], &failed, &mut rng, NOW)
    };
    assert_eq!(finish(LAST_MILLIS as u64), None);
    // A delay that no calendar could hold is no delay at all.
    assert_eq!(finish(1 << 63), Some(false));
    assert_eq!(store.deliveries()[0].attempts, 1);
    assert_eq!(store.deliveries()[0].next_attempt_at, NOW);
}
