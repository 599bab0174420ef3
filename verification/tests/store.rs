use payment_gateway::clock::{Timestamp, LAST_MILLIS};
use payment_gateway::gateway::outcome::{Outcome, Plan};
use payment_gateway::gateway::records::{
    to_signed, DecidablePayment, DeliveryRecord, PaymentRecord,
};
use payment_gateway::gateway::schedule::earliest;
use payment_gateway::gateway::store::{RefundResult, Store, StoreError};

const NOW: Timestamp = Timestamp { millis: 1_700_000_000_000 };

fn at(ms: i64) -> Timestamp {
    Timestamp { millis: NOW.millis + ms }
}

fn success() -> Plan {
    Plan {
        outcome: Outcome::Success,
        failure_reason: None,
        decide_after_ms: 100,
        deliver_webhook: true,
        deliver_after_ms: 0,
        deliveries: 1,
    }
}

fn failure() -> Plan {
    Plan { outcome: Outcome::Failed, failure_reason: Some("card_declined"), ..success() }
}

fn insert(
    store: &mut Store,
    transaction_id: &str,
    key: Option<&str>,
    plan: &Plan,
    now: Timestamp,
) -> Result<bool, StoreError> {
    store.insert_payment(
        transaction_id,
        key,
        "bkg_1",
        20_000,
        "INR",
        "http://h/",
        "random",
        plan,
        now,
    )
}

fn empty() -> Store {
    Store::open(Vec::new(), Vec::new()).unwrap()
}

fn decide(store: &mut Store, now: Timestamp) {
    for payment in store.take_decidable(now) {
        assert_eq!(store.apply_decision(&payment, "evt_1", now), Ok(true));
    }
}

#[test]
fn an_accepted_payment_reads_back() {
    let mut store = empty();
    assert_eq!(insert(&mut store, "txn_1", Some("k"), &success(), NOW), Ok(true));
    for payment in
        [store.get_payment("txn_1").unwrap(), store.find_by_idempotency_key("k").unwrap()]
    {
        assert_eq!(payment.transaction_id, "txn_1");
        assert_eq!(payment.booking_reference, "bkg_1");
        assert_eq!(payment.amount_minor, 20_000);
        assert_eq!(payment.currency, "INR");
        assert_eq!(payment.status, "PENDING");
        assert_eq!(payment.failure_reason, None);
        assert_eq!(payment.scenario, "random");
        assert_eq!(payment.created_at, NOW);
        assert_eq!(payment.decided_at, None);
        assert_eq!(payment.refund_id, None);
        assert_eq!(payment.webhook_attempts, 0);
        assert!(!payment.webhook_acknowledged);
        assert!(!payment.webhook_suppressed);
    }
    assert!(store.get_payment("txn_2").is_none());
    assert!(store.find_by_idempotency_key("txn_1").is_none());
}

#[test]
fn a_key_is_charged_once() {
    let mut store = empty();
    assert_eq!(insert(&mut store, "txn_1", Some("k"), &success(), NOW), Ok(true));
    assert_eq!(insert(&mut store, "txn_2", Some("k"), &failure(), at(1)), Ok(false));
    assert_eq!(store.payments().len(), 1);
    assert_eq!(store.find_by_idempotency_key("k").unwrap().transaction_id, "txn_1");
    // Payments without a key do not stand in each other's way.
    assert_eq!(insert(&mut store, "txn_3", None, &success(), NOW), Ok(true));
    assert_eq!(insert(&mut store, "txn_4", None, &success(), NOW), Ok(true));
    assert_eq!(
        insert(&mut store, "txn_4", None, &success(), NOW),
        Err(StoreError::DuplicateTransaction)
    );
    assert_eq!(store.payments().len(), 3);
}

#[test]
fn payments_of_a_booking_come_newest_first() {
    let mut store = empty();
    assert_eq!(insert(&mut store, "txn_1", None, &success(), at(5)), Ok(true));
    assert_eq!(insert(&mut store, "txn_2", None, &success(), at(9)), Ok(true));
    assert_eq!(insert(&mut store, "txn_3", None, &success(), at(7)), Ok(true));
    let listed = store.list_by_booking_reference("bkg_1");
    let ids: Vec<&str> = listed.iter().map(|p| p.transaction_id.as_str()).collect();
    assert_eq!(ids, vec!["txn_2", "txn_3", "txn_1"]);
    assert!(store.list_by_booking_reference("bkg").is_empty());
}

#[test]
fn an_outcome_is_applied_when_its_time_has_come_and_once() {
    let mut store = empty();
    assert_eq!(insert(&mut store, "txn_1", None, &failure(), NOW), Ok(true));
    assert!(store.take_decidable(at(99)).is_empty());
    let due = store.take_decidable(at(100));
    assert_eq!(due.len(), 1);
    assert_eq!(due[0].outcome, Outcome::Failed);
    assert_eq!(due[0].failure_reason.as_deref(), Some("card_declined"));

    assert_eq!(store.apply_decision(&due[0], "evt_1", at(101)), Ok(true));
    assert_eq!(store.apply_decision(&due[0], "evt_2", at(102)), Ok(false));
    let payment = store.get_payment("txn_1").unwrap();
    assert_eq!(payment.status, "FAILED");
    assert_eq!(payment.failure_reason.as_deref(), Some("card_declined"));
    assert_eq!(payment.decided_at, Some(at(101)));
    assert_eq!(store.deliveries().len(), 1);
    assert_eq!(store.deliveries()[0].event_id, "evt_1");
    assert!(store.deliveries()[0].delivery_id.starts_with("dlv_"));
    assert!(store.take_decidable(at(1_000)).is_empty());
}

#[test]
fn of_many_decisions_one_is_applied() {
    let mut store = empty();
    assert_eq!(insert(&mut store, "txn_1", None, &success(), NOW), Ok(true));
    let decided = |outcome: Outcome, deliveries: i64| DecidablePayment {
        transaction_id: "txn_1".to_owned(),
        outcome,
        failure_reason: None,
        deliver_webhook: true,
        deliver_after_ms: 0,
        deliveries,
    };
    let answers = [
        store.apply_decision(&decided(Outcome::Failed, 2), "evt_1", at(1)),
        store.apply_decision(&decided(Outcome::Success, 1), "evt_2", at(2)),
        store.apply_decision(&decided(Outcome::Failed, 2), "evt_1", at(1)),
    ];
    assert_eq!(answers, [Ok(true), Ok(false), Ok(false)]);
    let payment = store.get_payment("txn_1").unwrap();
    assert_eq!((payment.status.as_str(), payment.decided_at), ("FAILED", Some(at(1))));
    let events: Vec<&str> = store.deliveries().iter().map(|d| d.event_id.as_str()).collect();
    assert_eq!(events, ["evt_1", "evt_1"]);
}

#[test]
fn an_outcome_of_no_known_payment_is_not_applied() {
    let mut store = empty();
    let stray = DecidablePayment {
        transaction_id: "txn_9".to_owned(),
        outcome: Outcome::Success,
        failure_reason: None,
        deliver_webhook: true,
        deliver_after_ms: 0,
        deliveries: 1,
    };
    assert_eq!(store.apply_decision(&stray, "evt_1", NOW), Ok(false));
    assert!(store.deliveries().is_empty());
}

#[test]
fn a_late_webhook_is_due_later() {
    let mut store = empty();
    let plan = Plan { deliver_after_ms: 45_000, ..success() };
    assert_eq!(insert(&mut store, "txn_1", None, &plan, NOW), Ok(true));
    decide(&mut store, at(100));
    assert!(store.take_due_deliveries(at(45_099)).unwrap().is_empty());
    let due = store.take_due_deliveries(at(45_100)).unwrap();
    assert_eq!(due.len(), 1);
    assert_eq!(due[0].decided_at, at(100));
    assert_eq!(due[0].callback_url, "http://h/");
    assert_eq!(due[0].status, "SUCCESS");
}

#[test]
fn delivery_identifiers_are_used_once() {
    let mut store = empty();
    assert_eq!(insert(&mut store, "txn_1", None, &success(), NOW), Ok(true));
    let due = store.take_decidable(at(100));
    let twins = vec!["dlv_a".to_owned(), "dlv_a".to_owned()];
    assert_eq!(
        store.decide(&due[0], "evt_1", &twins, at(100)),
        Err(StoreError::DuplicateDelivery)
    );
    assert_eq!(store.get_payment("txn_1").unwrap().status, "PENDING", "nothing was written");
    let ids = vec!["dlv_a".to_owned(), "dlv_b".to_owned()];
    assert_eq!(store.decide(&due[0], "evt_1", &ids, at(100)), Ok(true));
    assert_eq!(store.deliveries().len(), 2);

    assert_eq!(insert(&mut store, "txn_2", None, &success(), NOW), Ok(true));
    let due = store.take_decidable(at(100));
    assert_eq!(
        store.decide(&due[0], "evt_2", &ids, at(100)),
        Err(StoreError::DuplicateDelivery)
    );
}

#[test]
fn attempts_on_an_unknown_delivery_change_nothing() {
    let mut store = empty();
    assert!(store.can_count_attempt("dlv_1"));
    store.record_attempt_failed("dlv_1", Some(500), "HTTP 500", 1, NOW);
    store.record_attempt_acknowledged("dlv_1", 200, NOW);
    assert!(store.deliveries().is_empty());
}

#[test]
fn refunding_is_idempotent_and_keeps_the_status() {
    let mut store = empty();
    assert_eq!(insert(&mut store, "txn_1", None, &success(), NOW), Ok(true));
    assert!(matches!(
        store.refund("txn_1", NOW),
        RefundResult::NotRefundable(status) if status == "PENDING"
    ));
    decide(&mut store, at(100));
    let first = match store.refund("txn_1", at(200)) {
        RefundResult::Refunded(id) => id,
        other => panic!("{other:?}"),
    };
    assert!(first.starts_with("rfnd_"));
    match store.refund("txn_1", at(300)) {
        RefundResult::AlreadyRefunded(id) => assert_eq!(id, first),
        other => panic!("{other:?}"),
    }
    let payment = store.get_payment("txn_1").unwrap();
    assert_eq!(payment.status, "SUCCESS");
    assert_eq!(payment.refund_id, Some(first));
    assert_eq!(payment.refunded_at, Some(at(200)));
}

#[test]
fn failed_and_unknown_payments_are_not_refunded() {
    let mut store = empty();
    assert_eq!(insert(&mut store, "txn_1", None, &failure(), NOW), Ok(true));
    decide(&mut store, at(100));
    assert!(matches!(
        store.refund("txn_1", at(100)),
        RefundResult::NotRefundable(status) if status == "FAILED"
    ));
    assert!(matches!(store.refund("txn_2", at(100)), RefundResult::NotFound));
    assert!(matches!(
        store.refund_as("txn_2", "rfnd_1".to_owned(), at(100)),
        RefundResult::NotFound
    ));
}

fn copy_of(p: &PaymentRecord) -> PaymentRecord {
    PaymentRecord {
        transaction_id: p.transaction_id.clone(),
        idempotency_key: p.idempotency_key.clone(),
        booking_reference: p.booking_reference.clone(),
        amount_minor: p.amount_minor,
        currency: p.currency.clone(),
        callback_url: p.callback_url.clone(),
        scenario: p.scenario.clone(),
        status: p.status.clone(),
        failure_reason: p.failure_reason.clone(),
        planned_outcome: p.planned_outcome.clone(),
        planned_failure_reason: p.planned_failure_reason.clone(),
        deliver_webhook: p.deliver_webhook,
        deliver_after_ms: p.deliver_after_ms,
        planned_deliveries: p.planned_deliveries,
        created_at: p.created_at,
        decide_at: p.decide_at,
        decided_at: p.decided_at,
        refund_id: p.refund_id.clone(),
        refunded_at: p.refunded_at,
    }
}

fn delivery(id: &str, transaction_id: &str, attempts: i64) -> DeliveryRecord {
    DeliveryRecord { attempts, ..DeliveryRecord::queue(id, "evt_1", transaction_id, NOW, NOW) }
}

#[test]
fn a_reopened_store_resumes() {
    let mut store = empty();
    assert_eq!(insert(&mut store, "txn_1", Some("k"), &success(), NOW), Ok(true));
    assert_eq!(insert(&mut store, "txn_2", None, &failure(), NOW), Ok(true));
    let rows: Vec<PaymentRecord> = store.payments().iter().map(copy_of).collect();
    let mut store = Store::open(rows, Vec::new()).unwrap();
    // What was going to fail still fails.
    decide(&mut store, at(100));
    assert_eq!(store.get_payment("txn_1").unwrap().status, "SUCCESS");
    assert_eq!(store.get_payment("txn_2").unwrap().status, "FAILED");

    let rows: Vec<PaymentRecord> = store.payments().iter().map(copy_of).collect();
    let store = Store::open(rows, vec![delivery("dlv_1", "txn_1", 7)]).unwrap();
    let due = store.take_due_deliveries(at(100)).unwrap();
    assert_eq!(due.len(), 1);
    assert_eq!(due[0].attempts, 7);
    assert_eq!(store.get_payment("txn_1").unwrap().webhook_attempts, 7);
}

#[test]
fn contradictory_rows_are_refused() {
    let mut store = empty();
    assert_eq!(insert(&mut store, "txn_1", Some("k"), &success(), NOW), Ok(true));
    decide(&mut store, at(100));
    let decided = copy_of(&store.payments()[0]);
    let open = |p: Vec<PaymentRecord>, d: Vec<DeliveryRecord>| Store::open(p, d).err();

    assert_eq!(open(vec![copy_of(&decided)], vec![delivery("dlv_1", "txn_1", 0)]), None);
    assert_eq!(
        open(vec![copy_of(&decided), copy_of(&decided)], vec![]),
        Some(StoreError::Inconsistent)
    );
    let twin = PaymentRecord { transaction_id: "txn_2".to_owned(), ..copy_of(&decided) };
    assert_eq!(open(vec![copy_of(&decided), twin], vec![]), Some(StoreError::Inconsistent));
    assert_eq!(
        open(vec![copy_of(&decided)], vec![delivery("dlv_1", "txn_2", 0)]),
        Some(StoreError::Inconsistent)
    );
    assert_eq!(
        open(
            vec![copy_of(&decided)],
            vec![delivery("dlv_1", "txn_1", 0), delivery("dlv_1", "txn_1", 0)]
        ),
        Some(StoreError::Inconsistent)
    );
    assert_eq!(
        open(
            vec![copy_of(&decided)],
            vec![delivery("dlv_1", "txn_1", i64::MAX), delivery("dlv_2", "txn_1", 1)]
        ),
        Some(StoreError::Inconsistent)
    );
    let late = PaymentRecord {
        decide_at: Timestamp { millis: LAST_MILLIS + 1 },
        ..copy_of(&decided)
    };
    assert_eq!(open(vec![late], vec![]), Some(StoreError::Inconsistent));

    let full = Store::open(vec![decided], vec![delivery("dlv_1", "txn_1", i64::MAX)]).unwrap();
    assert!(!full.can_count_attempt("dlv_1"));
}

#[test]
fn odd_rows_are_opened() {
    let mut store = empty();
    assert_eq!(insert(&mut store, "txn_1", None, &success(), NOW), Ok(true));
    let pending = copy_of(&store.payments()[0]);
    decide(&mut store, at(100));
    let decided = copy_of(&store.payments()[0]);

    // More acknowledgements than attempts, and a count below zero.
    let odd = DeliveryRecord { acknowledged_count: 5, ..delivery("dlv_1", "txn_1", 2) };
    let store = Store::open(vec![decided], vec![odd, delivery("dlv_2", "txn_1", -1)]).unwrap();
    let payment = store.get_payment("txn_1").unwrap();
    assert_eq!(payment.webhook_attempts, 1);
    assert!(payment.webhook_acknowledged);

    // A delivery of a payment that was not decided cannot be handed out once it is due.
    let store = Store::open(vec![pending], vec![delivery("dlv_1", "txn_1", 0)]).unwrap();
    assert_eq!(store.take_due_deliveries(at(-1)).map(|due| due.len()), Ok(0));
    assert_eq!(
        store.take_due_deliveries(NOW).map(|due| due.len()),
        Err(StoreError::UndecidedDelivery)
    );
}

#[test]
fn store_errors_say_what_is_wrong() {
    assert_eq!(
        StoreError::DuplicateTransaction.message(),
        "error returned from database: (code: 1555) UNIQUE constraint failed: \
         payments.transaction_id"
    );
    assert_eq!(
        StoreError::DuplicateDelivery.message(),
        "error returned from database: (code: 1555) UNIQUE constraint failed: \
         webhook_deliveries.delivery_id"
    );
    assert_eq!(
        StoreError::UndecidedDelivery.message(),
        "error occurred while decoding column \"decided_at\": unexpected null; try decoding as an \
         `Option`"
    );
    assert_eq!(StoreError::Inconsistent.message(), "the stored rows contradict each other");
}

#[test]
fn the_earliest_are_picked_in_order() {
    let keys = vec![Some(5), None, Some(3), Some(5), Some(-1), Some(3)];
    assert_eq!(earliest(&keys, 10), vec![4, 2, 5, 0, 3]);
    assert_eq!(earliest(&keys, 3), vec![4, 2, 5]);
    assert_eq!(earliest(&keys, 0), Vec::<usize>::new());
    assert_eq!(earliest(&vec![], 3), Vec::<usize>::new());
}

#[test]
fn delays_are_kept_in_64_bits_with_a_sign() {
    for n in [0, 1, i64::MAX as u64, i64::MAX as u64 + 1, u64::MAX] {
        assert_eq!(to_signed(n), n as i64);
    }
}
