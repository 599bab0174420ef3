use payment_gateway::clock::Timestamp;
use payment_gateway::gateway::config::Config;
use payment_gateway::gateway::delivery::decide_due_payments;
use payment_gateway::gateway::outcome::{Outcome, Plan, Scenario};
use payment_gateway::gateway::server::{
    accept_payment, check_request, create_as, create_payment, default_currency, get_payment, list_payments,
    read_scenario, refund_payment, validate, CreatePaymentRequest,
    ForceHeader, GatewayError, ListQuery, Reply,
};
use payment_gateway::gateway::store::Store;
use payment_gateway::json::Json;
use rand::rngs::StdRng;
use rand::SeedableRng;

const NOW: Timestamp = Timestamp { millis: 1_700_000_000_000 };

fn empty() -> Store {
    Store::open(Vec::new(), Vec::new()).unwrap()
}

fn request(key: Option<&str>) -> CreatePaymentRequest {
    CreatePaymentRequest {
        booking_reference: "bkg_1".to_owned(),
        amount_minor: 20_000,
        currency: "INR".to_owned(),
        callback_url: "http://127.0.0.1:8080/webhooks/payments".to_owned(),
        idempotency_key: key.map(str::to_owned),
    }
}

fn create(
    store: &mut Store,
    request: &CreatePaymentRequest,
    header: ForceHeader,
) -> Result<Reply, GatewayError> {
    let config = Config::for_self_test("sqlite://:memory:".to_owned());
    let mut rng = StdRng::seed_from_u64(42);
    create_payment(store, &config, &mut rng, request, &header, NOW).unwrap()
}

fn forced(name: &str) -> ForceHeader {
    ForceHeader::Text(name.to_owned())
}

fn member<'a>(json: &'a Json, name: &str) -> &'a Json {
    match json {
        Json::Object(members) => {
            &members.iter().find(|m| m.name == name).expect("member").value
        }
        _ => panic!("no object"),
    }
}

fn text<'a>(json: &'a Json, name: &str) -> &'a str {
    match member(json, name) {
        Json::Text(s) => s.as_str(),
        other => panic!("no text: {other:?}"),
    }
}

fn refusal(e: GatewayError) -> (u16, String, String) {
    let message = e.message();
    let reply = e.into_response();
    assert!(!reply.idempotent_replay);
    let error = member(&reply.body, "error");
    assert_eq!(text(error, "message"), message);
    (reply.status, text(error, "code").to_owned(), message)
}

#[test]
fn a_payment_is_accepted_and_pending() {
    let mut store = empty();
    let reply = create(&mut store, &request(None), ForceHeader::Absent).unwrap();
    assert_eq!(reply.status, 202);
    assert!(!reply.idempotent_replay);
    assert!(text(&reply.body, "transaction_id").starts_with("txn_"));
    assert_eq!(text(&reply.body, "status"), "PENDING");
    assert_eq!(text(&reply.body, "booking_reference"), "bkg_1");
    assert!(matches!(member(&reply.body, "amount_minor"), Json::Int(20_000)));
    assert_eq!(text(&reply.body, "currency"), "INR");
    assert_eq!(text(&reply.body, "scenario"), "random");

    let polled = get_payment(&store, text(&reply.body, "transaction_id")).unwrap();
    assert_eq!(polled.status, 200);
    assert_eq!(text(&polled.body, "status"), "PENDING");
    assert_eq!(text(&polled.body, "created_at"), "2023-11-14T22:13:20.000Z");
    assert!(matches!(member(&polled.body, "decided_at"), Json::Null));
    assert!(matches!(member(&polled.body, "webhook_attempts"), Json::Int(0)));
    assert!(matches!(member(&polled.body, "webhook_suppressed"), Json::Bool(false)));
}

#[test]
fn an_accepted_payment_draws_a_plan_and_a_refused_one_does_not() {
    let mut store = empty();
    let config = Config {
        outcome_delay_ms_max: 5_000,
        ..Config::for_self_test("sqlite://:memory:".to_owned())
    };
    let mut rng = StdRng::seed_from_u64(42);
    let mut twin = StdRng::seed_from_u64(42);
    let header = ForceHeader::Absent;
    let id = || "txn_1".to_owned();
    let bad = CreatePaymentRequest { amount_minor: -1, ..request(None) };
    let refused = create_as(&mut store, &config, &mut rng, &bad, &header, id(), NOW);
    assert!(refused.unwrap().is_err());
    assert_eq!(rng, twin);

    let ok = create_as(&mut store, &config, &mut rng, &request(None), &header, id(), NOW)
        .unwrap()
        .unwrap();
    assert_eq!(text(&ok.body, "transaction_id"), "txn_1");
    let plan = Plan::resolve(Scenario::Random, &config, &mut twin);
    assert_eq!(rng, twin);
    let row = &store.payments()[0];
    assert_eq!(row.decide_at.millis, NOW.millis + plan.decide_after_ms as i64);
    assert_eq!(row.planned_outcome, plan.outcome.as_str());
    assert_eq!(row.planned_deliveries, plan.deliveries);
}

#[test]
fn requests_are_checked() {
    let refuse = |r: CreatePaymentRequest| {
        let e = validate(&r).unwrap_err();
        refusal(e)
    };
    let invalid = |message: &str| (400, "INVALID_REQUEST".to_owned(), message.to_owned());
    assert_eq!(
        refuse(CreatePaymentRequest { booking_reference: " \n".to_owned(), ..request(None) }),
        invalid("booking_reference must not be empty")
    );
    assert_eq!(
        refuse(CreatePaymentRequest { amount_minor: 0, ..request(None) }),
        invalid("amount_minor must be greater than zero")
    );
    for currency in ["", "IN", "RUPEE", "€€"] {
        assert_eq!(
            refuse(CreatePaymentRequest { currency: currency.to_owned(), ..request(None) }),
            invalid("currency must be a 3-letter code")
        );
    }
    for url in ["", "/webhooks/payments", "127.0.0.1:8080", "http://"] {
        assert_eq!(
            refuse(CreatePaymentRequest { callback_url: url.to_owned(), ..request(None) }),
            invalid(
                "callback_url must be an absolute URL, e.g. \
                 http://127.0.0.1:8080/webhooks/payments"
            )
        );
    }
    // The length is counted in bytes.
    assert!(validate(&CreatePaymentRequest { currency: "€".to_owned(), ..request(None) }).is_ok());
    assert!(validate(&request(None)).is_ok());
    assert!(check_request(&request(None), true).is_ok());
    assert!(check_request(&request(None), false).is_err());
    assert_eq!(default_currency(), "INR");
}

#[test]
fn a_replayed_key_changes_nothing_and_reports_the_real_status() {
    let mut store = empty();
    let first = create(&mut store, &request(Some("k")), forced("success")).unwrap();
    let again = create(&mut store, &request(Some("k")), forced("failure")).unwrap();
    assert_eq!(again.status, 202);
    assert!(again.idempotent_replay);
    assert_eq!(text(&again.body, "transaction_id"), text(&first.body, "transaction_id"));
    assert_eq!(text(&again.body, "status"), "PENDING");
    assert_eq!(text(&again.body, "scenario"), "success");
    assert_eq!(store.payments().len(), 1);

    assert_eq!(decide_due_payments(&mut store, NOW), Ok(vec![true]));
    // Not even a header that could not be read gets in the way of a replay.
    let later = create(&mut store, &request(Some("k")), ForceHeader::Unreadable).unwrap();
    assert_eq!(text(&later.body, "status"), "SUCCESS");
    assert_eq!(store.payments().len(), 1);
}

#[test]
fn only_the_thinking_time_that_was_drawn_has_to_fit() {
    // Bounds of which about the first thousandth fits the calendar.
    let config = Config {
        outcome_delay_ms_max: 9_000_000_000_000_000_000,
        ..Config::for_self_test("sqlite://:memory:".to_owned())
    };
    let mut store = empty();
    let (mut fitted, mut drawn) = (0, 0);
    let mut rng = StdRng::seed_from_u64(1);
    while fitted == 0 && drawn < 100_000 {
        drawn += 1;
        let header = forced("success");
        if create_payment(&mut store, &config, &mut rng, &request(None), &header, NOW).is_some() {
            fitted += 1;
        }
    }
    assert_eq!(fitted, 1);
    assert!(drawn > 1);
    assert_eq!(store.payments().len(), 1);
}

#[test]
fn two_requests_under_one_key_are_one_charge() {
    let mut store = empty();
    let first = create(&mut store, &request(Some("k")), forced("lost")).unwrap();
    create(&mut store, &request(Some("other")), forced("success")).unwrap();
    assert_eq!(decide_due_payments(&mut store, NOW), Ok(vec![true, true]));
    let different = CreatePaymentRequest {
        booking_reference: "bkg_2".to_owned(),
        amount_minor: 1,
        currency: "EUR".to_owned(),
        ..request(Some("k"))
    };
    let second = create(&mut store, &different, forced("instant")).unwrap();
    assert_eq!((first.status, second.status), (202, 202));
    assert_eq!((first.idempotent_replay, second.idempotent_replay), (false, true));
    assert_eq!(text(&first.body, "transaction_id"), text(&second.body, "transaction_id"));
    assert_eq!(text(&second.body, "booking_reference"), "bkg_1");
    let under_key =
        store.payments().iter().filter(|p| p.idempotency_key.as_deref() == Some("k")).count();
    assert_eq!(under_key, 1);
}

#[test]
fn a_key_that_was_claimed_in_the_meantime_is_replayed() {
    let mut store = empty();
    let first = create(&mut store, &request(Some("k")), forced("success")).unwrap();
    let plan = Plan {
        outcome: Outcome::Failed,
        failure_reason: Some("card_declined"),
        decide_after_ms: 0,
        deliver_webhook: true,
        deliver_after_ms: 0,
        deliveries: 1,
    };
    let id = "txn_late".to_owned();
    let reply =
        accept_payment(&mut store, &request(Some("k")), Scenario::Failure, &plan, id, NOW).unwrap();
    assert!(reply.idempotent_replay);
    assert_eq!(text(&reply.body, "transaction_id"), text(&first.body, "transaction_id"));

    let taken = text(&first.body, "transaction_id").to_owned();
    let e = accept_payment(&mut store, &request(None), Scenario::Failure, &plan, taken, NOW)
        .unwrap_err();
    assert_eq!(
        refusal(e),
        (
            500,
            "GATEWAY_ERROR".to_owned(),
            "error returned from database: (code: 1555) UNIQUE constraint failed: \
             payments.transaction_id"
                .to_owned()
        )
    );
    assert_eq!(store.payments().len(), 1);
}

#[test]
fn the_header_forces_a_scenario() {
    assert_eq!(read_scenario(&ForceHeader::Absent).unwrap(), Scenario::Random);
    assert_eq!(read_scenario(&forced("Lost")).unwrap(), Scenario::Lost);
    assert_eq!(
        refusal(read_scenario(&ForceHeader::Unreadable).unwrap_err()),
        (
            400,
            "INVALID_REQUEST".to_owned(),
            "X-Force-Scenario must be valid ASCII".to_owned()
        )
    );
    let (status, code, message) = refusal(read_scenario(&forced("chaos")).unwrap_err());
    assert_eq!((status, code.as_str()), (400, "INVALID_REQUEST"));
    assert!(message.starts_with("unknown scenario \"chaos\"; expected one of: random,"));

    let mut store = empty();
    assert!(create(&mut store, &request(None), forced("chaos")).is_err());
    assert!(store.payments().is_empty());
    create(&mut store, &request(None), forced("lost")).unwrap();
    assert!(!store.payments()[0].deliver_webhook);
}

#[test]
fn thinking_time_that_does_not_fit_the_calendar_is_noticed() {
    let attempt = |min: u64, max: u64, header: ForceHeader| {
        let config = Config {
            outcome_delay_ms_min: min,
            outcome_delay_ms_max: max,
            ..Config::for_self_test("sqlite://:memory:".to_owned())
        };
        let mut store = empty();
        let mut rng = StdRng::seed_from_u64(42);
        let r = create_payment(&mut store, &config, &mut rng, &request(None), &header, NOW);
        (r.map(|result| result.is_ok()), store.payments().len())
    };
    assert_eq!(attempt(0, 5_000, ForceHeader::Absent), (Some(true), 1));
    assert_eq!(attempt(i64::MAX as u64 - 1, i64::MAX as u64, forced("success")), (None, 0));
    assert_eq!(attempt(u64::MAX - 5, u64::MAX, ForceHeader::Absent), (Some(true), 1));
    // Without a thinking time there is nothing that could fail to fit.
    assert_eq!(attempt(0, u64::MAX, forced("instant")), (Some(true), 1));
    assert_eq!(attempt(0, u64::MAX, forced("chaos")), (Some(false), 0));
}

#[test]
fn an_unknown_payment_is_not_found() {
    let e = get_payment(&empty(), "txn_9").unwrap_err();
    assert_eq!(
        refusal(e),
        (404, "NOT_FOUND".to_owned(), "no payment with transaction_id txn_9".to_owned())
    );
}

#[test]
fn payments_are_listed_by_booking() {
    let mut store = empty();
    create(&mut store, &request(None), forced("success")).unwrap();
    create(&mut store, &request(None), forced("failure")).unwrap();
    let query = ListQuery { booking_reference: Some("bkg_1".to_owned()) };
    let reply = list_payments(&store, &query).unwrap();
    assert_eq!(reply.status, 200);
    assert_eq!(text(&reply.body, "booking_reference"), "bkg_1");
    match member(&reply.body, "payments") {
        Json::List(items) => {
            assert_eq!(items.len(), 2);
            assert_eq!(text(&items[0], "scenario"), "success");
            assert_eq!(text(&items[1], "scenario"), "failure");
        }
        other => panic!("no list: {other:?}"),
    }
    let e = list_payments(&store, &ListQuery { booking_reference: None }).unwrap_err();
    assert_eq!(
        refusal(e),
        (
            400,
            "INVALID_REQUEST".to_owned(),
            "booking_reference query parameter is required".to_owned()
        )
    );
}

#[test]
fn refunds_are_answered() {
    let mut store = empty();
    let reply = create(&mut store, &request(None), forced("success")).unwrap();
    let id = text(&reply.body, "transaction_id").to_owned();
    assert_eq!(
        refusal(refund_payment(&mut store, &id, NOW).unwrap_err()),
        (
            409,
            "CONFLICT".to_owned(),
            "cannot refund a payment with status PENDING".to_owned()
        )
    );
    assert_eq!(decide_due_payments(&mut store, NOW), Ok(vec![true]));
    let first = refund_payment(&mut store, &id, NOW).unwrap();
    assert_eq!((first.status, first.idempotent_replay), (200, false));
    assert!(text(&first.body, "refund_id").starts_with("rfnd_"));
    assert_eq!(text(&first.body, "transaction_id"), id);
    assert_eq!(text(&first.body, "status"), "REFUNDED");
    let again = refund_payment(&mut store, &id, NOW).unwrap();
    assert_eq!((again.status, again.idempotent_replay), (200, true));
    assert_eq!(text(&again.body, "refund_id"), text(&first.body, "refund_id"));
    assert_eq!(text(&get_payment(&store, &id).unwrap().body, "status"), "SUCCESS");
    assert_eq!(refusal(refund_payment(&mut store, "txn_9", NOW).unwrap_err()).0, 404);
}

#[test]
fn database_errors_are_the_gateways_own() {
    let e = GatewayError::Database("disk full".to_owned());
    assert_eq!(refusal(e), (500, "GATEWAY_ERROR".to_owned(), "disk full".to_owned()));
    assert_eq!(refusal(GatewayError::conflict("no")).0, 409);
    assert_eq!(refusal(GatewayError::not_found("t")).0, 404);
}
