use std::str::FromStr;

use payment_gateway::booking::config::Config;
use payment_gateway::booking::error::AppError;
use payment_gateway::booking::gateway::{
    payment_call, read_answer, CreatePaymentResponse, GatewayAnswer,
};
use payment_gateway::booking::migrations::{
    explain_migration_failure, missing_directory, MigrationFault,
};
use payment_gateway::booking::models::{
    BookingResponse, BookingStatus, CreateBookingRequest, PaymentWebhookPayload, SeatStatus,
    WebhookPaymentStatus,
};
use payment_gateway::booking::routes::booking::{create, pending_booking};
use payment_gateway::booking::routes::health::health;
use payment_gateway::booking::routes::webhooks::{payments, Booking, Desk};
use payment_gateway::environment::Environment;
use payment_gateway::json::Json;

fn member<'a>(json: &'a Json, name: &str) -> &'a Json {
    match json {
        Json::Object(members) => {
            &members.iter().find(|m| m.name == name).expect("member").value
        }
        _ => panic!("no object"),
    }
}

fn text<'a>(json: &'a Json, name: &str) -> &'a str {
    match member(json, name) {
        Json::Text(s) => s.as_str(),
        other => panic!("no text: {other:?}"),
    }
}

#[test]
fn booking_statuses_read_back() {
    for status in [BookingStatus::Pending, BookingStatus::Confirmed, BookingStatus::Failed] {
        assert_eq!(BookingStatus::from_str(status.as_str()), Ok(status));
    }
    assert_eq!(
        BookingStatus::from_str("pending").unwrap_err(),
        "Unkown booking status: \"pending\""
    );
    assert_eq!(SeatStatus::Held.as_str(), "HELD");
    assert_eq!(SeatStatus::Confirmed.as_str(), "CONFIRMED");
    assert_eq!(SeatStatus::Released.as_str(), "RELEASED");
}

#[test]
fn errors_have_a_code_a_status_and_a_message() {
    let m = || "x".to_owned();
    for (e, code, status, log, shown) in [
        (AppError::NotFound(m()), "NOT_FOUND", 404, "x not found", "x not found"),
        (AppError::Conflict(m()), "CONFLICT", 409, "x", "x"),
        (AppError::Validation(m()), "VALIDATION_FAILED", 422, "x", "x"),
        (
            AppError::Upstream(m()),
            "UPSTREAM_UNAVAILABLE",
            502,
            "payment gateway error: x",
            "payment gateway error: x",
        ),
        (AppError::Database(m()), "INTERNAL_ERROR", 500, "x", "something went wrong on our side"),
        (AppError::Http(m()), "UPSTREAM_UNAVAILABLE", 502, "x", "something went wrong on our side"),
        (
            AppError::Internal(m()),
            "INTERNAL_ERROR",
            500,
            "internal error: x",
            "something went wrong on our side",
        ),
    ] {
        assert_eq!(e.code(), code);
        assert_eq!(e.status(), status);
        assert_eq!(e.message(), log);
        assert_eq!(e.is_public(), log == shown);
        let reply = e.into_response();
        assert_eq!(reply.status, status);
        let error = member(&reply.body, "error");
        assert_eq!(text(error, "code"), code);
        assert_eq!(text(error, "message"), shown);
    }
}

#[test]
fn a_payment_is_ordered_under_the_booking_reference() {
    let config = Config::from_env(&Environment { vars: Vec::new() }).unwrap();
    let call = payment_call(&config, "bkg_1", 500, "INR");
    assert_eq!(call.url, "http://127.0.0.1:9090/v1/payments");
    assert_eq!(text(&call.body, "booking_reference"), "bkg_1");
    assert_eq!(text(&call.body, "idempotency_key"), "bkg_1");
    assert_eq!(text(&call.body, "currency"), "INR");
    assert_eq!(text(&call.body, "callback_url"), "http://127.0.0.1:8080/webhooks/payments");
    assert!(matches!(member(&call.body, "amount_minor"), Json::Int(500)));
}

#[test]
fn the_gateways_answer_is_read() {
    let answered = |code: u16, payment: Result<CreatePaymentResponse, String>| {
        read_answer(GatewayAnswer::Answered {
            code,
            status: format!("{code} Status"),
            text: "why".to_owned(),
            payment,
        })
    };
    let payment = || Ok(CreatePaymentResponse { transaction_id: "txn_1".to_owned() });
    assert_eq!(answered(202, payment()).unwrap().transaction_id, "txn_1");
    assert_eq!(
        answered(409, payment()).unwrap_err().message(),
        "payment gateway error: payment gateway returned 409 Status: why"
    );
    assert_eq!(
        answered(200, Err("no json".to_owned())).unwrap_err().message(),
        "payment gateway error: payment gateway response: no json"
    );
    assert_eq!(
        read_answer(GatewayAnswer::Unreachable("refused".to_owned())).unwrap_err().message(),
        "payment gateway error: payment gateway unreachable: refused"
    );
}

#[test]
fn migration_failures_are_explained() {
    let explain = |fault: MigrationFault| explain_migration_failure(&fault);
    let edited = explain(MigrationFault::VersionMismatch(2));
    assert_eq!(
        edited,
        "migration 2 was already applied and has since been edited.\n\n\
         Applied migrations are checksummed, so they cannot be changed in place. Wipe the \
         database and reapply everything from scratch:\n\n    ./reset.sh\n\n\
         That deletes data/ — which holds nothing but the seeded reference data and whatever \
         you have booked while testing, all of which is recreated on the next start."
    );
    assert!(explain(MigrationFault::VersionMissing(3))
        .starts_with("migration 3 was already applied but its file is now missing or renamed.\n"));
    assert!(explain(MigrationFault::VersionTooOld(1, 4))
        .starts_with("migration 1 is numbered below the already-applied 4.\n"));
    assert!(explain(MigrationFault::Dirty(-5))
        .starts_with("migration -5 was only partially applied.\n"));
    assert_eq!(
        missing_directory("\"./migrations\""),
        "migrations directory \"./migrations\" not found — run from the workspace root, or set \
         MIGRATIONS_DIR"
    );
}

#[test]
fn a_new_booking_is_pending() {
    let request = CreateBookingRequest { show_id: 7 };
    let booking = pending_booking(&request, "b-1".to_owned());
    let body = booking.to_json();
    assert_eq!(text(&body, "id"), "b-1");
    assert_eq!(text(&body, "status"), "PENDING");
    assert!(matches!(member(&body, "show_id"), Json::Int(7)));

    let BookingResponse { id, show_id, status } = create(&request);
    assert_eq!((show_id, status), (7, BookingStatus::Pending));
    assert_eq!(id.len(), 36);
    let hyphens: Vec<usize> =
        id.char_indices().filter(|(_, c)| *c == '-').map(|(i, _)| i).collect();
    assert_eq!(hyphens, vec![8, 13, 18, 23]);
    assert_ne!(create(&request).id, id);
}

#[test]
fn health_counts_the_shows() {
    let body = health(12).to_json();
    assert_eq!(text(&body, "status"), "ok");
    assert_eq!(text(&body, "db"), "ok");
    assert!(matches!(member(&body, "shows"), Json::Int(12)));
}

fn booking(id: &str, transaction_id: Option<&str>) -> Booking {
    Booking {
        id: id.to_owned(),
        transaction_id: transaction_id.map(str::to_owned),
        status: "PENDING".to_owned(),
        seats: vec!["HELD".to_owned(), "RELEASED".to_owned(), "HELD".to_owned()],
    }
}

fn payload(event_id: &str, status: WebhookPaymentStatus) -> PaymentWebhookPayload {
    PaymentWebhookPayload {
        event_id: event_id.to_owned(),
        transaction_id: "txn_1".to_owned(),
        status,
    }
}

#[test]
fn a_success_confirms_the_booking_and_its_seats() {
    let mut desk = Desk {
        bookings: vec![booking("b-0", Some("txn_0")), booking("b-1", Some("txn_1"))],
        events: Vec::new(),
    };
    let body = payments(&mut desk, &payload("evt_1", WebhookPaymentStatus::Success)).unwrap();
    assert_eq!(text(&body, "status"), "processed");
    assert_eq!(desk.bookings[1].status, "CONFIRMED");
    assert_eq!(desk.bookings[1].seats, vec!["CONFIRMED", "RELEASED", "CONFIRMED"]);
    assert_eq!(desk.bookings[0].status, "PENDING");
    assert_eq!(desk.bookings[0].seats, vec!["HELD", "RELEASED", "HELD"]);
    assert_eq!(desk.events, vec!["evt_1"]);
}

#[test]
fn a_failure_fails_the_booking_and_releases_its_seats() {
    let mut desk = Desk { bookings: vec![booking("b-1", Some("txn_1"))], events: Vec::new() };
    payments(&mut desk, &payload("evt_1", WebhookPaymentStatus::Failed)).unwrap();
    assert_eq!(desk.bookings[0].status, "FAILED");
    assert_eq!(desk.bookings[0].seats, vec!["RELEASED", "RELEASED", "RELEASED"]);
}

#[test]
fn a_duplicate_event_is_acknowledged_and_changes_nothing() {
    let mut desk = Desk { bookings: vec![booking("b-1", Some("txn_1"))], events: Vec::new() };
    payments(&mut desk, &payload("evt_1", WebhookPaymentStatus::Success)).unwrap();
    let before = format!("{desk:?}");
    let body = payments(&mut desk, &payload("evt_1", WebhookPaymentStatus::Failed)).unwrap();
    assert_eq!(text(&body, "status"), "already processed");
    assert_eq!(format!("{desk:?}"), before);
}

#[test]
fn the_first_outcome_stands() {
    let mut desk = Desk { bookings: vec![booking("b-1", Some("txn_1"))], events: Vec::new() };
    payments(&mut desk, &payload("evt_1", WebhookPaymentStatus::Success)).unwrap();
    let body = payments(&mut desk, &payload("evt_2", WebhookPaymentStatus::Failed)).unwrap();
    assert_eq!(text(&body, "status"), "processed");
    assert_eq!(desk.bookings[0].status, "CONFIRMED");
    assert_eq!(desk.bookings[0].seats, vec!["CONFIRMED", "RELEASED", "CONFIRMED"]);
}

#[test]
fn a_webhook_that_outruns_its_booking_is_refused_and_goes_through_later() {
    let mut desk = Desk { bookings: vec![booking("b-1", None)], events: Vec::new() };
    let event = payload("evt_1", WebhookPaymentStatus::Success);
    let e = payments(&mut desk, &event).unwrap_err();
    assert_eq!(e.status(), 404);
    assert_eq!(e.message(), "no booking for transaction txn_1 not found");
    assert!(desk.events.is_empty());

    desk.bookings[0].transaction_id = Some("txn_1".to_owned());
    assert!(payments(&mut desk, &event).is_ok());
    assert_eq!(desk.bookings[0].status, "CONFIRMED");
}
