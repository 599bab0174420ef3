//! What the booking service promises to the gateway that calls it and to its own clients, said
//! in terms of the bookings and seats themselves.

use vstd::prelude::*;

use crate::booking::config::{configured, faults, first_of, Config, ConfigError};
use crate::booking::error::AppErrorView;
use crate::booking::gateway::{answer_read, payment_order, GatewayAnswer};
use crate::booking::migrations::{hint, MigrationFault};
use crate::booking::models::{
    named_status, BookingResponse, BookingStatus, SeatStatus, WebhookPaymentStatus,
};
use crate::booking::routes::health::HealthResponse;
use crate::booking::routes::webhooks::{handled, lemma_first_is_unique, BookingRow, DeskView};
use crate::environment::{var_of, ValueView, Vars};
use crate::gateway::api_laws::is_error;
use crate::json::{lemma_says, names_distinct, says, JsonView};
use crate::text::{blank, debug_quoted, parsed, signed_decimal, trimmed, trimmed_end_of};

verus! {

// ----------------------------------------------------------------------------------------
// Webhooks
// ----------------------------------------------------------------------------------------

/// Whether `later` is a booking once its payment was reported: if it was pending, it is
/// confirmed or failed, and every seat that was held is confirmed or released. Whatever else
/// there is stays as it was.
pub open spec fn is_settled(
    booking: BookingRow,
    later: BookingRow,
    status: WebhookPaymentStatus,
) -> bool {
    &&& later.id == booking.id
    &&& later.transaction_id == booking.transaction_id
    &&& later.status == if booking.status != "PENDING"@ {
        booking.status
    } else if status is Success {
        "CONFIRMED"@
    } else {
        "FAILED"@
    }
    &&& later.seats.len() == booking.seats.len()
    &&& forall|k: int|
        0 <= k < booking.seats.len() ==> #[trigger] later.seats[k] == if booking.seats[k]
            != "HELD"@ {
            booking.seats[k]
        } else if status is Success {
            "CONFIRMED"@
        } else {
            "RELEASED"@
        }
}

/// A webhook about a payment that a booking has is answered with a success. The first time that
/// its event is seen, it resolves that booking together with its seats; any other time it
/// changes nothing. Other bookings are left alone.
pub proof fn webhook_resolves_its_booking(
    desk: DeskView,
    event_id: Seq<char>,
    transaction_id: Seq<char>,
    status: WebhookPaymentStatus,
    i: int,
)
    requires
        0 <= i < desk.bookings.len(),
        desk.bookings[i].transaction_id == Some(transaction_id),
        forall|j: int|
            0 <= j < i ==> (#[trigger] desk.bookings[j]).transaction_id != Some(transaction_id),
    ensures
        ({
            let (after, answer) = handled(desk, event_id, transaction_id, status);
            if desk.events.contains(event_id) {
                &&& after == desk
                &&& answer matches Ok(body) && says(
                    body,
                    "status"@,
                    JsonView::Text("already processed"@),
                )
            } else {
                &&& answer matches Ok(body) && says(body, "status"@, JsonView::Text("processed"@))
                &&& after.events == desk.events.push(event_id)
                &&& after.bookings.len() == desk.bookings.len()
                &&& is_settled(desk.bookings[i], after.bookings[i], status)
                &&& forall|j: int|
                    0 <= j < desk.bookings.len() && j != i ==> #[trigger] after.bookings[j]
                        == desk.bookings[j]
            }
        }),
{
    assert(desk.first_with(transaction_id, i));
    lemma_first_is_unique(desk, transaction_id, i);
    let members = handled(desk, event_id, transaction_id, status).1->Ok_0->Object_0;
    assert(names_distinct(members));
    lemma_says(members, 0);
}

/// A webhook about a payment that no booking has is refused with 404 and changes nothing, so
/// that the gateway tries again.
pub proof fn webhook_without_a_booking_is_refused(
    desk: DeskView,
    event_id: Seq<char>,
    transaction_id: Seq<char>,
    status: WebhookPaymentStatus,
)
    requires
        forall|j: int|
            0 <= j < desk.bookings.len() ==> (#[trigger] desk.bookings[j]).transaction_id != Some(
                transaction_id,
            ),
    ensures
        handled(desk, event_id, transaction_id, status).0 == desk,
        handled(desk, event_id, transaction_id, status).1 matches Err(e) && e.status() == 404
            && is_error(
            e.body(),
            "NOT_FOUND"@,
            "no booking for transaction "@ + transaction_id + " not found"@,
        ),
{
    lemma_app_error(handled(desk, event_id, transaction_id, status).1->Err_0);
}

// ----------------------------------------------------------------------------------------
// Answers to clients
// ----------------------------------------------------------------------------------------

/// What a client is told of an error: a status, a code, and what went wrong; of the errors that
/// are none of the client's business, only that something went wrong.
pub proof fn error_is_told_as_far_as_it_may_be(m: Seq<char>)
    ensures
        is_told(AppErrorView::NotFound(m), 404, "NOT_FOUND"@, m + " not found"@),
        is_told(AppErrorView::Conflict(m), 409, "CONFLICT"@, m),
        is_told(AppErrorView::Validation(m), 422, "VALIDATION_FAILED"@, m),
        is_told(
            AppErrorView::Upstream(m),
            502,
            "UPSTREAM_UNAVAILABLE"@,
            "payment gateway error: "@ + m,
        ),
        is_told(
            AppErrorView::Http(m),
            502,
            "UPSTREAM_UNAVAILABLE"@,
            "something went wrong on our side"@,
        ),
        is_told(
            AppErrorView::Database(m),
            500,
            "INTERNAL_ERROR"@,
            "something went wrong on our side"@,
        ),
        is_told(
            AppErrorView::Internal(m),
            500,
            "INTERNAL_ERROR"@,
            "something went wrong on our side"@,
        ),
        AppErrorView::Http(m).said() == m,
        AppErrorView::Database(m).said() == m,
        AppErrorView::Internal(m).said() == "internal error: "@ + m,
{
    lemma_app_error(AppErrorView::NotFound(m));
    lemma_app_error(AppErrorView::Conflict(m));
    lemma_app_error(AppErrorView::Validation(m));
    lemma_app_error(AppErrorView::Upstream(m));
    lemma_app_error(AppErrorView::Http(m));
    lemma_app_error(AppErrorView::Database(m));
    lemma_app_error(AppErrorView::Internal(m));
}

/// Whether an error is answered with this status, code and message.
pub open spec fn is_told(
    e: AppErrorView,
    status: int,
    code: Seq<char>,
    message: Seq<char>,
) -> bool {
    e.status() == status && is_error(e.body(), code, message)
}

/// A booking is told with its identifier, its show, and where it stands.
pub proof fn booking_is_told_in_full(booking: BookingResponse)
    ensures
        says(booking.body(), "id"@, JsonView::Text(booking.id@)),
        says(booking.body(), "show_id"@, JsonView::Int(booking.show_id as int)),
        says(booking.body(), "status"@, JsonView::Text(status_name(booking.status))),
{
    reveal_strlit("id");
    reveal_strlit("show_id");
    reveal_strlit("status");
    assert("id"@.len() == 2 && "show_id"@.len() == 7 && "status"@.len() == 6);
    let members = booking.body()->Object_0;
    assert(names_distinct(members));
    lemma_says(members, 0);
    lemma_says(members, 1);
    lemma_says(members, 2);
}

/// How a booking's status is written.
pub open spec fn status_name(status: BookingStatus) -> Seq<char> {
    match status {
        BookingStatus::Pending => "PENDING"@,
        BookingStatus::Confirmed => "CONFIRMED"@,
        BookingStatus::Failed => "FAILED"@,
    }
}

/// A booking's status is read from what it is written as, and from nothing else.
pub proof fn status_is_read_as_written(text: Seq<char>, status: BookingStatus)
    ensures
        named_status(text) == Some(status) <==> text == status_name(status),
        SeatStatus::Held.label() == "HELD"@,
        SeatStatus::Confirmed.label() == "CONFIRMED"@,
        SeatStatus::Released.label() == "RELEASED"@,
        status.label() == status_name(status),
{
    reveal_strlit("PENDING");
    reveal_strlit("CONFIRMED");
    reveal_strlit("FAILED");
    assert("PENDING"@.len() == 7);
    assert("CONFIRMED"@.len() == 9);
    assert("FAILED"@.len() == 6);
}

/// The health of the service is told with the state of its database and the number of shows.
pub proof fn health_is_told_in_full(health: HealthResponse)
    ensures
        says(health.body(), "status"@, JsonView::Text(health.status@)),
        says(health.body(), "db"@, JsonView::Text(health.db@)),
        says(health.body(), "shows"@, JsonView::Int(health.shows as int)),
{
    reveal_strlit("status");
    reveal_strlit("db");
    reveal_strlit("shows");
    assert("status"@.len() == 6 && "db"@.len() == 2 && "shows"@.len() == 5);
    let members = health.body()->Object_0;
    assert(names_distinct(members));
    lemma_says(members, 0);
    lemma_says(members, 1);
    lemma_says(members, 2);
}

// ----------------------------------------------------------------------------------------
// Starting a payment
// ----------------------------------------------------------------------------------------

/// The gateway is asked for the amount and the currency of the booking, and told where to send
/// its webhooks. The booking's reference is also the idempotency key.
pub proof fn payment_order_says_what_is_asked(
    booking_reference: Seq<char>,
    amount_minor: int,
    currency: Seq<char>,
    callback_url: Seq<char>,
)
    ensures
        ({
            let body = payment_order(booking_reference, amount_minor, currency, callback_url);
            &&& says(body, "booking_reference"@, JsonView::Text(booking_reference))
            &&& says(body, "amount_minor"@, JsonView::Int(amount_minor))
            &&& says(body, "currency"@, JsonView::Text(currency))
            &&& says(body, "callback_url"@, JsonView::Text(callback_url))
            &&& says(body, "idempotency_key"@, JsonView::Text(booking_reference))
        }),
{
    reveal_strlit("booking_reference");
    reveal_strlit("amount_minor");
    reveal_strlit("currency");
    reveal_strlit("callback_url");
    reveal_strlit("idempotency_key");
    assert("booking_reference"@.len() == 17 && "amount_minor"@.len() == 12);
    assert("currency"@.len() == 8 && "callback_url"@.len() == 12);
    assert("idempotency_key"@.len() == 15);
    assert("amount_minor"@[0] != "callback_url"@[0]);
    let body = payment_order(booking_reference, amount_minor, currency, callback_url);
    let members = body->Object_0;
    assert(names_distinct(members));
    lemma_says(members, 0);
    lemma_says(members, 1);
    lemma_says(members, 2);
    lemma_says(members, 3);
    lemma_says(members, 4);
}

/// A payment was started if and only if the gateway answered with a 2xx and a body that could
/// be read: then its transaction is the one that the body names. Anything else is the fault of
/// the gateway, and is told as such.
pub proof fn only_a_2xx_starts_a_payment(answer: GatewayAnswer)
    ensures
        match answer {
            GatewayAnswer::Unreachable(e) => answer_read(answer) == Err::<
                Seq<char>,
                AppErrorView,
            >(AppErrorView::Upstream("payment gateway unreachable: "@ + e@)),
            GatewayAnswer::Answered { code, status, text, payment } => if 200 <= code < 300 {
                match payment {
                    Ok(p) => answer_read(answer) == Ok::<Seq<char>, AppErrorView>(
                        p.transaction_id@,
                    ),
                    Err(e) => answer_read(answer) == Err::<Seq<char>, AppErrorView>(
                        AppErrorView::Upstream("payment gateway response: "@ + e@),
                    ),
                }
            } else {
                answer_read(answer) == Err::<Seq<char>, AppErrorView>(
                    AppErrorView::Upstream(
                        "payment gateway returned "@ + status@ + ": "@ + text@,
                    ),
                )
            },
        },
{
}

// ----------------------------------------------------------------------------------------
// Settings
// ----------------------------------------------------------------------------------------

/// Whether `text` is what a variable sets: its value, or `default` where there is none or it is
/// blank.
pub open spec fn text_set(
    vars: Vars,
    name: Seq<char>,
    default: Seq<char>,
    text: Seq<char>,
) -> bool {
    match var_of(vars, name) {
        None => text == default,
        Some(ValueView::Text(value)) => text == if blank(value) {
            default
        } else {
            value
        },
        Some(ValueView::Malformed(_)) => false,
    }
}

/// Whether `n` is what a variable sets: the number that its value spells, or `default` where
/// there is none or it is blank.
pub open spec fn number_set(vars: Vars, name: Seq<char>, default: int, max: int, n: int) -> bool {
    match var_of(vars, name) {
        None => n == default,
        Some(ValueView::Text(value)) => if blank(value) {
            n == default
        } else {
            parsed(trimmed(value), max) == Some(n)
        },
        Some(ValueView::Malformed(_)) => false,
    }
}

/// Every setting is what its variable sets, and its default otherwise.
pub proof fn settings_are_what_was_set(config: Config, vars: Vars)
    requires
        configured(config, vars),
    ensures
        number_set(vars, "PORT"@, 8080, 65_535, config.port as int),
        text_set(vars, "DATABASE_URL"@, "sqlite://data/booking.db?mode=rwc"@, config.database_url@),
        text_set(vars, "MIGRATIONS_DIR"@, "./migrations"@, config.migrations_dir@),
        exists|gateway: Seq<char>|
            #[trigger] text_set(
                vars,
                "PAYMENT_GATEWAY_URL"@,
                "http://127.0.0.1:9090"@,
                gateway,
            ) && config.payment_gateway_url@ == trimmed_end_of(gateway, '/'),
        text_set(
            vars,
            "WEBHOOK_CALLBACK_URL"@,
            "http://127.0.0.1:8080/webhooks/payments"@,
            config.webhook_callback_url@,
        ),
        text_set(
            vars,
            "PAYMENT_WEBHOOK_SECRET"@,
            "dev-webhook-secret"@,
            config.webhook_secret@,
        ),
        number_set(
            vars,
            "BOOKING_HOLD_TTL_SECONDS"@,
            120,
            u64::MAX as int,
            config.booking_hold_ttl_seconds as int,
        ),
{
    let gateway = crate::booking::config::text_of(
        vars,
        "PAYMENT_GATEWAY_URL"@,
        "http://127.0.0.1:9090"@,
    )->0;
    assert(text_set(vars, "PAYMENT_GATEWAY_URL"@, "http://127.0.0.1:9090"@, gateway));
}

/// Whether a variable is not set, is blank, or holds a text.
pub open spec fn is_text(vars: Vars, name: Seq<char>) -> bool {
    !(var_of(vars, name) matches Some(value) && value is Malformed)
}

/// Whether a variable is not set, is blank, or spells an unsigned number up to `max`.
pub open spec fn is_number(vars: Vars, name: Seq<char>, max: int) -> bool {
    exists|n: int| number_set(vars, name, 0, max, n)
}

/// The settings are refused if and only if one of them cannot be read.
pub proof fn readable_settings_are_taken(vars: Vars)
    ensures
        first_of(faults(vars)) is None <==> {
            &&& is_number(vars, "PORT"@, 65_535)
            &&& is_text(vars, "DATABASE_URL"@)
            &&& is_text(vars, "MIGRATIONS_DIR"@)
            &&& is_text(vars, "PAYMENT_GATEWAY_URL"@)
            &&& is_text(vars, "WEBHOOK_CALLBACK_URL"@)
            &&& is_text(vars, "PAYMENT_WEBHOOK_SECRET"@)
            &&& is_number(vars, "BOOKING_HOLD_TTL_SECONDS"@, u64::MAX as int)
        },
{
    crate::booking::config::lemma_first_faults(faults(vars));
    lemma_number(vars, "PORT"@, 65_535);
    lemma_number(vars, "BOOKING_HOLD_TTL_SECONDS"@, u64::MAX as int);
}

// ----------------------------------------------------------------------------------------
// Steps on the way
// ----------------------------------------------------------------------------------------

proof fn lemma_number(vars: Vars, name: Seq<char>, max: int)
    ensures
        is_number(vars, name, max) <==> crate::booking::config::number_fault(
            vars,
            name,
            max,
        ) is None,
{
    let read = crate::environment::number_of(vars, name, 0, max);
    if read is Ok {
        assert(number_set(vars, name, 0, max, read->Ok_0));
    }
}

proof fn lemma_app_error(e: AppErrorView)
    ensures
        is_error(e.body(), e.code(), e.shown()),
{
    reveal_strlit("code");
    reveal_strlit("message");
    assert("code"@.len() == 4 && "message"@.len() == 7);
    let inner = e.body()->Object_0[0].value->Object_0;
    assert(names_distinct(inner));
    lemma_says(inner, 0);
    lemma_says(inner, 1);
}

/// A setting that cannot be used is named together with its value, in quotes.
pub proof fn config_error_names_the_setting(e: ConfigError)
    ensures
        e.said() == "invalid value for environment variable "@ + e.name@ + ": "@ + debug_quoted(
            e.value@,
        ),
{
}

/// What is wrong with the migrations is said by number.
pub proof fn migration_fault_names_the_migration(fault: MigrationFault)
    ensures
        match fault {
            MigrationFault::VersionMismatch(v) => hint(fault) == "migration "@ + signed_decimal(
                v as int,
            ) + " was already applied and has since been edited"@,
            MigrationFault::VersionMissing(v) => hint(fault) == "migration "@ + signed_decimal(
                v as int,
            ) + " was already applied but its file is now missing or renamed"@,
            MigrationFault::VersionTooOld(v, latest) => hint(fault) == "migration "@
                + signed_decimal(v as int) + " is numbered below the already-applied "@
                + signed_decimal(latest as int),
            MigrationFault::Dirty(v) => hint(fault) == "migration "@ + signed_decimal(v as int)
                + " was only partially applied"@,
        },
{
}

} // verus!
