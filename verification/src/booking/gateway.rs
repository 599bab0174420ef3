//! Speaking to the payment gateway.

use vstd::prelude::*;

use crate::booking::config::Config;
use crate::booking::error::{AppError, AppErrorView};
use crate::gateway::delivery::{is_success, success_code};
use crate::json::{member, put, Json, JsonView, Member};
use crate::text::{join, join3};

verus! {

/// A request to the gateway.
#[derive(Debug)]
pub struct PaymentCall {
    pub url: String,
    pub body: Json,
}

/// What the gateway is asked for when a payment is started.
pub open spec fn payment_order(
    booking_reference: Seq<char>,
    amount_minor: int,
    currency: Seq<char>,
    callback_url: Seq<char>,
) -> JsonView {
    JsonView::Object(
        seq![
            member("booking_reference"@, JsonView::Text(booking_reference)),
            member("amount_minor"@, JsonView::Int(amount_minor)),
            member("currency"@, JsonView::Text(currency)),
            member("callback_url"@, JsonView::Text(callback_url)),
            member("idempotency_key"@, JsonView::Text(booking_reference)),
        ],
    )
}

/// The request that starts a payment.
///
/// The booking reference doubles as the idempotency key: one booking should only ever start
/// one payment, so if the request is ever retried, the gateway hands back the existing
/// transaction instead of charging twice.
pub fn payment_call(
    config: &Config,
    booking_reference: &str,
    amount_minor: i64,
    currency: &str,
) -> (call: PaymentCall)
    ensures
        call.url@ == config.payment_gateway_url@ + "/v1/payments"@,
        call.body@ == payment_order(
            booking_reference@,
            amount_minor as int,
            currency@,
            config.webhook_callback_url@,
        ),
{
    let mut members: Vec<Member> = Vec::new();
    put(&mut members, "booking_reference", Json::text(booking_reference));
    put(&mut members, "amount_minor", Json::Int(amount_minor));
    put(&mut members, "currency", Json::text(currency));
    put(&mut members, "callback_url", Json::text(config.webhook_callback_url.as_str()));
    put(&mut members, "idempotency_key", Json::text(booking_reference));
    let body = Json::object(members);
    assert(body@->Object_0 =~= payment_order(
        booking_reference@,
        amount_minor as int,
        currency@,
        config.webhook_callback_url@,
    )->Object_0);
    PaymentCall { url: join(config.payment_gateway_url.as_str(), "/v1/payments"), body }
}

/// The gateway's answer to a request that was accepted, as far as it is of interest.
#[derive(Debug)]
pub struct CreatePaymentResponse {
    pub transaction_id: String,
}

/// What came of a request to the gateway.
#[derive(Debug)]
pub enum GatewayAnswer {
    /// The gateway could not be reached; the error in full.
    Unreachable(String),
    /// The gateway answered.
    Answered {
        code: u16,
        /// The status code as it is written, such as `409 Conflict`.
        status: String,
        /// The body, where the code is no success.
        text: String,
        /// The body, where the code is a success: the answer, or what is wrong with it.
        payment: Result<CreatePaymentResponse, String>,
    },
}

/// The transaction that was started, or why there is none.
pub open spec fn answer_read(answer: GatewayAnswer) -> Result<Seq<char>, AppErrorView> {
    match answer {
        GatewayAnswer::Unreachable(e) => Err(
            AppErrorView::Upstream("payment gateway unreachable: "@ + e@),
        ),
        GatewayAnswer::Answered { code, status, text, payment } => if !success_code(code) {
            Err(AppErrorView::Upstream("payment gateway returned "@ + status@ + ": "@ + text@))
        } else {
            match payment {
                Ok(p) => Ok(p.transaction_id@),
                Err(e) => Err(AppErrorView::Upstream("payment gateway response: "@ + e@)),
            }
        },
    }
}

/// Reads the gateway's answer to the request that starts a payment. The outcome of the
/// payment arrives later, via webhook.
pub fn read_answer(answer: GatewayAnswer) -> (r: Result<CreatePaymentResponse, AppError>)
    ensures
        match r {
            Ok(p) => answer_read(answer) == Ok::<Seq<char>, AppErrorView>(p.transaction_id@),
            Err(e) => answer_read(answer) == Err::<Seq<char>, AppErrorView>(e@),
        },
{
    match answer {
        GatewayAnswer::Unreachable(e) => Err(
            AppError::Upstream(join("payment gateway unreachable: ", e.as_str())),
        ),
        GatewayAnswer::Answered { code, status, text, payment } => {
            if !is_success(code) {
                let start = join3("payment gateway returned ", status.as_str(), ": ");
                return Err(AppError::Upstream(join(start.as_str(), text.as_str())));
            }
            match payment {
                Ok(p) => Ok(p),
                Err(e) => Err(AppError::Upstream(join("payment gateway response: ", e.as_str()))),
            }
        },
    }
}

/// A booking starts one payment: every request for it carries the same idempotency key, the
/// booking's own reference, whatever the amount.
pub proof fn one_key_per_booking(
    booking_reference: Seq<char>,
    amount_minor: int,
    other_amount: int,
    currency: Seq<char>,
    callback_url: Seq<char>,
)
    ensures
        payment_order(booking_reference, amount_minor, currency, callback_url)->Object_0[4]
            == member("idempotency_key"@, JsonView::Text(booking_reference)),
        payment_order(booking_reference, amount_minor, currency, callback_url)->Object_0[4]
            == payment_order(booking_reference, other_amount, currency, callback_url)->Object_0[4],
{
}

} // verus!
