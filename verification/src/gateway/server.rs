//! The gateway's HTTP API: what each request does, and what is answered.

use rand::rngs::StdRng;
use reqwest::Url;
use vstd::prelude::*;

use crate::clock::{in_calendar, iso, iso_opt, iso_text, Timestamp};
use crate::dice::generator_state;
use crate::gateway::config::Config;
use crate::gateway::laws::{
    accepted_payment_reads_back, history, key_is_charged_once, key_leads_to_one_payment_forever,
};
use crate::gateway::outcome::{
    named_scenario, normalised, plannable, resolved, unknown_scenario, Plan, PlanView, Scenario,
};
use crate::gateway::records::{accepted, as_signed, to_signed, Payment, PaymentView};
use crate::gateway::store::{payment_views, RefundResult, RefundView, Store, StoreView};
use crate::ids::{id_with_prefix, new_transaction_id};
use crate::json::{
    error_body, error_json, items_view, member, put, text_or_null, Json, JsonView, Member,
};
use crate::text::{blank, borrow_opt, is_blank, join, opt_view};

verus! {

// ----------------------------------------------------------------------------------------
// Answers
// ----------------------------------------------------------------------------------------

/// An answer to a request.
#[derive(Debug)]
pub struct Reply {
    pub status: u16,
    /// Whether the answer carries the header `x-idempotent-replay: true`.
    pub idempotent_replay: bool,
    pub body: Json,
}

/// What an answer says.
#[verifier::ext_equal]
pub struct ReplyView {
    pub status: int,
    pub idempotent_replay: bool,
    pub body: JsonView,
}

impl View for Reply {
    type V = ReplyView;

    open spec fn view(&self) -> ReplyView {
        ReplyView {
            status: self.status as int,
            idempotent_replay: self.idempotent_replay,
            body: self.body@,
        }
    }
}

/// Why a request is refused.
#[derive(Debug)]
pub enum GatewayError {
    Invalid(String),
    Conflict(String),
    NotFound(String),
    Database(String),
}

/// What an error says.
pub enum ErrorView {
    Invalid(Seq<char>),
    Conflict(Seq<char>),
    NotFound(Seq<char>),
    Database(Seq<char>),
}

impl View for GatewayError {
    type V = ErrorView;

    open spec fn view(&self) -> ErrorView {
        match self {
            GatewayError::Invalid(m) => ErrorView::Invalid(m@),
            GatewayError::Conflict(m) => ErrorView::Conflict(m@),
            GatewayError::NotFound(id) => ErrorView::NotFound(id@),
            GatewayError::Database(m) => ErrorView::Database(m@),
        }
    }
}

/// What came of a request.
pub open spec fn outcome_view(r: Result<Reply, GatewayError>) -> Result<ReplyView, ErrorView> {
    match r {
        Ok(reply) => Ok(reply@),
        Err(e) => Err(e@),
    }
}

impl ErrorView {
    /// The error as a message.
    pub open spec fn said(self) -> Seq<char> {
        match self {
            ErrorView::Invalid(m) => m,
            ErrorView::Conflict(m) => m,
            ErrorView::NotFound(id) => "no payment with transaction_id "@ + id,
            ErrorView::Database(m) => m,
        }
    }

    /// The status code under which the error is answered.
    pub open spec fn status(self) -> int {
        match self {
            ErrorView::Invalid(_) => 400,
            ErrorView::Conflict(_) => 409,
            ErrorView::NotFound(_) => 404,
            ErrorView::Database(_) => 500,
        }
    }

    /// The error's code.
    pub open spec fn code(self) -> Seq<char> {
        match self {
            ErrorView::Invalid(_) => "INVALID_REQUEST"@,
            ErrorView::Conflict(_) => "CONFLICT"@,
            ErrorView::NotFound(_) => "NOT_FOUND"@,
            ErrorView::Database(_) => "GATEWAY_ERROR"@,
        }
    }

    /// The error as an answer.
    pub open spec fn reply(self) -> ReplyView {
        ReplyView {
            status: self.status(),
            idempotent_replay: false,
            body: error_body(self.code(), self.said()),
        }
    }
}

impl GatewayError {
    /// A request that makes no sense.
    pub fn invalid(message: &str) -> (e: Self)
        ensures
            e@ == ErrorView::Invalid(message@),
    {
        GatewayError::Invalid(message.to_owned())
    }

    /// A request that the current state rules out.
    pub fn conflict(message: &str) -> (e: Self)
        ensures
            e@ == ErrorView::Conflict(message@),
    {
        GatewayError::Conflict(message.to_owned())
    }

    /// A request about a payment that does not exist.
    pub fn not_found(transaction_id: &str) -> (e: Self)
        ensures
            e@ == ErrorView::NotFound(transaction_id@),
    {
        GatewayError::NotFound(transaction_id.to_owned())
    }

    /// The error as a message.
    pub fn message(&self) -> (s: String)
        ensures
            s@ == self@.said(),
    {
        match self {
            GatewayError::Invalid(m) => m.clone(),
            GatewayError::Conflict(m) => m.clone(),
            GatewayError::NotFound(id) => join("no payment with transaction_id ", id.as_str()),
            GatewayError::Database(m) => m.clone(),
        }
    }

    /// The error as an answer.
    pub fn into_response(self) -> (reply: Reply)
        ensures
            reply@ == self@.reply(),
    {
        let (status, code): (u16, &str) = match &self {
            GatewayError::Invalid(_) => (400, "INVALID_REQUEST"),
            GatewayError::Conflict(_) => (409, "CONFLICT"),
            GatewayError::NotFound(_) => (404, "NOT_FOUND"),
            GatewayError::Database(_) => (500, "GATEWAY_ERROR"),
        };
        let message = self.message();
        Reply { status, idempotent_replay: false, body: error_json(code, message.as_str()) }
    }
}

// ----------------------------------------------------------------------------------------
// POST /v1/payments
// ----------------------------------------------------------------------------------------

/// A request for a payment.
#[derive(Debug)]
pub struct CreatePaymentRequest {
    pub booking_reference: String,
    pub amount_minor: i64,
    pub currency: String,
    pub callback_url: String,
    pub idempotency_key: Option<String>,
}

/// What a request for a payment says.
pub struct RequestView {
    pub booking_reference: Seq<char>,
    pub amount_minor: int,
    pub currency: Seq<char>,
    pub callback_url: Seq<char>,
    pub idempotency_key: Option<Seq<char>>,
}

impl View for CreatePaymentRequest {
    type V = RequestView;

    open spec fn view(&self) -> RequestView {
        RequestView {
            booking_reference: self.booking_reference@,
            amount_minor: self.amount_minor as int,
            currency: self.currency@,
            callback_url: self.callback_url@,
            idempotency_key: opt_view(self.idempotency_key),
        }
    }
}

/// The currency of a request that names none.
pub fn default_currency() -> (s: String)
    ensures
        s@ == "INR"@,
{
    "INR".to_owned()
}

/// The answer to a request for a payment.
#[derive(Debug)]
pub struct CreatePaymentResponse {
    pub transaction_id: String,
    pub status: String,
    pub booking_reference: String,
    pub amount_minor: i64,
    pub currency: String,
    pub scenario: String,
}

/// The body of the answer to a request for a payment.
pub open spec fn creation_body(
    transaction_id: Seq<char>,
    status: Seq<char>,
    booking_reference: Seq<char>,
    amount_minor: int,
    currency: Seq<char>,
    scenario: Seq<char>,
) -> JsonView {
    JsonView::Object(
        seq![
            member("transaction_id"@, JsonView::Text(transaction_id)),
            member("status"@, JsonView::Text(status)),
            member("booking_reference"@, JsonView::Text(booking_reference)),
            member("amount_minor"@, JsonView::Int(amount_minor)),
            member("currency"@, JsonView::Text(currency)),
            member("scenario"@, JsonView::Text(scenario)),
        ],
    )
}

impl CreatePaymentResponse {
    /// What the answer says.
    pub open spec fn body(self) -> JsonView {
        creation_body(
            self.transaction_id@,
            self.status@,
            self.booking_reference@,
            self.amount_minor as int,
            self.currency@,
            self.scenario@,
        )
    }

    /// The answer as a JSON object.
    pub fn to_json(&self) -> (j: Json)
        ensures
            j@ == self.body(),
    {
        let mut members: Vec<Member> = Vec::new();
        put(&mut members, "transaction_id", Json::text(self.transaction_id.as_str()));
        put(&mut members, "status", Json::text(self.status.as_str()));
        put(&mut members, "booking_reference", Json::text(self.booking_reference.as_str()));
        put(&mut members, "amount_minor", Json::Int(self.amount_minor));
        put(&mut members, "currency", Json::text(self.currency.as_str()));
        put(&mut members, "scenario", Json::text(self.scenario.as_str()));
        let j = Json::object(members);
        assert(j@->Object_0 =~= self.body()->Object_0);
        j
    }
}

/// Whether the `url` crate reads a text as an absolute URL.
pub uninterp spec fn url_parses(s: Seq<char>) -> bool;

/// `reqwest::Url::parse`, of which only whether it succeeds is kept. That is a function of the
/// text alone, and bears the name `url_parses`; the syntax of URLs is left unsaid.
#[verifier::external_body]
fn is_absolute_url(s: &str) -> (r: bool)
    ensures
        r == url_parses(s@),
{
    Url::parse(s).is_ok()
}

/// What is wrong with a request, given whether its callback URL can be read.
pub open spec fn request_fault(request: RequestView, url_reads: bool) -> Option<Seq<char>> {
    if blank(request.booking_reference) {
        Some("booking_reference must not be empty"@)
    } else if request.amount_minor <= 0 {
        Some("amount_minor must be greater than zero"@)
    } else if vstd::utf8::encode_utf8(request.currency).len() != 3 {
        Some("currency must be a 3-letter code"@)
    } else if !url_reads {
        Some(
            "callback_url must be an absolute URL, e.g. http://127.0.0.1:8080/webhooks/payments"@,
        )
    } else {
        None
    }
}

/// Checks a request, given whether its callback URL can be read.
pub fn check_request(request: &CreatePaymentRequest, url_reads: bool) -> (r: Result<
    (),
    GatewayError,
>)
    ensures
        match r {
            Ok(_) => request_fault(request@, url_reads) is None,
            Err(e) => request_fault(request@, url_reads) is Some && e@ == ErrorView::Invalid(
                request_fault(request@, url_reads)->0,
            ),
        },
{
    if is_blank(request.booking_reference.as_str()) {
        return Err(GatewayError::invalid("booking_reference must not be empty"));
    }
    if request.amount_minor <= 0 {
        return Err(GatewayError::invalid("amount_minor must be greater than zero"));
    }
    if request.currency.as_str().as_bytes().len() != 3 {
        return Err(GatewayError::invalid("currency must be a 3-letter code"));
    }
    if !url_reads {
        return Err(
            GatewayError::invalid(
                "callback_url must be an absolute URL, e.g. http://127.0.0.1:8080/webhooks/payments",
            ),
        );
    }
    Ok(())
}

/// Checks a request.
pub fn validate(request: &CreatePaymentRequest) -> (r: Result<(), GatewayError>)
    ensures
        match r {
            Ok(_) => request_fault(request@, url_parses(request@.callback_url)) is None,
            Err(e) => {
                let fault = request_fault(request@, url_parses(request@.callback_url));
                fault is Some && e@ == ErrorView::Invalid(fault->0)
            },
        },
{
    let url_reads = is_absolute_url(request.callback_url.as_str());
    check_request(request, url_reads)
}

/// What a request's `X-Force-Scenario` header was found to hold.
#[derive(Debug)]
pub enum ForceHeader {
    /// There is none.
    Absent,
    /// It is no ASCII text.
    Unreadable,
    /// It holds this text.
    Text(String),
}

/// The scenario that a request asks for, or what is wrong with its header.
pub open spec fn scenario_asked(header: ForceHeader) -> Result<Scenario, Seq<char>> {
    match header {
        ForceHeader::Absent => Ok(Scenario::Random),
        ForceHeader::Unreadable => Err("X-Force-Scenario must be valid ASCII"@),
        ForceHeader::Text(raw) => match named_scenario(normalised(raw@)) {
            Some(scenario) => Ok(scenario),
            None => Err(unknown_scenario(normalised(raw@))),
        },
    }
}

/// The scenario that a request asks for.
pub fn read_scenario(header: &ForceHeader) -> (r: Result<Scenario, GatewayError>)
    ensures
        match r {
            Ok(scenario) => scenario_asked(*header) == Ok::<Scenario, Seq<char>>(scenario),
            Err(e) => scenario_asked(*header) is Err && e@ == ErrorView::Invalid(
                scenario_asked(*header)->Err_0,
            ),
        },
{
    match header {
        ForceHeader::Absent => Ok(Scenario::Random),
        ForceHeader::Unreadable => Err(
            GatewayError::invalid("X-Force-Scenario must be valid ASCII"),
        ),
        ForceHeader::Text(raw) => {
            match <Scenario as std::str::FromStr>::from_str(raw.as_str()) {
                Ok(scenario) => Ok(scenario),
                Err(message) => Err(GatewayError::invalid(message.as_str())),
            }
        },
    }
}

/// The answer to a request that turned out to be a replay of an existing payment. It reports
/// the payment's **real** status.
pub open spec fn replay_of(existing: PaymentView) -> ReplyView {
    ReplyView {
        status: 202,
        idempotent_replay: true,
        body: creation_body(
            existing.transaction_id,
            existing.status,
            existing.booking_reference,
            existing.amount_minor,
            existing.currency,
            existing.scenario,
        ),
    }
}

/// The answer to a request that turned out to be a replay of an existing payment.
///
/// Reports the payment's **real** status. Hardcoding `PENDING` here would mean a caller
/// replaying a key for an already-resolved payment gets told it is still in flight.
pub fn replay_response(existing: Payment) -> (reply: Reply)
    ensures
        reply@ == replay_of(existing@),
{
    let body = CreatePaymentResponse {
        transaction_id: existing.transaction_id,
        status: existing.status,
        booking_reference: existing.booking_reference,
        amount_minor: existing.amount_minor,
        currency: existing.currency,
        scenario: existing.scenario,
    };
    Reply { status: 202, idempotent_replay: true, body: body.to_json() }
}

/// The answer to a request that was accepted.
pub open spec fn accepted_reply(
    request: RequestView,
    transaction_id: Seq<char>,
    scenario: Scenario,
) -> ReplyView {
    ReplyView {
        status: 202,
        idempotent_replay: false,
        body: creation_body(
            transaction_id,
            "PENDING"@,
            request.booking_reference,
            request.amount_minor,
            request.currency,
            scenario.label(),
        ),
    }
}

/// Accepting a request that was checked: what the store holds then, and what is answered.
pub open spec fn acceptance(
    store: StoreView,
    request: RequestView,
    scenario: Scenario,
    plan: PlanView,
    transaction_id: Seq<char>,
    now: Timestamp,
) -> (StoreView, Result<ReplyView, ErrorView>) {
    let (next, inserted) = store.inserted(
        accepted(
            transaction_id,
            request.idempotency_key,
            request.booking_reference,
            request.amount_minor,
            request.currency,
            request.callback_url,
            scenario.label(),
            plan,
            now,
        ),
    );
    match inserted {
        Ok(true) => (next, Ok(accepted_reply(request, transaction_id, scenario))),
        Ok(false) => (
            next,
            Ok(replay_of(store.payment_by_key(request.idempotency_key->0)->0)),
        ),
        Err(e) => (next, Err(ErrorView::Database(e.said()))),
    }
}

/// Accepts a request that was checked, under the given plan and `transaction_id`. Where the
/// request's idempotency key was claimed in the meantime, the existing payment is replayed.
pub fn accept_payment(
    store: &mut Store,
    request: &CreatePaymentRequest,
    scenario: Scenario,
    plan: &Plan,
    transaction_id: String,
    now: Timestamp,
) -> (r: Result<Reply, GatewayError>)
    requires
        old(store)@.wf(),
        now.wf(),
        in_calendar(now.millis + as_signed(plan@.decide_after_ms)),
    ensures
        final(store)@.wf(),
        (final(store)@, outcome_view(r)) == acceptance(
            old(store)@,
            request@,
            scenario,
            plan@,
            transaction_id@,
            now,
        ),
{
    let inserted = store.insert_payment(
        transaction_id.as_str(),
        borrow_opt(&request.idempotency_key),
        request.booking_reference.as_str(),
        request.amount_minor,
        request.currency.as_str(),
        request.callback_url.as_str(),
        scenario.as_str(),
        plan,
        now,
    );
    match inserted {
        Ok(true) => {
            let body = CreatePaymentResponse {
                transaction_id,
                status: "PENDING".to_owned(),
                booking_reference: request.booking_reference.clone(),
                amount_minor: request.amount_minor,
                currency: request.currency.clone(),
                scenario: scenario.as_str().to_owned(),
            };
            Ok(Reply { status: 202, idempotent_replay: false, body: body.to_json() })
        },
        Ok(false) => {
            // The idempotency key is taken. Re-read and replay: the alternative is a refusal
            // of a perfectly reasonable retry.
            let key = borrow_opt(&request.idempotency_key).unwrap();
            let existing = store.find_by_idempotency_key(key).unwrap();
            Ok(replay_response(existing))
        },
        Err(e) => Err(GatewayError::Database(e.message())),
    }
}

/// A request for a payment: what the store holds then, and what is answered, given the plan
/// and the `transaction_id` of a payment that is accepted.
pub open spec fn creation(
    store: StoreView,
    request: RequestView,
    header: ForceHeader,
    plan: PlanView,
    transaction_id: Seq<char>,
    now: Timestamp,
) -> (StoreView, Result<ReplyView, ErrorView>) {
    let fault = request_fault(request, url_parses(request.callback_url));
    if fault is Some {
        (store, Err(ErrorView::Invalid(fault->0)))
    } else if request.idempotency_key is Some && store.has_key(request.idempotency_key->0) {
        (store, Ok(replay_of(store.payment_by_key(request.idempotency_key->0)->0)))
    } else {
        match scenario_asked(header) {
            Err(message) => (store, Err(ErrorView::Invalid(message))),
            Ok(scenario) => acceptance(store, request, scenario, plan, transaction_id, now),
        }
    }
}

/// Whether a request gets as far as being given a plan.
pub open spec fn is_planned(store: StoreView, request: RequestView, header: ForceHeader) -> bool {
    &&& request_fault(request, url_parses(request.callback_url)) is None
    &&& request.idempotency_key matches Some(key) ==> !store.has_key(key)
    &&& scenario_asked(header) is Ok
}

/// The plan that is drawn for a request in a given state, and the state after that.
pub open spec fn plan_drawn(header: ForceHeader, config: Config, state: Seq<u8>) -> (
    PlanView,
    Seq<u8>,
) {
    resolved(scenario_asked(header)->Ok_0, config, state)
}

/// Whether the thinking time of a plan ends within the calendar.
pub open spec fn plan_fits(plan: PlanView, now: Timestamp) -> bool {
    in_calendar(now.millis + as_signed(plan.decide_after_ms))
}

/// Whether a request for a payment leads to `after`, to the generator's state `later` and to
/// `outcome`, where a payment that is accepted is given this `transaction_id`. There is no
/// outcome, and nothing is written, where the thinking time that was drawn ends outside the
/// calendar.
pub open spec fn creates(
    before: StoreView,
    config: Config,
    state: Seq<u8>,
    request: RequestView,
    header: ForceHeader,
    transaction_id: Seq<char>,
    now: Timestamp,
    after: StoreView,
    later: Seq<u8>,
    outcome: Option<Result<ReplyView, ErrorView>>,
) -> bool {
    let (plan, drawn) = plan_drawn(header, config, state);
    let planned = is_planned(before, request, header);
    &&& later == if planned {
        drawn
    } else {
        state
    }
    &&& if planned && !plan_fits(plan, now) {
        outcome is None && after == before
    } else {
        outcome matches Some(o) && (after, o) == creation(
            before,
            request,
            header,
            plan,
            transaction_id,
            now,
        )
    }
}

/// What came of a request, if anything did.
pub open spec fn answer_view(r: Option<Result<Reply, GatewayError>>) -> Option<
    Result<ReplyView, ErrorView>,
> {
    match r {
        Some(result) => Some(outcome_view(result)),
        None => None,
    }
}

/// A request for a payment. `None` where the thinking time that was drawn ends outside the
/// calendar; then nothing was written.
pub fn create_payment(
    store: &mut Store,
    config: &Config,
    rng: &mut StdRng,
    request: &CreatePaymentRequest,
    header: &ForceHeader,
    now: Timestamp,
) -> (r: Option<Result<Reply, GatewayError>>)
    requires
        old(store)@.wf(),
        config.wf(),
        now.wf(),
    ensures
        final(store)@.wf(),
        exists|transaction_id: Seq<char>|
            {
                &&& id_with_prefix(transaction_id, "txn_"@)
                &&& #[trigger] creates(
                    old(store)@,
                    *config,
                    generator_state(*old(rng)),
                    request@,
                    *header,
                    transaction_id,
                    now,
                    final(store)@,
                    generator_state(*final(rng)),
                    answer_view(r),
                )
            },
        is_planned(old(store)@, request@, *header) ==> plannable(
            scenario_asked(*header)->Ok_0,
            *config,
            plan_drawn(*header, *config, generator_state(*old(rng))).0,
        ),
{
    let transaction_id = new_transaction_id();
    let ghost id = transaction_id@;
    let r = create_as(store, config, rng, request, header, transaction_id, now);
    assert(id_with_prefix(id, "txn_"@));
    r
}

/// A request for a payment, which is given this `transaction_id` if it is accepted. `None`
/// where the thinking time that was drawn ends outside the calendar; then nothing was written.
pub fn create_as(
    store: &mut Store,
    config: &Config,
    rng: &mut StdRng,
    request: &CreatePaymentRequest,
    header: &ForceHeader,
    transaction_id: String,
    now: Timestamp,
) -> (r: Option<Result<Reply, GatewayError>>)
    requires
        old(store)@.wf(),
        config.wf(),
        now.wf(),
    ensures
        final(store)@.wf(),
        creates(
            old(store)@,
            *config,
            generator_state(*old(rng)),
            request@,
            *header,
            transaction_id@,
            now,
            final(store)@,
            generator_state(*final(rng)),
            answer_view(r),
        ),
        is_planned(old(store)@, request@, *header) ==> plannable(
            scenario_asked(*header)->Ok_0,
            *config,
            plan_drawn(*header, *config, generator_state(*old(rng))).0,
        ),
{
    if let Err(e) = validate(request) {
        return Some(Err(e));
    }
    // Replaying an idempotency key must never create a second charge.
    if let Some(key) = &request.idempotency_key {
        if let Some(existing) = store.find_by_idempotency_key(key.as_str()) {
            return Some(Ok(replay_response(existing)));
        }
    }
    let scenario = match read_scenario(header) {
        Ok(scenario) => scenario,
        Err(e) => {
            return Some(Err(e));
        },
    };
    let plan = Plan::resolve(scenario, config, rng);
    if now.checked_plus(to_signed(plan.decide_after_ms)).is_none() {
        return None;
    }
    Some(accept_payment(store, request, scenario, &plan, transaction_id, now))
}

// ----------------------------------------------------------------------------------------
// GET /v1/payments/{id} and GET /v1/payments?booking_reference=…
// ----------------------------------------------------------------------------------------

/// A point in time as it is reported, or null.
pub open spec fn iso_or_null(at: Option<Timestamp>) -> JsonView {
    match at {
        Some(t) => JsonView::Text(iso_text(t.millis)),
        None => JsonView::Null,
    }
}

/// A payment as it is reported.
pub open spec fn payment_body(payment: PaymentView) -> JsonView {
    JsonView::Object(
        seq![
            member("transaction_id"@, JsonView::Text(payment.transaction_id)),
            member("booking_reference"@, JsonView::Text(payment.booking_reference)),
            member("amount_minor"@, JsonView::Int(payment.amount_minor)),
            member("currency"@, JsonView::Text(payment.currency)),
            member("status"@, JsonView::Text(payment.status)),
            member("failure_reason"@, text_or_null(payment.failure_reason)),
            member("scenario"@, JsonView::Text(payment.scenario)),
            member("created_at"@, JsonView::Text(iso_text(payment.created_at.millis))),
            member("decided_at"@, iso_or_null(payment.decided_at)),
            member("refund_id"@, text_or_null(payment.refund_id)),
            member("refunded_at"@, iso_or_null(payment.refunded_at)),
            member("webhook_attempts"@, JsonView::Int(payment.webhook_attempts)),
            member("webhook_acknowledged"@, JsonView::Bool(payment.webhook_acknowledged)),
            member("webhook_suppressed"@, JsonView::Bool(payment.webhook_suppressed)),
        ],
    )
}

/// A payment as it is reported.
pub fn payment_json(payment: &Payment) -> (j: Json)
    requires
        payment@.wf(),
    ensures
        j@ == payment_body(payment@),
{
    let mut members: Vec<Member> = Vec::new();
    put(&mut members, "transaction_id", Json::text(payment.transaction_id.as_str()));
    put(&mut members, "booking_reference", Json::text(payment.booking_reference.as_str()));
    put(&mut members, "amount_minor", Json::Int(payment.amount_minor));
    put(&mut members, "currency", Json::text(payment.currency.as_str()));
    put(&mut members, "status", Json::text(payment.status.as_str()));
    put(&mut members, "failure_reason", Json::text_or_null(&payment.failure_reason));
    put(&mut members, "scenario", Json::text(payment.scenario.as_str()));
    put(&mut members, "created_at", Json::Text(iso(payment.created_at)));
    put(&mut members, "decided_at", Json::text_or_null(&iso_opt(payment.decided_at)));
    put(&mut members, "refund_id", Json::text_or_null(&payment.refund_id));
    put(&mut members, "refunded_at", Json::text_or_null(&iso_opt(payment.refunded_at)));
    put(&mut members, "webhook_attempts", Json::Int(payment.webhook_attempts));
    put(&mut members, "webhook_acknowledged", Json::Bool(payment.webhook_acknowledged));
    // True when this payment's webhook will never be delivered (the `lost` scenario). A real
    // gateway would not tell; it is here so the exercise is debuggable.
    put(&mut members, "webhook_suppressed", Json::Bool(payment.webhook_suppressed));
    let j = Json::object(members);
    assert(j@->Object_0 =~= payment_body(payment@)->Object_0);
    j
}

/// An answer that all went well.
pub open spec fn fine(body: JsonView) -> ReplyView {
    ReplyView { status: 200, idempotent_replay: false, body }
}

/// The answer to a request for what is known of a payment.
pub open spec fn lookup(
    store: StoreView,
    transaction_id: Seq<char>,
) -> Result<ReplyView, ErrorView> {
    match store.payment(transaction_id) {
        Some(payment) => Ok(fine(payment_body(payment))),
        None => Err(ErrorView::NotFound(transaction_id)),
    }
}

/// A request for what is known of a payment.
pub fn get_payment(store: &Store, transaction_id: &str) -> (r: Result<Reply, GatewayError>)
    requires
        store@.wf(),
    ensures
        outcome_view(r) == lookup(store@, transaction_id@),
{
    match store.get_payment(transaction_id) {
        Some(payment) => Ok(
            Reply { status: 200, idempotent_replay: false, body: payment_json(&payment) },
        ),
        None => Err(GatewayError::not_found(transaction_id)),
    }
}

/// The query of a request for the payments of a booking.
#[derive(Debug)]
pub struct ListQuery {
    pub booking_reference: Option<String>,
}

/// The body of the answer to a request for the payments of a booking.
pub open spec fn listing_body(
    booking_reference: Seq<char>,
    payments: Seq<PaymentView>,
) -> JsonView {
    JsonView::Object(
        seq![
            member("booking_reference"@, JsonView::Text(booking_reference)),
            member(
                "payments"@,
                JsonView::List(payments.map_values(|p: PaymentView| payment_body(p))),
            ),
        ],
    )
}

/// The answer to a request for the payments of a booking.
pub open spec fn listing(
    store: StoreView,
    booking_reference: Option<Seq<char>>,
) -> Result<ReplyView, ErrorView> {
    match booking_reference {
        None => Err(ErrorView::Invalid("booking_reference query parameter is required"@)),
        Some(reference) => Ok(fine(listing_body(reference, store.payments_of(reference)))),
    }
}

/// A request for the payments of a booking.
pub fn list_payments(store: &Store, query: &ListQuery) -> (r: Result<Reply, GatewayError>)
    requires
        store@.wf(),
    ensures
        outcome_view(r) == listing(store@, opt_view(query.booking_reference)),
{
    let reference = match &query.booking_reference {
        Some(reference) => reference,
        None => {
            return Err(GatewayError::invalid("booking_reference query parameter is required"));
        },
    };
    let payments = store.list_by_booking_reference(reference.as_str());
    let ghost found = payment_views(payments@);
    let mut items: Vec<Json> = Vec::new();
    let mut i: usize = 0;
    while i < payments.len()
        invariant
            i <= payments@.len(),
            found == payment_views(payments@),
            forall|k: int| 0 <= k < payments@.len() ==> (#[trigger] payments@[k])@.wf(),
            items_view(items@) == found.take(i as int).map_values(
                |p: PaymentView| payment_body(p),
            ),
        decreases payments@.len() - i,
    {
        let ghost so_far = items_view(items@);
        let item = payment_json(&payments[i]);
        items.push(item);
        assert(items_view(items@) =~= so_far.push(item@));
        assert(items_view(items@) =~= found.take(i + 1).map_values(
            |p: PaymentView| payment_body(p),
        ));
        i += 1;
    }
    assert(found.take(i as int) =~= found);
    let mut members: Vec<Member> = Vec::new();
    put(&mut members, "booking_reference", Json::text(reference.as_str()));
    put(&mut members, "payments", Json::list(items));
    let body = Json::object(members);
    assert(body@->Object_0 =~= listing_body(reference@, found)->Object_0);
    Ok(Reply { status: 200, idempotent_replay: false, body })
}

// ----------------------------------------------------------------------------------------
// POST /v1/payments/{id}/refund
// ----------------------------------------------------------------------------------------

/// The body of the answer to a refund.
pub open spec fn refund_body(refund_id: Seq<char>, transaction_id: Seq<char>) -> JsonView {
    JsonView::Object(
        seq![
            member("refund_id"@, JsonView::Text(refund_id)),
            member("transaction_id"@, JsonView::Text(transaction_id)),
            member("status"@, JsonView::Text("REFUNDED"@)),
        ],
    )
}

fn refund_json(refund_id: &str, transaction_id: &str) -> (j: Json)
    ensures
        j@ == refund_body(refund_id@, transaction_id@),
{
    let mut members: Vec<Member> = Vec::new();
    put(&mut members, "refund_id", Json::text(refund_id));
    put(&mut members, "transaction_id", Json::text(transaction_id));
    put(&mut members, "status", Json::text("REFUNDED"));
    let j = Json::object(members);
    assert(j@->Object_0 =~= refund_body(refund_id@, transaction_id@)->Object_0);
    j
}

/// The answer to a request for a refund, given what became of it.
pub open spec fn refund_answer(
    transaction_id: Seq<char>,
    result: RefundView,
) -> Result<ReplyView, ErrorView> {
    match result {
        RefundView::Refunded(refund_id) => Ok(fine(refund_body(refund_id, transaction_id))),
        RefundView::AlreadyRefunded(refund_id) => Ok(
            ReplyView { idempotent_replay: true, ..fine(refund_body(refund_id, transaction_id)) },
        ),
        RefundView::NotRefundable(status) => Err(
            ErrorView::Conflict("cannot refund a payment with status "@ + status),
        ),
        RefundView::NotFound => Err(ErrorView::NotFound(transaction_id)),
    }
}

/// Answers a request for a refund, given what became of it.
pub fn answer_refund(transaction_id: &str, result: RefundResult) -> (r: Result<
    Reply,
    GatewayError,
>)
    ensures
        outcome_view(r) == refund_answer(transaction_id@, result@),
{
    match result {
        RefundResult::Refunded(refund_id) => Ok(
            Reply {
                status: 200,
                idempotent_replay: false,
                body: refund_json(refund_id.as_str(), transaction_id),
            },
        ),
        RefundResult::AlreadyRefunded(refund_id) => Ok(
            Reply {
                status: 200,
                idempotent_replay: true,
                body: refund_json(refund_id.as_str(), transaction_id),
            },
        ),
        RefundResult::NotRefundable(status) => {
            let message = join("cannot refund a payment with status ", status.as_str());
            Err(GatewayError::conflict(message.as_str()))
        },
        RefundResult::NotFound => Err(GatewayError::not_found(transaction_id)),
    }
}

/// Whether a request for a refund leads to `after` and `answer`, where a new refund is given
/// this identifier.
pub open spec fn refunds_to(
    before: StoreView,
    transaction_id: Seq<char>,
    refund_id: Seq<char>,
    now: Timestamp,
    after: StoreView,
    answer: Result<ReplyView, ErrorView>,
) -> bool {
    let (next, result) = before.refunding(transaction_id, refund_id, now);
    after == next && answer == refund_answer(transaction_id, result)
}

/// A request for a refund.
pub fn refund_payment(store: &mut Store, transaction_id: &str, now: Timestamp) -> (r: Result<
    Reply,
    GatewayError,
>)
    requires
        old(store)@.wf(),
        now.wf(),
    ensures
        final(store)@.wf(),
        exists|refund_id: Seq<char>|
            {
                &&& id_with_prefix(refund_id, "rfnd_"@)
                &&& #[trigger] refunds_to(
                    old(store)@,
                    transaction_id@,
                    refund_id,
                    now,
                    final(store)@,
                    outcome_view(r),
                )
            },
{
    let ghost before = store@;
    let result = store.refund(transaction_id, now);
    let ghost became = result@;
    let r = answer_refund(transaction_id, result);
    proof {
        let refund_id = choose|refund_id: Seq<char>|
            {
                &&& id_with_prefix(refund_id, "rfnd_"@)
                &&& (store@, became) == #[trigger] before.refunding(
                    transaction_id@,
                    refund_id,
                    now,
                )
            };
        assert(refunds_to(before, transaction_id@, refund_id, now, store@, outcome_view(r)));
    }
    r
}

// ----------------------------------------------------------------------------------------
// Laws
// ----------------------------------------------------------------------------------------

/// Replaying an idempotency key never creates a second charge: a request under a key that has
/// a payment changes nothing, whatever else it asks for, and is answered with that payment's
/// `transaction_id` and real status.
pub proof fn replayed_key_changes_nothing(
    store: StoreView,
    request: RequestView,
    header: ForceHeader,
    plan: PlanView,
    transaction_id: Seq<char>,
    now: Timestamp,
)
    requires
        store.wf(),
        request_fault(request, url_parses(request.callback_url)) is None,
        request.idempotency_key is Some,
        store.has_key(request.idempotency_key->0),
    ensures
        ({
            let existing = store.payment_by_key(request.idempotency_key->0)->0;
            creation(store, request, header, plan, transaction_id, now) == (
                store,
                Ok::<ReplyView, ErrorView>(replay_of(existing)),
            )
        }),
{
}

/// Retrying a request under its idempotency key gives the first answer's payment back: the
/// second request changes nothing and names the same transaction.
pub proof fn retried_request_is_answered_alike(
    store: StoreView,
    request: RequestView,
    header: ForceHeader,
    plan: PlanView,
    transaction_id: Seq<char>,
    now: Timestamp,
    other_plan: PlanView,
    other_id: Seq<char>,
    later: Timestamp,
)
    requires
        store.wf(),
        request.idempotency_key is Some,
        creation(store, request, header, plan, transaction_id, now).1 matches Ok(reply)
            && !reply.idempotent_replay,
    ensures
        ({
            let (next, first) = creation(store, request, header, plan, transaction_id, now);
            creation(next, request, header, other_plan, other_id, later) == (
                next,
                Ok::<ReplyView, ErrorView>(ReplyView { idempotent_replay: true, ..first->Ok_0 }),
            )
        }),
{
    let (next, first) = creation(store, request, header, plan, transaction_id, now);
    let scenario = scenario_asked(header)->Ok_0;
    let row = accepted(
        transaction_id,
        request.idempotency_key,
        request.booking_reference,
        request.amount_minor,
        request.currency,
        request.callback_url,
        scenario.label(),
        plan,
        now,
    );
    key_is_charged_once(store, row, row);
    let key = request.idempotency_key->0;
    assert(next.key_at(key, store.payments.len() as int));
}

/// The transaction that an answer to a request for a payment names.
pub open spec fn transaction_named(reply: ReplyView) -> JsonView {
    reply.body->Object_0[0].value
}

/// Two requests under one idempotency key lead to one charge, however their bodies differ and
/// whatever happens in between: both are accepted, they name the same transaction, the second
/// is a replay that changes nothing, and there is one payment under the key. It makes no
/// difference whether the second request looks for the key after the first has claimed it, or
/// has looked before and only then finds the key taken.
pub proof fn two_requests_one_charge(
    store: StoreView,
    first: RequestView,
    first_header: ForceHeader,
    plan: PlanView,
    transaction_id: Seq<char>,
    now: Timestamp,
    stores: Seq<StoreView>,
    second: RequestView,
    second_header: ForceHeader,
    other_plan: PlanView,
    other_id: Seq<char>,
    later: Timestamp,
)
    requires
        store.wf(),
        request_fault(first, url_parses(first.callback_url)) is None,
        request_fault(second, url_parses(second.callback_url)) is None,
        scenario_asked(first_header) is Ok,
        scenario_asked(second_header) is Ok,
        first.idempotency_key is Some,
        second.idempotency_key == first.idempotency_key,
        !store.has_payment(transaction_id),
        history(stores),
        stores.len() > 0,
        stores[0] == creation(store, first, first_header, plan, transaction_id, now).0,
    ensures
        ({
            let key = first.idempotency_key->0;
            let end = stores.last();
            let one = creation(store, first, first_header, plan, transaction_id, now).1;
            let two = creation(end, second, second_header, other_plan, other_id, later);
            let scenario = scenario_asked(second_header)->Ok_0;
            let overlapping = acceptance(end, second, scenario, other_plan, other_id, later);
            &&& one matches Ok(a) && a.status == 202
            &&& two.1 matches Ok(b) && b.status == 202 && b.idempotent_replay
            &&& transaction_named(one->Ok_0) == transaction_named(two.1->Ok_0)
            &&& two.0 == end
            &&& overlapping == two
            &&& end.has_key(key)
            &&& forall|a: int, b: int| end.key_at(key, a) && end.key_at(key, b) ==> a == b
        }),
{
    let key = first.idempotency_key->0;
    lemma_first_request(store, first, first_header, plan, transaction_id, now);
    key_leads_to_one_payment_forever(stores, key);
    lemma_taken_key(stores.last(), second, second_header, other_plan, other_id, later);
}

proof fn lemma_first_request(
    store: StoreView,
    request: RequestView,
    header: ForceHeader,
    plan: PlanView,
    transaction_id: Seq<char>,
    now: Timestamp,
)
    requires
        store.wf(),
        request_fault(request, url_parses(request.callback_url)) is None,
        scenario_asked(header) is Ok,
        request.idempotency_key is Some,
        !store.has_payment(transaction_id),
    ensures
        ({
            let (next, answer) = creation(store, request, header, plan, transaction_id, now);
            let key = request.idempotency_key->0;
            &&& next.has_key(key)
            &&& answer matches Ok(reply) && reply.status == 202 && transaction_named(reply)
                == JsonView::Text(next.payment_by_key(key)->0.transaction_id)
        }),
{
    let key = request.idempotency_key->0;
    let (next, answer) = creation(store, request, header, plan, transaction_id, now);
    if !store.has_key(key) {
        let row = accepted(
            transaction_id,
            request.idempotency_key,
            request.booking_reference,
            request.amount_minor,
            request.currency,
            request.callback_url,
            scenario_asked(header)->Ok_0.label(),
            plan,
            now,
        );
        key_is_charged_once(store, row, row);
        assert(next.key_at(key, store.payments.len() as int));
    }
}

proof fn lemma_taken_key(
    store: StoreView,
    request: RequestView,
    header: ForceHeader,
    plan: PlanView,
    transaction_id: Seq<char>,
    now: Timestamp,
)
    requires
        request_fault(request, url_parses(request.callback_url)) is None,
        scenario_asked(header) is Ok,
        request.idempotency_key is Some,
        store.has_key(request.idempotency_key->0),
    ensures
        ({
            let reply = replay_of(store.payment_by_key(request.idempotency_key->0)->0);
            let scenario = scenario_asked(header)->Ok_0;
            &&& creation(store, request, header, plan, transaction_id, now) == (store, Ok::<
                ReplyView,
                ErrorView,
            >(reply))
            &&& acceptance(store, request, scenario, plan, transaction_id, now) == (store, Ok::<
                ReplyView,
                ErrorView,
            >(reply))
            &&& reply.status == 202 && reply.idempotent_replay
            &&& transaction_named(reply) == JsonView::Text(
                store.payment_by_key(request.idempotency_key->0)->0.transaction_id,
            )
        }),
{
}

/// A request that is refused changes nothing.
pub proof fn refused_request_changes_nothing(
    store: StoreView,
    request: RequestView,
    header: ForceHeader,
    plan: PlanView,
    transaction_id: Seq<char>,
    now: Timestamp,
)
    requires
        creation(store, request, header, plan, transaction_id, now).1 is Err,
    ensures
        creation(store, request, header, plan, transaction_id, now).0 == store,
{
}

/// A payment that was accepted can be polled at once: it is reported as PENDING, under the
/// `transaction_id` that was answered.
pub proof fn accepted_payment_can_be_polled(
    store: StoreView,
    request: RequestView,
    header: ForceHeader,
    plan: PlanView,
    transaction_id: Seq<char>,
    now: Timestamp,
)
    requires
        store.wf(),
        creation(store, request, header, plan, transaction_id, now).1 matches Ok(reply)
            && !reply.idempotent_replay,
    ensures
        ({
            let next = creation(store, request, header, plan, transaction_id, now).0;
            let payment = next.payment(transaction_id)->0;
            &&& lookup(next, transaction_id) == Ok::<ReplyView, ErrorView>(
                fine(payment_body(payment)),
            )
            &&& payment.status == "PENDING"@
            &&& payment.booking_reference == request.booking_reference
            &&& payment.amount_minor == request.amount_minor
            &&& payment.currency == request.currency
            &&& payment.webhook_attempts == 0
        }),
{
    let scenario = scenario_asked(header)->Ok_0;
    let row = accepted(
        transaction_id,
        request.idempotency_key,
        request.booking_reference,
        request.amount_minor,
        request.currency,
        request.callback_url,
        scenario.label(),
        plan,
        now,
    );
    let other = transaction_id.push('x');
    assert(other.len() != transaction_id.len());
    accepted_payment_reads_back(store, row, other);
}

/// Every refusal is answered with a status of 400 or more, and with a body that says why.
pub proof fn refusals_are_no_success(e: ErrorView)
    ensures
        400 <= e.reply().status < 600,
        e.reply().body == error_body(e.code(), e.said()),
        !e.reply().idempotent_replay,
{
}

} // verus!
