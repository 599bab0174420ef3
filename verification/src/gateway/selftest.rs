//! `payment-gateway self-test` — checks the gateway itself, not a service that uses it.
//!
//! With a real gateway and a throwaway receiver running, it asserts the three behaviours that
//! everything else depends on:
//!
//!   1. A webhook rejected with 500 is retried until it is accepted.
//!   2. The `duplicate` scenario delivers the same `event_id` twice.
//!   3. The `lost` scenario never delivers, yet the payment still reaches a terminal status
//!      that polling can discover.

use vstd::prelude::*;

use crate::text::{
    chars_of, copy_opt, decimal, join, join3, opt_view, same, same_opt,
    signed_decimal, text_between, texts, to_decimal, to_signed_decimal,
};

verus! {

/// How many deliveries the receiver rejects before it starts accepting.
pub const REJECTIONS: u64 = 3;

/// What the receiver saw of a webhook, so that the checks have something to look at.
#[derive(Debug)]
pub struct ReceivedEvent {
    pub transaction_id: Option<String>,
    pub event_id: Option<String>,
    /// The `event_id` as it was written in the body, whatever it is.
    pub event_text: String,
    pub signature: Option<String>,
    /// When the request came in, in milliseconds.
    pub entered_ms: u64,
    /// When the request was answered, in milliseconds.
    pub exited_ms: u64,
}

/// What was found: lines for the reader, and what went wrong.
#[derive(Debug)]
pub struct Findings {
    pub notes: Vec<String>,
    pub failures: Vec<String>,
}

/// What findings say.
#[verifier::ext_equal]
pub struct FindingsView {
    pub notes: Seq<Seq<char>>,
    pub failures: Seq<Seq<char>>,
}

impl View for Findings {
    type V = FindingsView;

    open spec fn view(&self) -> FindingsView {
        FindingsView { notes: texts(self.notes@), failures: texts(self.failures@) }
    }
}

/// Findings of nothing.
pub open spec fn nothing_found() -> FindingsView {
    FindingsView { notes: Seq::empty(), failures: Seq::empty() }
}

impl FindingsView {
    /// These findings and one more line for the reader.
    pub open spec fn noted(self, line: Seq<char>) -> FindingsView {
        FindingsView { notes: self.notes.push(line), ..self }
    }

    /// These findings and one more thing that went wrong.
    pub open spec fn faulted(self, failure: Seq<char>) -> FindingsView {
        FindingsView { failures: self.failures.push(failure), ..self }
    }
}

impl Findings {
    fn none() -> (f: Findings)
        ensures
            f@ == nothing_found(),
    {
        let f = Findings { notes: Vec::new(), failures: Vec::new() };
        assert(f@ =~= nothing_found());
        f
    }

    fn note(&mut self, line: String)
        ensures
            final(self)@ == old(self)@.noted(line@),
    {
        self.notes.push(line);
        assert(self@ =~= old(self)@.noted(line@));
    }

    fn fail(&mut self, failure: String)
        ensures
            final(self)@ == old(self)@.faulted(failure@),
    {
        self.failures.push(failure);
        assert(self@ =~= old(self)@.faulted(failure@));
    }
}

// ----------------------------------------------------------------------------------------
// The receiver
// ----------------------------------------------------------------------------------------

/// Claims one of the rejections that are left: how many were left before. `None` once they
/// are used up.
pub fn claim_rejection(budget: &mut u64) -> (claimed: Option<u64>)
    ensures
        *old(budget) > 0 ==> claimed == Some(*old(budget)) && *final(budget) == *old(budget) - 1,
        *old(budget) == 0 ==> claimed is None && *final(budget) == 0,
{
    let left = *budget;
    if left > 0 {
        *budget = left - 1;
        Some(left)
    } else {
        None
    }
}

/// What is printed when the receiver rejects a webhook.
pub fn rejection_line(remaining: u64) -> (s: String)
    ensures
        s@ == "      receiver: rejecting with 500 ("@ + decimal(remaining as nat)
            + " rejections left)"@,
{
    join3(
        "      receiver: rejecting with 500 (",
        to_decimal(remaining).as_str(),
        " rejections left)",
    )
}

/// The signature that is noted of a webhook: what its header holds, or nothing where there is
/// no such header. A body that is no object has none.
pub open spec fn signature_noted(is_object: bool, header: Option<Seq<char>>) -> Option<Seq<char>> {
    if is_object {
        Some(
            match header {
                Some(s) => s,
                None => ""@,
            },
        )
    } else {
        None
    }
}

/// The signature that is noted of a webhook.
pub fn note_signature(is_object: bool, header: Option<String>) -> (r: Option<String>)
    ensures
        opt_view(r) == signature_noted(is_object, opt_view(header)),
{
    if is_object {
        match header {
            Some(s) => Some(s),
            None => Some("".to_owned()),
        }
    } else {
        None
    }
}

/// What the receiver holds once it has recorded a webhook. One that could not be read leaves
/// no trace.
pub open spec fn recorded(
    events: Seq<ReceivedEvent>,
    read: Option<ReceivedEvent>,
) -> Seq<ReceivedEvent> {
    match read {
        Some(event) => events.push(event),
        None => events,
    }
}

/// Records a webhook that was accepted. Returns the status code that it is answered with.
pub fn record_event(events: &mut Vec<ReceivedEvent>, read: Option<ReceivedEvent>) -> (status: u16)
    ensures
        final(events)@ == recorded(old(events)@, read),
        status == 200,
{
    if let Some(event) = read {
        events.push(event);
    }
    200
}

/// A webhook at the receiver, from beginning to end: it is rejected while there are rejections
/// left, and recorded after that. Returns the status code that it is answered with.
pub fn receive(
    budget: &mut u64,
    events: &mut Vec<ReceivedEvent>,
    read: Option<ReceivedEvent>,
) -> (status: u16)
    ensures
        *old(budget) > 0 ==> status == 500 && *final(budget) == *old(budget) - 1 && final(events)@
            == old(events)@,
        *old(budget) == 0 ==> status == 200 && *final(budget) == 0 && final(events)@ == recorded(
            old(events)@,
            read,
        ),
{
    if claim_rejection(budget).is_some() {
        return 500;
    }
    record_event(events, read)
}

/// The receiver: how many rejections are left, and what it has recorded.
#[verifier::ext_equal]
pub struct ReceiverView {
    pub budget: int,
    pub events: Seq<ReceivedEvent>,
}

/// A webhook at the receiver: what it holds then, and the status code that is answered.
pub open spec fn received(r: ReceiverView, read: Option<ReceivedEvent>) -> (ReceiverView, int) {
    if r.budget > 0 {
        (ReceiverView { budget: r.budget - 1, ..r }, 500)
    } else {
        (ReceiverView { events: recorded(r.events, read), ..r }, 200)
    }
}

/// One webhook after another at the receiver: what it holds then, and the status codes.
pub open spec fn received_all(r: ReceiverView, reads: Seq<Option<ReceivedEvent>>) -> (
    ReceiverView,
    Seq<int>,
)
    decreases reads.len(),
{
    if reads.len() == 0 {
        (r, Seq::empty())
    } else {
        let (before, statuses) = received_all(r, reads.drop_last());
        let (after, status) = received(before, reads.last());
        (after, statuses.push(status))
    }
}

/// What is recorded of webhooks that are accepted, in the order in which they are recorded.
pub open spec fn recorded_all(
    events: Seq<ReceivedEvent>,
    reads: Seq<Option<ReceivedEvent>>,
) -> Seq<ReceivedEvent>
    decreases reads.len(),
{
    if reads.len() == 0 {
        events
    } else {
        recorded(recorded_all(events, reads.drop_last()), reads.last())
    }
}

/// The smaller of two numbers.
pub open spec fn fewer(a: int, b: int) -> int {
    if a <= b {
        a
    } else {
        b
    }
}

/// Of any number of webhooks the receiver rejects as many as it has rejections, the first
/// ones, and records nothing of them. It accepts the others, and records one event for each
/// of them that could be read.
pub proof fn receiver_rejects_the_first_ones(r: ReceiverView, reads: Seq<Option<ReceivedEvent>>)
    requires
        0 <= r.budget,
    ensures
        ({
            let k = reads.len() as int;
            let rejected = fewer(r.budget, k);
            let (after, statuses) = received_all(r, reads);
            &&& statuses.len() == k
            &&& forall|i: int| 0 <= i < k ==> #[trigger] statuses[i] == if i < rejected {
                500int
            } else {
                200
            }
            &&& after.budget == r.budget - rejected
            &&& after.events == recorded_all(r.events, reads.skip(rejected))
        }),
    decreases reads.len(),
{
    let k = reads.len() as int;
    let rejected = fewer(r.budget, k);
    if k == 0 {
        assert(reads.skip(rejected) =~= reads);
    } else {
        let earlier = reads.drop_last();
        receiver_rejects_the_first_ones(r, earlier);
        if r.budget >= k {
            assert(reads.skip(rejected) =~= Seq::empty());
            assert(earlier.skip(fewer(r.budget, k - 1)) =~= Seq::empty());
        } else {
            assert(reads.skip(rejected).drop_last() =~= earlier.skip(rejected));
            assert(reads.skip(rejected).last() == reads.last());
        }
    }
}

/// How many events are added for webhooks that are accepted, in whatever order they are
/// recorded: one for each that could be read.
pub proof fn one_event_per_webhook(
    events: Seq<ReceivedEvent>,
    reads: Seq<Option<ReceivedEvent>>,
)
    ensures
        recorded_all(events, reads) == events + reads.filter(
            |read: Option<ReceivedEvent>| read is Some,
        ).map_values(|read: Option<ReceivedEvent>| read->0),
    decreases reads.len(),
{
    reveal(Seq::filter);
    let is_read = |read: Option<ReceivedEvent>| read is Some;
    let take = |read: Option<ReceivedEvent>| read->0;
    if reads.len() == 0 {
        assert(events + reads.filter(is_read).map_values(take) =~= events);
    } else {
        one_event_per_webhook(events, reads.drop_last());
        let before = reads.drop_last().filter(is_read);
        assert(reads.filter(is_read) == if is_read(reads.last()) {
            before.push(reads.last())
        } else {
            before
        });
        assert(recorded_all(events, reads) =~= events + reads.filter(is_read).map_values(take));
    }
}

/// Claiming a rejection and recording an event do not get in each other's way: a webhook that
/// is held open between the two, while others come and go, ends the same.
pub proof fn claims_and_records_commute(
    r: ReceiverView,
    read: Option<ReceivedEvent>,
    other: Option<ReceivedEvent>,
)
    requires
        0 < r.budget,
    ensures
        received(ReceiverView { events: recorded(r.events, read), ..r }, other).0 == (
        ReceiverView { events: recorded(received(r, other).0.events, read), ..received(r, other).0 }),
{
}

/// Whether the receiver saw a webhook about this transaction.
pub open spec fn about(event: ReceivedEvent, transaction_id: Seq<char>) -> bool {
    opt_view(event.transaction_id) == Some(transaction_id)
}

/// What the receiver saw of this transaction, in the order in which it was seen.
pub open spec fn seen(
    events: Seq<ReceivedEvent>,
    transaction_id: Seq<char>,
) -> Seq<ReceivedEvent> {
    events.filter(|e: ReceivedEvent| about(e, transaction_id))
}

fn positions_about(events: &Vec<ReceivedEvent>, transaction_id: &str) -> (v: Vec<usize>)
    ensures
        v@.len() == seen(events@, transaction_id@).len(),
        forall|i: int|
            0 <= i < v@.len() ==> v@[i] < events@.len() && events@[#[trigger] v@[i] as int] == seen(
                events@,
                transaction_id@,
            )[i],
{
    let mut v: Vec<usize> = Vec::new();
    let mut i: usize = 0;
    let ghost wanted = |e: ReceivedEvent| about(e, transaction_id@);
    proof {
        reveal_with_fuel(Seq::filter, 1);
        assert(events@.take(0) =~= Seq::empty());
        assert(seen(events@.take(0), transaction_id@) =~= Seq::empty());
    }
    while i < events.len()
        invariant
            i <= events@.len(),
            v@.len() == seen(events@.take(i as int), transaction_id@).len(),
            forall|k: int|
                0 <= k < v@.len() ==> v@[k] < events@.len() && events@[#[trigger] v@[k] as int]
                    == seen(events@.take(i as int), transaction_id@)[k],
        decreases events@.len() - i,
    {
        let ghost head = events@.take(i + 1);
        proof {
            assert(head.drop_last() =~= events@.take(i as int));
            assert(head.last() == events@[i as int]);
            reveal(Seq::filter);
        }
        if same_opt(&events[i].transaction_id, Some(transaction_id)) {
            v.push(i);
        }
        i += 1;
    }
    assert(events@.take(i as int) =~= events@);
    v
}

/// Whether the receiver saw a webhook about this transaction.
pub fn has_arrived(events: &Vec<ReceivedEvent>, transaction_id: &str) -> (r: bool)
    ensures
        r == (seen(events@, transaction_id@).len() > 0),
{
    positions_about(events, transaction_id).len() > 0
}

/// The signature of the first webhook that the receiver saw about this transaction.
pub fn signature_of(events: &Vec<ReceivedEvent>, transaction_id: &str) -> (r: Option<String>)
    ensures
        opt_view(r) == (if seen(events@, transaction_id@).len() > 0 {
            opt_view(seen(events@, transaction_id@)[0].signature)
        } else {
            None
        }),
{
    let mine = positions_about(events, transaction_id);
    if mine.len() > 0 {
        copy_opt(&events[mine[0]].signature)
    } else {
        None
    }
}

/// Whether the receiver saw two webhooks about this transaction that were of one event.
pub open spec fn twice(events: Seq<ReceivedEvent>, transaction_id: Seq<char>) -> bool {
    let mine = seen(events, transaction_id);
    mine.len() >= 2 && mine[0].event_text@ == mine[1].event_text@
}

/// Whether the receiver saw two webhooks about this transaction that were of one event.
pub fn is_delivered_twice(events: &Vec<ReceivedEvent>, transaction_id: &str) -> (r: bool)
    ensures
        r == twice(events@, transaction_id@),
{
    let mine = positions_about(events, transaction_id);
    mine.len() >= 2 && same(
        events[mine[0]].event_text.as_str(),
        events[mine[1]].event_text.as_str(),
    )
}

// ----------------------------------------------------------------------------------------
// Retry until acknowledged
// ----------------------------------------------------------------------------------------

/// What polling said of a payment.
#[derive(Debug)]
pub struct PolledPayment {
    pub webhook_attempts: i64,
    pub webhook_acknowledged: bool,
    pub status: Option<String>,
    /// The status as it was written in the answer.
    pub status_text: String,
}

/// Whether a signature has the right shape.
pub open spec fn well_signed(signature: Seq<char>) -> bool {
    &&& signature.len() >= 7
    &&& signature.take(7) == "sha256="@
    &&& vstd::utf8::encode_utf8(signature).len() == 7 + 64
}

/// The first characters of a text.
pub open spec fn beginning(s: Seq<char>, n: int) -> Seq<char> {
    if s.len() <= n {
        s
    } else {
        s.take(n)
    }
}

fn begin(s: &str, n: usize) -> (r: String)
    ensures
        r@ == beginning(s@, n as int),
{
    let v = chars_of(s);
    if v.len() <= n {
        s.to_owned()
    } else {
        let r = text_between(&v, 0, n);
        assert(v@.subrange(0, n as int) =~= v@.take(n as int));
        r
    }
}

/// Whether a signature has the right shape.
pub fn is_well_signed(signature: &str) -> (r: bool)
    ensures
        r == well_signed(signature@),
{
    proof {
        reveal_strlit("sha256=");
    }
    assert(signature@.len() == 7 ==> signature@.take(7) =~= signature@);
    let head = begin(signature, 7);
    same(head.as_str(), "sha256=") && signature.as_bytes().len() == 7 + 64
}

/// What is found of the attempts that were counted: three rejections and the accepted one
/// make four.
pub open spec fn attempts_found(f: FindingsView, attempts: int) -> FindingsView {
    if attempts < 4 {
        f.faulted("expected at least 4 attempts, saw "@ + signed_decimal(attempts))
    } else {
        f.noted("      ok — acknowledged after "@ + signed_decimal(attempts) + " attempts"@)
    }
}

/// What is found of the acknowledgement that is reported.
pub open spec fn acknowledgement_found(f: FindingsView, acknowledged: bool) -> FindingsView {
    if acknowledged {
        f
    } else {
        f.faulted("payment does not report the webhook as acknowledged"@)
    }
}

/// What is found of the status that is reported.
pub open spec fn status_found(
    f: FindingsView,
    status: Option<Seq<char>>,
    status_text: Seq<char>,
) -> FindingsView {
    if status == Some("SUCCESS"@) {
        f
    } else {
        f.faulted("expected SUCCESS, got "@ + status_text)
    }
}

/// What is found of the signature.
pub open spec fn signature_found(f: FindingsView, signature: Option<Seq<char>>) -> FindingsView {
    match signature {
        None => f.faulted("webhook arrived without a signature"@),
        Some(s) => if well_signed(s) {
            f.noted("      ok — signed with "@ + beginning(s, 16))
        } else {
            f.faulted("malformed X-Payment-Signature: "@ + s)
        },
    }
}

/// What is found of a webhook that was rejected and retried. There is no payment to look at
/// where it never arrived.
pub open spec fn retry_found(
    payment: Option<PolledPayment>,
    signature: Option<Seq<char>>,
) -> FindingsView {
    match payment {
        None => nothing_found().faulted("webhook was never acknowledged after retries"@),
        Some(p) => signature_found(
            status_found(
                acknowledgement_found(
                    attempts_found(nothing_found(), p.webhook_attempts as int),
                    p.webhook_acknowledged,
                ),
                opt_view(p.status),
                p.status_text@,
            ),
            signature,
        ),
    }
}

/// Checks a webhook that was rejected and retried, given what polling says of the payment
/// once the webhook has arrived, or nothing where it has not.
pub fn check_retry(payment: Option<PolledPayment>, signature: Option<String>) -> (f: Findings)
    ensures
        f@ == retry_found(payment, opt_view(signature)),
{
    let mut f = Findings::none();
    let p = match payment {
        None => {
            f.fail("webhook was never acknowledged after retries".to_owned());
            return f;
        },
        Some(p) => p,
    };
    let attempts = to_signed_decimal(p.webhook_attempts);
    if p.webhook_attempts < 4 {
        f.fail(join("expected at least 4 attempts, saw ", attempts.as_str()));
    } else {
        f.note(join3("      ok — acknowledged after ", attempts.as_str(), " attempts"));
    }
    if !p.webhook_acknowledged {
        f.fail("payment does not report the webhook as acknowledged".to_owned());
    }
    if !same_opt(&p.status, Some("SUCCESS")) {
        f.fail(join("expected SUCCESS, got ", p.status_text.as_str()));
    }
    match signature {
        Some(s) => {
            if is_well_signed(s.as_str()) {
                let start = begin(s.as_str(), 16);
                f.note(join("      ok — signed with ", start.as_str()));
            } else {
                f.fail(join("malformed X-Payment-Signature: ", s.as_str()));
            }
        },
        None => {
            f.fail("webhook arrived without a signature".to_owned());
        },
    }
    f
}

// ----------------------------------------------------------------------------------------
// Duplicate delivery
// ----------------------------------------------------------------------------------------

/// The later of two instants.
pub open spec fn later(a: u64, b: u64) -> int {
    if a >= b {
        a as int
    } else {
        b as int
    }
}

/// The earlier of two instants.
pub open spec fn earlier(a: u64, b: u64) -> int {
    if a <= b {
        a as int
    } else {
        b as int
    }
}

/// What is found of a webhook that should have been delivered twice.
///
/// The two must be in flight together, not politely spaced out: sequential delivery is what
/// lets a naive dedup pass.
pub open spec fn duplicate_found(
    events: Seq<ReceivedEvent>,
    transaction_id: Seq<char>,
) -> FindingsView {
    let mine = seen(events, transaction_id);
    if !twice(events, transaction_id) {
        nothing_found().faulted("duplicate scenario did not redeliver the same event_id"@)
    } else {
        let entry = later(mine[0].entered_ms, mine[1].entered_ms);
        let exit = earlier(mine[0].exited_ms, mine[1].exited_ms);
        let name = match opt_view(mine[0].event_id) {
            Some(id) => id,
            None => "?"@,
        };
        let f = nothing_found().noted(
            "      ok — event "@ + name + " delivered "@ + decimal(mine.len()) + " times"@,
        );
        if entry < exit {
            f.noted(
                "      ok — the two deliveries overlapped in time by "@ + decimal(
                    (exit - entry) as nat,
                ) + "ms"@,
            )
        } else {
            f.faulted(
                "duplicate deliveries did not overlap — "@ + decimal((entry - exit) as nat)
                    + "ms apart, so a naive read-then-write dedup would still pass"@,
            )
        }
    }
}

/// Checks a webhook that should have been delivered twice.
pub fn check_duplicate(events: &Vec<ReceivedEvent>, transaction_id: &str) -> (f: Findings)
    ensures
        f@ == duplicate_found(events@, transaction_id@),
{
    let mut f = Findings::none();
    if !is_delivered_twice(events, transaction_id) {
        f.fail("duplicate scenario did not redeliver the same event_id".to_owned());
        return f;
    }
    let mine = positions_about(events, transaction_id);
    let a = &events[mine[0]];
    let b = &events[mine[1]];
    let entry: u64 = if a.entered_ms >= b.entered_ms {
        a.entered_ms
    } else {
        b.entered_ms
    };
    let exit: u64 = if a.exited_ms <= b.exited_ms {
        a.exited_ms
    } else {
        b.exited_ms
    };
    let name = match &a.event_id {
        Some(id) => id.clone(),
        None => "?".to_owned(),
    };
    let head = join3("      ok — event ", name.as_str(), " delivered ");
    f.note(join3(head.as_str(), to_decimal(mine.len() as u64).as_str(), " times"));
    if entry < exit {
        f.note(
            join3(
                "      ok — the two deliveries overlapped in time by ",
                to_decimal(exit - entry).as_str(),
                "ms",
            ),
        );
    } else {
        f.fail(
            join3(
                "duplicate deliveries did not overlap — ",
                to_decimal(entry - exit).as_str(),
                "ms apart, so a naive read-then-write dedup would still pass",
            ),
        );
    }
    f
}

// ----------------------------------------------------------------------------------------
// Lost webhook
// ----------------------------------------------------------------------------------------

/// What is found of a webhook that should never have been delivered.
pub open spec fn lost_found(
    arrived: bool,
    status: Option<Seq<char>>,
    status_text: Seq<char>,
) -> FindingsView {
    if arrived {
        nothing_found().faulted(
            "lost scenario delivered a webhook it should have suppressed"@,
        )
    } else if status != Some("SUCCESS"@) {
        nothing_found().faulted(
            "lost payment should still reach a terminal status, got "@ + status_text,
        )
    } else {
        nothing_found().noted("      ok — never delivered, but polling reports SUCCESS"@)
    }
}

/// Checks a webhook that should never have been delivered, given what polling says of the
/// payment.
pub fn check_lost(
    events: &Vec<ReceivedEvent>,
    transaction_id: &str,
    payment: &PolledPayment,
) -> (f: Findings)
    ensures
        f@ == lost_found(
            seen(events@, transaction_id@).len() > 0,
            opt_view(payment.status),
            payment.status_text@,
        ),
{
    let mut f = Findings::none();
    if has_arrived(events, transaction_id) {
        f.fail("lost scenario delivered a webhook it should have suppressed".to_owned());
    } else if !same_opt(&payment.status, Some("SUCCESS")) {
        f.fail(
            join(
                "lost payment should still reach a terminal status, got ",
                payment.status_text.as_str(),
            ),
        );
    } else {
        f.note("      ok — never delivered, but polling reports SUCCESS".to_owned());
    }
    f
}

// ----------------------------------------------------------------------------------------
// Waiting
// ----------------------------------------------------------------------------------------

/// How long to sleep between two looks, in milliseconds.
pub const POLL_MS: u64 = 50;

/// What to do next while waiting for something to become true.
#[derive(Debug, Clone, Copy, PartialEq, Eq, Structural)]
pub enum Wait {
    /// It is true, or the time is up: stop, and say whether it is true.
    Stop(bool),
    /// Look again after this many milliseconds.
    Sleep(u64),
}

/// What to do next, given how long it has been and whether the thing awaited is true.
pub fn wait_step(elapsed_ms: u64, timeout_ms: u64, held: bool) -> (next: Wait)
    ensures
        held ==> next == Wait::Stop(true),
        !held && elapsed_ms < timeout_ms ==> next == Wait::Sleep(POLL_MS),
        !held && elapsed_ms >= timeout_ms ==> next == Wait::Stop(false),
{
    if held {
        Wait::Stop(true)
    } else if elapsed_ms < timeout_ms {
        Wait::Sleep(POLL_MS)
    } else {
        Wait::Stop(false)
    }
}

// ----------------------------------------------------------------------------------------
// The end
// ----------------------------------------------------------------------------------------

/// Whether the self-test passed, given how many checks failed.
pub fn verdict(failures: &Vec<String>) -> (r: Result<(), String>)
    ensures
        r is Ok <==> failures@.len() == 0,
        r matches Err(message) ==> message@ == decimal(failures@.len()) + " check(s) failed"@,
{
    if failures.len() == 0 {
        Ok(())
    } else {
        Err(join(to_decimal(failures.len() as u64).as_str(), " check(s) failed"))
    }
}

// ----------------------------------------------------------------------------------------
// Laws of the checks
// ----------------------------------------------------------------------------------------

/// What the receiver saw of a transaction is all that it saw with the transaction's identifier,
/// and nothing else.
pub proof fn seen_is_what_was_about(events: Seq<ReceivedEvent>, transaction_id: Seq<char>)
    ensures
        forall|i: int|
            0 <= i < events.len() && opt_view((#[trigger] events[i]).transaction_id) == Some(
                transaction_id,
            ) ==> seen(events, transaction_id).contains(events[i]),
        forall|k: int|
            0 <= k < seen(events, transaction_id).len() ==> {
                let event = #[trigger] seen(events, transaction_id)[k];
                events.contains(event) && opt_view(event.transaction_id) == Some(transaction_id)
            },
    decreases events.len(),
{
    reveal(Seq::filter);
    if events.len() > 0 {
        let fewer = events.drop_last();
        seen_is_what_was_about(fewer, transaction_id);
        let before = seen(fewer, transaction_id);
        let mine = seen(events, transaction_id);
        assert(mine == if about(events.last(), transaction_id) {
            before.push(events.last())
        } else {
            before
        });
        assert forall|i: int|
            0 <= i < events.len() && opt_view((#[trigger] events[i]).transaction_id) == Some(
                transaction_id,
            ) implies mine.contains(events[i]) by {
            if i < fewer.len() {
                assert(fewer[i] == events[i]);
                assert(before.contains(fewer[i]));
                let k = choose|k: int| 0 <= k < before.len() && before[k] == fewer[i];
                assert(mine[k] == before[k]);
            } else {
                assert(mine[before.len() as int] == events[i]);
            }
        }
        assert forall|k: int| 0 <= k < mine.len() implies ({
            let event = #[trigger] mine[k];
            events.contains(event) && opt_view(event.transaction_id) == Some(transaction_id)
        }) by {
            if k < before.len() {
                assert(mine[k] == before[k]);
                assert(fewer.contains(before[k]));
                let i = choose|i: int| 0 <= i < fewer.len() && fewer[i] == before[k];
                assert(events[i] == before[k]);
            } else {
                assert(mine[k] == events[events.len() - 1]);
            }
        }
    }
}

/// A webhook that was rejected and retried passes if and only if it arrived, took four attempts
/// or more, is reported as acknowledged and as a success, and came with a signature of the right
/// shape: `sha256=` and 64 bytes more.
pub proof fn retry_passes_when_acknowledged(
    payment: Option<PolledPayment>,
    signature: Option<Seq<char>>,
)
    ensures
        retry_found(payment, signature).failures.len() == 0 <==> {
            &&& payment matches Some(p) && p.webhook_attempts >= 4 && p.webhook_acknowledged
                && opt_view(p.status) == Some("SUCCESS"@)
            &&& signature matches Some(s) && s.len() >= 7 && s.take(7) == "sha256="@
                && vstd::utf8::encode_utf8(s).len() == 71
        },
{
}

/// A webhook that should be delivered twice passes if and only if the receiver saw two of it, of
/// one event, that were in flight together.
pub proof fn duplicate_passes_when_overlapping(
    events: Seq<ReceivedEvent>,
    transaction_id: Seq<char>,
)
    ensures
        ({
            let mine = seen(events, transaction_id);
            duplicate_found(events, transaction_id).failures.len() == 0 <==> {
                &&& mine.len() >= 2
                &&& mine[0].event_text@ == mine[1].event_text@
                &&& mine[0].entered_ms < mine[0].exited_ms
                &&& mine[0].entered_ms < mine[1].exited_ms
                &&& mine[1].entered_ms < mine[0].exited_ms
                &&& mine[1].entered_ms < mine[1].exited_ms
            }
        }),
{
}

/// A webhook that should be lost passes if and only if the receiver never saw it and polling
/// reports a success all the same.
pub proof fn lost_passes_when_never_seen(
    arrived: bool,
    status: Option<Seq<char>>,
    status_text: Seq<char>,
)
    ensures
        lost_found(arrived, status, status_text).failures.len() == 0 <==> !arrived && status
            == Some("SUCCESS"@),
{
}

/// Each thing that is wrong with a webhook that was rejected and retried is told once, and
/// nothing else; one that never arrived is told alone.
pub proof fn retry_tells_each_fault(payment: PolledPayment, signature: Option<Seq<char>>)
    ensures
        retry_found(None, signature).failures == seq![
            "webhook was never acknowledged after retries"@,
        ],
        ({
            let failures = retry_found(Some(payment), signature).failures;
            let few: int = if payment.webhook_attempts < 4 {
                1
            } else {
                0
            };
            let silent: int = if payment.webhook_acknowledged {
                0
            } else {
                1
            };
            let other: int = if opt_view(payment.status) == Some("SUCCESS"@) {
                0
            } else {
                1
            };
            &&& failures.len() == few + silent + other + if signature is Some && well_signed(
                signature->0,
            ) {
                0int
            } else {
                1
            }
            &&& few == 1 ==> failures[0] == "expected at least 4 attempts, saw "@ + signed_decimal(
                payment.webhook_attempts as int,
            )
            &&& silent == 1 ==> failures[few]
                == "payment does not report the webhook as acknowledged"@
            &&& other == 1 ==> failures[few + silent] == "expected SUCCESS, got "@
                + payment.status_text@
            &&& signature is None ==> failures.last() == "webhook arrived without a signature"@
            &&& signature matches Some(s) ==> (!well_signed(s) ==> failures.last()
                == "malformed X-Payment-Signature: "@ + s)
        }),
{
    assert(retry_found(None, signature).failures =~= seq![
        "webhook was never acknowledged after retries"@,
    ]);
}

/// The signature that is noted of a webhook is what its header holds.
pub proof fn noted_signature_is_the_header(header: Option<Seq<char>>)
    ensures
        signature_noted(true, header) == match header {
            Some(s) => Some(s),
            None => Some(""@),
        },
        signature_noted(false, header) is None,
{
}

} // verus!
