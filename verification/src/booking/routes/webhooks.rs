//! `POST /webhooks/payments`: what a webhook does to a booking.
//!
//! Two race conditions are handled here:
//!
//!   1. The webhook can arrive before the booking's `transaction_id` is even saved. Handled by
//!      simply not finding a match and answering with a non-2xx: the gateway's own
//!      retry-with-backoff resolves this.
//!
//!   2. The same event can be delivered twice, concurrently. Handled by claiming the
//!      `event_id` *before* acting on it: an event can be claimed once.

use vstd::prelude::*;

use crate::booking::error::{AppError, AppErrorView, AppResult};
use crate::booking::models::{
    BookingStatus, PaymentWebhookPayload, SeatStatus, WebhookPaymentStatus,
};
use crate::json::{member, put, Json, JsonView, Member};
use crate::text::{join, opt_view, same, same_opt, texts};

verus! {

/// A booking and its seats.
#[derive(Debug)]
pub struct Booking {
    pub id: String,
    pub transaction_id: Option<String>,
    pub status: String,
    /// The status of each seat.
    pub seats: Vec<String>,
}

/// What a booking says.
#[verifier::ext_equal]
pub struct BookingRow {
    pub id: Seq<char>,
    pub transaction_id: Option<Seq<char>>,
    pub status: Seq<char>,
    pub seats: Seq<Seq<char>>,
}

impl View for Booking {
    type V = BookingRow;

    open spec fn view(&self) -> BookingRow {
        BookingRow {
            id: self.id@,
            transaction_id: opt_view(self.transaction_id),
            status: self.status@,
            seats: texts(self.seats@),
        }
    }
}

/// The bookings, and the events that were claimed.
#[derive(Debug)]
pub struct Desk {
    pub bookings: Vec<Booking>,
    pub events: Vec<String>,
}

/// What a desk holds.
#[verifier::ext_equal]
pub struct DeskView {
    pub bookings: Seq<BookingRow>,
    pub events: Seq<Seq<char>>,
}

/// What bookings say.
pub open spec fn booking_rows(v: Seq<Booking>) -> Seq<BookingRow> {
    v.map_values(|b: Booking| b@)
}

impl View for Desk {
    type V = DeskView;

    open spec fn view(&self) -> DeskView {
        DeskView { bookings: booking_rows(self.bookings@), events: texts(self.events@) }
    }
}

/// What a payment's outcome makes of a booking and of its seats.
pub open spec fn resolution(status: WebhookPaymentStatus) -> (BookingStatus, SeatStatus) {
    match status {
        WebhookPaymentStatus::Success => (BookingStatus::Confirmed, SeatStatus::Confirmed),
        WebhookPaymentStatus::Failed => (BookingStatus::Failed, SeatStatus::Released),
    }
}

/// What a payment's outcome makes of a booking and of its seats.
pub fn resolve(status: WebhookPaymentStatus) -> (r: (BookingStatus, SeatStatus))
    ensures
        r == resolution(status),
{
    match status {
        WebhookPaymentStatus::Success => (BookingStatus::Confirmed, SeatStatus::Confirmed),
        WebhookPaymentStatus::Failed => (BookingStatus::Failed, SeatStatus::Released),
    }
}

/// A seat once its payment's outcome is known. Only a seat that is held moves.
pub open spec fn settled_seat(seat: Seq<char>, status: WebhookPaymentStatus) -> Seq<char> {
    if seat == SeatStatus::Held.label() {
        resolution(status).1.label()
    } else {
        seat
    }
}

impl BookingRow {
    /// This booking once its payment's outcome is known. Only a booking that is pending moves.
    pub open spec fn settled(self, status: WebhookPaymentStatus) -> BookingRow {
        BookingRow {
            status: if self.status == BookingStatus::Pending.label() {
                resolution(status).0.label()
            } else {
                self.status
            },
            seats: self.seats.map_values(|s: Seq<char>| settled_seat(s, status)),
            ..self
        }
    }
}

impl Booking {
    /// Resolves the booking and its seats together.
    pub fn settle(&mut self, status: WebhookPaymentStatus)
        ensures
            final(self)@ == old(self)@.settled(status),
    {
        let (booking_status, seat_status) = resolve(status);
        if same(self.status.as_str(), BookingStatus::Pending.as_str()) {
            self.status = booking_status.as_str().to_owned();
        }
        let ghost before = self.seats@;
        let mut i: usize = 0;
        while i < self.seats.len()
            invariant
                i <= self.seats@.len(),
                seat_status == resolution(status).1,
                self.id == old(self).id,
                self.transaction_id == old(self).transaction_id,
                self.status@ == old(self)@.settled(status).status,
                before == old(self).seats@,
                self.seats@.len() == before.len(),
                forall|k: int|
                    0 <= k < i ==> (#[trigger] self.seats@[k])@ == settled_seat(
                        before[k]@,
                        status,
                    ),
                forall|k: int| i <= k < before.len() ==> #[trigger] self.seats@[k] == before[k],
            decreases self.seats@.len() - i,
        {
            if same(self.seats[i].as_str(), SeatStatus::Held.as_str()) {
                self.seats[i] = seat_status.as_str().to_owned();
            }
            i += 1;
        }
        assert(texts(self.seats@) =~= old(self)@.settled(status).seats);
    }
}

impl DeskView {
    /// Whether the booking at a position is the first with this `transaction_id`.
    pub open spec fn first_with(self, transaction_id: Seq<char>, i: int) -> bool {
        &&& 0 <= i < self.bookings.len()
        &&& self.bookings[i].transaction_id == Some(transaction_id)
        &&& forall|j: int|
            0 <= j < i ==> (#[trigger] self.bookings[j]).transaction_id != Some(transaction_id)
    }

    /// Whether there is a booking with this `transaction_id`.
    pub open spec fn knows(self, transaction_id: Seq<char>) -> bool {
        exists|i: int|
            0 <= i < self.bookings.len() && (#[trigger] self.bookings[i]).transaction_id == Some(
                transaction_id,
            )
    }

    /// The position of the first booking with this `transaction_id`.
    pub open spec fn index_of(self, transaction_id: Seq<char>) -> int {
        choose|i: int| self.first_with(transaction_id, i)
    }
}

/// The body of an answer that says how things stand.
pub open spec fn status_body(status: Seq<char>) -> JsonView {
    JsonView::Object(seq![member("status"@, JsonView::Text(status))])
}

fn status_json(status: &str) -> (j: Json)
    ensures
        j@ == status_body(status@),
{
    let mut members: Vec<Member> = Vec::new();
    put(&mut members, "status", Json::text(status));
    let j = Json::object(members);
    assert(j@->Object_0 =~= status_body(status@)->Object_0);
    j
}

/// A webhook: what the desk holds then, and what is answered.
///
/// A transaction without a booking is not found. An event that was claimed before is left
/// alone, and yet answered with a success: otherwise it would be retried forever. Any other
/// event is claimed, and resolves the booking together with its seats.
pub open spec fn handled(
    desk: DeskView,
    event_id: Seq<char>,
    transaction_id: Seq<char>,
    status: WebhookPaymentStatus,
) -> (DeskView, Result<JsonView, AppErrorView>) {
    let i = desk.index_of(transaction_id);
    if !desk.knows(transaction_id) {
        (desk, Err(AppErrorView::NotFound("no booking for transaction "@ + transaction_id)))
    } else if desk.events.contains(event_id) {
        (desk, Ok(status_body("already processed"@)))
    } else {
        (
            DeskView {
                bookings: desk.bookings.update(i, desk.bookings[i].settled(status)),
                events: desk.events.push(event_id),
            },
            Ok(status_body("processed"@)),
        )
    }
}

/// What came of a webhook.
pub open spec fn answer_view(r: AppResult<Json>) -> Result<JsonView, AppErrorView> {
    match r {
        Ok(j) => Ok(j@),
        Err(e) => Err(e@),
    }
}

pub(crate) proof fn lemma_first_is_unique(desk: DeskView, transaction_id: Seq<char>, i: int)
    requires
        desk.first_with(transaction_id, i),
    ensures
        desk.knows(transaction_id),
        desk.index_of(transaction_id) == i,
{
    let j = desk.index_of(transaction_id);
    assert(desk.first_with(transaction_id, j));
    if i < j {
        assert(desk.bookings[i].transaction_id != Some(transaction_id));
    } else if j < i {
        assert(desk.bookings[j].transaction_id != Some(transaction_id));
    }
}

impl Desk {
    fn find(&self, transaction_id: &str) -> (r: Option<usize>)
        ensures
            match r {
                Some(i) => {
                    &&& i < self.bookings@.len()
                    &&& self@.knows(transaction_id@)
                    &&& self@.index_of(transaction_id@) == i
                },
                None => !self@.knows(transaction_id@),
            },
    {
        let mut i: usize = 0;
        while i < self.bookings.len()
            invariant
                i <= self.bookings@.len(),
                forall|j: int|
                    0 <= j < i ==> (#[trigger] self@.bookings[j]).transaction_id != Some(
                        transaction_id@,
                    ),
            decreases self.bookings@.len() - i,
        {
            assert(self@.bookings[i as int] == self.bookings@[i as int]@);
            if same_opt(&self.bookings[i].transaction_id, Some(transaction_id)) {
                proof {
                    lemma_first_is_unique(self@, transaction_id@, i as int);
                }
                return Some(i);
            }
            i += 1;
        }
        None
    }

    fn is_claimed(&self, event_id: &str) -> (r: bool)
        ensures
            r == self@.events.contains(event_id@),
    {
        let mut i: usize = 0;
        while i < self.events.len()
            invariant
                i <= self.events@.len(),
                forall|j: int| 0 <= j < i ==> #[trigger] self@.events[j] != event_id@,
            decreases self.events@.len() - i,
        {
            assert(self@.events[i as int] == self.events@[i as int]@);
            if same(self.events[i].as_str(), event_id) {
                return true;
            }
            i += 1;
        }
        false
    }
}

/// A webhook.
pub fn payments(desk: &mut Desk, payload: &PaymentWebhookPayload) -> (r: AppResult<Json>)
    ensures
        (final(desk)@, answer_view(r)) == handled(
            old(desk)@,
            payload.event_id@,
            payload.transaction_id@,
            payload.status,
        ),
{
    let i = match desk.find(payload.transaction_id.as_str()) {
        Some(i) => i,
        None => {
            return Err(
                AppError::NotFound(
                    join("no booking for transaction ", payload.transaction_id.as_str()),
                ),
            );
        },
    };
    // An event that was claimed before is not acted on again, but it is still answered with a
    // success: otherwise the gateway retries this "duplicate" forever.
    if desk.is_claimed(payload.event_id.as_str()) {
        return Ok(status_json("already processed"));
    }
    let ghost before = desk@;
    assert(before.bookings[i as int] == desk.bookings@[i as int]@);
    desk.events.push(payload.event_id.clone());
    // First time seeing this event: resolve the booking and its seats, so they move together.
    desk.bookings[i].settle(payload.status);
    assert(desk@.events =~= before.events.push(payload.event_id@));
    assert(desk@.bookings =~= before.bookings.update(
        i as int,
        before.bookings[i as int].settled(payload.status),
    ));
    Ok(status_json("processed"))
}

// ----------------------------------------------------------------------------------------
// Laws
// ----------------------------------------------------------------------------------------

/// A webhook that outruns its booking is refused with a non-2xx and changes nothing, so that
/// the gateway tries again; once the booking has its `transaction_id`, the retry goes through.
pub proof fn early_webhook_is_retried(
    desk: DeskView,
    event_id: Seq<char>,
    transaction_id: Seq<char>,
    status: WebhookPaymentStatus,
    i: int,
    saved: BookingRow,
)
    requires
        !desk.knows(transaction_id),
        !desk.events.contains(event_id),
        0 <= i < desk.bookings.len(),
        saved.transaction_id == Some(transaction_id),
    ensures
        handled(desk, event_id, transaction_id, status).0 == desk,
        handled(desk, event_id, transaction_id, status).1 matches Err(e) && e.status() == 404,
        ({
            let later = DeskView { bookings: desk.bookings.update(i, saved), ..desk };
            let (after, answer) = handled(later, event_id, transaction_id, status);
            &&& answer == Ok::<JsonView, AppErrorView>(status_body("processed"@))
            &&& after.bookings[i] == saved.settled(status)
        }),
{
    let later = DeskView { bookings: desk.bookings.update(i, saved), ..desk };
    assert forall|j: int| 0 <= j < i implies (#[trigger] later.bookings[j]).transaction_id != Some(
        transaction_id,
    ) by {
        assert(desk.bookings[j].transaction_id != Some(transaction_id));
    }
    assert(later.first_with(transaction_id, i));
    lemma_first_is_unique(later, transaction_id, i);
}

/// An event acts once: delivered again, it is answered with a success and changes nothing.
pub proof fn duplicate_event_changes_nothing(
    desk: DeskView,
    event_id: Seq<char>,
    transaction_id: Seq<char>,
    status: WebhookPaymentStatus,
    again: WebhookPaymentStatus,
)
    requires
        desk.knows(transaction_id),
    ensures
        ({
            let (next, first) = handled(desk, event_id, transaction_id, status);
            &&& first is Ok
            &&& handled(next, event_id, transaction_id, again) == (next, Ok::<
                JsonView,
                AppErrorView,
            >(status_body("already processed"@)))
        }),
{
    let (next, first) = handled(desk, event_id, transaction_id, status);
    lemma_some_first(desk, transaction_id, 0);
    if !desk.events.contains(event_id) {
        assert(next.events.last() == event_id);
        let a = choose|a: int|
            0 <= a < desk.bookings.len() && (#[trigger] desk.bookings[a]).transaction_id == Some(
                transaction_id,
            );
        assert(next.bookings[a].transaction_id == Some(transaction_id));
    }
}

/// A booking and its seats move together: a success confirms a pending booking and every
/// seat that it holds, a failure fails it and releases them all.
pub proof fn booking_and_seats_move_together(
    booking: BookingRow,
    status: WebhookPaymentStatus,
    k: int,
)
    requires
        booking.status == "PENDING"@,
        0 <= k < booking.seats.len(),
        booking.seats[k] == "HELD"@,
    ensures
        booking.settled(status).status == match status {
            WebhookPaymentStatus::Success => "CONFIRMED"@,
            WebhookPaymentStatus::Failed => "FAILED"@,
        },
        booking.settled(status).seats.len() == booking.seats.len(),
        booking.settled(status).seats[k] == match status {
            WebhookPaymentStatus::Success => "CONFIRMED"@,
            WebhookPaymentStatus::Failed => "RELEASED"@,
        },
{
}

/// The first outcome stands: another event about a booking that was resolved is answered
/// with a success and leaves the booking and its seats as they are.
pub proof fn resolved_booking_stays_resolved(
    booking: BookingRow,
    status: WebhookPaymentStatus,
    other: WebhookPaymentStatus,
)
    requires
        booking.status == "PENDING"@,
    ensures
        booking.settled(status).settled(other) == booking.settled(status),
{
    reveal_strlit("PENDING");
    reveal_strlit("CONFIRMED");
    reveal_strlit("FAILED");
    reveal_strlit("HELD");
    reveal_strlit("RELEASED");
    assert("PENDING"@.len() == 7);
    assert("CONFIRMED"@.len() == 9);
    assert("FAILED"@.len() == 6);
    assert("HELD"@.len() == 4);
    assert("RELEASED"@.len() == 8);
    assert(booking.settled(status).settled(other).seats =~= booking.settled(status).seats);
}

/// A webhook touches no booking but its own.
pub proof fn other_bookings_are_left_alone(
    desk: DeskView,
    event_id: Seq<char>,
    transaction_id: Seq<char>,
    status: WebhookPaymentStatus,
    k: int,
)
    requires
        0 <= k < desk.bookings.len(),
        desk.bookings[k].transaction_id != Some(transaction_id),
    ensures
        handled(desk, event_id, transaction_id, status).0.bookings[k] == desk.bookings[k],
{
    if desk.knows(transaction_id) {
        lemma_some_first(desk, transaction_id, 0);
    }
}

proof fn lemma_some_first(desk: DeskView, transaction_id: Seq<char>, from: int)
    requires
        0 <= from,
        forall|j: int|
            0 <= j < from && j < desk.bookings.len() ==> (
            #[trigger] desk.bookings[j]).transaction_id != Some(transaction_id),
        desk.knows(transaction_id),
    ensures
        desk.first_with(transaction_id, desk.index_of(transaction_id)),
    decreases desk.bookings.len() - from,
{
    if from < desk.bookings.len() {
        if desk.bookings[from].transaction_id == Some(transaction_id) {
            assert(desk.first_with(transaction_id, from));
        } else {
            lemma_some_first(desk, transaction_id, from + 1);
        }
    }
}

} // verus!
