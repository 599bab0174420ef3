//! What the booking service speaks of.

use vstd::prelude::*;

use crate::json::{member, put, Json, JsonView, Member};
use crate::text::{debug_quoted, join, quote, same};

verus! {

/// Where a booking stands.
#[derive(Debug, Clone, Eq, PartialEq, Copy, Structural)]
pub enum BookingStatus {
    Pending,
    Confirmed,
    Failed,
}

impl BookingStatus {
    /// The status as it is stored and sent.
    pub open spec fn label(self) -> Seq<char> {
        match self {
            BookingStatus::Pending => "PENDING"@,
            BookingStatus::Confirmed => "CONFIRMED"@,
            BookingStatus::Failed => "FAILED"@,
        }
    }

    /// The status as it is stored and sent.
    pub fn as_str(self) -> (s: &'static str)
        ensures
            s@ == self.label(),
    {
        match self {
            BookingStatus::Pending => "PENDING",
            BookingStatus::Confirmed => "CONFIRMED",
            BookingStatus::Failed => "FAILED",
        }
    }
}

/// The booking status that a text names.
pub open spec fn named_status(s: Seq<char>) -> Option<BookingStatus> {
    if s == "PENDING"@ {
        Some(BookingStatus::Pending)
    } else if s == "CONFIRMED"@ {
        Some(BookingStatus::Confirmed)
    } else if s == "FAILED"@ {
        Some(BookingStatus::Failed)
    } else {
        None
    }
}

impl std::str::FromStr for BookingStatus {
    type Err = String;

    fn from_str(s: &str) -> (r: Result<Self, String>)
        ensures
            match r {
                Ok(status) => named_status(s@) == Some(status),
                Err(message) => named_status(s@) is None && message@ == "Unkown booking status: "@
                    + debug_quoted(s@),
            },
    {
        if same(s, "PENDING") {
            Ok(BookingStatus::Pending)
        } else if same(s, "CONFIRMED") {
            Ok(BookingStatus::Confirmed)
        } else if same(s, "FAILED") {
            Ok(BookingStatus::Failed)
        } else {
            let quoted = quote(s);
            Err(join("Unkown booking status: ", quoted.as_str()))
        }
    }
}

/// Where a seat of a booking stands.
#[derive(Debug, Clone, Eq, PartialEq, Copy, Structural)]
pub enum SeatStatus {
    Held,
    Confirmed,
    Released,
}

impl SeatStatus {
    /// The status as it is stored.
    pub open spec fn label(self) -> Seq<char> {
        match self {
            SeatStatus::Held => "HELD"@,
            SeatStatus::Confirmed => "CONFIRMED"@,
            SeatStatus::Released => "RELEASED"@,
        }
    }

    /// The status as it is stored.
    pub fn as_str(self) -> (s: &'static str)
        ensures
            s@ == self.label(),
    {
        match self {
            SeatStatus::Held => "HELD",
            SeatStatus::Confirmed => "CONFIRMED",
            SeatStatus::Released => "RELEASED",
        }
    }
}

/// The outcome of a payment, as a webhook reports it.
#[derive(Debug, Clone, Eq, PartialEq, Copy, Structural)]
pub enum WebhookPaymentStatus {
    Success,
    Failed,
}

/// A webhook's body, as far as it is of interest.
#[derive(Debug)]
pub struct PaymentWebhookPayload {
    pub event_id: String,
    pub transaction_id: String,
    pub status: WebhookPaymentStatus,
}

/// POST /bookings request body
#[derive(Debug)]
pub struct CreateBookingRequest {
    pub show_id: i64,
}

/// POST /bookings response body
#[derive(Debug)]
pub struct BookingResponse {
    pub id: String,
    pub show_id: i64,
    pub status: BookingStatus,
}

impl BookingResponse {
    /// What the answer says.
    pub open spec fn body(self) -> JsonView {
        JsonView::Object(
            seq![
                member("id"@, JsonView::Text(self.id@)),
                member("show_id"@, JsonView::Int(self.show_id as int)),
                member("status"@, JsonView::Text(self.status.label())),
            ],
        )
    }

    /// The answer as a JSON object.
    pub fn to_json(&self) -> (j: Json)
        ensures
            j@ == self.body(),
    {
        let mut members: Vec<Member> = Vec::new();
        put(&mut members, "id", Json::text(self.id.as_str()));
        put(&mut members, "show_id", Json::Int(self.show_id));
        put(&mut members, "status", Json::text(self.status.as_str()));
        let j = Json::object(members);
        assert(j@->Object_0 =~= self.body()->Object_0);
        j
    }
}

/// A booking status that was written down is read back as it was.
pub proof fn stored_status_reads_back(status: BookingStatus)
    ensures
        named_status(status.label()) == Some(status),
{
    reveal_strlit("PENDING");
    reveal_strlit("CONFIRMED");
    reveal_strlit("FAILED");
    assert("PENDING"@.len() == 7);
    assert("CONFIRMED"@.len() == 9);
    assert("FAILED"@.len() == 6);
}

} // verus!
