//! `POST /bookings`.

use vstd::prelude::*;

use crate::booking::models::{BookingResponse, BookingStatus, CreateBookingRequest};
use crate::ids::{hyphenated_uuid, random_hyphenated};

verus! {

/// A new booking under the given identifier: it is pending.
pub fn pending_booking(request: &CreateBookingRequest, id: String) -> (r: BookingResponse)
    ensures
        r == (BookingResponse {
            id,
            show_id: request.show_id,
            status: BookingStatus::Pending,
        }),
{
    BookingResponse { id, show_id: request.show_id, status: BookingStatus::Pending }
}

/// A request for a booking. The booking gets a random identifier and is pending.
pub fn create(request: &CreateBookingRequest) -> (r: BookingResponse)
    ensures
        hyphenated_uuid(r.id@),
        r.show_id == request.show_id,
        r.status == BookingStatus::Pending,
{
    pending_booking(request, random_hyphenated())
}

} // verus!
