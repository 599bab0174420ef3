//! `GET /health`: the liveness endpoint.

use vstd::prelude::*;

use crate::json::{member, put, Json, JsonView, Member};

verus! {

/// The answer to a request for the service's health.
#[derive(Debug)]
pub struct HealthResponse {
    pub status: &'static str,
    pub db: &'static str,
    /// Number of shows currently seeded, as a quick confirmation that reference data is
    /// present and the schedule has not gone stale.
    pub shows: i64,
}

impl HealthResponse {
    /// What the answer says.
    pub open spec fn body(self) -> JsonView {
        JsonView::Object(
            seq![
                member("status"@, JsonView::Text(self.status@)),
                member("db"@, JsonView::Text(self.db@)),
                member("shows"@, JsonView::Int(self.shows as int)),
            ],
        )
    }

    /// The answer as a JSON object.
    pub fn to_json(&self) -> (j: Json)
        ensures
            j@ == self.body(),
    {
        let mut members: Vec<Member> = Vec::new();
        put(&mut members, "status", Json::text(self.status));
        put(&mut members, "db", Json::text(self.db));
        put(&mut members, "shows", Json::Int(self.shows));
        let j = Json::object(members);
        assert(j@->Object_0 =~= self.body()->Object_0);
        j
    }
}

/// The answer once the database has said how many shows there are.
pub fn health(shows: i64) -> (r: HealthResponse)
    ensures
        r.status@ == "ok"@,
        r.db@ == "ok"@,
        r.shows == shows,
{
    HealthResponse { status: "ok", db: "ok", shows }
}

} // verus!
