//! Sending one hand-crafted webhook. No retries — this is a probe, not the delivery loop.

use vstd::prelude::*;

use crate::clock::{iso_text, Timestamp};
use crate::gateway::api_laws::lemma_names;
use crate::gateway::delivery::{build_post, webhook_post, Event, Post, PostView};
use crate::gateway::signature::signature_of_body;
use crate::ids::{id_with_prefix, new_event_id, new_transaction_id};
use crate::json::{lemma_says, member, names_distinct, says, Json, JsonView};
use crate::text::{
    debug_quoted, decimal, join, join3, opt_view, quote, same, texts, to_ascii_uppercase,
    to_decimal, trim, trimmed, uppered,
};

verus! {

/// What a webhook that is sent by hand is asked to be.
#[derive(Debug)]
pub struct FireWebhookArgs {
    pub url: String,
    pub status: String,
    pub transaction_id: Option<String>,
    pub event_id: Option<String>,
    pub booking_reference: String,
    pub amount_minor: i64,
    pub duplicate: bool,
}

/// A webhook to send by hand.
#[derive(Debug)]
pub struct Probe {
    pub url: String,
    pub status: String,
    pub transaction_id: String,
    pub event_id: String,
    pub booking_reference: String,
    pub amount_minor: i64,
    /// How many times it is sent, all at once.
    pub copies: u64,
}

/// What a webhook to send by hand says.
#[verifier::ext_equal]
pub struct ProbeView {
    pub url: Seq<char>,
    pub status: Seq<char>,
    pub transaction_id: Seq<char>,
    pub event_id: Seq<char>,
    pub booking_reference: Seq<char>,
    pub amount_minor: int,
    pub copies: int,
}

impl View for Probe {
    type V = ProbeView;

    open spec fn view(&self) -> ProbeView {
        ProbeView {
            url: self.url@,
            status: self.status@,
            transaction_id: self.transaction_id@,
            event_id: self.event_id@,
            booking_reference: self.booking_reference@,
            amount_minor: self.amount_minor as int,
            copies: self.copies as int,
        }
    }
}

/// Whether a text is one of the two statuses that a webhook reports.
pub open spec fn final_status(s: Seq<char>) -> bool {
    s == "SUCCESS"@ || s == "FAILED"@
}

/// `a`, or `b` where there is no `a`.
pub open spec fn or_text(a: Option<Seq<char>>, b: Seq<char>) -> Seq<char> {
    match a {
        Some(t) => t,
        None => b,
    }
}

/// The webhook that the arguments ask for, or what is wrong with them. The identifiers are
/// used where none are given.
pub open spec fn probe_for(
    args: FireWebhookArgs,
    transaction_id: Seq<char>,
    event_id: Seq<char>,
) -> Result<ProbeView, Seq<char>> {
    let status = uppered(trimmed(args.status@));
    if !final_status(status) {
        Err("--status must be SUCCESS or FAILED, got "@ + debug_quoted(status))
    } else {
        Ok(
            ProbeView {
                url: args.url@,
                status,
                transaction_id: or_text(opt_view(args.transaction_id), transaction_id),
                event_id: or_text(opt_view(args.event_id), event_id),
                booking_reference: args.booking_reference@,
                amount_minor: args.amount_minor as int,
                copies: if args.duplicate {
                    2
                } else {
                    1
                },
            },
        )
    }
}

/// What came of reading the arguments.
pub open spec fn probe_view(r: Result<Probe, String>) -> Result<ProbeView, Seq<char>> {
    match r {
        Ok(probe) => Ok(probe@),
        Err(message) => Err(message@),
    }
}

/// What is posted.
pub open spec fn post_views(posts: Seq<Post>) -> Seq<PostView> {
    posts.map_values(|p: Post| p@)
}

impl Probe {
    /// The webhook that the arguments ask for. The identifiers are used where none are given.
    pub fn with_ids(args: FireWebhookArgs, transaction_id: String, event_id: String) -> (r: Result<
        Probe,
        String,
    >)
        ensures
            probe_view(r) == probe_for(args, transaction_id@, event_id@),
    {
        let bare = trim(args.status.as_str());
        let status = to_ascii_uppercase(bare.as_str());
        if !same(status.as_str(), "SUCCESS") && !same(status.as_str(), "FAILED") {
            let quoted = quote(status.as_str());
            return Err(join("--status must be SUCCESS or FAILED, got ", quoted.as_str()));
        }
        Ok(
            Probe {
                url: args.url,
                status,
                transaction_id: match args.transaction_id {
                    Some(id) => id,
                    None => transaction_id,
                },
                event_id: match args.event_id {
                    Some(id) => id,
                    None => event_id,
                },
                booking_reference: args.booking_reference,
                amount_minor: args.amount_minor,
                copies: if args.duplicate {
                    2
                } else {
                    1
                },
            },
        )
    }

    /// The webhook that the arguments ask for. Fresh identifiers are made where none are
    /// given.
    pub fn new(args: FireWebhookArgs) -> (r: Result<Probe, String>)
        ensures
            exists|transaction_id: Seq<char>, event_id: Seq<char>|
                {
                    &&& id_with_prefix(transaction_id, "txn_"@)
                    &&& id_with_prefix(event_id, "evt_"@)
                    &&& probe_view(r) == #[trigger] probe_for(args, transaction_id, event_id)
                },
    {
        Self::with_ids(args, new_transaction_id(), new_event_id())
    }

    /// The body that is sent.
    pub open spec fn body(self, now: Timestamp) -> JsonView {
        JsonView::Object(
            seq![
                member("event_id"@, JsonView::Text(self.event_id@)),
                member("transaction_id"@, JsonView::Text(self.transaction_id@)),
                member("booking_reference"@, JsonView::Text(self.booking_reference@)),
                member("status"@, JsonView::Text(self.status@)),
                member("amount_minor"@, JsonView::Int(self.amount_minor as int)),
                member("currency"@, JsonView::Text("INR"@)),
                member(
                    "failure_reason"@,
                    if self.status@ == "FAILED"@ {
                        JsonView::Text("card_declined"@)
                    } else {
                        JsonView::Null
                    },
                ),
                member("occurred_at"@, JsonView::Text(iso_text(now.millis))),
                member("attempt"@, JsonView::Int(1)),
            ],
        )
    }

    /// The body that is sent.
    pub fn to_json(&self, now: Timestamp) -> (j: Json)
        requires
            now.wf(),
        ensures
            j@ == self.body(now),
    {
        let event = Event {
            event_id: self.event_id.as_str(),
            transaction_id: self.transaction_id.as_str(),
            booking_reference: self.booking_reference.as_str(),
            status: self.status.as_str(),
            amount_minor: self.amount_minor,
            currency: "INR",
            failure_reason: if same(self.status.as_str(), "FAILED") {
                Some("card_declined")
            } else {
                None
            },
            occurred_at: now,
            attempt: 1,
        };
        let j = event.to_json();
        assert(j@->Object_0 =~= self.body(now)->Object_0);
        j
    }

    /// The requests that are sent, all at once: as many as there are copies, and every one the
    /// same, to the last byte of the body and its signature.
    pub open spec fn posted(self, secret: Seq<char>, body: Seq<u8>) -> Seq<PostView> {
        Seq::new(
            self.copies as nat,
            |i: int| webhook_post(secret, self.url@, self.event_id@, body),
        )
    }

    /// The requests that are sent, given the bytes of the body.
    pub fn posts(&self, secret: &str, body: &Vec<u8>) -> (posts: Vec<Post>)
        ensures
            post_views(posts@) == self.posted(secret@, body@),
    {
        let mut posts: Vec<Post> = Vec::new();
        let mut i: u64 = 0;
        while i < self.copies
            invariant
                i <= self.copies,
                post_views(posts@) == self.posted(secret@, body@).take(i as int),
            decreases self.copies - i,
        {
            let ghost so_far = post_views(posts@);
            let post = build_post(secret, self.url.as_str(), self.event_id.as_str(), body);
            posts.push(post);
            assert(post_views(posts@) =~= so_far.push(post@));
            assert(post_views(posts@) =~= self.posted(secret@, body@).take(i + 1));
            i += 1;
        }
        assert(self.posted(secret@, body@).take(i as int) =~= self.posted(secret@, body@));
        posts
    }

    /// What is printed before it is sent.
    pub open spec fn announced(self) -> Seq<Seq<char>> {
        let lines = seq![
            "--> POST "@ + self.url@ + " x"@ + decimal(self.copies as nat),
            "    event_id       "@ + self.event_id@,
            "    transaction_id "@ + self.transaction_id@,
        ];
        if self.copies > 1 {
            lines.push("    both sent concurrently, as the real gateway does"@)
        } else {
            lines
        }
    }

    /// What is printed before it is sent.
    pub fn announcement(&self) -> (lines: Vec<String>)
        ensures
            texts(lines@) == self.announced(),
    {
        let mut lines: Vec<String> = Vec::new();
        let head = join3("--> POST ", self.url.as_str(), " x");
        lines.push(join(head.as_str(), to_decimal(self.copies).as_str()));
        lines.push(join("    event_id       ", self.event_id.as_str()));
        lines.push(join("    transaction_id ", self.transaction_id.as_str()));
        if self.copies > 1 {
            lines.push("    both sent concurrently, as the real gateway does".to_owned());
        }
        assert(texts(lines@) =~= self.announced());
        lines
    }
}

/// What is printed when an answer comes, given the status code as it is written.
pub open spec fn answered(
    copy: int,
    status: Seq<char>,
    success: bool,
    text: Seq<char>,
) -> Seq<Seq<char>> {
    let lines = seq!["<-- ["@ + decimal(copy as nat) + "] "@ + status + " "@ + text];
    if success {
        lines
    } else {
        lines.push(
            "    ["@ + decimal(copy as nat)
                + "] note: the real gateway treats this as a failed attempt and retries it."@,
        )
    }
}

/// What is printed when an answer comes, given the status code as it is written.
pub fn answer_lines(copy: u64, status: &str, success: bool, text: &str) -> (lines: Vec<String>)
    ensures
        texts(lines@) == answered(copy as int, status@, success, text@),
{
    let number = to_decimal(copy);
    let mut lines: Vec<String> = Vec::new();
    let head = join3("<-- [", number.as_str(), "] ");
    let line = join3(head.as_str(), status, " ");
    lines.push(join(line.as_str(), text));
    if !success {
        lines.push(
            join3(
                "    [",
                number.as_str(),
                "] note: the real gateway treats this as a failed attempt and retries it.",
            ),
        );
    }
    assert(texts(lines@) =~= answered(copy as int, status@, success, text@));
    lines
}

/// What is printed when no answer comes.
pub open spec fn unanswered(copy: int, error: Seq<char>) -> Seq<Seq<char>> {
    seq![
        "<-- ["@ + decimal(copy as nat) + "] delivery failed: "@ + error,
        "    ["@ + decimal(copy as nat)
            + "] is your API running? the real gateway would keep retrying."@,
    ]
}

/// What is printed when no answer comes.
pub fn failure_lines(copy: u64, error: &str) -> (lines: Vec<String>)
    ensures
        texts(lines@) == unanswered(copy as int, error@),
{
    let number = to_decimal(copy);
    let mut lines: Vec<String> = Vec::new();
    let head = join3("<-- [", number.as_str(), "] delivery failed: ");
    lines.push(join(head.as_str(), error));
    lines.push(
        join3(
            "    [",
            number.as_str(),
            "] is your API running? the real gateway would keep retrying.",
        ),
    );
    assert(texts(lines@) =~= unanswered(copy as int, error@));
    lines
}

/// With `--duplicate` the identical request is sent twice, and otherwise it is sent once.
pub proof fn duplicate_is_the_identical_request(
    args: FireWebhookArgs,
    transaction_id: Seq<char>,
    event_id: Seq<char>,
    probe: Probe,
    secret: Seq<char>,
    body: Seq<u8>,
)
    requires
        probe_for(args, transaction_id, event_id) == Ok::<ProbeView, Seq<char>>(probe@),
    ensures
        probe.posted(secret, body).len() == if args.duplicate {
            2int
        } else {
            1
        },
        args.duplicate ==> probe.posted(secret, body)[0] == probe.posted(secret, body)[1],
        probe.posted(secret, body)[0].url == args.url@,
        probe.posted(secret, body)[0].body == body,
{
}

/// A webhook that is sent by hand is what the arguments ask for, with an identifier made for
/// each that they leave out. The status is `SUCCESS` or `FAILED`, in whatever letter case and
/// with whatever white space around it; any other is refused.
pub proof fn probe_is_what_was_asked(
    args: FireWebhookArgs,
    transaction_id: Seq<char>,
    event_id: Seq<char>,
)
    ensures
        ({
            let status = uppered(trimmed(args.status@));
            match probe_for(args, transaction_id, event_id) {
                Ok(probe) => {
                    &&& status == "SUCCESS"@ || status == "FAILED"@
                    &&& probe.status == status
                    &&& probe.url == args.url@
                    &&& probe.transaction_id == match args.transaction_id {
                        Some(id) => id@,
                        None => transaction_id,
                    }
                    &&& probe.event_id == match args.event_id {
                        Some(id) => id@,
                        None => event_id,
                    }
                    &&& probe.booking_reference == args.booking_reference@
                    &&& probe.amount_minor == args.amount_minor
                    &&& probe.copies == if args.duplicate {
                        2int
                    } else {
                        1
                    }
                },
                Err(message) => {
                    &&& status != "SUCCESS"@ && status != "FAILED"@
                    &&& message == "--status must be SUCCESS or FAILED, got "@ + debug_quoted(
                        status,
                    )
                },
            }
        }),
{
}

/// The body of a webhook that is sent by hand says what the webhook is, as the first attempt of
/// the gateway would; a payment that failed was declined.
pub proof fn probe_is_told_in_full(probe: Probe, now: Timestamp)
    ensures
        ({
            let body = probe.body(now);
            &&& says(body, "event_id"@, JsonView::Text(probe.event_id@))
            &&& says(body, "transaction_id"@, JsonView::Text(probe.transaction_id@))
            &&& says(body, "booking_reference"@, JsonView::Text(probe.booking_reference@))
            &&& says(body, "status"@, JsonView::Text(probe.status@))
            &&& says(body, "amount_minor"@, JsonView::Int(probe.amount_minor as int))
            &&& says(body, "currency"@, JsonView::Text("INR"@))
            &&& probe.status@ == "FAILED"@ ==> says(
                body,
                "failure_reason"@,
                JsonView::Text("card_declined"@),
            )
            &&& probe.status@ != "FAILED"@ ==> says(body, "failure_reason"@, JsonView::Null)
            &&& says(body, "occurred_at"@, JsonView::Text(iso_text(now.millis)))
            &&& says(body, "attempt"@, JsonView::Int(1))
        }),
{
    let members = probe.body(now)->Object_0;
    lemma_names();
    assert(names_distinct(members));
    lemma_says(members, 0);
    lemma_says(members, 1);
    lemma_says(members, 2);
    lemma_says(members, 3);
    lemma_says(members, 4);
    lemma_says(members, 5);
    lemma_says(members, 6);
    lemma_says(members, 7);
    lemma_says(members, 8);
}

/// Every copy of a webhook that is sent by hand goes to the address that was given, names the
/// event, once more as an idempotency key, and is signed.
pub proof fn probe_is_posted_as_a_webhook(
    probe: Probe,
    secret: Seq<char>,
    body: Seq<u8>,
    k: int,
)
    requires
        0 <= k < probe.copies,
    ensures
        ({
            let posts = probe.posted(secret, body);
            let signature = signature_of_body(vstd::utf8::encode_utf8(secret), body);
            &&& posts.len() == probe.copies
            &&& posts[k].url == probe.url@
            &&& posts[k].body == body
            &&& posts[k].headers.len() == 4
            &&& posts[k].headers.contains(("content-type"@, "application/json"@))
            &&& posts[k].headers.contains(("x-payment-event-id"@, probe.event_id@))
            &&& posts[k].headers.contains(("x-payment-signature"@, signature))
            &&& posts[k].headers.contains(("idempotency-key"@, probe.event_id@))
        }),
{
    let post = probe.posted(secret, body)[k];
    let signature = signature_of_body(vstd::utf8::encode_utf8(secret), body);
    assert(post.headers[0] == ("content-type"@, "application/json"@));
    assert(post.headers[1] == ("x-payment-event-id"@, probe.event_id@));
    assert(post.headers[2] == ("x-payment-signature"@, signature));
    assert(post.headers[3] == ("idempotency-key"@, probe.event_id@));
}

/// What is printed of a webhook that is sent by hand names the address, how often it is sent,
/// the event and the transaction; and what is printed of an answer that is no success, or of
/// none, says that the gateway would try again.
pub proof fn probe_is_printed(probe: Probe, copy: int, status: Seq<char>, text: Seq<char>)
    requires
        0 <= copy,
    ensures
        ({
            let lines = probe.announced();
            let number = decimal(copy as nat);
            &&& lines.len() == if probe.copies > 1 {
                4int
            } else {
                3
            }
            &&& lines[0] == "--> POST "@ + probe.url@ + " x"@ + decimal(probe.copies as nat)
            &&& lines[1] == "    event_id       "@ + probe.event_id@
            &&& lines[2] == "    transaction_id "@ + probe.transaction_id@
            &&& probe.copies > 1 ==> lines[3]
                == "    both sent concurrently, as the real gateway does"@
            &&& answered(copy, status, true, text).len() == 1
            &&& answered(copy, status, false, text).len() == 2
            &&& forall|success: bool|
                (#[trigger] answered(copy, status, success, text))[0] == "<-- ["@ + number + "] "@
                    + status + " "@ + text
            &&& answered(copy, status, false, text)[1] == "    ["@ + number
                + "] note: the real gateway treats this as a failed attempt and retries it."@
            &&& unanswered(copy, text).len() == 2
            &&& unanswered(copy, text)[0] == "<-- ["@ + number + "] delivery failed: "@ + text
            &&& unanswered(copy, text)[1] == "    ["@ + number
                + "] is your API running? the real gateway would keep retrying."@
        }),
{
}

} // verus!
