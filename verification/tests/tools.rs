use payment_gateway::clock::Timestamp;
use payment_gateway::gateway::probe::{answer_lines, failure_lines, FireWebhookArgs, Probe};
use payment_gateway::gateway::selftest::{
    check_duplicate, check_lost, check_retry, claim_rejection, has_arrived, is_delivered_twice,
    is_well_signed, note_signature, receive, record_event, rejection_line, signature_of, verdict,
    wait_step, PolledPayment, ReceivedEvent, Wait, REJECTIONS,
};
use payment_gateway::json::Json;

const NOW: Timestamp = Timestamp { millis: 1_700_000_000_000 };

fn args(status: &str) -> FireWebhookArgs {
    FireWebhookArgs {
        url: "http://h/".to_owned(),
        status: status.to_owned(),
        transaction_id: None,
        event_id: None,
        booking_reference: "bkg_1".to_owned(),
        amount_minor: 7,
        duplicate: false,
    }
}

fn member<'a>(json: &'a Json, name: &str) -> &'a Json {
    match json {
        Json::Object(members) => {
            &members.iter().find(|m| m.name == name).expect("member").value
        }
        _ => panic!("no object"),
    }
}

#[test]
fn a_probe_reports_one_of_two_statuses() {
    assert_eq!(Probe::new(args(" success ")).unwrap().status, "SUCCESS");
    assert_eq!(Probe::new(args("Failed")).unwrap().status, "FAILED");
    assert_eq!(
        Probe::new(args("maybe\"")).unwrap_err(),
        "--status must be SUCCESS or FAILED, got \"MAYBE\\\"\""
    );
}

#[test]
fn a_probe_makes_up_missing_identifiers() {
    let probe = Probe::new(args("SUCCESS")).unwrap();
    assert!(probe.transaction_id.starts_with("txn_"));
    assert!(probe.event_id.starts_with("evt_"));
    assert_eq!(probe.copies, 1);
    let given = FireWebhookArgs {
        event_id: Some("evt_x".to_owned()),
        transaction_id: Some("t".to_owned()),
        duplicate: true,
        ..args("SUCCESS")
    };
    let probe = Probe::with_ids(given, "txn_y".to_owned(), "evt_y".to_owned()).unwrap();
    assert_eq!(probe.transaction_id, "t");
    assert_eq!(probe.event_id, "evt_x");
    assert_eq!(probe.copies, 2);
    assert_eq!(
        probe.announcement(),
        vec![
            "--> POST http://h/ x2",
            "    event_id       evt_x",
            "    transaction_id t",
            "    both sent concurrently, as the real gateway does",
        ]
    );
}

#[test]
fn copies_of_a_probe_are_identical() {
    let given = FireWebhookArgs { duplicate: true, ..args("SUCCESS") };
    let probe = Probe::new(given).unwrap();
    let body = b"{}".to_vec();
    let posts = probe.posts("secret", &body);
    assert_eq!(posts.len(), 2);
    assert_eq!(format!("{:?}", posts[0]), format!("{:?}", posts[1]));
    assert_eq!(posts[0].url, "http://h/");
    assert_eq!(posts[0].body, body);
    assert_eq!(posts[0].headers[1].value, probe.event_id);
    assert_eq!(Probe::new(args("SUCCESS")).unwrap().posts("secret", &body).len(), 1);
}

#[test]
fn a_probe_of_a_failure_gives_a_reason() {
    let body = Probe::new(args("failed")).unwrap().to_json(NOW);
    assert!(matches!(member(&body, "failure_reason"), Json::Text(s) if s == "card_declined"));
    assert!(matches!(member(&body, "currency"), Json::Text(s) if s == "INR"));
    assert!(matches!(member(&body, "attempt"), Json::Int(1)));
    assert!(
        matches!(member(&body, "occurred_at"), Json::Text(s) if s == "2023-11-14T22:13:20.000Z")
    );
    let body = Probe::new(args("success")).unwrap().to_json(NOW);
    assert!(matches!(member(&body, "failure_reason"), Json::Null));
}

#[test]
fn a_probe_prints_what_came_back() {
    assert_eq!(answer_lines(1, "200 OK", true, "{}"), vec!["<-- [1] 200 OK {}"]);
    assert_eq!(
        answer_lines(2, "404 Not Found", false, ""),
        vec![
            "<-- [2] 404 Not Found ",
            "    [2] note: the real gateway treats this as a failed attempt and retries it.",
        ]
    );
    assert_eq!(
        failure_lines(1, "refused"),
        vec![
            "<-- [1] delivery failed: refused",
            "    [1] is your API running? the real gateway would keep retrying.",
        ]
    );
}

#[test]
fn the_receiver_rejects_a_few_and_then_accepts() {
    let mut budget = REJECTIONS;
    assert_eq!(claim_rejection(&mut budget), Some(3));
    assert_eq!(claim_rejection(&mut budget), Some(2));
    assert_eq!(claim_rejection(&mut budget), Some(1));
    assert_eq!(claim_rejection(&mut budget), None);
    assert_eq!(budget, 0);
    assert_eq!(
        rejection_line(3),
        "      receiver: rejecting with 500 (3 rejections left)"
    );
}

fn event(transaction_id: &str, event_id: &str, entered_ms: u64, exited_ms: u64) -> ReceivedEvent {
    ReceivedEvent {
        transaction_id: Some(transaction_id.to_owned()),
        event_id: Some(event_id.to_owned()),
        event_text: format!("{event_id:?}"),
        signature: Some(format!("sig_{entered_ms}")),
        entered_ms,
        exited_ms,
    }
}

#[test]
fn the_receiver_over_many_requests() {
    let mut budget = 3;
    let mut events = Vec::new();
    let mut statuses = Vec::new();
    for i in 0..6 {
        let read = if i == 4 { None } else { Some(event("t", &format!("e{i}"), i, i + 1)) };
        statuses.push(receive(&mut budget, &mut events, read));
    }
    assert_eq!(statuses, vec![500, 500, 500, 200, 200, 200]);
    assert_eq!(budget, 0);
    let seen: Vec<u64> = events.iter().map(|e| e.entered_ms).collect();
    assert_eq!(seen, vec![3, 5]);
    assert_eq!(record_event(&mut events, None), 200);
    assert_eq!(events.len(), 2);
}

#[test]
fn a_missing_signature_is_noted_as_empty() {
    assert_eq!(note_signature(true, Some("s".to_owned())), Some("s".to_owned()));
    assert_eq!(note_signature(true, None), Some(String::new()));
    assert_eq!(note_signature(false, Some("s".to_owned())), None);
}

#[test]
fn waiting_ends_when_it_is_true_or_the_time_is_up() {
    assert_eq!(wait_step(0, 100, true), Wait::Stop(true));
    assert_eq!(wait_step(0, 100, false), Wait::Sleep(50));
    assert_eq!(wait_step(99, 100, false), Wait::Sleep(50));
    assert_eq!(wait_step(100, 100, false), Wait::Stop(false));
    assert_eq!(wait_step(500, 100, true), Wait::Stop(true));
}

#[test]
fn event_ids_that_are_no_text_are_told_apart() {
    let number = |n: u64| ReceivedEvent {
        event_id: None,
        event_text: n.to_string(),
        ..event("t", "e", n, n + 9)
    };
    assert!(!is_delivered_twice(&vec![number(1), number(2)], "t"));
    let twins = vec![number(1), number(1)];
    assert!(is_delivered_twice(&twins, "t"));
    assert_eq!(check_duplicate(&twins, "t").notes[0], "      ok — event ? delivered 2 times");
}

#[test]
fn what_the_receiver_saw_is_looked_up_by_transaction() {
    let events = vec![event("a", "e1", 1, 2), event("b", "e2", 3, 4), event("b", "e2", 5, 6)];
    assert!(has_arrived(&events, "a"));
    assert!(!has_arrived(&events, "c"));
    assert_eq!(signature_of(&events, "b").as_deref(), Some("sig_3"));
    assert_eq!(signature_of(&events, "c"), None);
    assert!(is_delivered_twice(&events, "b"));
    assert!(!is_delivered_twice(&events, "a"));
}

fn polled(attempts: i64, acknowledged: bool, status: &str) -> PolledPayment {
    PolledPayment {
        webhook_attempts: attempts,
        webhook_acknowledged: acknowledged,
        status: Some(status.to_owned()),
        status_text: format!("{status:?}"),
    }
}

#[test]
fn the_retry_check() {
    let signature = format!("sha256={}", "0123456789abcdef".repeat(4));
    assert!(is_well_signed(&signature));
    assert!(!is_well_signed("sha256="));
    assert!(!is_well_signed(&signature[1..]));
    let good = check_retry(Some(polled(4, true, "SUCCESS")), Some(signature));
    assert!(good.failures.is_empty());
    assert_eq!(
        good.notes,
        vec![
            "      ok — acknowledged after 4 attempts",
            "      ok — signed with sha256=012345678",
        ]
    );
    let bad = check_retry(Some(polled(3, false, "PENDING")), Some("md5=1".to_owned()));
    assert!(bad.notes.is_empty());
    assert_eq!(
        bad.failures,
        vec![
            "expected at least 4 attempts, saw 3",
            "payment does not report the webhook as acknowledged",
            "expected SUCCESS, got \"PENDING\"",
            "malformed X-Payment-Signature: md5=1",
        ]
    );
    assert_eq!(
        check_retry(Some(polled(9, true, "SUCCESS")), None).failures,
        vec!["webhook arrived without a signature"]
    );
    assert_eq!(
        check_retry(None, None).failures,
        vec!["webhook was never acknowledged after retries"]
    );
}

#[test]
fn the_duplicate_check() {
    let overlap = vec![event("t", "e", 10, 30), event("t", "e", 12, 32)];
    let found = check_duplicate(&overlap, "t");
    assert!(found.failures.is_empty());
    assert_eq!(
        found.notes,
        vec![
            "      ok — event e delivered 2 times",
            "      ok — the two deliveries overlapped in time by 18ms",
        ]
    );
    let apart = vec![event("t", "e", 10, 30), event("t", "e", 35, 55)];
    assert_eq!(
        check_duplicate(&apart, "t").failures,
        vec![
            "duplicate deliveries did not overlap — 5ms apart, so a naive read-then-write dedup \
             would still pass"
        ]
    );
    let different = vec![event("t", "e", 10, 30), event("t", "f", 12, 32)];
    assert_eq!(
        check_duplicate(&different, "t").failures,
        vec!["duplicate scenario did not redeliver the same event_id"]
    );
}

#[test]
fn the_lost_check() {
    let none = Vec::new();
    let found = check_lost(&none, "t", &polled(0, false, "SUCCESS"));
    assert_eq!(found.notes, vec!["      ok — never delivered, but polling reports SUCCESS"]);
    assert!(found.failures.is_empty());
    assert_eq!(
        check_lost(&none, "t", &polled(0, false, "PENDING")).failures,
        vec!["lost payment should still reach a terminal status, got \"PENDING\""]
    );
    let events = vec![event("t", "e", 1, 2)];
    assert_eq!(
        check_lost(&events, "t", &polled(0, false, "SUCCESS")).failures,
        vec!["lost scenario delivered a webhook it should have suppressed"]
    );
}

#[test]
fn the_verdict_counts_the_failures() {
    assert_eq!(verdict(&Vec::new()), Ok(()));
    let failures = vec!["a".to_owned(), "b".to_owned()];
    assert_eq!(verdict(&failures), Err("2 check(s) failed".to_owned()));
}
