use payment_gateway::gateway::delivery::build_headers;
use payment_gateway::gateway::signature::{sign, signature_text};

#[test]
fn signature_is_stable_and_key_dependent() {
    let body = br#"{"transaction_id":"txn_1"}"#;

    let a = sign("secret", body);
    assert_eq!(a, sign("secret", body), "signing is deterministic");
    assert_ne!(a, sign("other-secret", body), "key changes the signature");
    assert!(a.starts_with("sha256="));
    assert_eq!(a.len(), 7 + 64);
}

#[test]
fn whitespace_changes_the_signature() {
    // Which is exactly why you must verify against the raw bytes.
    assert_ne!(sign("k", b"{\"a\":1}"), sign("k", b"{ \"a\": 1 }"));
}

#[test]
fn signature_of_a_known_message() {
    assert_eq!(
        sign("key", b"The quick brown fox jumps over the lazy dog"),
        "sha256=f7bc83f430538424b13298e6aa6fb143ef4d59a14946175997479dbc2d1a3cd8"
    );
    assert_eq!(
        sign("", b""),
        "sha256=b613679a0814d9ec772f95d778c35fc5ff1697c493715653c6c712144292c5ad"
    );
}

#[test]
fn digests_are_written_in_lower_case_hexadecimal() {
    assert_eq!(signature_text(&[0x00, 0x0f, 0xa0, 0xff]), "sha256=000fa0ff");
    assert_eq!(signature_text(&[]), "sha256=");
}

#[test]
fn signatures_are_hexadecimal() {
    let s = sign("dev-webhook-secret", b"{}");
    assert!(s.chars().skip(7).all(|c| c.is_ascii_digit() || ('a'..='f').contains(&c)));
}

#[test]
fn headers_carry_the_event_and_the_signature_of_the_raw_bytes() {
    let headers = build_headers("key", "evt_7", b"The quick brown fox jumps over the lazy dog");
    let pairs: Vec<(&str, &str)> =
        headers.iter().map(|h| (h.name.as_str(), h.value.as_str())).collect();
    assert_eq!(
        pairs,
        vec![
            ("content-type", "application/json"),
            ("x-payment-event-id", "evt_7"),
            (
                "x-payment-signature",
                "sha256=f7bc83f430538424b13298e6aa6fb143ef4d59a14946175997479dbc2d1a3cd8",
            ),
            ("idempotency-key", "evt_7"),
        ]
    );
}
