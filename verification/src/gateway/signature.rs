//! Webhook body signing.
//!
//! Every webhook carries `X-Payment-Signature: sha256=<hex>`, an HMAC-SHA256 of the **raw
//! request body** keyed with the shared secret (`PAYMENT_WEBHOOK_SECRET`, the same value on
//! both sides).
//!
//! A receiver that verifies it has to sign the bytes that it actually received, not a
//! re-serialisation of the parsed JSON: another order of keys or other white space is another
//! body, with another signature.

use hmac::{Hmac, Mac};
use sha2::Sha256;
use vstd::prelude::*;

use crate::ids::hex_digit;

verus! {

/// The HMAC-SHA256 of a message under a key.
pub uninterp spec fn hmac_digest(key: Seq<u8>, message: Seq<u8>) -> Seq<u8>;

/// `hmac::Hmac<sha2::Sha256>`: `new_from_slice`, one `update`, `finalize`. The result is a
/// function of the key and the message alone, and bears the name `hmac_digest`; it is 32 bytes
/// long. Keys of any length are accepted, so the call does not fail.
#[verifier::external_body]
fn hmac_sha256(key: &[u8], message: &[u8]) -> (digest: Vec<u8>)
    ensures
        digest@ == hmac_digest(key@, message@),
        digest@.len() == 32,
{
    let mut mac = Hmac::<Sha256>::new_from_slice(key).expect("HMAC accepts keys of any length");
    mac.update(message);
    mac.finalize().into_bytes().to_vec()
}

/// The lower-case hexadecimal digit of a number below sixteen.
pub open spec fn hex_char(n: int) -> char {
    if n < 10 {
        (n + '0' as int) as char
    } else {
        (n - 10 + 'a' as int) as char
    }
}

/// Bytes in lower-case hexadecimal, two digits each.
pub open spec fn hex_text(bytes: Seq<u8>) -> Seq<char> {
    Seq::new(
        2 * bytes.len(),
        |i: int|
            if i % 2 == 0 {
                hex_char(bytes[i / 2] as int / 16)
            } else {
                hex_char(bytes[i / 2] as int % 16)
            },
    )
}

fn hex_of(n: u8) -> (c: char)
    requires
        n < 16,
    ensures
        c == hex_char(n as int),
{
    if n < 10 {
        (n + 48) as char
    } else {
        (n - 10 + 97) as char
    }
}

/// The `sha256=<hex>` value for a digest.
pub fn signature_text(digest: &[u8]) -> (s: String)
    ensures
        s@ == "sha256="@ + hex_text(digest@),
{
    let mut s = "sha256=".to_owned();
    let mut i: usize = 0;
    while i < digest.len()
        invariant
            i <= digest@.len(),
            s@ == "sha256="@ + hex_text(digest@.take(i as int)),
        decreases digest@.len() - i,
    {
        let byte = digest[i];
        s.push(hex_of(byte / 16));
        s.push(hex_of(byte % 16));
        assert(hex_text(digest@.take(i + 1)) =~= hex_text(digest@.take(i as int)).push(
            hex_char(byte as int / 16),
        ).push(hex_char(byte as int % 16)));
        assert(s@ =~= "sha256="@ + hex_text(digest@.take(i + 1)));
        i += 1;
    }
    assert(digest@.take(i as int) =~= digest@);
    s
}

/// The signature of a body under a secret.
pub open spec fn signature_of_body(secret: Seq<u8>, body: Seq<u8>) -> Seq<char> {
    "sha256="@ + hex_text(hmac_digest(secret, body))
}

/// Returns the `sha256=<hex>` value for a body.
pub fn sign(secret: &str, body: &[u8]) -> (s: String)
    ensures
        s@ == signature_of_body(vstd::utf8::encode_utf8(secret@), body@),
        s@.len() == 7 + 64,
{
    let digest = hmac_sha256(secret.as_bytes(), body);
    proof {
        reveal_strlit("sha256=");
    }
    signature_text(digest.as_slice())
}

/// A signature is `sha256=` followed by lower-case hexadecimal digits.
pub proof fn signature_is_hex(secret: Seq<u8>, body: Seq<u8>, i: int)
    requires
        7 <= i < signature_of_body(secret, body).len(),
    ensures
        signature_of_body(secret, body).take(7) == "sha256="@,
        hex_digit(signature_of_body(secret, body)[i]),
{
    reveal_strlit("sha256=");
    assert(signature_of_body(secret, body).take(7) =~= "sha256="@);
    let byte = hmac_digest(secret, body)[(i - 7) / 2];
    assert(0 <= byte as int / 16 < 16);
    assert(0 <= byte as int % 16 < 16);
}

/// Two bodies, or two secrets, have the same signature only if their digests are the same:
/// nothing of the digest is lost on the way into the header.
pub proof fn signature_reveals_digest(
    secret_a: Seq<u8>,
    body_a: Seq<u8>,
    secret_b: Seq<u8>,
    body_b: Seq<u8>,
)
    ensures
        signature_of_body(secret_a, body_a) == signature_of_body(secret_b, body_b) <==> hmac_digest(
            secret_a,
            body_a,
        ) == hmac_digest(secret_b, body_b),
{
    let a = hmac_digest(secret_a, body_a);
    let b = hmac_digest(secret_b, body_b);
    let head = "sha256="@;
    if head + hex_text(a) == head + hex_text(b) {
        assert((head + hex_text(a)).skip(head.len() as int) =~= hex_text(a));
        assert((head + hex_text(b)).skip(head.len() as int) =~= hex_text(b));
        assert(hex_text(a).len() == hex_text(b).len());
        assert forall|i: int| 0 <= i < a.len() implies a[i] == b[i] by {
            assert(hex_text(a)[2 * i] == hex_text(b)[2 * i]);
            assert(hex_text(a)[2 * i + 1] == hex_text(b)[2 * i + 1]);
        }
        assert(a =~= b);
    }
}

/// The number that a lower-case hexadecimal digit stands for.
pub open spec fn hex_value(c: char) -> int {
    if c <= '9' {
        c as int - '0' as int
    } else {
        c as int - 'a' as int + 10
    }
}

/// A signature spells the digest byte by byte, the higher half of each byte first.
pub proof fn signature_spells_the_digest(secret: Seq<u8>, body: Seq<u8>, i: int)
    requires
        0 <= i < hmac_digest(secret, body).len(),
    ensures
        ({
            let s = signature_of_body(secret, body);
            let digest = hmac_digest(secret, body);
            &&& s.len() == 7 + 2 * digest.len()
            &&& s.take(7) == "sha256="@
            &&& hex_digit(s[7 + 2 * i]) && hex_digit(s[8 + 2 * i])
            &&& digest[i] == 16 * hex_value(s[7 + 2 * i]) + hex_value(s[8 + 2 * i])
        }),
{
    reveal_strlit("sha256=");
    let s = signature_of_body(secret, body);
    let digest = hmac_digest(secret, body);
    assert(s.take(7) =~= "sha256="@);
    assert(s[7 + 2 * i] == hex_text(digest)[2 * i]);
    assert(s[8 + 2 * i] == hex_text(digest)[2 * i + 1]);
    let byte = digest[i] as int;
    assert(0 <= byte / 16 < 16 && 0 <= byte % 16 < 16);
}

} // verus!
