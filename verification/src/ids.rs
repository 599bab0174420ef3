//! Fresh identifiers.

use uuid::Uuid;
use vstd::prelude::*;

use crate::text::join;

verus! {

/// Whether a character is a lower-case hexadecimal digit.
pub open spec fn hex_digit(c: char) -> bool {
    '0' <= c <= '9' || 'a' <= c <= 'f'
}

/// The shape of a version 4 UUID written without hyphens: 32 lower-case hexadecimal digits,
/// with the version and the variant in their places.
pub open spec fn simple_uuid(s: Seq<char>) -> bool {
    &&& s.len() == 32
    &&& forall|i: int| 0 <= i < s.len() ==> hex_digit(#[trigger] s[i])
    &&& s[12] == '4'
    &&& s[16] == '8' || s[16] == '9' || s[16] == 'a' || s[16] == 'b'
}

/// The shape of a version 4 UUID written with hyphens.
pub open spec fn hyphenated_uuid(s: Seq<char>) -> bool {
    &&& s.len() == 36
    &&& s[8] == '-' && s[13] == '-' && s[18] == '-' && s[23] == '-'
    &&& simple_uuid(
        s.subrange(0, 8) + s.subrange(9, 13) + s.subrange(14, 18) + s.subrange(19, 23)
            + s.subrange(24, 36),
    )
}

/// `uuid::Uuid::new_v4`, written by `simple`. The value is random: only its shape is known,
/// and that two calls give different values is left unsaid. The call needs the operating
/// system's random numbers and panics on a machine that has none to give.
#[verifier::external_body]
pub(crate) fn random_simple() -> (s: String)
    ensures
        simple_uuid(s@),
{
    Uuid::new_v4().simple().to_string()
}

/// `uuid::Uuid::new_v4`, written by `to_string`, that is with hyphens. The value is random:
/// only its shape is known, and that two calls give different values is left unsaid. The
/// call needs the operating system's random numbers and panics on a machine that has none to
/// give.
#[verifier::external_body]
pub(crate) fn random_hyphenated() -> (s: String)
    ensures
        hyphenated_uuid(s@),
{
    Uuid::new_v4().to_string()
}

/// Whether `s` is `prefix` followed by a UUID without hyphens.
pub open spec fn id_with_prefix(s: Seq<char>, prefix: Seq<char>) -> bool {
    exists|u: Seq<char>| #[trigger] simple_uuid(u) && s == prefix + u
}

fn fresh(prefix: &str) -> (id: String)
    ensures
        id_with_prefix(id@, prefix@),
{
    let u = random_simple();
    join(prefix, u.as_str())
}

/// A new payment's identifier: `txn_` and a random UUID.
pub fn new_transaction_id() -> (id: String)
    ensures
        id_with_prefix(id@, "txn_"@),
{
    fresh("txn_")
}

/// A new webhook event's identifier: `evt_` and a random UUID.
pub fn new_event_id() -> (id: String)
    ensures
        id_with_prefix(id@, "evt_"@),
{
    fresh("evt_")
}

/// A new webhook delivery's identifier: `dlv_` and a random UUID.
pub fn new_delivery_id() -> (id: String)
    ensures
        id_with_prefix(id@, "dlv_"@),
{
    fresh("dlv_")
}

/// A new refund's identifier: `rfnd_` and a random UUID.
pub fn new_refund_id() -> (id: String)
    ensures
        id_with_prefix(id@, "rfnd_"@),
{
    fresh("rfnd_")
}

/// An identifier is its prefix, then 32 lower-case hexadecimal digits, those of a version 4
/// UUID.
pub proof fn identifier_is_prefix_and_uuid(s: Seq<char>, prefix: Seq<char>, i: int)
    requires
        id_with_prefix(s, prefix),
        prefix.len() <= i < s.len(),
    ensures
        s.len() == prefix.len() + 32,
        s.take(prefix.len() as int) == prefix,
        '0' <= s[i] <= '9' || 'a' <= s[i] <= 'f',
        s[prefix.len() as int + 12] == '4',
{
    let u = choose|u: Seq<char>| #[trigger] simple_uuid(u) && s == prefix + u;
    assert(s.take(prefix.len() as int) =~= prefix);
    assert(s[i] == u[i - prefix.len()]);
}

} // verus!
