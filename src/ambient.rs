//! What only the outside world can supply: the clock, fresh identifiers and
//! random draws. Each item here is taken on trust; its doc comment names the
//! outside function it relies on.
use vstd::prelude::*;

verus! {

/// Relies on `chrono::Utc::now` and `DateTime::timestamp_millis`: the current
/// time in milliseconds since the Unix epoch. `Utc::now` never reports a time
/// before the epoch.
#[verifier::external_body]
pub(crate) fn now_millis() -> (r: i64)
    ensures
        r >= 0,
{
    chrono::Utc::now().timestamp_millis()
}

/// Relies on `uuid::Uuid::new_v4`: a random identifier whose version-4 and
/// variant bits are set, handed out as its 128-bit value (`Uuid::as_u128`).
#[verifier::external_body]
pub(crate) fn new_uuid() -> (r: u128)
    ensures
        r & 0x4000_8000_0000_0000_0000u128 == 0x4000_8000_0000_0000_0000u128,
{
    uuid::Uuid::new_v4().as_u128()
}

/// Lower-case hexadecimal digits, by value.
pub open spec fn hex_digits() -> Seq<char> {
    seq!['0', '1', '2', '3', '4', '5', '6', '7', '8', '9', 'a', 'b', 'c', 'd', 'e', 'f']
}

/// The text of an identifier in the uuid "simple" format: 32 lower-case
/// hexadecimal digits, most significant first.
pub open spec fn simple_text(id: u128) -> Seq<char> {
    Seq::new(32, |i: int| hex_digits()[((id >> ((124 - 4 * i) as u128)) & 0xf) as int])
}

/// Relies on `uuid::Uuid::simple`: the identifier written as 32 lowercase
/// hexadecimal digits without separators.
#[verifier::external_body]
pub(crate) fn uuid_simple(id: u128) -> (r: String)
    ensures
        r@ == simple_text(id),
{
    uuid::Uuid::from_u128(id).simple().to_string()
}

/// Relies on `rand::random` (rand 0.8): a value drawn from the thread-local
/// generator. Nothing is known of the value.
pub assume_specification<T>[ rand::random::<T> ]() -> (r: T)
    where
        rand::distributions::Standard: rand::distributions::Distribution<T>,
;

/// A fresh identifier is never the nil identifier.
pub proof fn lemma_fresh_id_not_nil(r: u128)
    requires
        r & 0x4000_8000_0000_0000_0000u128 == 0x4000_8000_0000_0000_0000u128,
    ensures
        r != 0,
{
    assert(r & 0x4000_8000_0000_0000_0000u128 == 0x4000_8000_0000_0000_0000u128 ==> r != 0)
        by (bit_vector);
}

} // verus!
