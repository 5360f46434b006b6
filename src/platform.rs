//! The outside services the library draws on: the clock, fresh identifiers,
//! display names and whitespace trimming.
use vstd::prelude::*;

verus! {

/// What `str::trim` leaves of a text.
pub uninterp spec fn trimmed(s: Seq<char>) -> Seq<char>;

/// Relies on chrono's `Utc::now` and `DateTime::timestamp_millis`: the current
/// instant in milliseconds since the Unix epoch.
#[verifier::external_body]
pub(crate) fn now_millis() -> (r: i64) {
    chrono::Utc::now().timestamp_millis()
}

/// Relies on uuid's `Uuid::new_v4` and `Uuid::as_u128`: a random identifier.
#[verifier::external_body]
pub(crate) fn new_id() -> (r: u128) {
    uuid::Uuid::new_v4().as_u128()
}

/// Relies on names' `Generator::default` and its `Iterator::next`, which
/// always yields a name.
#[verifier::external_body]
pub(crate) fn next_name() -> (r: Option<String>)
    ensures
        r is Some,
{
    let mut generator = names::Generator::default();
    generator.next()
}

/// Relies on `str::trim`: the text without leading and trailing whitespace.
#[verifier::external_body]
pub(crate) fn trim(s: &str) -> (r: String)
    ensures
        r@ == trimmed(s@),
{
    s.trim().to_string()
}

} // verus!
