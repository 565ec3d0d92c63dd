//! The wall clock, as text.

use crate::text::is_field_text;
use vstd::prelude::*;

verus! {

/// The current UTC time from `chrono::Utc::now`, written by
/// `chrono::DateTime::to_rfc3339_opts` with `SecondsFormat::Millis` and `Z`
/// for the offset, as in `2024-05-01T17:03:21.482Z`.
///
/// Trusted, not proved. The contract claims one thing of the text, whatever
/// the time is: chrono writes it from digits, `+`, `-`, `:`, `.`, `T` and
/// `Z`, so it holds no comma and no line break. Like `Utc::now`, the call
/// aborts on a system clock set before 1970.
#[verifier::external_body]
pub(crate) fn utc_now_rfc3339() -> (stamp: String)
    ensures
        is_field_text(stamp@),
{
    chrono::Utc::now().to_rfc3339_opts(chrono::SecondsFormat::Millis, true)
}

} // verus!
