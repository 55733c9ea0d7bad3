use vstd::prelude::*;

verus! {

/// Relies on cuid::cuid2_slug: a freshly generated, URL-safe slug identifier.
/// Its value depends on randomness, the clock and the machine, so nothing
/// relates two calls. The slug is one random lowercase letter followed by a
/// base-36 hash truncated to nine characters, so it is never empty and never
/// longer than ten characters.
#[verifier::external_body]
pub(crate) fn new_char_id() -> (r: String)
    ensures
        1 <= r@.len() <= 10,
{
    cuid::cuid2_slug()
}

} // verus!
