use vstd::prelude::*;

verus! {

/// Relies on uuid's `Uuid::new_v4` and its `Display`, which writes the
/// hyphenated form `xxxxxxxx-xxxx-xxxx-xxxx-xxxxxxxxxxxx` in lowercase hex: a
/// random identifier of 36 characters whose first hyphen is at position 8.
#[verifier::external_body]
pub(crate) fn fresh_id() -> (r: String)
    ensures
        r@.len() == 36,
        r@[8] == '-',
        forall|i: int| 0 <= i < 8 ==> r@[i] != '-',
{
    uuid::Uuid::new_v4().to_string()
}

} // verus!
