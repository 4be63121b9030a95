//! Job identifiers.

use vstd::prelude::*;

verus! {

/// A decimal digit or one of the letters `a` to `f`.
pub open spec fn is_lower_hex(c: char) -> bool {
    ('0' <= c && c <= '9') || ('a' <= c && c <= 'f')
}

/// The places of the four hyphens in an identifier.
pub open spec fn is_hyphen_place(i: int) -> bool {
    i == 8 || i == 13 || i == 18 || i == 23
}

/// The shape of a freshly drawn identifier: a random (version 4) UUID in its
/// usual text form, `xxxxxxxx-xxxx-4xxx-yxxx-xxxxxxxxxxxx`, in lower case,
/// where `y` is one of `8`, `9`, `a`, `b`.
pub open spec fn is_task_id(id: Seq<char>) -> bool {
    &&& id.len() == 36
    &&& forall|i: int| 0 <= i < 36 && is_hyphen_place(i) ==> #[trigger] id[i] == '-'
    &&& forall|i: int| 0 <= i < 36 && !is_hyphen_place(i) ==> is_lower_hex(#[trigger] id[i])
    &&& id[14] == '4'
    &&& (id[19] == '8' || id[19] == '9' || id[19] == 'a' || id[19] == 'b')
}

/// Draws an identifier: the text of `uuid::Uuid::new_v4()`.
///
/// The draw is random, so the contract only fixes the shape that every
/// version 4 UUID has when written out in lower case with hyphens, as
/// `Uuid`'s `Display` writes it. That two draws differ is likely but not
/// promised; the store checks it. `new_v4` stops the program if the
/// operating system gives it no random bytes.
#[verifier::external_body]
pub(crate) fn new_task_id() -> (id: String)
    ensures
        is_task_id(id@),
{
    uuid::Uuid::new_v4().to_string()
}

} // verus!
