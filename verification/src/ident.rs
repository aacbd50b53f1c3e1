//! Fresh identifiers.

use vstd::prelude::*;

verus! {

/// Whether `id` has the shape of a hyphenated UUID: 36 characters with a
/// hyphen after the 8th, 12th, 16th and 20th digit.
pub open spec fn is_uuid_text(id: Seq<char>) -> bool {
    &&& id.len() == 36
    &&& id[8] == '-'
    &&& id[13] == '-'
    &&& id[18] == '-'
    &&& id[23] == '-'
}

/// `uuid::Uuid::new_v4`, printed as `Display` prints a `Uuid`. The value is
/// random; its hyphenated form always has 36 characters with hyphens at the
/// four fixed places, and that is all the contract claims.
#[verifier::external_body]
pub(crate) fn random_uuid() -> (id: String)
    ensures
        is_uuid_text(id@),
{
    uuid::Uuid::new_v4().to_string()
}

/// Whether `c` is a character of the URL-safe alphabet of 64 characters:
/// a letter, a digit, `_` or `-`.
pub open spec fn is_safe_char(c: char) -> bool {
    ||| 'a' <= c <= 'z'
    ||| 'A' <= c <= 'Z'
    ||| '0' <= c <= '9'
    ||| c == '_'
    ||| c == '-'
}

/// `nanoid::format` with `nanoid::rngs::default` and `nanoid::alphabet::SAFE`,
/// which is what `nanoid!(size)` stands for. The value is random; it always
/// has `size` characters, each of the safe alphabet. The crate's loop never
/// ends for size 0, and computes `8 * size`.
#[verifier::external_body]
pub(crate) fn random_nanoid(size: usize) -> (id: String)
    requires
        0 < size <= usize::MAX / 8,
    ensures
        id@.len() == size,
        forall|i: int| 0 <= i < id@.len() ==> is_safe_char(#[trigger] id@[i]),
{
    nanoid::format(nanoid::rngs::default, &nanoid::alphabet::SAFE, size)
}

} // verus!
