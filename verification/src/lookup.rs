//! Finding a name in a list of names.

use vstd::prelude::*;

verus! {

/// The first position of `keys` that holds `key`, or the length of `keys`
/// when none does.
pub open spec fn first_position(keys: Seq<Seq<char>>, key: Seq<char>) -> int
    decreases keys.len(),
{
    if keys.len() == 0 {
        0
    } else if keys[0] == key {
        0
    } else {
        1 + first_position(keys.skip(1), key)
    }
}

/// Whether no two positions of `keys` hold the same name.
pub open spec fn all_distinct(keys: Seq<Seq<char>>) -> bool {
    forall|i: int, j: int| 0 <= i < j < keys.len() ==> keys[i] != keys[j]
}

/// `first_position` is a position or the length; a position holds the key,
/// and nothing before it does.
pub proof fn lemma_first_position(keys: Seq<Seq<char>>, key: Seq<char>)
    ensures
        0 <= first_position(keys, key) <= keys.len(),
        first_position(keys, key) < keys.len() ==> keys[first_position(keys, key)] == key,
        forall|j: int| 0 <= j < first_position(keys, key) ==> keys[j] != key,
    decreases keys.len(),
{
    if keys.len() > 0 && keys[0] != key {
        let rest = keys.skip(1);
        lemma_first_position(rest, key);
        assert forall|j: int| 0 <= j < first_position(keys, key) implies keys[j] != key by {
            if j > 0 {
                assert(rest[j - 1] == keys[j]);
            }
        }
    }
}

/// A position that holds the key, with nothing before it that does, is
/// `first_position`; so is the length when no position holds the key.
pub proof fn lemma_first_position_is(keys: Seq<Seq<char>>, key: Seq<char>, at: int)
    requires
        0 <= at <= keys.len(),
        at < keys.len() ==> keys[at] == key,
        forall|j: int| 0 <= j < at ==> keys[j] != key,
    ensures
        first_position(keys, key) == at,
    decreases keys.len(),
{
    if keys.len() > 0 && at > 0 {
        let rest = keys.skip(1);
        assert(keys[0] != key);
        assert forall|j: int| 0 <= j < at - 1 implies rest[j] != key by {
            assert(rest[j] == keys[j + 1]);
        }
        lemma_first_position_is(rest, key, at - 1);
    }
}

} // verus!
