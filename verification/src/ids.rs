//! Random identifier generation.
//!
//! Identifiers are carried through the engine as plain `u128` values;
//! only their generation relies on an outside crate.

use vstd::prelude::*;

verus! {

/// Relies on `uuid::Uuid::new_v4` and `Uuid::as_u128`: a fresh random
/// version-4 UUID, handed out as its 128-bit value. Nothing can be
/// promised of a random value; callers that need a value absent from a
/// store must test for membership themselves.
#[verifier::external_body]
pub(crate) fn fresh_u128() -> u128 {
    uuid::Uuid::new_v4().as_u128()
}

/// Relies on `uuid::Uuid::new_v4` and `Uuid::to_string`: a fresh random
/// version-4 UUID in its hyphenated text form. Nothing can be promised
/// of a random value.
#[verifier::external_body]
pub fn generate_id() -> String {
    uuid::Uuid::new_v4().to_string()
}

/// Whether `id` occurs in `ids`.
pub(crate) fn contains_id(ids: &Vec<u128>, id: u128) -> (r: bool)
    ensures
        r == ids@.contains(id),
{
    let n = ids.len();
    let mut i: usize = 0;
    while i < n
        invariant
            i <= n,
            n == ids@.len(),
            forall|j: int| 0 <= j < i ==> ids@[j] != id,
        decreases n - i,
    {
        if ids[i] == id {
            return true;
        }
        i = i + 1;
    }
    false
}

/// The smallest value that occurs nowhere in `ids`. Used as the
/// deterministic fallback when a random draw collides with a stored
/// identifier: there are more candidate values than stored identifiers,
/// so the scan always ends.
pub(crate) fn unused_id(ids: &Vec<u128>) -> (r: u128)
    ensures
        !ids@.contains(r),
{
    let n = ids.len();
    let mut c: u128 = 0;
    loop
        invariant
            n == ids@.len(),
            c <= n as u128,
            forall|x: u128| x < c ==> ids@.contains(x),
        decreases n as int - c as int,
    {
        if !contains_id(ids, c) {
            return c;
        }
        proof {
            lemma_prefix_bounded_by_store(ids@, c);
            assert(c < n as u128);
        }
        c = c + 1;
    }
}

/// If every value up to and including `c` occurs in `ids`, then `ids`
/// holds more than `c` entries: there is no room for `c + 1` distinct
/// values otherwise.
proof fn lemma_prefix_bounded_by_store(ids: Seq<u128>, c: u128)
    requires
        forall|x: u128| x < c ==> ids.contains(x),
        ids.contains(c),
    ensures
        c < ids.len(),
{
    let as_ints = ids.map_values(|v: u128| v as int);
    let occupied = as_ints.to_set();
    let low = vstd::set_lib::set_int_range(0, c as int + 1);
    assert forall|x: int| low.contains(x) implies occupied.contains(x) by {
        let v = x as u128;
        assert(ids.contains(v));
        let i = choose|i: int| 0 <= i < ids.len() && ids[i] == v;
        assert(as_ints[i] == x);
        assert(as_ints.contains(x));
    }
    vstd::set_lib::lemma_int_range(0, c as int + 1);
    as_ints.lemma_cardinality_of_set();
    vstd::seq_lib::seq_to_set_is_finite(as_ints);
    vstd::set_lib::lemma_len_subset(low, occupied);
}

} // verus!
