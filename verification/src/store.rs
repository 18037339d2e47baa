//! Arena-style record stores.
//!
//! Every aggregate the engine owns (accounts, cards, merchants,
//! transactions, settlement batches) lives in a store keyed by its
//! 128-bit identity; relationships between aggregates are expressed as
//! identities looked up through the owning store, never as aliases.

use vstd::prelude::*;
use crate::ids::{fresh_u128, unused_id};

verus! {

/// A record addressed by a 128-bit identity.
pub trait Keyed: Sized {
    /// The identity, as the specification sees it.
    spec fn spec_key(&self) -> u128;

    /// The identity, as executable code reads it.
    fn key(&self) -> (k: u128)
        ensures
            k == self.spec_key(),
    ;
}

/// The index of the first record in `s` whose key is `id`.
pub open spec fn spec_idx_of<T: Keyed>(s: Seq<T>, id: u128) -> Option<int>
    decreases s.len(),
{
    if s.len() == 0 {
        None
    } else if s[0].spec_key() == id {
        Some(0)
    } else {
        match spec_idx_of(s.drop_first(), id) {
            Some(i) => Some(i + 1),
            None => None,
        }
    }
}

/// The first record in `s` whose key is `id`, if any.
pub open spec fn spec_get<T: Keyed>(s: Seq<T>, id: u128) -> Option<T> {
    match spec_idx_of(s, id) {
        Some(i) => Some(s[i]),
        None => None,
    }
}

/// What the index of the first match means: the record there has the
/// key, nothing before it does, and a `None` means no record has it.
pub proof fn lemma_idx_of<T: Keyed>(s: Seq<T>, id: u128)
    ensures
        (match spec_idx_of(s, id) {
            Some(i) => 0 <= i < s.len() && s[i].spec_key() == id && (forall|j: int|
                0 <= j < i ==> s[j].spec_key() != id),
            None => forall|j: int| 0 <= j < s.len() ==> s[j].spec_key() != id,
        }),
    decreases s.len(),
{
    if s.len() > 0 && s[0].spec_key() != id {
        lemma_idx_of(s.drop_first(), id);
        match spec_idx_of(s.drop_first(), id) {
            Some(i) => {
                assert forall|j: int| 0 <= j < i + 1 implies s[j].spec_key() != id by {
                    if j > 0 {
                        assert(s.drop_first()[j - 1] == s[j]);
                    }
                }
                assert(s.drop_first()[i] == s[i + 1]);
            },
            None => {
                assert forall|j: int| 0 <= j < s.len() implies s[j].spec_key() != id by {
                    if j > 0 {
                        assert(s.drop_first()[j - 1] == s[j]);
                    }
                }
            },
        }
    }
}

/// A record whose key nothing before it shares is the first match.
pub proof fn lemma_idx_of_first_match<T: Keyed>(s: Seq<T>, id: u128, i: int)
    requires
        0 <= i < s.len(),
        s[i].spec_key() == id,
        forall|j: int| 0 <= j < i ==> s[j].spec_key() != id,
    ensures
        spec_idx_of(s, id) == Some(i),
    decreases s.len(),
{
    if i > 0 {
        assert forall|j: int| 0 <= j < i - 1 implies s.drop_first()[j].spec_key() != id by {
            assert(s.drop_first()[j] == s[j + 1]);
        }
        assert(s.drop_first()[i - 1] == s[i]);
        lemma_idx_of_first_match(s.drop_first(), id, i - 1);
    }
}

/// If no record has the key, the lookup finds nothing.
pub proof fn lemma_idx_of_absent<T: Keyed>(s: Seq<T>, id: u128)
    requires
        forall|j: int| 0 <= j < s.len() ==> s[j].spec_key() != id,
    ensures
        spec_idx_of(s, id) is None,
{
    lemma_idx_of(s, id);
    if spec_idx_of(s, id) is Some {
        let i = spec_idx_of(s, id).unwrap();
        assert(s[i].spec_key() != id);
    }
}

/// Finds the index of the first record with key `id`.
pub fn find_idx<T: Keyed>(v: &Vec<T>, id: u128) -> (r: Option<usize>)
    ensures
        (match r {
            Some(i) => i < v@.len() && v@[i as int].spec_key() == id && spec_idx_of(v@, id)
                == Some(i as int),
            None => spec_idx_of(v@, id) is None,
        }),
{
    let n = v.len();
    let mut i: usize = 0;
    while i < n
        invariant
            i <= n,
            n == v@.len(),
            forall|j: int| 0 <= j < i ==> v@[j].spec_key() != id,
        decreases n - i,
    {
        if v[i].key() == id {
            proof {
                lemma_idx_of_first_match(v@, id, i as int);
            }
            return Some(i);
        }
        i = i + 1;
    }
    proof {
        lemma_idx_of_absent(v@, id);
    }
    None
}

/// Replaces the element at `i` with `rec`, keeping everything else.
pub fn set_at<T>(v: &mut Vec<T>, i: usize, rec: T)
    requires
        i < old(v)@.len(),
    ensures
        final(v)@ == old(v)@.update(i as int, rec),
{
    let _ = v.remove(i);
    v.insert(i, rec);
    proof {
        assert(v@ =~= old(v)@.update(i as int, rec));
    }
}

/// The store after inserting `rec`: the record that already carries
/// its key is replaced, or `rec` is appended if the key is new.
pub open spec fn spec_upsert<T: Keyed>(s: Seq<T>, rec: T) -> Seq<T> {
    match spec_idx_of(s, rec.spec_key()) {
        Some(i) => s.update(i, rec),
        None => s.push(rec),
    }
}

/// Inserts `rec`, replacing the record that already carries its key, or
/// appending it if the key is new.
pub fn upsert<T: Keyed>(v: &mut Vec<T>, rec: T)
    ensures
        final(v)@ == spec_upsert(old(v)@, rec),
{
    let k = rec.key();
    match find_idx(v, k) {
        Some(i) => {
            proof {
                lemma_idx_of(v@, k);
            }
            set_at(v, i, rec);
        },
        None => {
            v.push(rec);
        },
    }
}

/// A key that no record of `v` carries. A random draw is preferred; if
/// it collides, a deterministic scan takes over, so the result is fresh
/// in every case.
pub fn fresh_key<T: Keyed>(v: &Vec<T>) -> (r: u128)
    ensures
        spec_idx_of(v@, r) is None,
{
    let id = fresh_u128();
    if find_idx(v, id).is_none() {
        return id;
    }
    let n = v.len();
    let mut keys: Vec<u128> = Vec::new();
    let mut i: usize = 0;
    while i < n
        invariant
            i <= n,
            n == v@.len(),
            keys@.len() == i,
            forall|j: int| 0 <= j < i ==> keys@[j] == v@[j].spec_key(),
        decreases n - i,
    {
        keys.push(v[i].key());
        i = i + 1;
    }
    let c = unused_id(&keys);
    proof {
        assert forall|j: int| 0 <= j < v@.len() implies v@[j].spec_key() != c by {
            if v@[j].spec_key() == c {
                assert(keys@[j] == c);
                assert(keys@.contains(c));
            }
        }
        lemma_idx_of_absent(v@, c);
    }
    c
}

/// A missing key looks up to no record; a present one looks up to the
/// first record carrying it.
pub proof fn lemma_get_some<T: Keyed>(s: Seq<T>, id: u128)
    ensures
        spec_get(s, id) is Some <==> spec_idx_of(s, id) is Some,
        (match spec_get(s, id) {
            Some(t) => t.spec_key() == id,
            None => true,
        }),
{
    lemma_idx_of(s, id);
}

} // verus!
