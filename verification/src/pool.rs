//! Name-keyed definition pools.
//!
//! A document may define voxel mappings and band displays under a name, and
//! layers refer to them by that name. A pool is an ordered list of
//! `(name, definition)` entries; a by-name lookup finds the first entry with
//! a matching name.

use vstd::prelude::*;
use crate::seq_contains_str;

verus! {

/// The names of a pool's entries, as character sequences.
pub open spec fn keys_view<T>(pool: Seq<(String, T)>) -> Seq<Seq<char>> {
    Seq::new(pool.len(), |i: int| pool[i].0@)
}

/// The views of a pool's entries.
pub open spec fn pool_view<T: View>(pool: Seq<(String, T)>) -> Seq<(Seq<char>, T::V)> {
    Seq::new(pool.len(), |i: int| (pool[i].0@, pool[i].1@))
}

/// The first index at which `name` occurs in `keys`; meaningful only when
/// `name` occurs at all.
pub open spec fn spec_first_key(keys: Seq<Seq<char>>, name: Seq<char>) -> int
    decreases keys.len(),
{
    if keys.len() == 0 {
        0
    } else if keys[0] == name {
        0
    } else {
        1 + spec_first_key(keys.subrange(1, keys.len() as int), name)
    }
}

/// When `name` occurs in `keys` and nowhere before index `j`, the first
/// occurrence is exactly `j`.
pub proof fn lemma_first_key(keys: Seq<Seq<char>>, name: Seq<char>, j: int)
    requires
        0 <= j < keys.len(),
        keys[j] == name,
        forall|i: int| 0 <= i < j ==> keys[i] != name,
    ensures
        spec_first_key(keys, name) == j,
        seq_contains_str(keys, name),
    decreases j,
{
    if j == 0 {
    } else {
        let rest = keys.subrange(1, keys.len() as int);
        lemma_first_key(rest, name, j - 1);
    }
}

/// Finds the first entry of `pool` named `name`.
pub fn pool_find<T>(pool: &Vec<(String, T)>, name: &String) -> (r: Option<usize>)
    ensures
        match r {
            Some(j) => seq_contains_str(keys_view(pool@), name@) && j
                == spec_first_key(keys_view(pool@), name@) && 0 <= j < pool@.len()
                && pool@[j as int].0@ == name@,
            None => !seq_contains_str(keys_view(pool@), name@),
        },
{
    let mut k: usize = 0;
    while k < pool.len()
        invariant
            0 <= k <= pool@.len(),
            forall|i: int| 0 <= i < k ==> keys_view(pool@)[i] != name@,
        decreases pool@.len() - k,
    {
        if pool[k].0.eq(name) {
            proof {
                assert(keys_view(pool@)[k as int] == name@);
                lemma_first_key(keys_view(pool@), name@, k as int);
            }
            return Some(k);
        }
        proof {
            assert(keys_view(pool@)[k as int] == pool@[k as int].0@);
        }
        k += 1;
    }
    None
}

/// A use count one higher, capped at the largest representable count.
pub open spec fn spec_bump(c: u32) -> u32 {
    if c < u32::MAX {
        (c + 1) as u32
    } else {
        c
    }
}

/// Increments a use count, capped at the largest representable count.
pub fn bump(c: u32) -> (r: u32)
    ensures
        r == spec_bump(c),
{
    if c < u32::MAX {
        c + 1
    } else {
        c
    }
}

/// When `name` occurs in `keys`, the first occurrence is a real index
/// holding `name`.
pub proof fn lemma_first_key_found(keys: Seq<Seq<char>>, name: Seq<char>)
    requires
        seq_contains_str(keys, name),
    ensures
        0 <= spec_first_key(keys, name) < keys.len(),
        keys[spec_first_key(keys, name)] == name,
        forall|i: int| 0 <= i < spec_first_key(keys, name) ==> keys[i] != name,
    decreases keys.len(),
{
    if keys.len() == 0 {
        assert(false);
    } else if keys[0] == name {
    } else {
        let rest = keys.subrange(1, keys.len() as int);
        assert(seq_contains_str(rest, name)) by {
            let i = choose|i: int| 0 <= i < keys.len() && keys[i] == name;
            assert(rest[i - 1] == name);
        }
        lemma_first_key_found(rest, name);
        assert forall|i: int| 0 <= i < spec_first_key(keys, name) implies keys[i] != name by {
            if i > 0 {
                assert(rest[i - 1] == keys[i]);
            }
        }
    }
}

} // verus!
