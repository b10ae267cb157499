//! Replica selection: deterministic route-key hashing for keyed requests and
//! round-robin for unkeyed ones.
//!
//! A route key is derived from a request's identifying fields as a pure
//! function of the request, so all requests concerning the same entity carry
//! equal keys. Hashing the key over the current replica set then lands those
//! requests on the same replica for as long as the set is unchanged —
//! best-effort stickiness, since the set can change between calls.

use vstd::prelude::*;

verus! {

/// Modulus of the route-key hash; prime, and small enough that one hashing
/// step never overflows a `u64`.
pub const HASH_MOD: u64 = 1_000_000_007;

/// Multiplier of the route-key hash.
pub const HASH_MULT: u64 = 31;

/// Seed of the route-key hash.
pub const HASH_SEED: u64 = 5381;

/// The route-key hash, mathematically: a polynomial rolling hash of the key
/// bytes modulo [`HASH_MOD`]. A pure function of the key, so equal keys hash
/// equal on every call.
pub open spec fn hash_spec(key: Seq<u8>) -> int
    decreases key.len(),
{
    if key.len() == 0 {
        HASH_SEED as int
    } else {
        (hash_spec(key.drop_last()) * HASH_MULT + key.last()) % (HASH_MOD as int)
    }
}

/// Which replica a keyed request selects: hash the key, index the replica
/// set. `None` exactly when the set is empty.
pub open spec fn select_spec(replicas: Seq<u64>, key: Seq<u8>) -> Option<u64> {
    if replicas.len() == 0 {
        None
    } else {
        Some(replicas[hash_spec(key) % replicas.len() as int])
    }
}

/// Which replica an unkeyed request selects at round-robin position
/// `counter`: the counter indexes the replica set. `None` exactly when the
/// set is empty.
pub open spec fn rr_select_spec(replicas: Seq<u64>, counter: u64) -> Option<u64> {
    if replicas.len() == 0 {
        None
    } else {
        Some(replicas[counter as int % replicas.len() as int])
    }
}

/// Hashes a route key.
pub fn hash_key(key: &Vec<u8>) -> (h: u64)
    ensures
        h as int == hash_spec(key@),
        h < HASH_MOD,
{
    let mut h: u64 = HASH_SEED;
    let mut i: usize = 0;
    while i < key.len()
        invariant
            i <= key.len(),
            h < HASH_MOD,
            h as int == hash_spec(key@.subrange(0, i as int)),
        decreases key.len() - i,
    {
        proof {
            assert(key@.subrange(0, i + 1).drop_last() =~= key@.subrange(0, i as int));
            assert(key@.subrange(0, i + 1).last() == key@[i as int]);
        }
        h = (h * HASH_MULT + key[i] as u64) % HASH_MOD;
        i = i + 1;
    }
    proof {
        assert(key@.subrange(0, key@.len() as int) =~= key@);
    }
    h
}

/// Selects the target replica for a keyed request: deterministic in the key
/// and the replica set.
pub fn select_replica(replicas: &Vec<u64>, key: &Vec<u8>) -> (r: Option<u64>)
    ensures
        r == select_spec(replicas@, key@),
{
    if replicas.len() == 0 {
        None
    } else {
        let h = hash_key(key);
        let idx: u64 = h % (replicas.len() as u64);
        Some(replicas[idx as usize])
    }
}

/// Selects the target replica for an unkeyed request at round-robin position
/// `counter`.
pub fn rr_select(replicas: &Vec<u64>, counter: u64) -> (r: Option<u64>)
    ensures
        r == rr_select_spec(replicas@, counter),
{
    if replicas.len() == 0 {
        None
    } else {
        let idx: u64 = counter % (replicas.len() as u64);
        Some(replicas[idx as usize])
    }
}

/// Keyed stickiness: for a fixed, unchanged replica set, two requests with
/// equal route keys always select the same replica.
pub proof fn lemma_keyed_stickiness(replicas: Seq<u64>, k1: Seq<u8>, k2: Seq<u8>)
    requires
        k1 == k2,
    ensures
        select_spec(replicas, k1) == select_spec(replicas, k2),
{
}

/// Whatever it selects, replica selection only ever picks a member of the
/// replica set, and picks one whenever the set is nonempty.
pub proof fn lemma_select_in_set(replicas: Seq<u64>, key: Seq<u8>)
    ensures
        replicas.len() > 0 <==> select_spec(replicas, key) is Some,
        select_spec(replicas, key) matches Some(c) ==> replicas.contains(c),
{
    if replicas.len() > 0 {
        let i = hash_spec(key) % replicas.len() as int;
        assert(0 <= i < replicas.len());
        assert(replicas[i] == select_spec(replicas, key)->0);
    }
}

} // verus!
