//! Laws of the transfer core, stated against the same model the store and
//! transfer contracts use: a bucket is a map from keys to byte sequences,
//! an upload inserts, a download reads and streams the stored body.

use vstd::prelude::*;
use crate::chunks::concat_chunks;

verus! {

/// Uploading a body to a key and then downloading that key reproduces the
/// body byte for byte, whatever chunking the response arrived in —
/// assuming no other write to that key in between.
pub proof fn lemma_round_trip(
    store: Map<Seq<char>, Seq<u8>>,
    k: Seq<char>,
    b: Seq<u8>,
    response: Seq<Seq<u8>>,
)
    requires
        concat_chunks(response) == store.insert(k, b)[k],
    ensures
        store.insert(k, b).contains_key(k),
        concat_chunks(response) == b,
{
}

/// Uploading to an existing key overwrites it: a later download returns
/// the newest body, not the one it replaced, and every other key keeps
/// what it held.
pub proof fn lemma_overwrite(
    store: Map<Seq<char>, Seq<u8>>,
    k: Seq<char>,
    first: Seq<u8>,
    second: Seq<u8>,
)
    ensures
        store.insert(k, first).insert(k, second)[k] == second,
        forall|k2: Seq<char>|
            k2 != k && store.contains_key(k2) ==> store.insert(k, first).insert(k, second)[k2]
                == store[k2],
{
}

} // verus!
