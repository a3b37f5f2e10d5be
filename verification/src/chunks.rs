//! Chunked bodies.
//!
//! A response body arrives as a lazy, finite sequence of byte buffers, and
//! the consumer writes each chunk in arrival order without holding the
//! whole object. What that discipline must reproduce is stated here: the
//! concatenation of the chunks, in order.

use vstd::prelude::*;

verus! {

/// The bytes a chunk sequence carries: each chunk's bytes, in arrival
/// order.
pub open spec fn concat_chunks(chunks: Seq<Seq<u8>>) -> Seq<u8>
    decreases chunks.len(),
{
    if chunks.len() == 0 {
        Seq::empty()
    } else {
        concat_chunks(chunks.drop_last()) + chunks.last()
    }
}

/// Splits `data` into chunks of at most `size` bytes that carry exactly
/// `data`'s bytes in order.
pub fn split_chunks(data: &Vec<u8>, size: usize) -> (r: Vec<Vec<u8>>)
    requires
        size >= 1,
    ensures
        concat_chunks(r@.map_values(|c: Vec<u8>| c@)) == data@,
        forall|j: int| 0 <= j < r@.len() ==> (#[trigger] r@[j])@.len() <= size,
{
    let n: usize = data.len();
    let mut r: Vec<Vec<u8>> = Vec::new();
    let mut off: usize = 0;
    while off < n
        invariant
            n == data@.len(),
            off <= n,
            size >= 1,
            concat_chunks(r@.map_values(|c: Vec<u8>| c@)) == data@.take(off as int),
            forall|j: int| 0 <= j < r@.len() ==> (#[trigger] r@[j])@.len() <= size,
        decreases data@.len() - off,
    {
        let remaining: usize = n - off;
        let step: usize = if remaining < size {
            remaining
        } else {
            size
        };
        let mut chunk: Vec<u8> = Vec::new();
        let mut j: usize = 0;
        while j < step
            invariant
                j <= step,
                n == data@.len(),
                off + step <= n,
                chunk@ == data@.subrange(off as int, off + j),
            decreases step - j,
        {
            chunk.push(data[off + j]);
            proof {
                assert(chunk@ =~= data@.subrange(off as int, off + j + 1));
            }
            j = j + 1;
        }
        let ghost prev = r@.map_values(|c: Vec<u8>| c@);
        r.push(chunk);
        proof {
            let cur = r@.map_values(|c: Vec<u8>| c@);
            assert(cur.drop_last() =~= prev);
            assert(cur.last() == data@.subrange(off as int, off + step));
            assert(concat_chunks(cur) =~= data@.take(off + step));
        }
        off = off + step;
    }
    proof {
        assert(data@.take(data@.len() as int) =~= data@);
    }
    r
}

/// Writes a chunk sequence out in arrival order, reproducing exactly the
/// bytes the chunks carry.
pub fn assemble_chunks(chunks: &Vec<Vec<u8>>) -> (r: Vec<u8>)
    ensures
        r@ == concat_chunks(chunks@.map_values(|c: Vec<u8>| c@)),
{
    let mut r: Vec<u8> = Vec::new();
    let mut i: usize = 0;
    while i < chunks.len()
        invariant
            i <= chunks@.len(),
            r@ == concat_chunks(chunks@.take(i as int).map_values(|c: Vec<u8>| c@)),
        decreases chunks@.len() - i,
    {
        r.extend_from_slice(chunks[i].as_slice());
        proof {
            let cur = chunks@.take(i + 1).map_values(|c: Vec<u8>| c@);
            assert(cur.drop_last() =~= chunks@.take(i as int).map_values(|c: Vec<u8>| c@));
            assert(cur.last() == chunks@[i as int]@);
        }
        i = i + 1;
    }
    proof {
        assert(chunks@.take(chunks@.len() as int) =~= chunks@);
    }
    r
}

} // verus!
