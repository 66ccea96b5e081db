//! How a mono source is cut into chunks of one fixed length.
//!
//! Every stage behind the source works on chunks of exactly
//! `interpolation_steps * block_len` samples. Where the source does not end on
//! a chunk boundary, its last chunk is filled up with a padding sample.

use vstd::prelude::*;
use vstd::arithmetic::div_mod::lemma_fundamental_div_mod_converse;

verus! {

/// The number of chunks of `chunk_len` samples that a source of `source_len`
/// samples gives: one for each full chunk, and one more for a remainder.
pub open spec fn chunk_count(source_len: nat, chunk_len: nat) -> nat
    recommends
        chunk_len > 0,
{
    if source_len % chunk_len == 0 {
        source_len / chunk_len
    } else {
        source_len / chunk_len + 1
    }
}

/// The position in the source at which the `index`-th chunk begins.
pub open spec fn chunk_start(index: nat, chunk_len: nat) -> int {
    (index * chunk_len) as int
}

/// The position in the source before which the `index`-th chunk ends.
pub open spec fn chunk_end(index: nat, chunk_len: nat) -> int {
    chunk_start(index, chunk_len) + chunk_len
}

/// The `index`-th chunk of `source`: the `chunk_len` samples from the chunk's
/// start on, with `pad` wherever the source has ended.
pub open spec fn chunk_at<T>(source: Seq<T>, index: nat, chunk_len: nat, pad: T) -> Seq<T> {
    Seq::new(
        chunk_len,
        |i: int|
            if chunk_start(index, chunk_len) + i < source.len() {
                source[chunk_start(index, chunk_len) + i]
            } else {
                pad
            },
    )
}

/// All chunks of `source`, in order.
pub open spec fn all_chunks<T>(source: Seq<T>, chunk_len: nat, pad: T) -> Seq<Seq<T>> {
    Seq::new(
        chunk_count(source.len(), chunk_len),
        |index: int| chunk_at(source, index as nat, chunk_len, pad),
    )
}

/// Whether the `index`-th chunk lies inside the source, and so is a slice of it
/// that holds no padding.
pub open spec fn chunk_is_whole<T>(source: Seq<T>, index: nat, chunk_len: nat, pad: T) -> bool {
    &&& chunk_end(index, chunk_len) <= source.len()
    &&& chunk_at(source, index, chunk_len, pad) == source.subrange(
        chunk_start(index, chunk_len),
        chunk_end(index, chunk_len),
    )
}

/// The shape of a chunk: the spatialisation engine works through a chunk in
/// `interpolation_steps` blocks of `block_len` samples each.
#[derive(Clone, Copy, Debug, PartialEq, Eq)]
pub struct ChunkFormat {
    interpolation_steps: usize,
    block_len: usize,
}

impl ChunkFormat {
    /// The number of blocks in a chunk.
    pub closed spec fn spec_interpolation_steps(&self) -> nat {
        self.interpolation_steps as nat
    }

    /// The number of samples in a block.
    pub closed spec fn spec_block_len(&self) -> nat {
        self.block_len as nat
    }

    /// The number of samples in a chunk.
    pub open spec fn spec_len(&self) -> nat {
        self.spec_interpolation_steps() * self.spec_block_len()
    }

    /// A chunk is not empty, and its length is a machine-sized number.
    #[verifier::type_invariant]
    spec fn wf(&self) -> bool {
        &&& self.interpolation_steps > 0
        &&& self.block_len > 0
        &&& self.interpolation_steps * self.block_len <= usize::MAX
    }

    /// The format with the given block count and block length, where there is
    /// one: both are at least one and their product fits in a `usize`.
    pub fn new(interpolation_steps: usize, block_len: usize) -> (format: Option<Self>)
        ensures
            format.is_some() <==> interpolation_steps > 0 && block_len > 0 && interpolation_steps
                * block_len <= usize::MAX,
            format matches Some(f) ==> f.spec_interpolation_steps() == interpolation_steps
                && f.spec_block_len() == block_len,
    {
        if interpolation_steps == 0 || block_len == 0 {
            return None;
        }
        match interpolation_steps.checked_mul(block_len) {
            Some(_) => Some(ChunkFormat { interpolation_steps, block_len }),
            None => None,
        }
    }

    /// The number of blocks in a chunk.
    pub fn interpolation_steps(&self) -> (steps: usize)
        ensures
            steps == self.spec_interpolation_steps(),
    {
        self.interpolation_steps
    }

    /// The number of samples in a block.
    pub fn block_len(&self) -> (len: usize)
        ensures
            len == self.spec_block_len(),
    {
        self.block_len
    }

    /// The number of samples in a chunk, which is at least one.
    pub fn len(&self) -> (len: usize)
        ensures
            len == self.spec_len(),
            len > 0,
    {
        proof {
            use_type_invariant(self);
            assert(self.spec_len() > 0) by (nonlinear_arith)
                requires
                    self.spec_interpolation_steps() > 0,
                    self.spec_block_len() > 0,
                    self.spec_len() == self.spec_interpolation_steps() * self.spec_block_len(),
            ;
        }
        self.interpolation_steps * self.block_len
    }

    /// The number of chunks that a source of `source_len` samples gives.
    pub fn count(&self, source_len: usize) -> (count: usize)
        ensures
            count == chunk_count(source_len as nat, self.spec_len()),
    {
        let len: usize = self.len();
        let full: usize = source_len / len;
        if source_len % len == 0 {
            full
        } else {
            assert(full < source_len) by (nonlinear_arith)
                requires
                    full == source_len as int / len as int,
                    source_len as int % len as int != 0,
                    len > 0,
            ;
            full + 1
        }
    }

    /// The `index`-th chunk of `source`, always of full length: where the
    /// source ends inside the chunk or before it, the rest is `pad`.
    pub fn chunk<T: Copy>(&self, source: &[T], index: usize, pad: T) -> (chunk: Vec<T>)
        ensures
            chunk@ == chunk_at(source@, index as nat, self.spec_len(), pad),
    {
        let len: usize = self.len();
        let source_len: usize = source.len();
        let (start, present): (usize, usize) = match index.checked_mul(len) {
            Some(start) => {
                if start >= source_len {
                    (0, 0)
                } else if source_len - start < len {
                    (start, source_len - start)
                } else {
                    (start, len)
                }
            },
            None => (0, 0),
        };
        let ghost base = chunk_start(index as nat, len as nat);
        let mut chunk: Vec<T> = Vec::with_capacity(len);
        let mut i: usize = 0;
        while i < present
            invariant
                i <= present <= len,
                present > 0 ==> start + present <= source_len,
                present > 0 ==> start == base,
                source@.len() == source_len,
                chunk@.len() == i,
                forall|k: int| 0 <= k < i ==> chunk@[k] == source@[start + k],
            decreases present - i,
        {
            chunk.push(source[start + i]);
            i = i + 1;
        }
        while i < len
            invariant
                present <= i <= len,
                chunk@.len() == i,
                present > 0 ==> start == base,
                forall|k: int| 0 <= k < present ==> chunk@[k] == source@[start + k],
                forall|k: int| present <= k < i ==> chunk@[k] == pad,
            decreases len - i,
        {
            chunk.push(pad);
            i = i + 1;
        }
        chunk
    }
}

/// A source that ends on a chunk boundary, after `chunks` whole chunks, gives
/// exactly `chunks` chunks, and none of them holds padding.
pub proof fn lemma_whole_chunks<T>(source: Seq<T>, chunks: nat, chunk_len: nat, pad: T)
    requires
        chunk_len > 0,
        source.len() == chunks * chunk_len,
    ensures
        chunk_count(source.len(), chunk_len) == chunks,
        forall|index: nat|
            index < chunks ==> #[trigger] chunk_is_whole(source, index, chunk_len, pad),
{
    lemma_fundamental_div_mod_converse(source.len() as int, chunk_len as int, chunks as int, 0);
    lemma_leading_chunks_are_whole(source, chunks, chunk_len, pad);
}

/// A source that ends `rest` samples after `chunks` whole chunks, with
/// `rest` less than a chunk, gives one chunk more. The whole chunks hold no
/// padding; the last one holds the `rest` samples and then padding only.
pub proof fn lemma_partial_last_chunk<T>(
    source: Seq<T>,
    chunks: nat,
    rest: nat,
    chunk_len: nat,
    pad: T,
)
    requires
        0 < rest < chunk_len,
        source.len() == chunks * chunk_len + rest,
    ensures
        chunk_count(source.len(), chunk_len) == chunks + 1,
        forall|index: nat|
            index < chunks ==> #[trigger] chunk_is_whole(source, index, chunk_len, pad),
        chunk_at(source, chunks, chunk_len, pad) == source.subrange(
            chunk_start(chunks, chunk_len),
            source.len() as int,
        ) + Seq::new((chunk_len - rest) as nat, |i: int| pad),
{
    lemma_fundamental_div_mod_converse(
        source.len() as int,
        chunk_len as int,
        chunks as int,
        rest as int,
    );
    lemma_leading_chunks_are_whole(source, chunks, chunk_len, pad);
}

/// The first `chunks` chunks of a source of at least `chunks * chunk_len`
/// samples hold no padding.
proof fn lemma_leading_chunks_are_whole<T>(source: Seq<T>, chunks: nat, chunk_len: nat, pad: T)
    requires
        chunks * chunk_len <= source.len(),
    ensures
        forall|index: nat|
            index < chunks ==> #[trigger] chunk_is_whole(source, index, chunk_len, pad),
{
    assert forall|index: nat| index < chunks implies #[trigger] chunk_is_whole(
        source,
        index,
        chunk_len,
        pad,
    ) by {
        assert(0 <= index * chunk_len && index * chunk_len + chunk_len <= chunks * chunk_len)
            by (nonlinear_arith)
            requires
                index + 1 <= chunks,
        ;
        assert(chunk_at(source, index, chunk_len, pad) =~= source.subrange(
            chunk_start(index, chunk_len),
            chunk_end(index, chunk_len),
        ));
    }
}

/// The chunks of a source reach just beyond its end: they hold every sample,
/// and less than one chunk of padding.
pub proof fn lemma_chunks_reach_the_end(source_len: nat, chunk_len: nat)
    requires
        chunk_len > 0,
    ensures
        source_len <= chunk_count(source_len, chunk_len) * chunk_len < source_len + chunk_len,
{
    vstd::arithmetic::div_mod::lemma_fundamental_div_mod(source_len as int, chunk_len as int);
    vstd::arithmetic::div_mod::lemma_mod_bound(source_len as int, chunk_len as int);
    let full = source_len / chunk_len;
    assert((full + 1) * chunk_len == full * chunk_len + chunk_len) by (nonlinear_arith);
    assert(chunk_len * full == full * chunk_len) by (nonlinear_arith);
}

/// The first `count` chunks of a source, put together, are the source as far
/// as they reach, and padding from where it ends.
proof fn lemma_chunks_joined<T>(source: Seq<T>, chunk_len: nat, pad: T, count: nat)
    requires
        chunk_len > 0,
    ensures
        Seq::new(count, |index: int| chunk_at(source, index as nat, chunk_len, pad)).flatten()
            == Seq::new(
            count * chunk_len,
            |i: int|
                if i < source.len() {
                    source[i]
                } else {
                    pad
                },
        ),
    decreases count,
{
    let chunks = Seq::new(count, |index: int| chunk_at(source, index as nat, chunk_len, pad));
    if count > 0 {
        let before = (count - 1) as nat;
        let earlier = Seq::new(before, |index: int| chunk_at(source, index as nat, chunk_len, pad));
        let last = chunk_at(source, before, chunk_len, pad);
        lemma_chunks_joined(source, chunk_len, pad, before);
        assert(chunks =~= earlier.push(last));
        earlier.lemma_flatten_push(last);
        assert(count * chunk_len == before * chunk_len + chunk_len) by (nonlinear_arith)
            requires
                count == before + 1,
        ;
    }
}

/// Nothing is lost, repeated or moved by the cut into chunks: all chunks put
/// together, in order, are the source followed by padding up to the next
/// chunk boundary.
pub proof fn lemma_chunks_cover_the_source<T>(source: Seq<T>, chunk_len: nat, pad: T)
    requires
        chunk_len > 0,
    ensures
        chunk_count(source.len(), chunk_len) * chunk_len >= source.len(),
        all_chunks(source, chunk_len, pad).flatten() == source + Seq::new(
            (chunk_count(source.len(), chunk_len) * chunk_len - source.len()) as nat,
            |i: int| pad,
        ),
{
    lemma_chunks_reach_the_end(source.len(), chunk_len);
    lemma_chunks_joined(source, chunk_len, pad, chunk_count(source.len(), chunk_len));
}

} // verus!
