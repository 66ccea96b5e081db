//! The bounded queue of finished chunks between the render thread and the
//! device callback.

use vstd::prelude::*;

verus! {

/// A fixed-capacity first-in, first-out queue of chunks.
///
/// One side pushes finished chunks, the other pops them in the order in which
/// they were pushed. Neither operation waits: a push onto a full queue hands
/// the chunk back, a pop from an empty queue returns nothing. The slots are
/// allocated once, in [`StreamHandoff::new`].
///
/// The view of a queue is the sequence of the queued chunks, oldest first.
pub struct StreamHandoff<T> {
    slots: Vec<Option<Vec<T>>>,
    head: usize,
    len: usize,
}

/// The slot that holds the `i`-th oldest chunk of a ring of `capacity` slots
/// whose oldest chunk is in slot `head`.
spec fn ring_slot(head: int, i: int, capacity: int) -> int {
    if head + i < capacity {
        head + i
    } else {
        head + i - capacity
    }
}

/// The queue after `chunk` was offered to it: with the chunk at its end where
/// there was room, and as it was where there was none.
pub open spec fn offered<T>(queue: Seq<Seq<T>>, capacity: nat, chunk: Seq<T>) -> Seq<Seq<T>> {
    if queue.len() < capacity {
        queue.push(chunk)
    } else {
        queue
    }
}

/// The queue after each of `chunks` was offered to it in turn, with no chunk
/// taken out in between.
pub open spec fn offered_all<T>(queue: Seq<Seq<T>>, capacity: nat, chunks: Seq<Seq<T>>) -> Seq<
    Seq<T>,
>
    decreases chunks.len(),
{
    if chunks.len() == 0 {
        queue
    } else {
        offered_all(offered(queue, capacity, chunks[0]), capacity, chunks.skip(1))
    }
}

impl<T> View for StreamHandoff<T> {
    type V = Seq<Seq<T>>;

    closed spec fn view(&self) -> Seq<Seq<T>> {
        Seq::new(
            self.len as nat,
            |i: int| self.slots@[ring_slot(self.head as int, i, self.slots@.len() as int)].unwrap()@,
        )
    }
}

impl<T> StreamHandoff<T> {
    /// The number of chunks that the queue can hold.
    pub closed spec fn spec_capacity(&self) -> nat {
        self.slots@.len()
    }

    /// The queued chunks lie in consecutive slots of the ring, starting at
    /// the head.
    #[verifier::type_invariant]
    spec fn wf(&self) -> bool {
        &&& self.len <= self.slots@.len()
        &&& self.head < self.slots@.len() || (self.head == 0 && self.slots@.len() == 0)
        &&& forall|i: int|
            0 <= i < self.len ==> (#[trigger] self.slots@[ring_slot(
                self.head as int,
                i,
                self.slots@.len() as int,
            )]).is_some()
    }

    /// An empty queue with room for `capacity` chunks.
    pub fn new(capacity: usize) -> (queue: Self)
        ensures
            queue@ == Seq::<Seq<T>>::empty(),
            queue.spec_capacity() == capacity,
    {
        let mut slots: Vec<Option<Vec<T>>> = Vec::with_capacity(capacity);
        let mut i: usize = 0;
        while i < capacity
            invariant
                i <= capacity,
                slots@.len() == i,
            decreases capacity - i,
        {
            slots.push(None);
            i += 1;
        }
        StreamHandoff { slots, head: 0, len: 0 }
    }

    /// The number of chunks that the queue can hold.
    pub fn capacity(&self) -> (capacity: usize)
        ensures
            capacity == self.spec_capacity(),
    {
        self.slots.len()
    }

    /// The number of queued chunks.
    pub fn len(&self) -> (len: usize)
        ensures
            len == self@.len(),
            len <= self.spec_capacity(),
    {
        proof {
            use_type_invariant(self);
        }
        self.len
    }

    /// Whether no chunk is queued.
    pub fn is_empty(&self) -> (empty: bool)
        ensures
            empty <==> self@.len() == 0,
    {
        self.len == 0
    }

    /// Whether a push would be refused.
    pub fn is_full(&self) -> (full: bool)
        ensures
            full <==> self@.len() == self.spec_capacity(),
    {
        self.len == self.slots.len()
    }

    /// Queues `chunk` behind the chunks already there, unless the queue is
    /// full: then the queue stays as it is and the chunk comes back.
    pub fn try_push(&mut self, chunk: Vec<T>) -> (refused: Result<(), Vec<T>>)
        ensures
            final(self).spec_capacity() == old(self).spec_capacity(),
            refused.is_ok() <==> old(self)@.len() < old(self).spec_capacity(),
            refused matches Err(back) ==> back == chunk,
            final(self)@ == offered(old(self)@, old(self).spec_capacity(), chunk@),
            final(self)@.len() <= final(self).spec_capacity(),
    {
        proof {
            use_type_invariant(&*self);
        }
        let capacity: usize = self.slots.len();
        if self.len == capacity {
            return Err(chunk);
        }
        let room: usize = capacity - self.head;
        let tail: usize = if self.len < room {
            self.head + self.len
        } else {
            self.len - room
        };
        self.slots[tail] = Some(chunk);
        self.len = self.len + 1;
        Ok(())
    }

    /// Takes the oldest chunk out of the queue, if there is one.
    pub fn try_pop(&mut self) -> (chunk: Option<Vec<T>>)
        ensures
            final(self).spec_capacity() == old(self).spec_capacity(),
            chunk.is_some() <==> old(self)@.len() > 0,
            chunk matches Some(c) ==> c@ == old(self)@[0] && final(self)@ == old(self)@.skip(1),
            chunk.is_none() ==> final(self)@ == old(self)@,
    {
        proof {
            use_type_invariant(&*self);
        }
        if self.len == 0 {
            return None;
        }
        let capacity: usize = self.slots.len();
        let ghost before = *self;
        assert(before.slots@[ring_slot(before.head as int, 0, capacity as int)].is_some());
        let oldest: usize = self.head;
        let next: usize = if oldest + 1 == capacity {
            0
        } else {
            oldest + 1
        };
        self.len = self.len - 1;
        assert forall|i: int| 0 <= i < self.len implies (#[trigger] self.slots@[ring_slot(
            next as int,
            i,
            capacity as int,
        )]).is_some() by {
            assert(before.slots@[ring_slot(oldest as int, i + 1, capacity as int)].is_some());
        }
        self.head = next;
        self.slots[oldest].take()
    }
}

/// Chunks that are offered while none is taken are queued in order until the
/// queue is full, and from then on every one of them is refused and the queue
/// stays as it is.
pub proof fn lemma_offers_fill_the_room<T>(queue: Seq<Seq<T>>, capacity: nat, chunks: Seq<Seq<T>>)
    requires
        queue.len() <= capacity,
    ensures
        offered_all(queue, capacity, chunks) == queue + chunks.take(
            vstd::math::min(chunks.len() as int, capacity - queue.len()),
        ),
    decreases chunks.len(),
{
    if chunks.len() > 0 {
        lemma_offers_fill_the_room(offered(queue, capacity, chunks[0]), capacity, chunks.skip(1));
    }
}

/// One chunk more than an empty queue has room for: all but the last are
/// queued, in order; the last one is refused at once, and the queue is the
/// same before and after it.
pub proof fn lemma_one_chunk_too_many<T>(capacity: nat, chunks: Seq<Seq<T>>)
    requires
        chunks.len() == capacity + 1,
    ensures
        offered_all(Seq::<Seq<T>>::empty(), capacity, chunks.take(capacity as int)) == chunks.take(
            capacity as int,
        ),
        offered(chunks.take(capacity as int), capacity, chunks[capacity as int]) == chunks.take(
            capacity as int,
        ),
        offered_all(Seq::<Seq<T>>::empty(), capacity, chunks) == chunks.take(capacity as int),
{
    let nothing = Seq::<Seq<T>>::empty();
    lemma_offers_fill_the_room(nothing, capacity, chunks.take(capacity as int));
    lemma_offers_fill_the_room(nothing, capacity, chunks);
}

} // verus!
