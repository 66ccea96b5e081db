//! What the device callback plays.
//!
//! Each time the device asks for a buffer, the sink first plays what the
//! previous callback left over, then whole chunks from the handoff queue, and
//! keeps the tail of the last chunk for the next callback. When the queue runs
//! dry the rest of the buffer is silence.

use vstd::prelude::*;
use crate::handoff::StreamHandoff;

verus! {

/// The samples that wait to be played, in playing order: the leftover of the
/// previous callback, then the queued chunks from oldest to newest.
pub open spec fn waiting<T>(leftover: Seq<T>, queue: Seq<Seq<T>>) -> Seq<T> {
    leftover + queue.flatten()
}

/// What a buffer of `n` samples holds after it was filled from `stream`: the
/// samples of the stream in order and, where they run out, `silence`.
pub open spec fn played<T>(stream: Seq<T>, n: nat, silence: T) -> Seq<T> {
    Seq::new(
        n,
        |i: int|
            if i < stream.len() {
                stream[i]
            } else {
                silence
            },
    )
}

/// How many chunks leave `queue`, oldest first, to supply `need` samples: as
/// few as will do, and all of them where they do not suffice.
pub open spec fn chunks_taken<T>(queue: Seq<Seq<T>>, need: nat) -> nat
    decreases queue.len(),
{
    if need == 0 || queue.len() == 0 {
        0
    } else if queue[0].len() >= need {
        1
    } else {
        1 + chunks_taken(queue.skip(1), (need - queue[0].len()) as nat)
    }
}

/// How many samples a buffer of `n` still needs once the leftover is played.
pub open spec fn needed_from_queue(leftover_len: nat, n: nat) -> nat {
    if n > leftover_len {
        (n - leftover_len) as nat
    } else {
        0
    }
}

/// The queue after a buffer of `n` samples was filled.
pub open spec fn queue_after<T>(leftover: Seq<T>, queue: Seq<Seq<T>>, n: nat) -> Seq<Seq<T>> {
    queue.skip(chunks_taken(queue, needed_from_queue(leftover.len(), n)) as int)
}

/// The leftover after a buffer of `n` samples was filled: what was neither
/// played nor is still queued.
pub open spec fn leftover_after<T>(leftover: Seq<T>, queue: Seq<Seq<T>>, n: nat) -> Seq<T> {
    let all = waiting(leftover, queue);
    let rest = all.skip(vstd::math::min(n as int, all.len() as int));
    rest.take(rest.len() - queue_after(leftover, queue, n).flatten().len())
}

/// The device-callback side of the pipeline.
///
/// The sink owns the leftover: the tail of the chunk that did not fit into the
/// last buffer. Its view is that tail.
pub struct PlaybackSink<T> {
    silence: T,
    chunk: Vec<T>,
    played: usize,
}

impl<T> View for PlaybackSink<T> {
    type V = Seq<T>;

    closed spec fn view(&self) -> Seq<T> {
        self.chunk@.skip(self.played as int)
    }
}

impl<T> PlaybackSink<T> {
    /// The sample that is played when nothing else is ready.
    pub closed spec fn silence(&self) -> T {
        self.silence
    }

    /// No more of the chunk is played than it holds.
    #[verifier::type_invariant]
    spec fn wf(&self) -> bool {
        self.played <= self.chunk@.len()
    }
}

impl<T: Copy> PlaybackSink<T> {
    /// A sink with no leftover that plays `silence` on underrun.
    pub fn new(silence: T) -> (sink: Self)
        ensures
            sink@ == Seq::<T>::empty(),
            sink.silence() == silence,
    {
        PlaybackSink { silence, chunk: Vec::new(), played: 0 }
    }

    /// The number of leftover samples.
    pub fn leftover_len(&self) -> (len: usize)
        ensures
            len == self@.len(),
    {
        proof {
            use_type_invariant(self);
        }
        self.chunk.len() - self.played
    }

    /// Fills `out` completely and in order.
    ///
    /// The leftover is played first. While the buffer has room after that, the
    /// oldest chunk is taken from `handoff`; what does not fit of the last one
    /// becomes the new leftover. If the queue is empty before the buffer is
    /// full, the rest of the buffer is filled with silence. No sample is lost,
    /// repeated or reordered.
    pub fn fill(&mut self, out: &mut [T], handoff: &mut StreamHandoff<T>)
        ensures
            final(self).silence() == old(self).silence(),
            final(handoff).spec_capacity() == old(handoff).spec_capacity(),
            final(out)@ == played(
                waiting(old(self)@, old(handoff)@),
                old(out)@.len(),
                old(self).silence(),
            ),
            final(handoff)@ == queue_after(old(self)@, old(handoff)@, old(out)@.len()),
            final(self)@ == leftover_after(old(self)@, old(handoff)@, old(out)@.len()),
            waiting(final(self)@, final(handoff)@) == waiting(old(self)@, old(handoff)@).skip(
                vstd::math::min(
                    old(out)@.len() as int,
                    waiting(old(self)@, old(handoff)@).len() as int,
                ),
            ),
    {
        proof {
            use_type_invariant(&*self);
        }
        let n: usize = out.len();
        let ghost leftover0 = self@;
        let ghost queue0 = handoff@;
        let ghost all = waiting(leftover0, queue0);
        let ghost need0 = needed_from_queue(leftover0.len(), n as nat);

        let left: usize = self.chunk.len() - self.played;
        let first: usize = if left < n {
            left
        } else {
            n
        };
        copy_samples(out, 0, &self.chunk, self.played, first);
        self.played = self.played + first;
        let mut idx: usize = first;
        let ghost mut taken: nat = 0;

        while idx < n
            invariant
                self.silence() == old(self).silence(),
                handoff.spec_capacity() == old(handoff).spec_capacity(),
                out@.len() == n,
                idx <= n,
                idx <= all.len(),
                forall|k: int| 0 <= k < idx ==> out@[k] == all[k],
                taken <= queue0.len(),
                handoff@ == queue0.skip(taken as int),
                taken + chunks_taken(handoff@, (n - idx) as nat) == chunks_taken(queue0, need0),
                self@ + handoff@.flatten() == all.skip(idx as int),
                idx < n ==> self@.len() == 0,
            ensures
                self.silence() == old(self).silence(),
                handoff.spec_capacity() == old(handoff).spec_capacity(),
                out@ == played(all, n as nat, self.silence()),
                handoff@ == queue0.skip(chunks_taken(queue0, need0) as int),
                self@ + handoff@.flatten() == all.skip(vstd::math::min(n as int, all.len() as int)),
            decreases handoff@.len(),
        {
            match handoff.try_pop() {
                Some(chunk) => {
                    let room: usize = n - idx;
                    let count: usize = if chunk.len() < room {
                        chunk.len()
                    } else {
                        room
                    };
                    let ghost rest = all.skip(idx as int);
                    copy_samples(out, idx, &chunk, 0, count);
                    proof {
                        assert forall|k: int| idx <= k < idx + count implies out@[k] == all[k] by {
                            assert(chunk@[k - idx] == rest[k - idx]);
                        }
                    }
                    self.played = 0;
                    self.chunk = chunk;
                    self.played = count;
                    idx = idx + count;
                    proof {
                        taken = taken + 1;
                        assert(rest.skip(count as int) =~= all.skip(idx as int));
                    }
                },
                None => {
                    fill_from(out, idx, self.silence);
                    break ;
                },
            }
        }
    }
}

/// What [`chunks_taken`] takes: a prefix of the queue that holds the needed
/// samples, or the whole queue, and whose last chunk is needed.
pub proof fn lemma_chunks_taken<T>(queue: Seq<Seq<T>>, need: nat)
    ensures
        chunks_taken(queue, need) <= queue.len(),
        queue.flatten() == queue.take(chunks_taken(queue, need) as int).flatten() + queue.skip(
            chunks_taken(queue, need) as int,
        ).flatten(),
        queue.take(chunks_taken(queue, need) as int).flatten().len() >= vstd::math::min(
            need as int,
            queue.flatten().len() as int,
        ),
        chunks_taken(queue, need) > 0 ==> queue.take(
            chunks_taken(queue, need) - 1,
        ).flatten().len() < need,
    decreases queue.len(),
{
    let taken = chunks_taken(queue, need);
    if need == 0 || queue.len() == 0 {
        assert(queue.skip(0) =~= queue);
    } else {
        let tail = queue.skip(1);
        if queue[0].len() >= need {
            queue.take(1).lemma_flatten_one_element();
        } else {
            let tail_need = (need - queue[0].len()) as nat;
            let tail_taken = chunks_taken(tail, tail_need);
            lemma_chunks_taken(tail, tail_need);
            assert(queue.take(taken as int).drop_first() =~= tail.take(tail_taken as int));
            assert(queue.skip(taken as int) =~= tail.skip(tail_taken as int));
            if tail_taken > 0 {
                assert(queue.take(taken - 1).drop_first() =~= tail.take(tail_taken - 1));
            }
        }
    }
}

/// A chunk that is pushed onto the queue is played after everything that
/// waited before it.
pub proof fn lemma_push_appends_to_the_stream<T>(
    leftover: Seq<T>,
    queue: Seq<Seq<T>>,
    chunk: Seq<T>,
)
    ensures
        waiting(leftover, queue.push(chunk)) == waiting(leftover, queue) + chunk,
{
    queue.lemma_flatten_push(chunk);
}

/// A fill loses no sample: what waits afterwards is what waited before, less
/// the samples that were played.
pub proof fn lemma_fill_keeps_the_rest<T>(leftover: Seq<T>, queue: Seq<Seq<T>>, n: nat)
    ensures
        waiting(leftover_after(leftover, queue, n), queue_after(leftover, queue, n)) == waiting(
            leftover,
            queue,
        ).skip(vstd::math::min(n as int, waiting(leftover, queue).len() as int)),
{
    lemma_chunks_taken(queue, needed_from_queue(leftover.len(), n));
}

/// Underrun: a buffer at least as long as everything that waits holds all of
/// it in order, and from there to its end nothing but silence. Nothing is
/// left over, and a buffer that is strictly longer empties the queue.
pub proof fn lemma_underrun_tail_is_silence<T>(
    leftover: Seq<T>,
    queue: Seq<Seq<T>>,
    n: nat,
    silence: T,
)
    requires
        n >= waiting(leftover, queue).len(),
    ensures
        played(waiting(leftover, queue), n, silence).take(
            waiting(leftover, queue).len() as int,
        ) == waiting(leftover, queue),
        forall|i: int|
            waiting(leftover, queue).len() <= i < n ==> #[trigger] played(
                waiting(leftover, queue),
                n,
                silence,
            )[i] == silence,
        leftover_after(leftover, queue, n).len() == 0,
        queue_after(leftover, queue, n).flatten().len() == 0,
        n > waiting(leftover, queue).len() ==> queue_after(leftover, queue, n).len() == 0,
{
    lemma_fill_keeps_the_rest(leftover, queue, n);
    if n > waiting(leftover, queue).len() {
        lemma_short_queue_is_emptied(queue, needed_from_queue(leftover.len(), n));
    }
}

/// A queue that holds fewer samples than are needed is taken whole.
proof fn lemma_short_queue_is_emptied<T>(queue: Seq<Seq<T>>, need: nat)
    requires
        need > queue.flatten().len(),
    ensures
        chunks_taken(queue, need) == queue.len(),
    decreases queue.len(),
{
    if queue.len() > 0 {
        lemma_short_queue_is_emptied(queue.skip(1), (need - queue[0].len()) as nat);
    }
}

/// A buffer no longer than the leftover is a copy of the leftover's first
/// samples; the leftover shrinks by as many, and the queue is not touched.
pub proof fn lemma_small_request_shrinks_leftover<T>(
    leftover: Seq<T>,
    queue: Seq<Seq<T>>,
    n: nat,
    silence: T,
)
    requires
        n <= leftover.len(),
    ensures
        played(waiting(leftover, queue), n, silence) == leftover.take(n as int),
        leftover_after(leftover, queue, n) == leftover.skip(n as int),
        queue_after(leftover, queue, n) == queue,
{
    assert(queue_after(leftover, queue, n) =~= queue);
}

/// While the producer is stalled, with nothing left over and nothing queued,
/// every sample of every buffer is silence, and the sink stays as it is.
pub proof fn lemma_stall_plays_silence<T>(n: nat, silence: T)
    ensures
        played(waiting(Seq::<T>::empty(), Seq::<Seq<T>>::empty()), n, silence) == Seq::new(
            n,
            |i: int| silence,
        ),
        leftover_after(Seq::<T>::empty(), Seq::<Seq<T>>::empty(), n) == Seq::<T>::empty(),
        queue_after(Seq::<T>::empty(), Seq::<Seq<T>>::empty(), n) == Seq::<Seq<T>>::empty(),
{
}

/// The sizes of the device's buffers do not matter: while enough samples
/// wait, two buffers filled one after the other hold what one buffer of
/// their joint length would hold.
pub proof fn lemma_split_request<T>(
    leftover: Seq<T>,
    queue: Seq<Seq<T>>,
    first: nat,
    second: nat,
    silence: T,
)
    requires
        first <= waiting(leftover, queue).len(),
    ensures
        played(waiting(leftover, queue), first, silence) + played(
            waiting(leftover_after(leftover, queue, first), queue_after(leftover, queue, first)),
            second,
            silence,
        ) == played(waiting(leftover, queue), first + second, silence),
{
    lemma_fill_keeps_the_rest(leftover, queue, first);
}

/// The leftover never grows beyond one chunk: after a fill it is the tail of
/// the old leftover, if no chunk was taken, and else of the last chunk taken.
pub proof fn lemma_leftover_is_one_tail<T>(leftover: Seq<T>, queue: Seq<Seq<T>>, n: nat)
    ensures
        ({
            let taken = chunks_taken(queue, needed_from_queue(leftover.len(), n));
            let after = leftover_after(leftover, queue, n);
            if taken == 0 {
                after.len() <= leftover.len() && after == leftover.skip(
                    leftover.len() - after.len(),
                )
            } else {
                taken <= queue.len() && after.len() <= queue[taken - 1].len() && after
                    == queue[taken - 1].skip(queue[taken - 1].len() - after.len())
            }
        }),
{
    let need = needed_from_queue(leftover.len(), n);
    let taken = chunks_taken(queue, need);
    lemma_chunks_taken(queue, need);
    lemma_fill_keeps_the_rest(leftover, queue, n);
    if taken > 0 {
        let last = queue[taken - 1];
        assert(queue.take(taken as int) =~= queue.take(taken - 1).push(last));
        queue.take(taken - 1).lemma_flatten_push(last);
    }
}

/// Copies `count` samples of `src`, from position `from` on, into `out` at
/// position `at`, and leaves the rest of `out` as it is.
fn copy_samples<T: Copy>(out: &mut [T], at: usize, src: &Vec<T>, from: usize, count: usize)
    requires
        at + count <= old(out)@.len(),
        from + count <= src@.len(),
    ensures
        final(out)@.len() == old(out)@.len(),
        forall|k: int| 0 <= k < at ==> final(out)@[k] == old(out)@[k],
        forall|k: int| at <= k < at + count ==> final(out)@[k] == src@[from + (k - at)],
        forall|k: int| at + count <= k < old(out)@.len() ==> final(out)@[k] == old(out)@[k],
{
    let out_len: usize = out.len();
    let src_len: usize = src.len();
    let mut i: usize = 0;
    while i < count
        invariant
            i <= count,
            at + count <= out_len,
            from + count <= src_len,
            out@.len() == out_len,
            src@.len() == src_len,
            out_len == old(out)@.len(),
            forall|k: int| 0 <= k < at ==> out@[k] == old(out)@[k],
            forall|k: int| at <= k < at + i ==> out@[k] == src@[from + (k - at)],
            forall|k: int| at + count <= k < out@.len() ==> out@[k] == old(out)@[k],
        decreases count - i,
    {
        out[at + i] = src[from + i];
        i = i + 1;
    }
}

/// Overwrites `out` from position `from` to its end with `value`.
fn fill_from<T: Copy>(out: &mut [T], from: usize, value: T)
    requires
        from <= old(out)@.len(),
    ensures
        final(out)@.len() == old(out)@.len(),
        forall|k: int| 0 <= k < from ==> final(out)@[k] == old(out)@[k],
        forall|k: int| from <= k < old(out)@.len() ==> final(out)@[k] == value,
{
    let n: usize = out.len();
    let mut i: usize = from;
    while i < n
        invariant
            from <= i <= n,
            out@.len() == n,
            n == old(out)@.len(),
            forall|k: int| 0 <= k < from ==> out@[k] == old(out)@[k],
            forall|k: int| from <= k < i ==> out@[k] == value,
        decreases n - i,
    {
        out[i] = value;
        i = i + 1;
    }
}

} // verus!
