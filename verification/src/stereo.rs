//! Stereo frames and their interleaved form.
//!
//! The spatialisation engine produces one (left, right) pair per input
//! sample; the device wants the two channels interleaved in one buffer.

use vstd::prelude::*;

verus! {

/// The interleaved form of `frames`: left and right sample of the first
/// frame, then of the second, and so on.
pub open spec fn interleaved<T>(frames: Seq<(T, T)>) -> Seq<T> {
    Seq::new(
        2 * frames.len(),
        |i: int|
            if i % 2 == 0 {
                frames[i / 2].0
            } else {
                frames[i / 2].1
            },
    )
}

/// Interleaves the two channels of `frames` into one buffer.
pub fn interleave<T: Copy>(frames: &[(T, T)]) -> (samples: Vec<T>)
    ensures
        samples@ == interleaved(frames@),
{
    let n: usize = frames.len();
    let mut samples: Vec<T> = Vec::new();
    let mut i: usize = 0;
    while i < n
        invariant
            i <= n,
            frames@.len() == n,
            samples@.len() == 2 * i,
            forall|k: int| 0 <= k < i ==> samples@[2 * k] == (#[trigger] frames@[k]).0,
            forall|k: int| 0 <= k < i ==> samples@[2 * k + 1] == (#[trigger] frames@[k]).1,
        decreases n - i,
    {
        let frame: (T, T) = frames[i];
        samples.push(frame.0);
        samples.push(frame.1);
        i = i + 1;
    }
    samples
}

/// Interleaving keeps every frame, in order: frame `k` is found at the
/// positions `2k` and `2k + 1`, and the buffer holds nothing else.
pub proof fn lemma_interleaved_frames<T>(frames: Seq<(T, T)>)
    ensures
        interleaved(frames).len() == 2 * frames.len(),
        forall|k: int|
            0 <= k < frames.len() ==> interleaved(frames)[2 * k] == (#[trigger] frames[k]).0
                && interleaved(frames)[2 * k + 1] == frames[k].1,
{
}

} // verus!
