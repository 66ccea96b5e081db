//! The format negotiated with the output device.

use vstd::prelude::*;

verus! {

/// Nanoseconds in one second.
pub const NANOS_PER_SECOND: u64 = 1_000_000_000;

/// What the output device reported when the stream was opened.
#[derive(Clone, Copy, Debug, PartialEq, Eq)]
pub struct ConsumerInfo {
    /// Frames per second.
    pub sample_rate: u32,
    /// Interleaved channels per frame.
    pub channels: u16,
}

/// How long `frames` frames last at `sample_rate` frames per second, in whole
/// nanoseconds, rounded down.
pub open spec fn duration_nanos(frames: nat, sample_rate: nat) -> nat
    recommends
        sample_rate > 0,
{
    (frames * 1_000_000_000) / sample_rate
}

impl ConsumerInfo {
    /// The wall-clock duration of a chunk of `chunk_len` frames on this device.
    ///
    /// `None` when the device reports a rate of zero or the duration does not
    /// fit in 64 bits.
    pub fn chunk_nanos(&self, chunk_len: usize) -> (nanos: Option<u64>)
        ensures
            nanos.is_some() <==> self.sample_rate > 0 && duration_nanos(
                chunk_len as nat,
                self.sample_rate as nat,
            ) <= u64::MAX,
            nanos matches Some(d) ==> d == duration_nanos(
                chunk_len as nat,
                self.sample_rate as nat,
            ),
    {
        if self.sample_rate == 0 {
            return None;
        }
        assert(chunk_len * NANOS_PER_SECOND <= u128::MAX);
        let total: u128 = (chunk_len as u128) * (NANOS_PER_SECOND as u128);
        let nanos: u128 = total / (self.sample_rate as u128);
        if nanos > u64::MAX as u128 {
            None
        } else {
            Some(nanos as u64)
        }
    }
}

} // verus!
