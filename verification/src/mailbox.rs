//! The single-slot mailbox through which the control thread tells the render
//! thread where the source is.
//!
//! Only the freshest orientation matters to real-time audio, so a new value
//! overwrites the one before it: the mailbox is no queue, and a value that is
//! overwritten before it is read is never seen.

use vstd::prelude::*;

verus! {

/// A direction in space, from the listener to the source.
#[derive(Debug, PartialEq)]
pub struct Direction<S> {
    pub x: S,
    pub y: S,
    pub z: S,
}

impl<S: Copy> Clone for Direction<S> {
    fn clone(&self) -> (copy: Self)
        ensures
            copy == *self,
    {
        *self
    }
}

impl<S: Copy> Copy for Direction<S> {

}

/// Where the source is, as the listener hears it: its direction and the gain
/// that its distance leaves.
#[derive(Debug, PartialEq)]
pub struct Orientation<S> {
    pub direction: Direction<S>,
    pub distance_gain: S,
}

impl<S: Copy> Clone for Orientation<S> {
    fn clone(&self) -> (copy: Self)
        ensures
            copy == *self,
    {
        *self
    }
}

impl<S: Copy> Copy for Orientation<S> {

}

/// What a mailbox holds: the orientation that the last read returned as
/// current, and the one published last.
pub struct MailboxState<S> {
    pub previous: Orientation<S>,
    pub current: Orientation<S>,
}

impl<S> MailboxState<S> {
    /// The state after `orientation` was published.
    pub open spec fn publish(self, orientation: Orientation<S>) -> Self {
        MailboxState { previous: self.previous, current: orientation }
    }

    /// What a read returns: the orientation at the last read and the one
    /// published last.
    pub open spec fn read(self) -> (Orientation<S>, Orientation<S>) {
        (self.previous, self.current)
    }

    /// The state after a read: the orientation that was returned as current
    /// is the previous one of the next read.
    pub open spec fn after_read(self) -> Self {
        MailboxState { previous: self.current, current: self.current }
    }

    /// Whether nothing was published since the last read.
    pub open spec fn settled(self) -> bool {
        self.previous == self.current
    }
}

/// The latest orientation of the source, and the one that the render thread
/// used last.
pub struct OrientationMailbox<S> {
    previous: Orientation<S>,
    current: Orientation<S>,
}

impl<S> View for OrientationMailbox<S> {
    type V = MailboxState<S>;

    closed spec fn view(&self) -> MailboxState<S> {
        MailboxState { previous: self.previous, current: self.current }
    }
}

impl<S: Copy> OrientationMailbox<S> {
    /// A mailbox in which `initial` counts as published and as read.
    pub fn new(initial: Orientation<S>) -> (mailbox: Self)
        ensures
            mailbox@ == (MailboxState { previous: initial, current: initial }),
    {
        OrientationMailbox { previous: initial, current: initial }
    }

    /// Publishes a new orientation, in place of the one published before.
    pub fn set(&mut self, direction: Direction<S>, distance_gain: S)
        ensures
            final(self)@ == old(self)@.publish(Orientation { direction, distance_gain }),
    {
        self.current = Orientation { direction, distance_gain };
    }

    /// Returns the orientation that the last read returned as current, and
    /// the one published last. The two are equal unless something was
    /// published since the last read.
    pub fn read_and_swap(&mut self) -> (read: (Orientation<S>, Orientation<S>))
        ensures
            read == old(self)@.read(),
            final(self)@ == old(self)@.after_read(),
    {
        let read = (self.previous, self.current);
        self.previous = self.current;
        read
    }
}

/// No phantom change: a read that follows another read, with nothing
/// published in between, returns the same orientation twice, and it is the
/// one that the read before it returned as current.
pub proof fn lemma_second_read_is_settled<S>(state: MailboxState<S>)
    ensures
        state.after_read().settled(),
        state.after_read().read().0 == state.after_read().read().1,
        state.after_read().read().1 == state.read().1,
        state.after_read().after_read() == state.after_read(),
{
}

/// A read of a mailbox in which nothing was published since the last read
/// returns the same orientation twice and leaves the mailbox as it is.
pub proof fn lemma_settled_read<S>(state: MailboxState<S>)
    requires
        state.settled(),
    ensures
        state.read().0 == state.read().1,
        state.after_read() == state,
{
}

/// Freshest wins: of two orientations published one after the other with no
/// read in between, the read sees only the second.
pub proof fn lemma_latest_overwrites<S>(
    state: MailboxState<S>,
    first: Orientation<S>,
    second: Orientation<S>,
)
    ensures
        state.publish(first).publish(second) == state.publish(second),
        state.publish(first).publish(second).read() == (state.previous, second),
{
}

} // verus!
