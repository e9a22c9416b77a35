//! The single-slot handoff between the decode worker and the presenter.
//!
//! The mailbox itself is plain data. A host that shares it between two
//! execution contexts puts it behind its own lock and holds that lock for the
//! length of one `publish` or one `take`, never across a decode call or a
//! surface write.

use crate::frame::VideoFrame;
use vstd::prelude::*;

verus! {

/// What the slot holds once `frame` has been published into it: the new
/// frame, whatever was there before.
pub open spec fn slot_after_publish(slot: Option<VideoFrame>, frame: VideoFrame) -> Option<
    VideoFrame,
> {
    Some(frame)
}

/// What a `take` hands out of the slot: its content.
pub open spec fn taken_from(slot: Option<VideoFrame>) -> Option<VideoFrame> {
    slot
}

/// What the slot holds once it has been taken from: nothing.
pub open spec fn slot_after_take(slot: Option<VideoFrame>) -> Option<VideoFrame> {
    None
}

/// Holds at most one decoded frame. Publishing overwrites; taking empties.
pub struct FrameMailbox {
    slot: Option<VideoFrame>,
}

impl FrameMailbox {
    /// The frame that waits in the mailbox, if any.
    pub closed spec fn pending(&self) -> Option<VideoFrame> {
        self.slot
    }

    /// An empty mailbox.
    pub fn new() -> (mailbox: FrameMailbox)
        ensures
            mailbox.pending() is None,
    {
        FrameMailbox { slot: None }
    }

    /// Puts `frame` into the slot. A frame that nobody took is dropped.
    pub fn publish(&mut self, frame: VideoFrame)
        ensures
            final(self).pending() == slot_after_publish(old(self).pending(), frame),
    {
        self.slot = Some(frame);
    }

    /// Removes the waiting frame and returns it, or `None` where the slot is
    /// empty.
    pub fn take(&mut self) -> (taken: Option<VideoFrame>)
        ensures
            taken == taken_from(old(self).pending()),
            final(self).pending() == slot_after_take(old(self).pending()),
    {
        self.slot.take()
    }

    /// Tells whether no frame waits.
    pub fn is_empty(&self) -> (empty: bool)
        ensures
            empty == (self.pending() is None),
    {
        self.slot.is_none()
    }
}

/// Newest wins: of two frames published one after the other with no take in
/// between, the next take returns the second, and after it the slot holds
/// nothing, so the first can no longer be had.
pub proof fn lemma_newest_wins(slot: Option<VideoFrame>, first: VideoFrame, second: VideoFrame)
    ensures
        taken_from(slot_after_publish(slot_after_publish(slot, first), second)) == Some(second),
        slot_after_take(slot_after_publish(slot_after_publish(slot, first), second)) is None,
{
}

/// Empty after take: whatever the slot held, a take directly after a take
/// returns nothing, and a take after a later publish returns that frame.
pub proof fn lemma_empty_after_take(slot: Option<VideoFrame>, later: VideoFrame)
    ensures
        taken_from(slot_after_take(slot)) is None,
        taken_from(slot_after_publish(slot_after_take(slot), later)) == Some(later),
{
}

} // verus!
