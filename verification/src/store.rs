//! The surfaces of a host, found by handle.

use crate::frame::{FrameView, VideoFrame};
use crate::presenter::{needs_resize, present_frame, presented, PresentOutcome};
use crate::surface::{Surface, SurfaceView};
use vstd::prelude::*;

verus! {

/// The surface that stands under `handle`, if it exists.
pub open spec fn surface_at(images: Seq<Option<SurfaceView>>, handle: usize) -> Option<
    SurfaceView,
> {
    if handle < images.len() {
        images[handle as int]
    } else {
        None
    }
}

/// What presenting `frame` to the surface under `handle` comes to: nothing
/// where there is no frame; where there is one, the stream is to be
/// detached if the surface is gone, and the frame is shown otherwise.
pub open spec fn present_outcome(
    images: Seq<Option<SurfaceView>>,
    handle: usize,
    frame: Option<FrameView>,
) -> PresentOutcome {
    match frame {
        None => PresentOutcome::Idle,
        Some(frame) => match surface_at(images, handle) {
            Some(surface) => PresentOutcome::Presented { resized: needs_resize(surface, frame) },
            None => PresentOutcome::Detached,
        },
    }
}

/// The surfaces after `frame` was presented to the one under `handle`: only
/// a frame that is shown changes anything, and only that one surface.
pub open spec fn images_after_present(
    images: Seq<Option<SurfaceView>>,
    handle: usize,
    frame: Option<FrameView>,
) -> Seq<Option<SurfaceView>> {
    match (frame, surface_at(images, handle)) {
        (Some(frame), Some(surface)) => images.update(
            handle as int,
            Some(presented(surface, frame)),
        ),
        _ => images,
    }
}

/// The view of what a slot holds.
pub open spec fn slot_view(slot: Option<Surface>) -> Option<SurfaceView> {
    match slot {
        Some(surface) => Some(surface@),
        None => None,
    }
}

/// A host's surfaces. A handle is the place at which a surface was added; it
/// stays taken when the surface is destroyed. Every surface in the store is
/// well-formed.
pub struct SurfaceStore {
    slots: Vec<Option<Surface>>,
}

impl View for SurfaceStore {
    type V = Seq<Option<SurfaceView>>;

    closed spec fn view(&self) -> Seq<Option<SurfaceView>> {
        Seq::new(self.slots@.len(), |i: int| slot_view(self.slots@[i]))
    }
}

impl SurfaceStore {
    /// Every surface in the store is well-formed. This holds of a new store,
    /// and every operation keeps it.
    pub closed spec fn is_well_formed(&self) -> bool {
        forall|i: int|
            0 <= i < self.slots@.len() && (#[trigger] self.slots@[i]) is Some
                ==> self.slots@[i]->0.is_well_formed()
    }

    /// A store without surfaces.
    pub fn new() -> (store: SurfaceStore)
        ensures
            store@ == Seq::<Option<SurfaceView>>::empty(),
            store.is_well_formed(),
    {
        let store = SurfaceStore { slots: Vec::new() };
        assert(store@ =~= Seq::<Option<SurfaceView>>::empty());
        store
    }

    /// The number of handles given out so far.
    pub fn len(&self) -> (len: usize)
        ensures
            len == self@.len(),
    {
        self.slots.len()
    }

    /// Adds a surface and returns its handle.
    pub fn add(&mut self, surface: Surface) -> (handle: usize)
        requires
            old(self).is_well_formed(),
            surface.is_well_formed(),
        ensures
            handle == old(self)@.len(),
            final(self)@ == old(self)@.push(Some(surface@)),
            final(self).is_well_formed(),
    {
        let handle = self.slots.len();
        self.slots.push(Some(surface));
        assert(self@ =~= old(self)@.push(Some(surface@)));
        handle
    }

    /// The surface under `handle`, or `None` where it was destroyed or the
    /// handle was never given out.
    pub fn get(&self, handle: usize) -> (found: Option<&Surface>)
        requires
            self.is_well_formed(),
        ensures
            slot_view(
                match found {
                    Some(surface) => Some(*surface),
                    None => None,
                },
            ) == surface_at(self@, handle),
            found is Some ==> found->0.is_well_formed(),
    {
        if handle < self.slots.len() {
            self.slots[handle].as_ref()
        } else {
            None
        }
    }

    /// Destroys the surface under `handle` and returns it, if it existed.
    pub fn remove(&mut self, handle: usize) -> (removed: Option<Surface>)
        requires
            old(self).is_well_formed(),
        ensures
            slot_view(removed) == surface_at(old(self)@, handle),
            removed is Some ==> removed->0.is_well_formed(),
            removed is Some ==> final(self)@ == old(self)@.update(handle as int, None),
            removed is None ==> final(self)@ == old(self)@,
            final(self).is_well_formed(),
    {
        if handle < self.slots.len() {
            let removed = self.slots[handle].take();
            assert(self@ =~= if removed is Some {
                old(self)@.update(handle as int, None)
            } else {
                old(self)@
            });
            removed
        } else {
            None
        }
    }

    /// Presents what a stream's mailbox gave to the surface under `handle`.
    pub fn present(&mut self, handle: usize, frame: Option<VideoFrame>) -> (outcome: PresentOutcome)
        requires
            old(self).is_well_formed(),
            frame is Some ==> frame->0@.is_presentable(),
        ensures
            outcome == present_outcome(old(self)@, handle, frame_view(frame)),
            final(self)@ == images_after_present(old(self)@, handle, frame_view(frame)),
            final(self).is_well_formed(),
    {
        if handle < self.slots.len() {
            let outcome = present_frame(frame, &mut self.slots[handle]);
            assert(self@ =~= images_after_present(old(self)@, handle, frame_view(frame)));
            outcome
        } else {
            match frame {
                Some(_) => PresentOutcome::Detached,
                None => PresentOutcome::Idle,
            }
        }
    }
}

/// The view of the frame that a mailbox gave, if any.
pub open spec fn frame_view(frame: Option<VideoFrame>) -> Option<FrameView> {
    match frame {
        Some(frame) => Some(frame@),
        None => None,
    }
}

} // verus!
