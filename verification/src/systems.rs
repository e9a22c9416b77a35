//! The presenter tick over all streams of a host.

use crate::components::VideoDecoder;
use crate::frame::FrameView;
use crate::presenter::PresentOutcome;
use crate::store::{frame_view, images_after_present, present_outcome, SurfaceStore};
use crate::surface::SurfaceView;
use vstd::prelude::*;

verus! {

/// One stream as the presenter sees it: the handle of its surface, and the
/// frame that waits in its mailbox.
pub type StreamView = (usize, Option<FrameView>);

/// The stream as the presenter sees it.
pub open spec fn stream_view(decoder: VideoDecoder) -> StreamView {
    (decoder.target(), frame_view(decoder.pending()))
}

/// The streams as the presenter sees them.
pub open spec fn stream_views(decoders: Seq<VideoDecoder>) -> Seq<StreamView> {
    Seq::new(decoders.len(), |i: int| stream_view(decoders[i]))
}

/// The surfaces after the tick has served the first `served` streams, in
/// their order.
pub open spec fn images_after_ticks(
    images: Seq<Option<SurfaceView>>,
    streams: Seq<StreamView>,
    served: nat,
) -> Seq<Option<SurfaceView>>
    decreases served,
{
    if served == 0 || served > streams.len() {
        images
    } else {
        images_after_present(
            images_after_ticks(images, streams, (served - 1) as nat),
            streams[served - 1].0,
            streams[served - 1].1,
        )
    }
}

/// A tick adds no surface and removes none: the store keeps its handles, and
/// under each handle there is a surface after the tick exactly where there
/// was one before.
pub proof fn lemma_tick_adds_and_removes_nothing(
    images: Seq<Option<SurfaceView>>,
    streams: Seq<StreamView>,
    served: nat,
)
    ensures
        images_after_ticks(images, streams, served).len() == images.len(),
        forall|handle: int|
            0 <= handle < images.len() ==> (#[trigger] images_after_ticks(
                images,
                streams,
                served,
            )[handle] is Some) == (images[handle] is Some),
    decreases served,
{
    if served > 0 && served <= streams.len() {
        lemma_tick_adds_and_removes_nothing(images, streams, (served - 1) as nat);
    }
}

/// A tick writes only where a frame is aimed: a surface that is the target
/// of no served stream with a waiting frame is after the tick as it was
/// before, in size and in data.
pub proof fn lemma_tick_keeps_other_surfaces(
    images: Seq<Option<SurfaceView>>,
    streams: Seq<StreamView>,
    served: nat,
    handle: int,
)
    requires
        0 <= handle < images.len(),
        forall|i: int|
            0 <= i < served && i < streams.len() ==> !((#[trigger] streams[i]).0 == handle
                && streams[i].1 is Some),
    ensures
        images_after_ticks(images, streams, served)[handle] == images[handle],
    decreases served,
{
    if served > 0 && served <= streams.len() {
        lemma_tick_adds_and_removes_nothing(images, streams, (served - 1) as nat);
        lemma_tick_keeps_other_surfaces(images, streams, (served - 1) as nat, handle);
        assert(!(streams[served - 1].0 == handle && streams[served - 1].1 is Some));
    }
}

/// `after` is the stream `before` once a tick has served it: its mailbox is
/// empty, and nothing else of it has changed. A tick sends no message.
pub open spec fn is_served(before: VideoDecoder, after: VideoDecoder) -> bool {
    &&& after.pending() is None
    &&& after.queued() == before.queued()
    &&& after.target() == before.target()
    &&& after.worker_running() == before.worker_running()
}

/// How many of the first `upto` outcomes are `Detached`.
pub open spec fn detached_among(outcomes: Seq<PresentOutcome>, upto: int) -> int
    decreases upto,
{
    if upto <= 0 {
        0
    } else {
        detached_among(outcomes, upto - 1) + if outcomes[upto - 1] is Detached {
            1int
        } else {
            0int
        }
    }
}

/// How many of the first `upto` outcomes are not `Detached`.
pub open spec fn kept_among(outcomes: Seq<PresentOutcome>, upto: int) -> int {
    upto - detached_among(outcomes, upto)
}

/// Both counts grow with the number of outcomes counted, and an outcome
/// raises the count of its own kind.
pub proof fn lemma_counts_grow(outcomes: Seq<PresentOutcome>, from: int, upto: int)
    requires
        0 <= from <= upto,
    ensures
        0 <= detached_among(outcomes, from) <= detached_among(outcomes, upto),
        0 <= kept_among(outcomes, from) <= kept_among(outcomes, upto),
        from < upto && outcomes[from] is Detached ==> detached_among(outcomes, from)
            < detached_among(outcomes, upto),
        from < upto && !(outcomes[from] is Detached) ==> kept_among(outcomes, from) < kept_among(
            outcomes,
            upto,
        ),
    decreases upto,
{
    if from < upto {
        lemma_counts_grow(outcomes, from, upto - 1);
    } else if from > 0 {
        lemma_counts_grow(outcomes, from - 1, from - 1);
        lemma_counts_grow(outcomes, 0, from - 1);
    }
}

/// One presenter tick for one stream: takes the waiting frame, if any, and
/// shows it on the stream's surface, resized to the frame if the dimensions
/// differ. A frame whose surface is gone is dropped, and the outcome tells
/// the host to detach the stream. The tick sends no message: tearing the
/// detached stream down is the host's step.
pub fn present_pending(decoder: &mut VideoDecoder, images: &mut SurfaceStore) -> (outcome:
    PresentOutcome)
    requires
        old(decoder).is_well_formed(),
        old(images).is_well_formed(),
    ensures
        final(images).is_well_formed(),
        outcome == present_outcome(
            old(images)@,
            old(decoder).target(),
            frame_view(old(decoder).pending()),
        ),
        final(images)@ == images_after_present(
            old(images)@,
            old(decoder).target(),
            frame_view(old(decoder).pending()),
        ),
        is_served(*old(decoder), *final(decoder)),
        final(decoder).is_well_formed(),
{
    let frame = decoder.take_frame_rgb8();
    let handle = decoder.get_render_target();
    images.present(handle, frame)
}

/// Serves every stream, in order, and returns what was done for each.
fn serve_all(decoders: &mut Vec<VideoDecoder>, images: &mut SurfaceStore) -> (outcomes: Vec<
    PresentOutcome,
>)
    requires
        forall|i: int|
            0 <= i < old(decoders)@.len() ==> (#[trigger] old(decoders)@[i]).is_well_formed(),
        old(images).is_well_formed(),
    ensures
        final(images).is_well_formed(),
        outcomes@.len() == old(decoders)@.len(),
        final(decoders)@.len() == old(decoders)@.len(),
        forall|i: int|
            0 <= i < outcomes@.len() ==> #[trigger] outcomes@[i] == present_outcome(
                images_after_ticks(old(images)@, stream_views(old(decoders)@), i as nat),
                old(decoders)@[i].target(),
                frame_view(old(decoders)@[i].pending()),
            ),
        final(images)@ == images_after_ticks(
            old(images)@,
            stream_views(old(decoders)@),
            old(decoders)@.len(),
        ),
        forall|i: int|
            0 <= i < final(decoders)@.len() ==> {
                &&& is_served(old(decoders)@[i], #[trigger] final(decoders)@[i])
                &&& final(decoders)@[i].is_well_formed()
            },
{
    let mut outcomes: Vec<PresentOutcome> = Vec::new();
    let count = decoders.len();
    let mut next: usize = 0;
    while next < count
        invariant
            next <= count,
            count == decoders@.len(),
            count == old(decoders)@.len(),
            outcomes@.len() == next,
            forall|i: int| 0 <= i < count ==> (#[trigger] old(decoders)@[i]).is_well_formed(),
            images.is_well_formed(),
            images@ == images_after_ticks(old(images)@, stream_views(old(decoders)@), next as nat),
            forall|i: int|
                0 <= i < next ==> #[trigger] outcomes@[i] == present_outcome(
                    images_after_ticks(old(images)@, stream_views(old(decoders)@), i as nat),
                    old(decoders)@[i].target(),
                    frame_view(old(decoders)@[i].pending()),
                ),
            forall|i: int|
                0 <= i < next ==> {
                    &&& is_served(old(decoders)@[i], #[trigger] decoders@[i])
                    &&& decoders@[i].is_well_formed()
                },
            forall|i: int| next <= i < count ==> #[trigger] decoders@[i] == old(decoders)@[i],
        decreases count - next,
    {
        let outcome = present_pending(&mut decoders[next], images);
        outcomes.push(outcome);
        next = next + 1;
    }
    outcomes
}

/// Takes the streams whose outcome is `Detached` out of `decoders` and
/// returns them. Both parts keep the order that the streams had.
fn take_detached(decoders: &mut Vec<VideoDecoder>, outcomes: &Vec<PresentOutcome>) -> (detached:
    Vec<VideoDecoder>)
    requires
        old(decoders)@.len() == outcomes@.len(),
        forall|i: int|
            0 <= i < old(decoders)@.len() ==> (#[trigger] old(decoders)@[i]).is_well_formed(),
    ensures
        forall|i: int|
            0 <= i < final(decoders)@.len() ==> (#[trigger] final(decoders)@[i]).is_well_formed(),
        forall|i: int| 0 <= i < detached@.len() ==> (#[trigger] detached@[i]).is_well_formed(),
        final(decoders)@.len() == kept_among(outcomes@, outcomes@.len() as int),
        detached@.len() == detached_among(outcomes@, outcomes@.len() as int),
        forall|i: int|
            0 <= i < outcomes@.len() ==> #[trigger] old(decoders)@[i] == (if outcomes@[i]
                is Detached {
                detached@[detached_among(outcomes@, i)]
            } else {
                final(decoders)@[kept_among(outcomes@, i)]
            }),
{
    let mut all: Vec<VideoDecoder> = Vec::new();
    std::mem::swap(decoders, &mut all);
    let mut detached: Vec<VideoDecoder> = Vec::new();
    let count = outcomes.len();
    let mut next: usize = 0;
    for decoder in iter: all
        invariant
            count == outcomes@.len(),
            iter.seq() == old(decoders)@,
            old(decoders)@.len() == outcomes@.len(),
            next == iter.index(),
            forall|i: int|
                0 <= i < old(decoders)@.len() ==> (#[trigger] old(decoders)@[i]).is_well_formed(),
            forall|i: int| 0 <= i < decoders@.len() ==> (#[trigger] decoders@[i]).is_well_formed(),
            forall|i: int| 0 <= i < detached@.len() ==> (#[trigger] detached@[i]).is_well_formed(),
            decoders@.len() == kept_among(outcomes@, next as int),
            detached@.len() == detached_among(outcomes@, next as int),
            forall|i: int|
                0 <= i < next ==> #[trigger] old(decoders)@[i] == (if outcomes@[i] is Detached {
                    detached@[detached_among(outcomes@, i)]
                } else {
                    decoders@[kept_among(outcomes@, i)]
                }),
    {
        proof {
            assert forall|i: int| 0 <= i < next implies 0 <= detached_among(outcomes@, i)
                <= detached@.len() && 0 <= kept_among(outcomes@, i) <= decoders@.len() && (
            outcomes@[i] is Detached ==> detached_among(outcomes@, i) < detached@.len()) && (!(
            outcomes@[i] is Detached) ==> kept_among(outcomes@, i) < decoders@.len()) by {
                lemma_counts_grow(outcomes@, i, next as int);
            }
            lemma_counts_grow(outcomes@, next as int, next as int);
        }
        if let PresentOutcome::Detached = outcomes[next] {
            detached.push(decoder);
        } else {
            decoders.push(decoder);
        }
        next = next + 1;
    }
    detached
}

/// What one presenter tick did: the outcome for each stream that it was given,
/// in their order, and the streams that it detached.
pub struct Tick {
    pub outcomes: Vec<PresentOutcome>,
    pub detached: Vec<VideoDecoder>,
}

/// One presenter tick: serves every stream, in order. A stream whose frame
/// found its surface gone is taken out of `decoders` and handed back, for the
/// host to tear it down; the tick itself sends no message. Every mailbox is
/// empty afterwards.
pub fn apply_decode(decoders: &mut Vec<VideoDecoder>, images: &mut SurfaceStore) -> (tick: Tick)
    requires
        forall|i: int|
            0 <= i < old(decoders)@.len() ==> (#[trigger] old(decoders)@[i]).is_well_formed(),
        old(images).is_well_formed(),
    ensures
        final(images).is_well_formed(),
        tick.outcomes@.len() == old(decoders)@.len(),
        forall|i: int|
            0 <= i < tick.outcomes@.len() ==> #[trigger] tick.outcomes@[i] == present_outcome(
                images_after_ticks(old(images)@, stream_views(old(decoders)@), i as nat),
                old(decoders)@[i].target(),
                frame_view(old(decoders)@[i].pending()),
            ),
        final(images)@ == images_after_ticks(
            old(images)@,
            stream_views(old(decoders)@),
            old(decoders)@.len(),
        ),
        final(decoders)@.len() == kept_among(tick.outcomes@, tick.outcomes@.len() as int),
        tick.detached@.len() == detached_among(tick.outcomes@, tick.outcomes@.len() as int),
        forall|i: int|
            0 <= i < old(decoders)@.len() ==> is_served(
                #[trigger] old(decoders)@[i],
                if tick.outcomes@[i] is Detached {
                    tick.detached@[detached_among(tick.outcomes@, i)]
                } else {
                    final(decoders)@[kept_among(tick.outcomes@, i)]
                },
            ),
        forall|i: int|
            0 <= i < final(decoders)@.len() ==> (#[trigger] final(decoders)@[i]).is_well_formed(),
        forall|i: int|
            0 <= i < tick.detached@.len() ==> (#[trigger] tick.detached@[i]).is_well_formed(),
{
    let outcomes = serve_all(decoders, images);
    let ghost served = decoders@;
    let detached = take_detached(decoders, &outcomes);
    proof {
        assert forall|i: int| 0 <= i < old(decoders)@.len() implies is_served(
            #[trigger] old(decoders)@[i],
            if outcomes@[i] is Detached {
                detached@[detached_among(outcomes@, i)]
            } else {
                decoders@[kept_among(outcomes@, i)]
            },
        ) by {
            assert(is_served(old(decoders)@[i], served[i]));
        }
    }
    Tick { outcomes, detached }
}

} // verus!
