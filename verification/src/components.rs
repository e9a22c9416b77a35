//! One decode stream as a single value: the queue of packets that were sent,
//! the worker that decodes them, the mailbox, and the handle of the surface
//! that the stream is shown on.
//!
//! This is the pipeline in its sequential form. Sending, decoding and
//! presenting are separate calls, and every order of them is allowed, so what
//! holds here holds of each interleaving of a producer, a worker and a
//! presenter that take turns.
//!
//! A stream is open as a [`VideoDecoder`] and closed as a [`ClosedStream`].
//! Only an open stream takes packets, and tearing it down uses it up, so the
//! `Stop` of the teardown is the last message that its queue ever carries.

use crate::frame::VideoFrame;
use crate::mailbox::{slot_after_take, taken_from, FrameMailbox};
use crate::store::SurfaceStore;
use crate::surface::{initial_bytes, placeholder_image, SurfaceView};
use crate::worker::{
    contains_stop, is_run_over, published, run, slot_after_steps, DecodeWorker, DecoderMessage,
    WorkerStep,
};
use vstd::prelude::*;

verus! {

/// The surface that a stream starts with.
pub open spec fn placeholder_view() -> SurfaceView {
    SurfaceView { width: 12, height: 12, bgra: initial_bytes(576) }
}

/// The worker exists and has not received a `Stop`.
pub open spec fn worker_is_running(worker: Option<DecodeWorker>) -> bool {
    worker is Some && !worker->0.stopped()
}

/// The worker's turn: it receives everything that is queued, in the order in
/// which it was sent, up to and with the first `Stop`. The rest of the queue
/// is dropped with the receiving end.
fn drain(
    worker: &mut Option<DecodeWorker>,
    mailbox: &mut FrameMailbox,
    queue: &mut Vec<DecoderMessage>,
) -> (count: usize)
    ensures
        exists|steps: Seq<WorkerStep>|
            {
                &&& is_run_over(steps, !worker_is_running(*old(worker)), old(queue)@)
                &&& final(mailbox).pending() == slot_after_steps(old(mailbox).pending(), steps)
                &&& count == (#[trigger] published(steps)).len()
            },
        worker_is_running(*final(worker)) == (worker_is_running(*old(worker)) && !contains_stop(
            old(queue)@,
        )),
        final(queue)@ == Seq::<DecoderMessage>::empty(),
        count <= old(queue)@.len(),
        forall|i: int|
            0 <= i < old(queue)@.len() && (#[trigger] old(queue)@[i]) is Stop ==> count <= i,
        !worker_is_running(*old(worker)) ==> count == 0,
        count == 0 ==> final(mailbox).pending() == old(mailbox).pending(),
        count > 0 ==> {
            &&& final(mailbox).pending() is Some
            &&& final(mailbox).pending()->0@.is_presentable()
        },
{
    let ghost mut trace: Seq<WorkerStep> = Seq::empty();
    let count = match worker {
        Some(running) => {
            let count = run(running, mailbox, queue);
            proof {
                trace = choose|steps: Seq<WorkerStep>|
                    {
                        &&& #[trigger] is_run_over(steps, (*old(worker))->0.stopped(), old(queue)@)
                        &&& mailbox.pending() == slot_after_steps(old(mailbox).pending(), steps)
                        &&& count == published(steps).len()
                    };
            }
            count
        },
        None => 0,
    };
    queue.clear();
    proof {
        assert(is_run_over(trace, !worker_is_running(*old(worker)), old(queue)@));
        assert(count == published(trace).len());
    }
    count
}

/// One decode stream, open: packets can be sent to it.
pub struct VideoDecoder {
    sender: Vec<DecoderMessage>,
    worker: Option<DecodeWorker>,
    next_frame_rgb8: FrameMailbox,
    render_target: usize,
}

impl VideoDecoder {
    /// The messages that were sent and that the worker has not yet received,
    /// oldest first.
    pub closed spec fn queued(&self) -> Seq<DecoderMessage> {
        self.sender@
    }

    /// The frame that waits for the presenter, if any.
    pub closed spec fn pending(&self) -> Option<VideoFrame> {
        self.next_frame_rgb8.pending()
    }

    /// The handle of the surface that the stream is shown on.
    pub closed spec fn target(&self) -> usize {
        self.render_target
    }

    /// The worker exists and has not received a `Stop`.
    pub closed spec fn worker_running(&self) -> bool {
        worker_is_running(self.worker)
    }

    /// The frame that waits, if any, is well-formed and can be shown, and no
    /// `Stop` is queued. This holds of a new stream, and every operation
    /// keeps it.
    pub open spec fn is_well_formed(&self) -> bool {
        &&& self.pending() is Some ==> self.pending()->0@.is_presentable()
        &&& !contains_stop(self.queued())
    }

    /// Starts a stream: adds the placeholder surface to `images`, and returns
    /// its handle with the new stream, whose queue and mailbox are empty.
    /// The worker runs unless no decoder could be created.
    pub fn create(images: &mut SurfaceStore) -> (made: (usize, VideoDecoder))
        requires
            old(images).is_well_formed(),
        ensures
            made.0 == old(images)@.len(),
            final(images)@ == old(images)@.push(Some(placeholder_view())),
            final(images).is_well_formed(),
            made.1.target() == made.0,
            made.1.queued() == Seq::<DecoderMessage>::empty(),
            made.1.pending() is None,
            made.1.is_well_formed(),
    {
        let render_target = images.add(placeholder_image());
        let worker = match DecodeWorker::new() {
            Ok(worker) => Some(worker),
            Err(_) => None,
        };
        let decoder = VideoDecoder {
            sender: Vec::new(),
            worker,
            next_frame_rgb8: FrameMailbox::new(),
            render_target,
        };
        (render_target, decoder)
    }

    /// Tells whether the worker exists and has not received a `Stop`.
    pub fn is_running(&self) -> (running: bool)
        ensures
            running == self.worker_running(),
    {
        match &self.worker {
            Some(worker) => !worker.is_stopped(),
            None => false,
        }
    }

    /// Sends one compressed access unit to the worker. The queue has no
    /// bound, so the send cannot fail while the worker lives; a stream whose
    /// worker has come to its end takes no packets.
    pub fn add_video_packet(&mut self, video_packet: Vec<u8>)
        requires
            old(self).worker_running(),
        ensures
            final(self).queued() == old(self).queued().push(DecoderMessage::Frame(video_packet)),
            final(self).pending() == old(self).pending(),
            final(self).target() == old(self).target(),
            final(self).worker_running(),
            old(self).is_well_formed() ==> final(self).is_well_formed(),
    {
        self.sender.push(DecoderMessage::Frame(video_packet));
        proof {
            if old(self).is_well_formed() && contains_stop(self.queued()) {
                let at = choose|i: int|
                    0 <= i < self.queued().len() && (#[trigger] self.queued()[i]) is Stop;
                assert(old(self).queued()[at] is Stop);
            }
        }
    }

    /// Tears the stream down: sends `Stop`, does not wait, and gives the
    /// stream up. Packets that are queued before the `Stop` are still
    /// decoded. Where the worker has come to its end already, nothing is
    /// sent.
    pub fn shutdown(self) -> (closed: ClosedStream)
        ensures
            closed.queued() == (if self.worker_running() {
                self.queued().push(DecoderMessage::Stop)
            } else {
                self.queued()
            }),
            closed.pending() == self.pending(),
            closed.target() == self.target(),
            closed.worker_running() == self.worker_running(),
            self.worker_running() ==> contains_stop(closed.queued()),
            self.is_well_formed() ==> closed.is_well_formed(),
    {
        let running = self.is_running();
        let mut sender = self.sender;
        if running {
            sender.push(DecoderMessage::Stop);
            assert(sender@[sender@.len() - 1] is Stop);
        }
        ClosedStream {
            sender,
            worker: self.worker,
            next_frame_rgb8: self.next_frame_rgb8,
            render_target: self.render_target,
        }
    }

    /// Lets the worker receive everything that is queued, in the order in
    /// which it was sent, and returns how many frames it published. Where
    /// the worker has come to its end, the queue is dropped.
    pub fn pump(&mut self) -> (count: usize)
        ensures
            exists|steps: Seq<WorkerStep>|
                {
                    &&& is_run_over(steps, !old(self).worker_running(), old(self).queued())
                    &&& final(self).pending() == slot_after_steps(old(self).pending(), steps)
                    &&& count == (#[trigger] published(steps)).len()
                },
            final(self).worker_running() == (old(self).worker_running() && !contains_stop(
                old(self).queued(),
            )),
            final(self).queued() == Seq::<DecoderMessage>::empty(),
            final(self).target() == old(self).target(),
            count <= old(self).queued().len(),
            !old(self).worker_running() ==> count == 0,
            count == 0 ==> final(self).pending() == old(self).pending(),
            count > 0 ==> final(self).pending() is Some,
            old(self).is_well_formed() ==> final(self).is_well_formed(),
    {
        drain(&mut self.worker, &mut self.next_frame_rgb8, &mut self.sender)
    }

    /// Removes the waiting frame and returns it, or `None` where no frame
    /// waits.
    pub fn take_frame_rgb8(&mut self) -> (taken: Option<VideoFrame>)
        ensures
            taken == taken_from(old(self).pending()),
            final(self).pending() == slot_after_take(old(self).pending()),
            final(self).queued() == old(self).queued(),
            final(self).target() == old(self).target(),
            final(self).worker_running() == old(self).worker_running(),
    {
        self.next_frame_rgb8.take()
    }

    /// The handle of the surface that the stream is shown on.
    pub fn get_render_target(&self) -> (handle: usize)
        ensures
            handle == self.target(),
    {
        self.render_target
    }
}

/// The queue after the packets were sent to it one after the other.
pub open spec fn queue_after_sends(queue: Seq<DecoderMessage>, packets: Seq<Vec<u8>>) -> Seq<
    DecoderMessage,
>
    decreases packets.len(),
{
    if packets.len() == 0 {
        queue
    } else {
        queue_after_sends(queue, packets.drop_last()).push(DecoderMessage::Frame(packets.last()))
    }
}

/// The queue keeps the order of the sends: after any number of sends it
/// holds what it held before, and behind that one `Frame` for each packet,
/// in the order of the sends and with the packet as it was given. None is
/// lost, doubled or moved.
pub proof fn lemma_sends_keep_order(queue: Seq<DecoderMessage>, packets: Seq<Vec<u8>>)
    ensures
        queue_after_sends(queue, packets).len() == queue.len() + packets.len(),
        forall|i: int| 0 <= i < queue.len() ==> queue_after_sends(queue, packets)[i] == queue[i],
        forall|i: int|
            0 <= i < packets.len() ==> queue_after_sends(queue, packets)[queue.len() + i]
                == DecoderMessage::Frame(#[trigger] packets[i]),
    decreases packets.len(),
{
    if packets.len() > 0 {
        lemma_sends_keep_order(queue, packets.drop_last());
        assert forall|i: int| 0 <= i < packets.len() implies queue_after_sends(
            queue,
            packets,
        )[queue.len() + i] == DecoderMessage::Frame(#[trigger] packets[i]) by {
            if i < packets.len() - 1 {
                assert(packets.drop_last()[i] == packets[i]);
            }
        }
    }
}

/// One decode stream after its teardown. It takes no packets and cannot be
/// torn down again; what was sent before can still be decoded and taken.
pub struct ClosedStream {
    sender: Vec<DecoderMessage>,
    worker: Option<DecodeWorker>,
    next_frame_rgb8: FrameMailbox,
    render_target: usize,
}

impl ClosedStream {
    /// The messages that the worker has not yet received, oldest first.
    pub closed spec fn queued(&self) -> Seq<DecoderMessage> {
        self.sender@
    }

    /// The frame that waits in the mailbox, if any.
    pub closed spec fn pending(&self) -> Option<VideoFrame> {
        self.next_frame_rgb8.pending()
    }

    /// The handle of the surface that the stream was shown on.
    pub closed spec fn target(&self) -> usize {
        self.render_target
    }

    /// The worker exists and has not received the `Stop`.
    pub closed spec fn worker_running(&self) -> bool {
        worker_is_running(self.worker)
    }

    /// The frame that waits, if any, is well-formed and can be shown.
    pub open spec fn is_well_formed(&self) -> bool {
        self.pending() is Some ==> self.pending()->0@.is_presentable()
    }

    /// Tells whether the worker exists and has not received the `Stop`.
    pub fn is_running(&self) -> (running: bool)
        ensures
            running == self.worker_running(),
    {
        match &self.worker {
            Some(worker) => !worker.is_stopped(),
            None => false,
        }
    }

    /// Lets the worker receive everything that is queued, in the order in
    /// which it was sent, and returns how many frames it published. The
    /// worker stops at the `Stop`. Where it had come to its end before, the
    /// queue is dropped.
    pub fn pump(&mut self) -> (count: usize)
        ensures
            exists|steps: Seq<WorkerStep>|
                {
                    &&& is_run_over(steps, !old(self).worker_running(), old(self).queued())
                    &&& final(self).pending() == slot_after_steps(old(self).pending(), steps)
                    &&& count == (#[trigger] published(steps)).len()
                },
            final(self).worker_running() == (old(self).worker_running() && !contains_stop(
                old(self).queued(),
            )),
            final(self).queued() == Seq::<DecoderMessage>::empty(),
            final(self).target() == old(self).target(),
            count <= old(self).queued().len(),
            forall|i: int|
                0 <= i < old(self).queued().len() && (#[trigger] old(self).queued()[i]) is Stop
                    ==> count <= i,
            !old(self).worker_running() ==> count == 0,
            count == 0 ==> final(self).pending() == old(self).pending(),
            count > 0 ==> final(self).pending() is Some,
            old(self).is_well_formed() ==> final(self).is_well_formed(),
    {
        drain(&mut self.worker, &mut self.next_frame_rgb8, &mut self.sender)
    }

    /// Removes the waiting frame and returns it, or `None` where no frame
    /// waits.
    pub fn take_frame_rgb8(&mut self) -> (taken: Option<VideoFrame>)
        ensures
            taken == taken_from(old(self).pending()),
            final(self).pending() == slot_after_take(old(self).pending()),
            final(self).queued() == old(self).queued(),
            final(self).target() == old(self).target(),
            final(self).worker_running() == old(self).worker_running(),
    {
        self.next_frame_rgb8.take()
    }

    /// The handle of the surface that the stream was shown on.
    pub fn get_render_target(&self) -> (handle: usize)
        ensures
            handle == self.target(),
    {
        self.render_target
    }
}

} // verus!
