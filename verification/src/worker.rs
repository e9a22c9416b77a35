//! The decode worker: it turns the packet stream into frames and publishes
//! them, until it is told to stop.
//!
//! The worker makes one step per message. A host that runs it on a thread of
//! its own waits for the next message, calls [`DecodeWorker::handle`] without
//! holding the mailbox, then [`deliver`] under the mailbox's lock, and leaves
//! its loop when `deliver` says so.

use crate::codec::{decode_packet, new_decoder, DecodeError, DecodeOutcome};
use crate::frame::VideoFrame;
use crate::mailbox::{slot_after_publish, FrameMailbox};
use crate::runs::lemma_run_ends_at_stop;
use openh264::decoder::Decoder;
use vstd::prelude::*;

verus! {

/// What the producer sends to the worker.
#[derive(Debug, Clone, PartialEq, Eq)]
pub enum DecoderMessage {
    /// One compressed access unit.
    Frame(Vec<u8>),
    /// The stream is torn down: the worker is to leave its loop.
    Stop,
}

/// What the worker does in answer to one message.
#[derive(Debug, Clone, PartialEq, Eq)]
pub enum WorkerStep {
    /// A frame was decoded and goes into the mailbox.
    Publish(VideoFrame),
    /// The packet gave nothing to display; nothing is published.
    Skip,
    /// The packet gave no frame; the error is reported, nothing is published,
    /// and the worker goes on.
    Fail(DecodeError),
    /// The worker has stopped. It decodes and publishes no more.
    Exit,
}

/// The step that a decode outcome calls for.
pub open spec fn step_for(outcome: DecodeOutcome) -> WorkerStep {
    match outcome {
        DecodeOutcome::Picture(frame) => WorkerStep::Publish(frame),
        DecodeOutcome::NoOutput => WorkerStep::Skip,
        DecodeOutcome::Failed(error) => WorkerStep::Fail(error),
    }
}

/// Turns a decode outcome into the worker's step.
pub fn next_step(outcome: DecodeOutcome) -> (step: WorkerStep)
    ensures
        step == step_for(outcome),
{
    match outcome {
        DecodeOutcome::Picture(frame) => WorkerStep::Publish(frame),
        DecodeOutcome::NoOutput => WorkerStep::Skip,
        DecodeOutcome::Failed(error) => WorkerStep::Fail(error),
    }
}

/// What the mailbox's slot holds after one step of the worker.
pub open spec fn slot_after_step(slot: Option<VideoFrame>, step: WorkerStep) -> Option<VideoFrame> {
    match step {
        WorkerStep::Publish(frame) => slot_after_publish(slot, frame),
        _ => slot,
    }
}

/// None of the steps is `Exit`.
pub open spec fn no_exit(steps: Seq<WorkerStep>) -> bool {
    forall|i: int| 0 <= i < steps.len() ==> !((#[trigger] steps[i]) is Exit)
}

/// The frames that a run of steps publishes, in the order of publication.
/// Nothing that follows an `Exit` counts.
pub open spec fn published(steps: Seq<WorkerStep>) -> Seq<VideoFrame>
    decreases steps.len(),
{
    if steps.len() == 0 {
        Seq::empty()
    } else {
        match steps[0] {
            WorkerStep::Exit => Seq::empty(),
            WorkerStep::Publish(frame) => seq![frame] + published(steps.drop_first()),
            _ => published(steps.drop_first()),
        }
    }
}

/// What the mailbox's slot holds after a run of steps with no take in
/// between. Nothing that follows an `Exit` counts.
pub open spec fn slot_after_steps(slot: Option<VideoFrame>, steps: Seq<WorkerStep>) -> Option<
    VideoFrame,
>
    decreases steps.len(),
{
    if steps.len() == 0 {
        slot
    } else if steps[0] is Exit {
        slot
    } else {
        slot_after_steps(slot_after_step(slot, steps[0]), steps.drop_first())
    }
}

/// Carries out a step on the mailbox and tells whether the worker goes on.
pub fn deliver(mailbox: &mut FrameMailbox, step: WorkerStep) -> (running: bool)
    ensures
        final(mailbox).pending() == slot_after_step(old(mailbox).pending(), step),
        running == !(step is Exit),
{
    match step {
        WorkerStep::Publish(frame) => {
            mailbox.publish(frame);
            true
        },
        WorkerStep::Skip => true,
        WorkerStep::Fail(_) => true,
        WorkerStep::Exit => false,
    }
}

/// The worker: it owns the decoder, with its stream state, until it is told
/// to stop, and gives it up then.
pub struct DecodeWorker {
    decoder: Option<Decoder>,
}

impl DecodeWorker {
    /// The worker has seen a `Stop`.
    pub closed spec fn stopped(&self) -> bool {
        self.decoder is None
    }

    /// A running worker with a fresh decoder.
    pub fn new() -> (created: Result<DecodeWorker, DecodeError>)
        ensures
            created is Ok ==> !created->Ok_0.stopped(),
            created is Err ==> created->Err_0 is Unavailable,
    {
        match new_decoder() {
            Ok(decoder) => Ok(DecodeWorker { decoder: Some(decoder) }),
            Err(error) => Err(error),
        }
    }

    /// Tells whether the worker has seen a `Stop`.
    pub fn is_stopped(&self) -> (stopped: bool)
        ensures
            stopped == self.stopped(),
    {
        self.decoder.is_none()
    }

    /// One step of the worker. A `Stop` stops it for good and releases the
    /// decoder; a stopped worker answers every message with `Exit` and
    /// decodes nothing. A running worker decodes the packet of a `Frame`:
    /// which of `Publish`, `Skip` and `Fail` comes out is the decoder's
    /// matter, but a published frame is well-formed and can be shown.
    pub fn handle(&mut self, message: &DecoderMessage) -> (step: WorkerStep)
        ensures
            final(self).stopped() == (old(self).stopped() || message is Stop),
            step is Exit <==> final(self).stopped(),
            step is Publish ==> step->Publish_0@.is_presentable(),
            step is Fail ==> !(step->Fail_0 is Unavailable),
    {
        match message {
            DecoderMessage::Stop => {
                self.decoder = None;
                WorkerStep::Exit
            },
            DecoderMessage::Frame(packet) => match &mut self.decoder {
                None => WorkerStep::Exit,
                Some(decoder) => {
                    let outcome = decode_packet(decoder, packet.as_slice());
                    next_step(outcome)
                },
            },
        }
    }
}

/// `steps` is a run of a worker over `messages`: one step for each message
/// up to and with the first `Stop`, an `Exit` for that `Stop` and for nothing
/// else, and none at all where the worker had stopped before.
pub open spec fn is_run_over(
    steps: Seq<WorkerStep>,
    stopped_before: bool,
    messages: Seq<DecoderMessage>,
) -> bool {
    &&& steps.len() <= messages.len()
    &&& stopped_before ==> steps.len() == 0
    &&& forall|i: int|
        0 <= i < steps.len() ==> ((#[trigger] steps[i]) is Exit <==> messages[i] is Stop)
    &&& forall|i: int| 0 <= i < steps.len() - 1 ==> !((#[trigger] steps[i]) is Exit)
    &&& !stopped_before && steps.len() < messages.len() ==> steps.len() > 0 && steps.last() is Exit
    &&& forall|i: int|
        0 <= i < steps.len() && (#[trigger] steps[i]) is Publish
            ==> steps[i]->Publish_0@.is_presentable()
}

/// One of the messages is a `Stop`.
pub open spec fn contains_stop(messages: Seq<DecoderMessage>) -> bool {
    exists|i: int| 0 <= i < messages.len() && (#[trigger] messages[i]) is Stop
}

/// Runs the worker over a batch of messages, in their order, and returns how
/// many frames it published. It stops at the first `Stop`: what follows in
/// the batch is dropped undecoded. A worker that had stopped before does
/// nothing. Where no frame was published the mailbox is as it was; else it
/// holds the frame published last.
pub fn run(worker: &mut DecodeWorker, mailbox: &mut FrameMailbox, messages: &Vec<DecoderMessage>) -> (count:
    usize)
    ensures
        exists|steps: Seq<WorkerStep>|
            {
                &&& #[trigger] is_run_over(steps, old(worker).stopped(), messages@)
                &&& final(mailbox).pending() == slot_after_steps(old(mailbox).pending(), steps)
                &&& count == published(steps).len()
            },
        final(worker).stopped() == (old(worker).stopped() || contains_stop(messages@)),
        count <= messages@.len(),
        forall|i: int| 0 <= i < messages@.len() && (#[trigger] messages@[i]) is Stop ==> count <= i,
        old(worker).stopped() ==> count == 0,
        count == 0 ==> final(mailbox).pending() == old(mailbox).pending(),
        count > 0 ==> {
            &&& final(mailbox).pending() is Some
            &&& final(mailbox).pending()->0@.is_presentable()
        },
{
    let ghost mut steps: Seq<WorkerStep> = Seq::empty();
    let mut count: usize = 0;
    let mut next: usize = 0;
    while next < messages.len() && !worker.is_stopped()
        invariant
            next <= messages.len(),
            steps.len() == if old(worker).stopped() {
                0
            } else {
                next as int
            },
            old(worker).stopped() ==> worker.stopped(),
            forall|i: int|
                0 <= i < steps.len() ==> ((#[trigger] steps[i]) is Exit <==> messages@[i] is Stop),
            forall|i: int| 0 <= i < steps.len() - 1 ==> !((#[trigger] steps[i]) is Exit),
            forall|i: int|
                0 <= i < steps.len() && (#[trigger] steps[i]) is Publish
                    ==> steps[i]->Publish_0@.is_presentable(),
            worker.stopped() == (old(worker).stopped() || (steps.len() > 0 && steps.last() is Exit)),
            mailbox.pending() == slot_after_steps(old(mailbox).pending(), steps),
            count == published(steps).len(),
            count <= next,
            old(worker).stopped() ==> count == 0,
            count == 0 ==> mailbox.pending() == old(mailbox).pending(),
            count > 0 ==> mailbox.pending() is Some && mailbox.pending()->0@.is_presentable(),
        decreases messages.len() - next,
    {
        let step = worker.handle(&messages[next]);
        proof {
            assert(no_exit(steps));
            lemma_published_concat(steps, seq![step]);
            lemma_slot_concat(old(mailbox).pending(), steps, seq![step]);
            assert(seq![step].drop_first() =~= Seq::<WorkerStep>::empty());
            assert(published(seq![step]).len() == if step is Publish { 1nat } else { 0nat }) by {
                reveal_with_fuel(published, 2);
            }
            assert(slot_after_steps(mailbox.pending(), seq![step]) == slot_after_step(
                mailbox.pending(),
                step,
            )) by {
                reveal_with_fuel(slot_after_steps, 2);
            }
            steps = steps + seq![step];
        }
        if let WorkerStep::Publish(_) = &step {
            count = count + 1;
        }
        deliver(mailbox, step);
        next = next + 1;
    }
    proof {
        assert(is_run_over(steps, old(worker).stopped(), messages@));
        if !old(worker).stopped() {
            assert forall|i: int|
                0 <= i < messages@.len() && (#[trigger] messages@[i]) is Stop implies count
                <= i by {
                lemma_run_ends_at_stop(steps, messages@, i);
            }
            if worker.stopped() {
                assert(messages@[steps.len() - 1] is Stop);
            } else {
                assert forall|i: int| 0 <= i < messages@.len() implies !((
                #[trigger] messages@[i]) is Stop) by {
                    assert(!(steps[i] is Exit));
                }
            }
        }
    }
    count
}

/// A part of a run without `Exit` has none either.
pub proof fn lemma_no_exit_subrange(steps: Seq<WorkerStep>, from: int, to: int)
    requires
        no_exit(steps),
        0 <= from <= to <= steps.len(),
    ensures
        no_exit(steps.subrange(from, to)),
{
    let part = steps.subrange(from, to);
    assert forall|i: int| 0 <= i < part.len() implies !((#[trigger] part[i]) is Exit) by {
        assert(part[i] == steps[from + i]);
    }
}

/// Appending to a run that has not stopped appends what is published.
pub proof fn lemma_published_concat(before: Seq<WorkerStep>, after: Seq<WorkerStep>)
    requires
        no_exit(before),
    ensures
        published(before + after) == published(before) + published(after),
    decreases before.len(),
{
    if before.len() == 0 {
        assert(before + after =~= after);
        assert(published(before) + published(after) =~= published(after));
    } else {
        let rest = before.drop_first();
        assert((before + after).drop_first() =~= rest + after);
        assert((before + after)[0] == before[0]);
        lemma_no_exit_subrange(before, 1, before.len() as int);
        lemma_published_concat(rest, after);
        assert(published(before + after) =~= published(before) + published(after));
    }
}

/// A run that has not stopped and then goes on leaves the slot as the second
/// part leaves what the first part left.
pub proof fn lemma_slot_concat(
    slot: Option<VideoFrame>,
    before: Seq<WorkerStep>,
    after: Seq<WorkerStep>,
)
    requires
        no_exit(before),
    ensures
        slot_after_steps(slot, before + after) == slot_after_steps(
            slot_after_steps(slot, before),
            after,
        ),
    decreases before.len(),
{
    if before.len() == 0 {
        assert(before + after =~= after);
    } else {
        let rest = before.drop_first();
        assert((before + after).drop_first() =~= rest + after);
        assert((before + after)[0] == before[0]);
        lemma_no_exit_subrange(before, 1, before.len() as int);
        lemma_slot_concat(slot_after_step(slot, before[0]), rest, after);
    }
}

} // verus!
