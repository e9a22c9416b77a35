//! What holds of every run of the decode worker, whatever the decoder made
//! of the packets.

use crate::codec::{
    frame_dimensions_ok, frame_of_picture, is_outcome_of, picture_dimensions, DecodeOutcome,
};
use crate::frame::VideoFrame;
use openh264::decoder::DecodedYUV;
use openh264::Error;
use crate::worker::{
    is_run_over, lemma_no_exit_subrange, lemma_published_concat, lemma_slot_concat, no_exit,
    published, slot_after_step, slot_after_steps, step_for, DecoderMessage, WorkerStep,
};
use vstd::prelude::*;

verus! {

/// What a single step publishes.
pub proof fn lemma_published_single(step: WorkerStep)
    ensures
        published(seq![step]) == (match step {
            WorkerStep::Publish(frame) => seq![frame],
            _ => Seq::<VideoFrame>::empty(),
        }),
{
    reveal_with_fuel(published, 2);
    assert(seq![step].drop_first() =~= Seq::<WorkerStep>::empty());
    match step {
        WorkerStep::Publish(frame) => {
            assert(seq![frame] + Seq::<VideoFrame>::empty() =~= seq![frame]);
        },
        _ => {},
    }
}

/// A step that publishes, with no `Exit` before it, splits what the run
/// publishes: first what the steps before it publish, then its frame, then
/// what the steps after it publish.
pub proof fn lemma_published_split(steps: Seq<WorkerStep>, at: int)
    requires
        0 <= at < steps.len(),
        no_exit(steps.take(at)),
        steps[at] is Publish,
    ensures
        published(steps) == published(steps.take(at)) + seq![steps[at]->Publish_0] + published(
            steps.skip(at + 1),
        ),
{
    let before = steps.take(at);
    let here = seq![steps[at]];
    let after = steps.skip(at + 1);
    assert(steps =~= before + (here + after));
    lemma_published_concat(before, here + after);
    assert(no_exit(here));
    lemma_published_concat(here, after);
    lemma_published_single(steps[at]);
    assert(published(before) + (seq![steps[at]->Publish_0] + published(after)) =~= published(before)
        + seq![steps[at]->Publish_0] + published(after));
}

/// Decode order is publication order: of two steps that publish, with no
/// `Exit` up to the later one, the earlier step's frame stands earlier among
/// the published frames. Each stands at the place that counts the frames
/// published before its step, so steps that publish nothing shift no frame.
pub proof fn lemma_fifo_order(steps: Seq<WorkerStep>, earlier: int, later: int)
    requires
        0 <= earlier < later < steps.len(),
        no_exit(steps.take(later)),
        steps[earlier] is Publish,
        steps[later] is Publish,
    ensures
        published(steps.take(earlier)).len() < published(steps.take(later)).len(),
        published(steps.take(later)).len() < published(steps).len(),
        published(steps)[published(steps.take(earlier)).len() as int]
            == steps[earlier]->Publish_0,
        published(steps)[published(steps.take(later)).len() as int] == steps[later]->Publish_0,
{
    let upto = steps.take(later);
    lemma_published_split(steps, later);
    assert(upto.take(earlier) =~= steps.take(earlier));
    assert(upto[earlier] == steps[earlier]);
    lemma_no_exit_subrange(upto, 0, earlier);
    assert(upto.subrange(0, earlier) =~= upto.take(earlier));
    lemma_published_split(upto, earlier);
}

/// Teardown: once the worker has stopped, nothing more is published and the
/// mailbox stays as it is, whatever is still queued behind the `Stop`.
pub proof fn lemma_nothing_after_exit(
    slot: Option<VideoFrame>,
    before: Seq<WorkerStep>,
    after: Seq<WorkerStep>,
)
    requires
        no_exit(before),
    ensures
        published(before + seq![WorkerStep::Exit] + after) == published(before),
        slot_after_steps(slot, before + seq![WorkerStep::Exit] + after) == slot_after_steps(
            slot,
            before,
        ),
{
    let tail = seq![WorkerStep::Exit] + after;
    assert(before + seq![WorkerStep::Exit] + after =~= before + tail);
    assert(tail[0] is Exit);
    lemma_published_concat(before, tail);
    lemma_slot_concat(slot, before, tail);
    assert(published(before) + published(tail) =~= published(before));
}

/// Error isolation: a step that fails, or that skips, changes nothing of
/// what the run publishes nor of what the mailbox holds in the end. The run
/// is as if that packet had never been sent.
pub proof fn lemma_failure_is_isolated(
    slot: Option<VideoFrame>,
    before: Seq<WorkerStep>,
    step: WorkerStep,
    after: Seq<WorkerStep>,
)
    requires
        no_exit(before),
        step is Fail || step is Skip,
    ensures
        published(before + seq![step] + after) == published(before + after),
        slot_after_steps(slot, before + seq![step] + after) == slot_after_steps(
            slot,
            before + after,
        ),
{
    let tail = seq![step] + after;
    assert(before + seq![step] + after =~= before + tail);
    assert(tail.drop_first() =~= after);
    assert(tail[0] == step);
    lemma_published_concat(before, tail);
    lemma_published_concat(before, after);
    lemma_slot_concat(slot, before, tail);
    lemma_slot_concat(slot, before, after);
}

/// A run publishes at most one frame for each step, and exactly one for each
/// where every step publishes.
pub proof fn lemma_published_len(steps: Seq<WorkerStep>)
    ensures
        published(steps).len() <= steps.len(),
        (forall|i: int| 0 <= i < steps.len() ==> (#[trigger] steps[i]) is Publish) ==> published(
            steps,
        ).len() == steps.len(),
    decreases steps.len(),
{
    if steps.len() > 0 {
        let rest = steps.drop_first();
        lemma_published_len(rest);
        if forall|i: int| 0 <= i < steps.len() ==> (#[trigger] steps[i]) is Publish {
            assert forall|i: int| 0 <= i < rest.len() implies (#[trigger] rest[i]) is Publish by {
                assert(rest[i] == steps[i + 1]);
            }
        }
    }
}

/// One bad packet among good ones: where one step of a run of `n` steps
/// fails and no step is an `Exit`, at most `n - 1` frames are published, and
/// exactly `n - 1` where every other step publishes.
pub proof fn lemma_one_failure_costs_one_frame(steps: Seq<WorkerStep>, failed: int)
    requires
        0 <= failed < steps.len(),
        steps[failed] is Fail,
        no_exit(steps),
    ensures
        published(steps).len() <= steps.len() - 1,
        (forall|i: int| 0 <= i < steps.len() && i != failed ==> (#[trigger] steps[i]) is Publish)
            ==> published(steps).len() == steps.len() - 1,
        published(steps) == published(steps.remove(failed)),
{
    let before = steps.take(failed);
    let after = steps.skip(failed + 1);
    assert(steps =~= before + seq![steps[failed]] + after);
    assert(steps.remove(failed) =~= before + after);
    lemma_no_exit_subrange(steps, 0, failed);
    assert(steps.subrange(0, failed) =~= before);
    lemma_failure_is_isolated(None, before, steps[failed], after);
    let others = before + after;
    lemma_published_len(others);
    if forall|i: int| 0 <= i < steps.len() && i != failed ==> (#[trigger] steps[i]) is Publish {
        assert forall|i: int| 0 <= i < others.len() implies (#[trigger] others[i]) is Publish by {
            if i < failed {
                assert(others[i] == steps[i]);
            } else {
                assert(others[i] == steps[i + 1]);
            }
        }
    }
}

/// The mailbox is never stale: after a run with no take in between it holds
/// the frame published last, or what it held before where the run published
/// nothing.
pub proof fn lemma_mailbox_holds_newest(slot: Option<VideoFrame>, steps: Seq<WorkerStep>)
    ensures
        slot_after_steps(slot, steps) == (if published(steps).len() == 0 {
            slot
        } else {
            Some(published(steps).last())
        }),
    decreases steps.len(),
{
    if steps.len() > 0 && !(steps[0] is Exit) {
        let rest = steps.drop_first();
        lemma_mailbox_holds_newest(slot_after_step(slot, steps[0]), rest);
        match steps[0] {
            WorkerStep::Publish(frame) => {
                let all = seq![frame] + published(rest);
                assert(published(steps) == all);
                if published(rest).len() > 0 {
                    assert(all.last() == published(rest).last());
                } else {
                    assert(all.last() == frame);
                }
            },
            _ => {},
        }
    }
}

/// A run ends at the first `Stop`: a running worker makes no step for a
/// message behind a `Stop`, and publishes at most one frame for each message
/// in front of it.
pub proof fn lemma_run_ends_at_stop(
    steps: Seq<WorkerStep>,
    messages: Seq<DecoderMessage>,
    stop: int,
)
    requires
        is_run_over(steps, false, messages),
        0 <= stop < messages.len(),
        messages[stop] is Stop,
    ensures
        steps.len() <= stop + 1,
        published(steps).len() <= stop,
{
    if steps.len() > stop {
        assert(steps[stop] is Exit);
        assert(steps.len() == stop + 1);
        let before = steps.take(stop);
        assert(no_exit(before)) by {
            assert forall|i: int| 0 <= i < before.len() implies !((#[trigger] before[i]) is Exit) by {
                assert(before[i] == steps[i]);
            }
        }
        assert(steps =~= before + seq![WorkerStep::Exit] + Seq::<WorkerStep>::empty());
        lemma_nothing_after_exit(None, before, Seq::<WorkerStep>::empty());
        lemma_published_len(before);
    } else {
        lemma_published_len(steps);
    }
}

/// The steps that a worker makes of the decoder's outcomes, one for each.
pub open spec fn steps_of(outcomes: Seq<DecodeOutcome>) -> Seq<WorkerStep> {
    Seq::new(outcomes.len(), |i: int| step_for(outcomes[i]))
}

/// The frames among the outcomes, in their order.
pub open spec fn pictures_of(outcomes: Seq<DecodeOutcome>) -> Seq<VideoFrame>
    decreases outcomes.len(),
{
    if outcomes.len() == 0 {
        Seq::empty()
    } else {
        match outcomes[0] {
            DecodeOutcome::Picture(frame) => seq![frame] + pictures_of(outcomes.drop_first()),
            _ => pictures_of(outcomes.drop_first()),
        }
    }
}

/// How many of the outcomes are failures.
pub open spec fn failures_in(outcomes: Seq<DecodeOutcome>) -> nat
    decreases outcomes.len(),
{
    if outcomes.len() == 0 {
        0
    } else {
        failures_in(outcomes.drop_first()) + if outcomes[0] is Failed {
            1nat
        } else {
            0nat
        }
    }
}

/// How many of the outcomes are without output.
pub open spec fn silent_in(outcomes: Seq<DecodeOutcome>) -> nat
    decreases outcomes.len(),
{
    if outcomes.len() == 0 {
        0
    } else {
        silent_in(outcomes.drop_first()) + if outcomes[0] is NoOutput {
            1nat
        } else {
            0nat
        }
    }
}

/// One publish for each picture: over packets with no `Stop` among them, the
/// frames published are exactly the pictures that the decoder gave, in the
/// order of their packets. Their number is the number of packets less the
/// failures and less the packets without output, so one bad packet among `n`
/// of which `k` give no output leaves `n - 1 - k` frames.
pub proof fn lemma_publishes_are_the_pictures(outcomes: Seq<DecodeOutcome>)
    ensures
        no_exit(steps_of(outcomes)),
        published(steps_of(outcomes)) == pictures_of(outcomes),
        pictures_of(outcomes).len() + failures_in(outcomes) + silent_in(outcomes)
            == outcomes.len(),
    decreases outcomes.len(),
{
    if outcomes.len() > 0 {
        let rest = outcomes.drop_first();
        lemma_publishes_are_the_pictures(rest);
        assert(steps_of(outcomes).drop_first() =~= steps_of(rest));
        assert(steps_of(outcomes)[0] == step_for(outcomes[0]));
    }
}

/// What one answer of the decoder does to the mailbox: a picture of usable
/// size replaces whatever waited, with the frame made of that picture alone;
/// every other answer leaves the mailbox as it was.
pub proof fn lemma_answer_and_mailbox(
    slot: Option<VideoFrame>,
    decoded: Result<Option<DecodedYUV<'_>>, Error>,
    outcome: DecodeOutcome,
)
    requires
        is_outcome_of(outcome, decoded),
    ensures
        !(step_for(outcome) is Exit),
        decoded is Ok && decoded->Ok_0 is Some && frame_dimensions_ok(
            picture_dimensions(&decoded->Ok_0->0),
        ) ==> {
            &&& slot_after_step(slot, step_for(outcome)) is Some
            &&& slot_after_step(slot, step_for(outcome))->0@ == frame_of_picture(
                &decoded->Ok_0->0,
            )
        },
        !(decoded is Ok && decoded->Ok_0 is Some && frame_dimensions_ok(
            picture_dimensions(&decoded->Ok_0->0),
        )) ==> slot_after_step(slot, step_for(outcome)) == slot,
{
}

} // verus!
