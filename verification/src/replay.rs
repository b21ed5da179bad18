//! What a frame does to the surfaces it touches, told as histories.
//!
//! A surface either holds nothing known, or it holds the copied frame after a
//! sequence of passes. Replaying the commands of a frame over such surfaces
//! shows what the target receives, and that no pass samples a surface that
//! holds nothing known.

use vstd::prelude::*;
use crate::geometry::Rectangle;
use crate::laws::{destination_at, is_within, law_no_passes_is_a_paste, law_plan_copies_once,
    law_plan_is_chained, law_plan_length, law_plan_stays_in_bounds, source_at};
use crate::levels::SLOTS;
use crate::model::PipelineModel;
use crate::plan::{Attachment, Command, Pass};

verus! {

/// The surfaces of a frame: the slots of the chain and the target. Each holds
/// the passes, in order, that the copied frame went through to get there, or
/// `None` where nothing is known of its contents.
pub struct Surfaces {
    pub slots: Seq<Option<Seq<Pass>>>,
    pub target: Option<Seq<Pass>>,
}

/// What a pass draws: its source, filtered once more; nothing known where the
/// source is no slot or holds nothing known.
pub open spec fn drawn(surfaces: Surfaces, pass: Pass) -> Option<Seq<Pass>> {
    if pass.source < surfaces.slots.len() {
        match surfaces.slots[pass.source as int] {
            Some(history) => Some(history.push(pass)),
            None => None,
        }
    } else {
        None
    }
}

/// The surfaces after one command. A copy leaves the frame in the base slot,
/// unfiltered. A draw leaves in its destination what it draws; a draw into
/// the slot that it samples leaves nothing known there.
pub open spec fn step(surfaces: Surfaces, command: Command) -> Surfaces {
    match command {
        Command::CopyIn(_) => Surfaces {
            slots: surfaces.slots.update(0, Some(Seq::empty())),
            ..surfaces
        },
        Command::Draw(pass) => match pass.destination {
            Attachment::Slot(slot) => if slot >= surfaces.slots.len() {
                surfaces
            } else if slot == pass.source {
                Surfaces { slots: surfaces.slots.update(slot as int, None), ..surfaces }
            } else {
                Surfaces {
                    slots: surfaces.slots.update(slot as int, drawn(surfaces, pass)),
                    ..surfaces
                }
            },
            Attachment::Target { .. } => Surfaces { target: drawn(surfaces, pass), ..surfaces },
        },
    }
}

/// The surfaces after the commands, in order.
pub open spec fn replay(surfaces: Surfaces, commands: Seq<Command>) -> Surfaces
    decreases commands.len(),
{
    if commands.len() == 0 {
        surfaces
    } else {
        step(replay(surfaces, commands.drop_last()), commands.last())
    }
}

/// The passes of a frame, in order: its commands without the copy.
pub open spec fn passes_of(commands: Seq<Command>) -> Seq<Pass> {
    Seq::new((commands.len() - 1) as nat, |index: int| commands[index + 1]->Draw_0)
}

/// Where the frame is after its first `count` commands: the base slot after
/// the copy, then the destination of the last pass.
pub open spec fn holder(commands: Seq<Command>, count: int) -> Attachment {
    if count <= 1 {
        Attachment::Slot(0)
    } else {
        commands[count - 1]->Draw_0.destination
    }
}

/// What the surface `holder` holds.
pub open spec fn held(surfaces: Surfaces, holder: Attachment) -> Option<Seq<Pass>> {
    match holder {
        Attachment::Slot(slot) => surfaces.slots[slot as int],
        Attachment::Target { .. } => surfaces.target,
    }
}

/// What the laws of a frame say of its command at `index`: it is a pass that
/// samples a slot of the chain, the slot that the pass before it drew to, and
/// draws elsewhere.
proof fn lemma_frame_link(model: PipelineModel, clip: Rectangle, index: int)
    requires
        model.wf(),
        1 <= index < model.plan(clip).len(),
    ensures
        model.plan(clip)[0] is CopyIn,
        model.plan(clip)[index] is Draw,
        model.plan(clip)[index]->Draw_0.source < SLOTS,
        model.plan(clip)[index]->Draw_0.destination != Attachment::Slot(
            model.plan(clip)[index]->Draw_0.source,
        ),
        model.plan(clip)[index]->Draw_0.destination matches Attachment::Slot(slot) ==> slot
            < SLOTS,
        holder(model.plan(clip), index) == Attachment::Slot(
            model.plan(clip)[index]->Draw_0.source,
        ),
{
    let plan = model.plan(clip);
    law_plan_copies_once(model, clip);
    law_plan_is_chained(model, clip);
    law_plan_stays_in_bounds(model, clip);
    assert(is_within(model, plan[index]->Draw_0));
    assert(destination_at(plan, index) != Attachment::Slot(source_at(plan, index)));
    if index > 1 {
        assert(destination_at(plan, index - 1) == Attachment::Slot(
            source_at(plan, index - 1 + 1),
        ));
    } else {
        assert(source_at(plan, 1) == 0);
    }
}

/// After the first `count` commands of a frame, the surface where the frame
/// is holds the copy after the passes so far, whatever the surfaces held
/// before.
proof fn lemma_replay_prefix(model: PipelineModel, clip: Rectangle, before: Surfaces, count: int)
    requires
        model.wf(),
        before.slots.len() == SLOTS,
        1 <= count <= model.plan(clip).len(),
    ensures
        replay(before, model.plan(clip).subrange(0, count)).slots.len() == SLOTS,
        held(
            replay(before, model.plan(clip).subrange(0, count)),
            holder(model.plan(clip), count),
        ) == Some(passes_of(model.plan(clip).subrange(0, count))),
    decreases count,
{
    let plan = model.plan(clip);
    let prefix = plan.subrange(0, count);
    let earlier = plan.subrange(0, count - 1);
    assert(prefix.drop_last() == earlier);
    assert(prefix.last() == plan[count - 1]);
    assert(replay(before, prefix) == step(replay(before, earlier), plan[count - 1]));
    if count == 1 {
        law_plan_copies_once(model, clip);
        assert(replay(before, earlier) == before);
        assert(passes_of(prefix) == Seq::<Pass>::empty());
    } else {
        lemma_replay_prefix(model, clip, before, count - 1);
        lemma_frame_link(model, clip, count - 1);
        let surfaces = replay(before, earlier);
        let pass = plan[count - 1]->Draw_0;
        assert(plan[count - 1] == Command::Draw(pass));
        assert(surfaces.slots[pass.source as int] == Some(passes_of(earlier)));
        assert(passes_of(prefix) == passes_of(earlier).push(pass));
        assert(drawn(surfaces, pass) == Some(passes_of(prefix)));
        assert(holder(plan, count) == pass.destination);
    }
}

/// Whatever the surfaces held before a frame, the target then holds the copy
/// of the frame after every pass of the frame, in order; so no pass sampled a
/// surface of which nothing was known, and what an earlier frame left in the
/// chain does not reach the target.
pub proof fn law_frame_reaches_the_target(model: PipelineModel, clip: Rectangle, before: Surfaces)
    requires
        model.wf(),
        before.slots.len() == SLOTS,
    ensures
        replay(before, model.plan(clip)).target == Some(passes_of(model.plan(clip))),
{
    let plan = model.plan(clip);
    law_plan_length(model, clip);
    law_plan_is_chained(model, clip);
    lemma_replay_prefix(model, clip, before, plan.len() as int);
    assert(plan.subrange(0, plan.len() as int) == plan);
    assert(holder(plan, plan.len() as int) == destination_at(plan, plan.len() - 1));
    assert(destination_at(plan, plan.len() - 1) is Target);
}

/// A frame of a blur without passes leaves in the target the copy of the
/// frame, sampled once as it is.
pub proof fn law_frame_without_passes_is_the_copy(
    model: PipelineModel,
    clip: Rectangle,
    before: Surfaces,
)
    requires
        model.wf(),
        before.slots.len() == SLOTS,
        model.blur.levels() == 0,
    ensures
        replay(before, model.plan(clip)).target == Some(seq![model.paste(clip)]),
{
    law_frame_reaches_the_target(model, clip, before);
    law_no_passes_is_a_paste(model, clip);
    assert(passes_of(model.plan(clip)) == seq![model.paste(clip)]);
}

/// Rendering a prepared frame again gives the target the same contents: the
/// second frame starts from what the first left, and ends as the first did.
pub proof fn law_rendering_again_changes_nothing(
    model: PipelineModel,
    clip: Rectangle,
    before: Surfaces,
)
    requires
        model.wf(),
        before.slots.len() == SLOTS,
    ensures
        replay(replay(before, model.plan(clip)), model.plan(clip)).target == replay(
            before,
            model.plan(clip),
        ).target,
{
    let once = replay(before, model.plan(clip));
    lemma_replay_keeps_the_chain(before, model.plan(clip));
    law_frame_reaches_the_target(model, clip, before);
    law_frame_reaches_the_target(model, clip, once);
}

/// Replaying commands neither adds nor removes a slot.
proof fn lemma_replay_keeps_the_chain(before: Surfaces, commands: Seq<Command>)
    requires
        before.slots.len() > 0,
    ensures
        replay(before, commands).slots.len() == before.slots.len(),
    decreases commands.len(),
{
    if commands.len() > 0 {
        lemma_replay_keeps_the_chain(before, commands.drop_last());
    }
}

} // verus!
