//! What holds of every pipeline, every region and every frame.

use vstd::prelude::*;
use crate::geometry::{Rectangle, Size};
use crate::levels::{law_levels_shrink, level_size, level_slot, MAX_LEVELS, SLOTS};
use crate::model::PipelineModel;
use crate::parameters::{law_records_lie_within_the_table, serves, Spread, RECORDS, SCALAR_SIZE};
use crate::plan::{Attachment, Command, Filter, Pass};
use crate::scalar::is_nan;
use crate::shader::{Resize, Shader};

verus! {

/// Whether a spread is a number, so that it compares equal to itself.
pub open spec fn is_comparable(spread: Spread) -> bool {
    match spread {
        Spread::Binary => true,
        Spread::Uniform(bits) => !is_nan(bits),
    }
}

/// The slot that the command at `index` samples.
pub open spec fn source_at(commands: Seq<Command>, index: int) -> usize {
    commands[index]->Draw_0.source
}

/// Where the command at `index` draws.
pub open spec fn destination_at(commands: Seq<Command>, index: int) -> Attachment {
    commands[index]->Draw_0.destination
}

/// The draw at position `index` of a frame with passes: the passes down the
/// chain come first, then those back up.
pub open spec fn pass_at(model: PipelineModel, clip: Rectangle, index: int) -> Pass {
    let levels = model.blur.levels() as int;
    if index <= levels {
        model.downsample(index as nat)
    } else {
        model.upsample((2 * levels - index) as nat, clip)
    }
}

/// A pipeline is consistent when it is created.
pub proof fn law_fresh_is_consistent(region: Size, blur: Shader, alignment: u32)
    ensures
        PipelineModel::fresh(region, blur, alignment).wf(),
{
}

/// Preparing keeps a pipeline consistent, and leaves every slot at the size
/// of its level for the new region, whatever the region was before.
pub proof fn law_update_leaves_no_stale_slot(model: PipelineModel, region: Size, blur: Shader)
    requires
        model.wf(),
    ensures
        model.updated(region, blur).wf(),
        model.updated(region, blur).region == region,
        forall|slot: int|
            0 <= slot < SLOTS ==> #[trigger] model.updated(region, blur).slots[slot] == level_size(
                region,
                slot as nat,
            ),
{
}

/// After every preparation the parameter buffer serves the parameters that
/// the pipeline was prepared with, whether it was kept, written or created
/// anew. It is created anew exactly where the kind of spread changes, and a
/// table, once there, is never written.
pub proof fn law_buffer_reflects_parameters(model: PipelineModel, region: Size, blur: Shader)
    requires
        model.wf(),
    ensures
        serves(model.updated(region, blur).uploaded, blur.spread),
        model.change(blur) is Keep ==> model.updated(region, blur).uploaded == model.uploaded,
        !(model.change(blur) is Keep) ==> model.updated(region, blur).uploaded == blur.spread,
        model.change(blur) is Create <==> (model.blur.spread is Binary) != (blur.spread is Binary),
        model.change(blur) is Write ==> blur.spread is Uniform,
{
}

/// The replacements of a preparation are the slots of another size than the
/// region asks for, each once, in the order of the chain, each with the size
/// of its level.
pub proof fn law_resizes_are_the_stale_slots(model: PipelineModel, region: Size)
    ensures
        forall|k: int|
            0 <= k < model.resizes(region).len() ==> {
                let resize = #[trigger] model.resizes(region)[k];
                &&& resize.slot < SLOTS
                &&& model.is_stale(region, resize.slot as int)
                &&& resize.size == level_size(region, resize.slot as nat)
            },
        forall|j: int, k: int|
            0 <= j < k < model.resizes(region).len() ==> (#[trigger] model.resizes(
                region,
            )[j]).slot < (#[trigger] model.resizes(region)[k]).slot,
        forall|slot: int|
            0 <= slot < SLOTS && #[trigger] model.is_stale(region, slot) ==> exists|k: int|
                0 <= k < model.resizes(region).len() && (#[trigger] model.resizes(
                    region,
                )[k]).slot == slot,
{
    lemma_stale_slots(model, region, SLOTS as nat);
    let all = model.resizes(region);
    assert forall|slot: int| 0 <= slot < SLOTS && #[trigger] model.is_stale(
        region,
        slot,
    ) implies exists|k: int| 0 <= k < all.len() && (#[trigger] all[k]).slot == slot by {
        let k = choose|k: int|
            0 <= k < model.stale_slots(region, SLOTS as nat).len() && (
            #[trigger] model.stale_slots(region, SLOTS as nat)[k]).slot == slot;
        assert(all[k].slot == slot);
    }
}

/// The statement of `law_resizes_are_the_stale_slots`, for the first `upto`
/// slots.
proof fn lemma_stale_slots(model: PipelineModel, region: Size, upto: nat)
    requires
        upto <= SLOTS,
    ensures
        forall|k: int|
            0 <= k < model.stale_slots(region, upto).len() ==> {
                let resize = #[trigger] model.stale_slots(region, upto)[k];
                &&& resize.slot < upto
                &&& model.is_stale(region, resize.slot as int)
                &&& resize.size == level_size(region, resize.slot as nat)
            },
        forall|j: int, k: int|
            0 <= j < k < model.stale_slots(region, upto).len() ==> (#[trigger] model.stale_slots(
                region,
                upto,
            )[j]).slot < (#[trigger] model.stale_slots(region, upto)[k]).slot,
        forall|slot: int|
            0 <= slot < upto && #[trigger] model.is_stale(region, slot) ==> exists|k: int|
                0 <= k < model.stale_slots(region, upto).len() && (#[trigger] model.stale_slots(
                    region,
                    upto,
                )[k]).slot == slot,
    decreases upto,
{
    if upto > 0 {
        let last = (upto - 1) as nat;
        lemma_stale_slots(model, region, last);
        let before = model.stale_slots(region, last);
        let all = model.stale_slots(region, upto);
        assert forall|slot: int| 0 <= slot < upto && #[trigger] model.is_stale(
            region,
            slot,
        ) implies exists|k: int|
            0 <= k < all.len() && (#[trigger] all[k]).slot == slot by {
            if slot < last {
                let k = choose|k: int| 0 <= k < before.len() && (#[trigger] before[k]).slot == slot;
                assert(all[k].slot == slot);
            } else {
                assert(all[all.len() - 1].slot == slot);
            }
        }
    }
}

/// Preparing twice for the same region replaces nothing the second time; and
/// preparing twice for the same parameters leaves the buffer alone the second
/// time, unless the spread is not a number. Either way the second preparation
/// leaves the pipeline as the first left it.
pub proof fn law_update_is_idempotent(model: PipelineModel, region: Size, blur: Shader)
    ensures
        model.updated(region, blur).resizes(region) == Seq::<Resize>::empty(),
        is_comparable(blur.spread) ==> model.updated(region, blur).change(blur) is Keep,
        model.updated(region, blur).updated(region, blur) == model.updated(region, blur),
{
    let once = model.updated(region, blur);
    lemma_consistent_chain_has_no_stale_slot(once, region, SLOTS as nat);
}

/// A pipeline that is consistent for a region has nothing to replace when it
/// is prepared for that region.
pub proof fn law_same_region_replaces_nothing(model: PipelineModel)
    requires
        model.wf(),
    ensures
        model.resizes(model.region) == Seq::<Resize>::empty(),
{
    lemma_consistent_chain_has_no_stale_slot(model, model.region, SLOTS as nat);
}

/// Where the first `upto` slots have the sizes that `region` asks for, none of
/// them is replaced.
proof fn lemma_consistent_chain_has_no_stale_slot(model: PipelineModel, region: Size, upto: nat)
    requires
        upto <= SLOTS,
        forall|slot: int|
            0 <= slot < upto ==> #[trigger] model.slots[slot] == level_size(region, slot as nat),
    ensures
        model.stale_slots(region, upto) == Seq::<Resize>::empty(),
    decreases upto,
{
    if upto > 0 {
        lemma_consistent_chain_has_no_stale_slot(model, region, (upto - 1) as nat);
        assert(model.slots[upto - 1] == level_size(region, (upto - 1) as nat));
    }
}

/// A frame has one copy and, for a blur of P passes, 2P draws; one draw where
/// P is zero.
pub proof fn law_plan_length(model: PipelineModel, clip: Rectangle)
    ensures
        model.blur.levels() == 0 ==> model.plan(clip).len() == 2,
        model.blur.levels() > 0 ==> model.plan(clip).len() == 1 + 2 * model.blur.levels(),
        model.plan(clip).len() <= 1 + 2 * MAX_LEVELS,
{
    reveal(PipelineModel::plan);
}

/// A frame opens with the copy into the base slot, and copies nowhere else:
/// every later command is a draw.
pub proof fn law_plan_copies_once(model: PipelineModel, clip: Rectangle)
    ensures
        model.plan(clip)[0] == Command::CopyIn(model.copy_in(clip)),
        forall|index: int|
            1 <= index < model.plan(clip).len() ==> #[trigger] model.plan(clip)[index] is Draw,
{
    reveal(PipelineModel::plan);
}

/// In a frame with passes, the draw at each position is the pass down to the
/// level of that position, or the pass back up that mirrors it.
pub proof fn law_plan_mirrors(model: PipelineModel, clip: Rectangle)
    requires
        model.blur.levels() > 0,
    ensures
        forall|index: int|
            1 <= index < model.plan(clip).len() ==> #[trigger] model.plan(clip)[index]
                == Command::Draw(pass_at(model, clip, index)),
{
    reveal(PipelineModel::plan);
}

/// The draws of a frame form one chain: the first samples the base slot, each
/// further one samples the slot that the draw before it drew to, none samples
/// the slot it draws to, and the last draws into the target.
pub proof fn law_plan_is_chained(model: PipelineModel, clip: Rectangle)
    ensures
        source_at(model.plan(clip), 1) == 0,
        destination_at(model.plan(clip), model.plan(clip).len() - 1) == model.target(clip),
        forall|index: int|
            1 <= index < model.plan(clip).len() - 1 ==> #[trigger] destination_at(
                model.plan(clip),
                index,
            ) == Attachment::Slot(source_at(model.plan(clip), index + 1)),
        forall|index: int|
            1 <= index < model.plan(clip).len() ==> #[trigger] destination_at(
                model.plan(clip),
                index,
            ) != Attachment::Slot(source_at(model.plan(clip), index)),
{
    let plan = model.plan(clip);
    let levels = model.blur.levels() as int;
    law_plan_length(model, clip);
    if levels > 0 {
        law_plan_mirrors(model, clip);
        assert(plan[1] == Command::Draw(pass_at(model, clip, 1)));
        assert(plan[2 * levels] == Command::Draw(pass_at(model, clip, 2 * levels)));
        assert forall|index: int| 1 <= index < plan.len() - 1 implies #[trigger] destination_at(
            plan,
            index,
        ) == Attachment::Slot(source_at(plan, index + 1)) by {
            assert(plan[index] == Command::Draw(pass_at(model, clip, index)));
            assert(plan[index + 1] == Command::Draw(pass_at(model, clip, index + 1)));
            lemma_passes_are_chained(model, clip, index);
        }
        assert forall|index: int| 1 <= index < plan.len() implies #[trigger] destination_at(
            plan,
            index,
        ) != Attachment::Slot(source_at(plan, index)) by {
            assert(plan[index] == Command::Draw(pass_at(model, clip, index)));
            lemma_passes_are_chained(model, clip, index);
        }
    } else {
        law_no_passes_is_a_paste(model, clip);
        assert(plan[1] == Command::Draw(model.paste(clip)));
    }
}

/// One link of the chain of `law_plan_is_chained`.
proof fn lemma_passes_are_chained(model: PipelineModel, clip: Rectangle, index: int)
    requires
        1 <= index <= 2 * model.blur.levels(),
    ensures
        index < 2 * model.blur.levels() ==> pass_at(model, clip, index).destination
            == Attachment::Slot(pass_at(model, clip, index + 1).source),
        pass_at(model, clip, index).destination != Attachment::Slot(
            pass_at(model, clip, index).source,
        ),
{
    let levels = model.blur.levels() as int;
    let level: nat = if index <= levels {
        index as nat
    } else {
        (2 * levels - index) as nat
    };
    assert(level <= MAX_LEVELS);
    assert(level_slot(level) < SLOTS);
    assert(level_slot(level + 1) < SLOTS);
    if level > 0 {
        assert(level_slot((level - 1) as nat) != level_slot(level));
    }
    assert(level_slot(level) != level_slot(level + 1));
}

/// What holds of a pass that stays within the textures and the parameter
/// buffer of a pipeline: it samples a slot of the chain, a draw to a slot
/// finds there a texture of the size of the level it produces, and it binds
/// a record exactly where the spread is tied to the level, one that lies
/// within the table at a multiple of the stride.
pub open spec fn is_within(model: PipelineModel, pass: Pass) -> bool {
    &&& pass.source < SLOTS
    &&& pass.level <= MAX_LEVELS
    &&& pass.parameter_offset == model.offset(pass.level as nat)
    &&& pass.parameter_offset is Some <==> model.blur.spread is Binary
    &&& pass.parameter_offset matches Some(offset) ==> offset % model.stride == 0 && offset
        + SCALAR_SIZE <= RECORDS * model.stride
    &&& pass.destination matches Attachment::Slot(slot) ==> slot < SLOTS && model.slots[slot as int]
        == level_size(model.region, pass.level as nat)
}

/// No frame reaches outside its textures or its parameter buffer: the copy
/// fits the base slot and the clip rectangle, and every pass stays within.
pub proof fn law_plan_stays_in_bounds(model: PipelineModel, clip: Rectangle)
    requires
        model.wf(),
    ensures
        model.copy_in(clip).width <= model.slots[0].width,
        model.copy_in(clip).height <= model.slots[0].height,
        model.copy_in(clip).width <= clip.width,
        model.copy_in(clip).height <= clip.height,
        forall|index: int|
            1 <= index < model.plan(clip).len() ==> is_within(
                model,
                (#[trigger] model.plan(clip)[index])->Draw_0,
            ),
{
    let plan = model.plan(clip);
    let levels = model.blur.levels() as int;
    law_plan_length(model, clip);
    if levels > 0 {
        law_plan_mirrors(model, clip);
        assert forall|index: int| 1 <= index < plan.len() implies is_within(
            model,
            (#[trigger] plan[index])->Draw_0,
        ) by {
            let pass = pass_at(model, clip, index);
            assert(plan[index] == Command::Draw(pass));
            let level = pass.level as nat;
            assert(level <= MAX_LEVELS);
            law_records_lie_within_the_table(model.stride, level);
            assert(model.slots[level_slot(level) as int] == level_size(
                model.region,
                level_slot(level),
            ));
        }
    } else {
        law_no_passes_is_a_paste(model, clip);
        assert(plan[1] == Command::Draw(model.paste(clip)));
        law_records_lie_within_the_table(model.stride, 0);
    }
}

/// The last pass draws into the target with the clip rectangle as its
/// viewport, for every clip rectangle. What it lays over the viewport is the
/// part of the base slot that the copy filled, which is never more than the
/// whole and never of a whole without pixels. Where the clip rectangle fits
/// the base slot, that part has the size of the viewport, so the frame comes
/// back at the scale it was copied at; where the clip rectangle is no smaller
/// than the base slot, the part is the whole.
pub proof fn law_target_is_the_clip(model: PipelineModel, clip: Rectangle)
    requires
        model.wf(),
    ensures
        model.target(clip) matches Attachment::Target { viewport, sampled } && {
            &&& viewport == clip
            &&& sampled.whole == model.slots[0]
            &&& sampled.whole.width >= 1 && sampled.whole.height >= 1
            &&& sampled.part.width == model.copy_in(clip).width
            &&& sampled.part.height == model.copy_in(clip).height
            &&& sampled.part.width <= sampled.whole.width
            &&& sampled.part.height <= sampled.whole.height
            &&& clip.width <= sampled.whole.width ==> sampled.part.width == viewport.width
            &&& clip.height <= sampled.whole.height ==> sampled.part.height == viewport.height
            &&& clip.width >= sampled.whole.width && clip.height >= sampled.whole.height
                ==> sampled.part == sampled.whole
        },
{
    assert(model.slots[0] == level_size(model.region, 0));
    law_levels_shrink(model.region, 0);
}

/// A request for more passes than the chain has levels behaves as a request
/// for as many passes as it has: it works on the same region, replaces the
/// same textures, writes the parameter buffer in the same cases, and its
/// frames are the same.
pub proof fn law_passes_are_clamped(
    model: PipelineModel,
    measured: Size,
    spread: Spread,
    passes: u32,
    clip: Rectangle,
)
    requires
        passes >= MAX_LEVELS,
    ensures
        ({
            let asked = Shader { passes, spread };
            let most = Shader { passes: MAX_LEVELS, spread };
            let region = most.region_of(measured);
            &&& asked.levels() == most.levels()
            &&& asked.region_of(measured) == region
            &&& model.change(asked) == model.change(most)
            &&& model.updated(region, asked).slots == model.updated(region, most).slots
            &&& model.updated(region, asked).uploaded == model.updated(region, most).uploaded
            &&& model.updated(region, asked).plan(clip) == model.updated(region, most).plan(clip)
        }),
{
    reveal(PipelineModel::plan);
    let asked = Shader { passes, spread };
    let most = Shader { passes: MAX_LEVELS, spread };
    let region = most.region_of(measured);
    let one = model.updated(region, asked);
    let other = model.updated(region, most);
    assert(one.descent() == other.descent());
    assert(one.ascent(clip) == other.ascent(clip));
}

/// A blur of more passes reaches at least as deep, and works there on a
/// texture that is no larger.
pub proof fn law_more_passes_go_deeper(region: Size, fewer: Shader, more: Shader)
    requires
        fewer.passes <= more.passes,
    ensures
        fewer.levels() <= more.levels() <= MAX_LEVELS,
        level_size(region, more.levels()).width <= level_size(region, fewer.levels()).width,
        level_size(region, more.levels()).height <= level_size(region, fewer.levels()).height,
{
    lemma_deeper_is_smaller(region, fewer.levels(), more.levels());
}

/// The size of a level does not grow with the level.
proof fn lemma_deeper_is_smaller(region: Size, above: nat, below: nat)
    requires
        above <= below,
    ensures
        level_size(region, below).width <= level_size(region, above).width,
        level_size(region, below).height <= level_size(region, above).height,
    decreases below - above,
{
    if above < below {
        lemma_deeper_is_smaller(region, above, (below - 1) as nat);
        law_levels_shrink(region, (below - 1) as nat);
    }
}

/// A frame is decided by what the last preparation left: two pipelines with
/// the same parameters, the same stride and the same base slot record the
/// same commands for the same clip rectangle.
pub proof fn law_plan_is_repeatable(one: PipelineModel, other: PipelineModel, clip: Rectangle)
    requires
        one.blur == other.blur,
        one.stride == other.stride,
        one.slots[0] == other.slots[0],
    ensures
        one.plan(clip) == other.plan(clip),
{
    reveal(PipelineModel::plan);
    assert(one.descent() == other.descent());
    assert(one.ascent(clip) == other.ascent(clip));
}

/// A blur of no passes runs no filter: its frame is the copy into the base
/// slot and one draw that samples the base slot as it is into the target.
pub proof fn law_no_passes_is_a_paste(model: PipelineModel, clip: Rectangle)
    requires
        model.blur.levels() == 0,
    ensures
        model.plan(clip) == seq![
            Command::CopyIn(model.copy_in(clip)),
            Command::Draw(model.paste(clip)),
        ],
        model.paste(clip).filter == Filter::Paste,
        model.paste(clip).source == 0,
        model.paste(clip).destination == model.target(clip),
{
    reveal(PipelineModel::plan);
}

/// A blur with passes filters down level by level, then back up: the first P
/// draws are downsamples to the levels 1 to P, the last P are upsamples to
/// the levels P-1 to 0.
pub proof fn law_plan_goes_down_then_up(model: PipelineModel, clip: Rectangle)
    requires
        model.blur.levels() > 0,
    ensures
        forall|index: int|
            1 <= index <= model.blur.levels() ==> {
                let pass = (#[trigger] model.plan(clip)[index])->Draw_0;
                pass.filter == Filter::Downsample && pass.level == index
            },
        forall|index: int|
            model.blur.levels() < index <= 2 * model.blur.levels() ==> {
                let pass = (#[trigger] model.plan(clip)[index])->Draw_0;
                pass.filter == Filter::Upsample && pass.level == 2 * model.blur.levels() - index
            },
{
    law_plan_length(model, clip);
    law_plan_mirrors(model, clip);
}

} // verus!
