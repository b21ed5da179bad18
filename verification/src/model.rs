//! The mathematical model of a blur pipeline: what it holds between frames,
//! how a frame's preparation changes it, and which commands a frame records.

use vstd::prelude::*;
use crate::geometry::{Rectangle, Size};
use crate::levels::{aligned_size, clamped_passes, level_size, level_slot, SLOTS};
use crate::parameters::{change, is_stride, parameter_offset, record_stride, serves, Change, Spread};
use crate::plan::{Attachment, Command, Filter, Pass, Portion};
use crate::shader::{Resize, Shader};

verus! {

/// The state of a pipeline.
pub struct PipelineModel {
    /// The parameters that the pipeline was last prepared with.
    pub blur: Shader,
    /// The size of the region that the pipeline was last prepared for.
    pub region: Size,
    /// The distance in bytes between two records of the parameter buffer.
    pub stride: u32,
    /// The spread that the parameter buffer was last written for.
    pub uploaded: Spread,
    /// The sizes of the textures behind the slots of the chain, base first.
    pub slots: Seq<Size>,
}

/// The smaller of two dimensions.
pub open spec fn smaller(a: u32, b: u32) -> u32 {
    if a <= b {
        a
    } else {
        b
    }
}

impl Shader {
    /// The region that a blur works on, for an area measured as `measured`:
    /// rounded up to powers of two where the spread is tied to the level, so
    /// that every halving is exact.
    pub open spec fn region_of(self, measured: Size) -> Size {
        match self.spread {
            Spread::Binary => aligned_size(measured),
            Spread::Uniform(_) => measured,
        }
    }

    /// The number of passes that the blur runs in each direction.
    pub open spec fn levels(self) -> nat {
        clamped_passes(self.passes) as nat
    }
}

impl PipelineModel {
    /// The state is consistent: the chain is complete, every slot has the
    /// size of its level for the region, and the parameter buffer serves the
    /// parameters.
    pub open spec fn wf(self) -> bool {
        &&& is_stride(self.stride)
        &&& self.slots.len() == SLOTS
        &&& forall|slot: int|
            0 <= slot < SLOTS ==> #[trigger] self.slots[slot] == level_size(
                self.region,
                slot as nat,
            )
        &&& serves(self.uploaded, self.blur.spread)
    }

    /// The sizes of the slots of a chain for `region`.
    pub open spec fn chain(region: Size) -> Seq<Size> {
        Seq::new(SLOTS as nat, |slot: int| level_size(region, slot as nat))
    }

    /// The state of a pipeline that was just created.
    pub open spec fn fresh(region: Size, blur: Shader, alignment: u32) -> PipelineModel {
        PipelineModel {
            blur,
            region,
            stride: record_stride(alignment),
            uploaded: blur.spread,
            slots: Self::chain(region),
        }
    }

    /// What preparing for `blur` does to the parameter buffer.
    pub open spec fn change(self, blur: Shader) -> Change {
        change(self.blur.spread, blur.spread)
    }

    /// Whether preparing for `region` replaces the texture of `slot`.
    pub open spec fn is_stale(self, region: Size, slot: int) -> bool {
        self.slots[slot] != level_size(region, slot as nat)
    }

    /// The replacements among the first `upto` slots when preparing for
    /// `region`, in the order of the chain.
    pub open spec fn stale_slots(self, region: Size, upto: nat) -> Seq<Resize>
        decreases upto,
    {
        if upto == 0 {
            Seq::empty()
        } else {
            let slot = upto - 1;
            let before = self.stale_slots(region, slot as nat);
            if self.is_stale(region, slot) {
                before.push(Resize { slot: slot as usize, size: level_size(region, slot as nat) })
            } else {
                before
            }
        }
    }

    /// The replacements when preparing for `region`.
    pub open spec fn resizes(self, region: Size) -> Seq<Resize> {
        self.stale_slots(region, SLOTS as nat)
    }

    /// The state after preparing for `region` and `blur`.
    pub open spec fn updated(self, region: Size, blur: Shader) -> PipelineModel {
        PipelineModel {
            blur,
            region,
            stride: self.stride,
            uploaded: if self.change(blur) is Keep {
                self.uploaded
            } else {
                blur.spread
            },
            slots: Self::chain(region),
        }
    }

    /// The byte offset of the record that a pass of `level` binds, if it
    /// binds one.
    pub open spec fn offset(self, level: nat) -> Option<u32> {
        match parameter_offset(self.blur.spread, level, self.stride) {
            Some(offset) => Some(offset as u32),
            None => None,
        }
    }

    /// The part of the base slot that the copy fills, of the whole of it.
    pub open spec fn copied(self, clip: Rectangle) -> Portion {
        Portion {
            part: Size { width: self.copy_in(clip).width, height: self.copy_in(clip).height },
            whole: self.slots[0],
        }
    }

    /// Where the last pass of a frame draws: the target, within the clip
    /// rectangle. What is laid over it is the copied part of the picture.
    pub open spec fn target(self, clip: Rectangle) -> Attachment {
        Attachment::Target { viewport: clip, sampled: self.copied(clip) }
    }

    /// The copy that opens a frame: the clip rectangle of the frame, as far as
    /// the base slot holds it.
    pub open spec fn copy_in(self, clip: Rectangle) -> Rectangle {
        Rectangle {
            x: clip.x,
            y: clip.y,
            width: smaller(clip.width, self.slots[0].width),
            height: smaller(clip.height, self.slots[0].height),
        }
    }

    /// The pass that produces `level` from the level above it.
    pub open spec fn downsample(self, level: nat) -> Pass {
        Pass {
            filter: Filter::Downsample,
            source: level_slot((level - 1) as nat) as usize,
            destination: Attachment::Slot(level_slot(level) as usize),
            level: level as u32,
            parameter_offset: self.offset(level),
        }
    }

    /// The pass that produces `level` from the level below it. Level 0 is
    /// drawn into the target.
    pub open spec fn upsample(self, level: nat, clip: Rectangle) -> Pass {
        Pass {
            filter: Filter::Upsample,
            source: level_slot(level + 1) as usize,
            destination: if level == 0 {
                self.target(clip)
            } else {
                Attachment::Slot(level_slot(level) as usize)
            },
            level: level as u32,
            parameter_offset: self.offset(level),
        }
    }

    /// The pass that draws the base slot into the target as it is.
    pub open spec fn paste(self, clip: Rectangle) -> Pass {
        Pass {
            filter: Filter::Paste,
            source: 0,
            destination: self.target(clip),
            level: 0,
            parameter_offset: self.offset(0),
        }
    }

    /// The passes down the chain, from level 1 to the deepest.
    pub open spec fn descent(self) -> Seq<Command> {
        Seq::new(self.blur.levels(), |k: int| Command::Draw(self.downsample((k + 1) as nat)))
    }

    /// The passes back up the chain, from the level above the deepest to
    /// level 0.
    pub open spec fn ascent(self, clip: Rectangle) -> Seq<Command> {
        Seq::new(
            self.blur.levels(),
            |k: int| Command::Draw(self.upsample((self.blur.levels() - 1 - k) as nat, clip)),
        )
    }

    /// The commands of a frame: the copy, then the passes down and back up;
    /// without passes, the copy and a paste.
    #[verifier::opaque]
    pub open spec fn plan(self, clip: Rectangle) -> Seq<Command> {
        if self.blur.levels() == 0 {
            seq![Command::CopyIn(self.copy_in(clip)), Command::Draw(self.paste(clip))]
        } else {
            seq![Command::CopyIn(self.copy_in(clip))] + self.descent() + self.ascent(clip)
        }
    }
}

} // verus!
