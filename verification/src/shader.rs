//! The blur itself: its parameters, the pipeline that persists between
//! frames, and the two phases of a frame. Preparing brings the pipeline to
//! the frame's region and parameters and reports what to allocate and write;
//! rendering lists the commands to record.

use vstd::prelude::*;
use crate::geometry::{Rectangle, Size};
use crate::levels::{align_size, clamp_passes, level_size, size_at_level, slot_of_level, MAX_LEVELS,
    SLOTS};
use crate::model::PipelineModel;
use crate::parameters::{change_of, contents_bytes, is_contents, offset_of_level, stride_for,
    Change, Spread};
use crate::plan::{Attachment, Command, Filter, Pass, Portion};
use crate::texture::Texture;

verus! {

/// The parameters of a blur: how many passes it asks for, and how far apart
/// each pass samples.
#[derive(Clone, Copy, Debug, PartialEq, Eq, Structural)]
pub struct Shader {
    pub passes: u32,
    pub spread: Spread,
}

/// A slot whose texture was replaced, and the size of the new one.
#[derive(Clone, Copy, Debug, PartialEq, Eq, Structural)]
pub struct Resize {
    pub slot: usize,
    pub size: Size,
}

/// What preparing a frame asks for the parameter buffer.
#[derive(Debug, PartialEq, Eq)]
pub enum ParameterUpdate {
    /// Nothing: the buffer stays as it is.
    Keep,
    /// A write of these bytes over the whole buffer.
    Write(Vec<u8>),
    /// A new buffer with these contents; the old one, bound differently, is
    /// let go.
    Create(Vec<u8>),
}

/// What preparing a frame asks of the device.
#[derive(Debug)]
pub struct Update {
    /// What becomes of the parameter buffer.
    pub parameters: ParameterUpdate,
    /// The slots to give a new texture, in the order of the chain.
    pub resized: Vec<Resize>,
}

/// The outcome of preparing a frame.
#[derive(Debug)]
pub struct Prepared {
    /// Whether the pipeline was created for this frame.
    pub created: bool,
    /// What changed against the pipeline as it was, or as it was created.
    pub update: Update,
}

/// The pipeline of one blur: its parameters, the region it was prepared for,
/// the chain of texture slots and the state of the parameter buffer.
#[derive(Debug)]
pub struct Pipeline {
    blur: Shader,
    region: Size,
    stride: u32,
    uploaded: Spread,
    slots: Vec<Texture>,
}

/// The sizes of the textures behind a chain of slots.
pub open spec fn sizes_of(textures: Seq<Texture>) -> Seq<Size> {
    Seq::new(textures.len(), |slot: int| textures[slot]@)
}

impl Update {
    /// Whether the update is what preparing a pipeline in state `before` for
    /// `region` and `blur` asks for.
    pub open spec fn reports(self, before: PipelineModel, region: Size, blur: Shader) -> bool {
        &&& self.resized@ == before.resizes(region)
        &&& match self.parameters {
            ParameterUpdate::Keep => before.change(blur) is Keep,
            ParameterUpdate::Write(bytes) => before.change(blur) is Write && is_contents(
                bytes@,
                blur.spread,
                before.stride,
            ),
            ParameterUpdate::Create(bytes) => before.change(blur) is Create && is_contents(
                bytes@,
                blur.spread,
                before.stride,
            ),
        }
    }
}

impl View for Pipeline {
    type V = PipelineModel;

    closed spec fn view(&self) -> PipelineModel {
        PipelineModel {
            blur: self.blur,
            region: self.region,
            stride: self.stride,
            uploaded: self.uploaded,
            slots: sizes_of(self.slots@),
        }
    }
}

impl Shader {
    /// A blur of `passes` passes that samples `offset` apart at every level.
    /// The offset is given as the bits of a single-precision number.
    pub fn new(passes: u32, offset: u32) -> (shader: Shader)
        ensures
            shader == (Shader { passes, spread: Spread::Uniform(offset) }),
    {
        Shader { passes, spread: Spread::Uniform(offset) }
    }

    /// A blur of the given radius: one pass per unit, each sampling twice as
    /// far apart as the one before.
    pub fn with_radius(radius: u32) -> (shader: Shader)
        ensures
            shader == (Shader { passes: radius, spread: Spread::Binary }),
    {
        Shader { passes: radius, spread: Spread::Binary }
    }

    /// The region that the blur works on, for an area measured as `measured`.
    pub fn region(&self, measured: Size) -> (region: Size)
        ensures
            region == self.region_of(measured),
    {
        match self.spread {
            Spread::Binary => align_size(measured),
            Spread::Uniform(_) => measured,
        }
    }

    /// Prepares a frame. A pipeline is created where `storage` holds none,
    /// for a device that binds uniform records at multiples of `alignment`;
    /// then the pipeline is brought to the region of `measured` and to these
    /// parameters.
    pub fn prepare(
        &self,
        storage: &mut Option<Pipeline>,
        measured: Size,
        alignment: u32,
    ) -> (outcome: Prepared)
        ensures
            outcome.created == (*old(storage) is None),
            *final(storage) is Some,
            ({
                let after = (*final(storage))->0@;
                let region = self.region_of(measured);
                let before = match *old(storage) {
                    Some(pipeline) => pipeline@,
                    None => PipelineModel::fresh(region, *self, alignment),
                };
                &&& after == before.updated(region, *self)
                &&& after.wf()
                &&& outcome.update.reports(before, region, *self)
            }),
    {
        let region = self.region(measured);
        let (mut pipeline, created) = match storage.take() {
            Some(pipeline) => (pipeline, false),
            None => (Pipeline::new(region, *self, alignment), true),
        };
        let update = pipeline.update(region, self);
        *storage = Some(pipeline);
        Prepared { created, update }
    }

    /// The commands of a frame that was prepared, for the clip rectangle
    /// `clip` of the target. Nothing is changed: rendering again gives the
    /// same commands.
    pub fn render(&self, storage: &Option<Pipeline>, clip: &Rectangle) -> (commands: Vec<Command>)
        requires
            storage is Some,
        ensures
            commands@ == storage->0@.plan(*clip),
    {
        match storage {
            Some(pipeline) => pipeline.render(clip),
            None => Vec::new(),
        }
    }
}

impl Pipeline {
    /// The pipeline is consistent at all times.
    #[verifier::type_invariant]
    spec fn inv(&self) -> bool {
        self@.wf()
    }

    /// A pipeline for `region` and `blur`, on a device that binds uniform
    /// records at multiples of `alignment`.
    pub fn new(region: Size, blur: Shader, alignment: u32) -> (pipeline: Pipeline)
        ensures
            pipeline@ == PipelineModel::fresh(region, blur, alignment),
            pipeline@.wf(),
    {
        let mut slots: Vec<Texture> = Vec::new();
        let mut slot: usize = 0;
        while slot < SLOTS
            invariant
                slot <= SLOTS,
                slots@.len() == slot,
                forall|i: int|
                    0 <= i < slot ==> (#[trigger] slots@[i])@ == level_size(
                        region,
                        i as nat,
                    ),
            decreases SLOTS - slot,
        {
            slots.push(Texture::new(size_at_level(region, slot as u32)));
            slot = slot + 1;
        }
        let pipeline = Pipeline {
            blur,
            region,
            stride: stride_for(alignment),
            uploaded: blur.spread,
            slots,
        };
        assert(pipeline@.slots == PipelineModel::chain(region));
        pipeline
    }

    /// Brings the pipeline to `region` and `blur`. Slots of another size get
    /// a new texture. The parameter buffer is written where the one spread
    /// changed, and created anew where the kind of spread changed.
    pub fn update(&mut self, region: Size, blur: &Shader) -> (update: Update)
        ensures
            final(self)@ == old(self)@.updated(region, *blur),
            final(self)@.wf(),
            update.reports(old(self)@, region, *blur),
    {
        proof {
            use_type_invariant(&*self);
        }
        let ghost before = self@;
        let (parameters, uploaded) = match change_of(self.blur.spread, blur.spread) {
            Change::Keep => (ParameterUpdate::Keep, self.uploaded),
            Change::Write => (
                ParameterUpdate::Write(contents_bytes(blur.spread, self.stride)),
                blur.spread,
            ),
            Change::Create => (
                ParameterUpdate::Create(contents_bytes(blur.spread, self.stride)),
                blur.spread,
            ),
        };
        let mut slots: Vec<Texture> = Vec::new();
        let mut resized: Vec<Resize> = Vec::new();
        let mut slot: usize = 0;
        while slot < SLOTS
            invariant
                slot <= SLOTS,
                before == self@,
                before.slots.len() == SLOTS,
                self.slots@.len() == SLOTS,
                slots@.len() == slot,
                forall|i: int|
                    0 <= i < slot ==> (#[trigger] slots@[i])@ == level_size(
                        region,
                        i as nat,
                    ),
                resized@ == before.stale_slots(region, slot as nat),
            decreases SLOTS - slot,
        {
            let mut texture = self.slots[slot];
            let size = size_at_level(region, slot as u32);
            assert(texture@ == before.slots[slot as int]);
            if texture.update(size) {
                resized.push(Resize { slot, size });
            }
            slots.push(texture);
            slot = slot + 1;
        }
        let stride = self.stride;
        *self = Pipeline { blur: *blur, region, stride, uploaded, slots };
        assert(self@.slots == PipelineModel::chain(region));
        Update { parameters, resized }
    }

    /// The parameters that the pipeline was last prepared with.
    pub fn blur(&self) -> (blur: Shader)
        ensures
            blur == self@.blur,
    {
        self.blur
    }

    /// The region that the pipeline was last prepared for.
    pub fn region(&self) -> (region: Size)
        ensures
            region == self@.region,
    {
        self.region
    }

    /// The distance in bytes between two records of the parameter buffer.
    pub fn stride(&self) -> (stride: u32)
        ensures
            stride == self@.stride,
    {
        self.stride
    }

    /// The slots of the chain, base first.
    pub fn textures(&self) -> (textures: &Vec<Texture>)
        ensures
            sizes_of(textures@) == self@.slots,
            textures@.len() == SLOTS,
    {
        proof {
            use_type_invariant(self);
        }
        &self.slots
    }

    /// The contents that the parameter buffer is created with: the one
    /// scalar of a single spread, the table of a spread tied to the level.
    pub fn parameter_bytes(&self) -> (bytes: Vec<u8>)
        ensures
            is_contents(bytes@, self@.uploaded, self@.stride),
    {
        proof {
            use_type_invariant(self);
        }
        contents_bytes(self.uploaded, self.stride)
    }

    /// Where the last pass of a frame draws.
    fn target(&self, clip: &Rectangle) -> (target: Attachment)
        ensures
            target == self@.target(*clip),
    {
        proof {
            use_type_invariant(self);
        }
        let copy = self.copy_in(clip);
        Attachment::Target {
            viewport: *clip,
            sampled: Portion {
                part: Size { width: copy.width, height: copy.height },
                whole: self.slots[0].size(),
            },
        }
    }

    /// The clip rectangle of the frame, as far as the base slot holds it.
    fn copy_in(&self, clip: &Rectangle) -> (source: Rectangle)
        ensures
            source == self@.copy_in(*clip),
    {
        proof {
            use_type_invariant(self);
        }
        let base = self.slots[0].size();
        Rectangle {
            x: clip.x,
            y: clip.y,
            width: if clip.width <= base.width { clip.width } else { base.width },
            height: if clip.height <= base.height { clip.height } else { base.height },
        }
    }

    /// The pass that produces `level` from the level above it.
    fn downsample(&self, level: u32) -> (pass: Pass)
        requires
            1 <= level <= MAX_LEVELS,
        ensures
            pass == self@.downsample(level as nat),
    {
        proof {
            use_type_invariant(self);
        }
        Pass {
            filter: Filter::Downsample,
            source: slot_of_level(level - 1),
            destination: Attachment::Slot(slot_of_level(level)),
            level,
            parameter_offset: offset_of_level(self.blur.spread, level, self.stride),
        }
    }

    /// The pass that produces `level` from the level below it.
    fn upsample(&self, level: u32, clip: &Rectangle) -> (pass: Pass)
        requires
            level < MAX_LEVELS,
        ensures
            pass == self@.upsample(level as nat, *clip),
    {
        proof {
            use_type_invariant(self);
        }
        Pass {
            filter: Filter::Upsample,
            source: slot_of_level(level + 1),
            destination: if level == 0 {
                self.target(clip)
            } else {
                Attachment::Slot(slot_of_level(level))
            },
            level,
            parameter_offset: offset_of_level(self.blur.spread, level, self.stride),
        }
    }

    /// The pass that draws the base slot into the target as it is.
    fn paste(&self, clip: &Rectangle) -> (pass: Pass)
        ensures
            pass == self@.paste(*clip),
    {
        proof {
            use_type_invariant(self);
        }
        Pass {
            filter: Filter::Paste,
            source: 0,
            destination: self.target(clip),
            level: 0,
            parameter_offset: offset_of_level(self.blur.spread, 0, self.stride),
        }
    }

    /// The commands of a frame for the clip rectangle `clip` of the target.
    pub fn render(&self, clip: &Rectangle) -> (commands: Vec<Command>)
        ensures
            commands@ == self@.plan(*clip),
    {
        proof {
            reveal(PipelineModel::plan);
        }
        let passes = clamp_passes(self.blur.passes);
        let mut commands: Vec<Command> = Vec::new();
        commands.push(Command::CopyIn(self.copy_in(clip)));
        if passes == 0 {
            commands.push(Command::Draw(self.paste(clip)));
            return commands;
        }
        let ghost copy = seq![Command::CopyIn(self@.copy_in(*clip))];
        let mut level: u32 = 0;
        while level < passes
            invariant
                level <= passes <= MAX_LEVELS,
                passes == self@.blur.levels(),
                commands@ == copy + self@.descent().subrange(0, level as int),
            decreases passes - level,
        {
            level = level + 1;
            commands.push(Command::Draw(self.downsample(level)));
        }
        assert(self@.descent().subrange(0, passes as int) == self@.descent());
        let mut level: u32 = passes;
        while level > 0
            invariant
                level <= passes <= MAX_LEVELS,
                passes == self@.blur.levels(),
                commands@ == copy + self@.descent() + self@.ascent(*clip).subrange(
                    0,
                    passes - level,
                ),
            decreases level,
        {
            level = level - 1;
            commands.push(Command::Draw(self.upsample(level, clip)));
        }
        assert(self@.ascent(*clip).subrange(0, passes as int) == self@.ascent(*clip));
        commands
    }
}

} // verus!
