//! Render pipeline setups for shape fills under stencil masking, and the choice
//! of a pipeline for a draw. The setups are plain data that a renderer turns
//! into its own pipeline objects.
use vstd::prelude::*;

verus! {

/// The pipelines of one kind of shape fill: one per stencil bit for drawing a
/// mask, and one per stencil value for drawing through the active masks.
pub struct ShapePipeline<P, L> {
    /// Pipelines that write mask bit `i` of the stencil, indexed by `i`.
    pub write_mask_pipelines: Vec<P>,
    /// Pipelines that draw where the stencil equals the read mask, indexed by that mask.
    pub read_mask_pipelines: Vec<P>,
    /// The bind group layout shared by these pipelines.
    pub bind_layout: L,
}

/// The pipelines of every kind of shape fill.
pub struct Pipelines<P, L> {
    /// Solid color fills.
    pub color: ShapePipeline<P, L>,
    /// Bitmap fills.
    pub bitmap: ShapePipeline<P, L>,
    /// Gradient fills.
    pub gradient: ShapePipeline<P, L>,
}

/// Whether a draw is writing a mask: some masks are pushed that are not yet active.
pub open spec fn writes_mask(num_masks: u32, num_masks_active: u32) -> bool {
    num_masks_active < num_masks
}

impl<P, L> ShapePipeline<P, L> {
    /// Whether `pipeline_for` has a pipeline for these arguments.
    pub open spec fn has_pipeline_for(
        &self,
        num_masks: u32,
        num_masks_active: u32,
        read_mask: u32,
        write_mask: u32,
    ) -> bool {
        if writes_mask(num_masks, num_masks_active) {
            (write_mask.trailing_zeros() as int) < self.write_mask_pipelines@.len()
        } else {
            (read_mask as int) < self.read_mask_pipelines@.len()
        }
    }

    /// The pipeline for a draw: while a mask is being written, the one that writes
    /// the lowest bit set in `write_mask`; otherwise the one that reads `read_mask`.
    pub fn pipeline_for(
        &self,
        num_masks: u32,
        num_masks_active: u32,
        read_mask: u32,
        write_mask: u32,
    ) -> (r: &P)
        requires
            self.has_pipeline_for(num_masks, num_masks_active, read_mask, write_mask),
        ensures
            writes_mask(num_masks, num_masks_active) ==> *r
                == self.write_mask_pipelines@[write_mask.trailing_zeros() as int],
            !writes_mask(num_masks, num_masks_active) ==> *r
                == self.read_mask_pipelines@[read_mask as int],
    {
        if num_masks_active < num_masks {
            &self.write_mask_pipelines[write_mask.trailing_zeros() as usize]
        } else {
            &self.read_mask_pipelines[read_mask as usize]
        }
    }
}


/// How many mask bits the stencil holds, one write-mask pipeline each.
pub const MASK_BITS: u32 = 8;

/// How many stencil values a read-mask pipeline can test against.
pub const MASK_VALUES: u32 = 256;

/// The kind of a shape fill.
#[derive(Clone, Copy, Debug, PartialEq, Eq, Structural)]
pub enum FillKind {
    /// A solid color.
    Color,
    /// A bitmap.
    Bitmap,
    /// A gradient.
    Gradient,
}

/// A stencil test.
#[derive(Clone, Copy, Debug, PartialEq, Eq, Structural)]
pub enum StencilCompare {
    /// Always passes.
    Always,
    /// Passes where the stencil equals the reference value.
    Equal,
}

/// What a passing stencil test does to the stencil.
#[derive(Clone, Copy, Debug, PartialEq, Eq, Structural)]
pub enum StencilOp {
    /// Leaves it.
    Keep,
    /// Replaces it with the reference value.
    Replace,
}

/// A color blend factor.
#[derive(Clone, Copy, Debug, PartialEq, Eq, Structural)]
pub enum BlendFactor {
    /// One.
    One,
    /// The source alpha.
    SrcAlpha,
    /// One minus the source alpha.
    OneMinusSrcAlpha,
}

/// The shader stage a binding is visible to.
#[derive(Clone, Copy, Debug, PartialEq, Eq, Structural)]
pub enum ShaderStage {
    /// The vertex stage.
    Vertex,
    /// The fragment stage.
    Fragment,
}

/// What a binding holds.
#[derive(Clone, Copy, Debug, PartialEq, Eq, Structural)]
pub enum BindingKind {
    /// A uniform buffer.
    Uniform,
    /// A sampled 2D texture.
    Texture,
    /// A sampler.
    Sampler,
}

/// One entry of a bind group layout.
#[derive(Clone, Copy, Debug, PartialEq, Eq, Structural)]
pub struct BindingSetup {
    /// The binding slot.
    pub binding: u32,
    /// The stage that sees it.
    pub stage: ShaderStage,
    /// What it holds.
    pub kind: BindingKind,
}

/// The stencil and color state of one pipeline; both faces share the stencil state.
#[derive(Clone, Copy, Debug, PartialEq, Eq, Structural)]
pub struct PipelineSetup {
    /// The stencil test.
    pub compare: StencilCompare,
    /// What a passing test does.
    pub pass_op: StencilOp,
    /// The stencil bits the test reads.
    pub read_mask: u32,
    /// The stencil bits a pass writes.
    pub write_mask: u32,
    /// The color blend's source factor; the destination factor is always one
    /// minus the source alpha.
    pub color_src: BlendFactor,
    /// Whether the pipeline writes color at all.
    pub writes_color: bool,
}

/// The pipeline that writes mask bit `i`: it always passes, writes the bit, and
/// writes no color.
pub open spec fn write_mask_spec(i: u32) -> PipelineSetup {
    PipelineSetup {
        compare: StencilCompare::Always,
        pass_op: StencilOp::Replace,
        read_mask: 0,
        write_mask: 1u32 << i,
        color_src: BlendFactor::SrcAlpha,
        writes_color: false,
    }
}

/// The pipeline that draws a fill where the stencil equals `mask`; bitmaps, whose
/// color is premultiplied, blend with a source factor of one.
pub open spec fn read_mask_spec(kind: FillKind, mask: u32) -> PipelineSetup {
    PipelineSetup {
        compare: StencilCompare::Equal,
        pass_op: StencilOp::Keep,
        read_mask: mask,
        write_mask: 0,
        color_src: if kind == FillKind::Bitmap {
            BlendFactor::One
        } else {
            BlendFactor::SrcAlpha
        },
        writes_color: true,
    }
}

/// The bind group layout of a fill kind: transforms and color adjustments for
/// every fill; texture transforms and gradient uniforms for gradients; texture
/// transforms, a texture and a sampler for bitmaps.
pub open spec fn layout_spec(kind: FillKind) -> Seq<BindingSetup> {
    match kind {
        FillKind::Color => seq![
            BindingSetup { binding: 0, stage: ShaderStage::Vertex, kind: BindingKind::Uniform },
            BindingSetup { binding: 1, stage: ShaderStage::Vertex, kind: BindingKind::Uniform },
        ],
        FillKind::Gradient => seq![
            BindingSetup { binding: 0, stage: ShaderStage::Vertex, kind: BindingKind::Uniform },
            BindingSetup { binding: 1, stage: ShaderStage::Vertex, kind: BindingKind::Uniform },
            BindingSetup { binding: 2, stage: ShaderStage::Fragment, kind: BindingKind::Uniform },
            BindingSetup { binding: 3, stage: ShaderStage::Fragment, kind: BindingKind::Uniform },
        ],
        FillKind::Bitmap => seq![
            BindingSetup { binding: 0, stage: ShaderStage::Vertex, kind: BindingKind::Uniform },
            BindingSetup { binding: 1, stage: ShaderStage::Vertex, kind: BindingKind::Uniform },
            BindingSetup { binding: 2, stage: ShaderStage::Fragment, kind: BindingKind::Uniform },
            BindingSetup { binding: 3, stage: ShaderStage::Fragment, kind: BindingKind::Texture },
            BindingSetup { binding: 4, stage: ShaderStage::Fragment, kind: BindingKind::Sampler },
        ],
    }
}

/// The pipeline that writes mask bit `i`, as `write_mask_spec` says.
pub fn write_mask_setup(i: u32) -> (r: PipelineSetup)
    requires
        i < MASK_BITS,
    ensures
        r == write_mask_spec(i),
{
    PipelineSetup {
        compare: StencilCompare::Always,
        pass_op: StencilOp::Replace,
        read_mask: 0,
        write_mask: 1u32 << i,
        color_src: BlendFactor::SrcAlpha,
        writes_color: false,
    }
}

/// The pipeline that draws a fill through mask value `mask`, as `read_mask_spec` says.
pub fn read_mask_setup(kind: FillKind, mask: u32) -> (r: PipelineSetup)
    ensures
        r == read_mask_spec(kind, mask),
{
    PipelineSetup {
        compare: StencilCompare::Equal,
        pass_op: StencilOp::Keep,
        read_mask: mask,
        write_mask: 0,
        color_src: if kind == FillKind::Bitmap {
            BlendFactor::One
        } else {
            BlendFactor::SrcAlpha
        },
        writes_color: true,
    }
}

/// The bind group layout of a fill kind, as `layout_spec` says.
pub fn bind_layout(kind: FillKind) -> (r: Vec<BindingSetup>)
    ensures
        r@ == layout_spec(kind),
{
    let mut r: Vec<BindingSetup> = Vec::new();
    r.push(BindingSetup { binding: 0, stage: ShaderStage::Vertex, kind: BindingKind::Uniform });
    r.push(BindingSetup { binding: 1, stage: ShaderStage::Vertex, kind: BindingKind::Uniform });
    match kind {
        FillKind::Color => {},
        FillKind::Gradient => {
            r.push(BindingSetup { binding: 2, stage: ShaderStage::Fragment, kind: BindingKind::Uniform });
            r.push(BindingSetup { binding: 3, stage: ShaderStage::Fragment, kind: BindingKind::Uniform });
        },
        FillKind::Bitmap => {
            r.push(BindingSetup { binding: 2, stage: ShaderStage::Fragment, kind: BindingKind::Uniform });
            r.push(BindingSetup { binding: 3, stage: ShaderStage::Fragment, kind: BindingKind::Texture });
            r.push(BindingSetup { binding: 4, stage: ShaderStage::Fragment, kind: BindingKind::Sampler });
        },
    }
    assert(r@ =~= layout_spec(kind));
    r
}

/// The pipelines of one fill kind: one that writes each mask bit, then one
/// that reads each stencil value.
pub fn create_shape_pipeline(kind: FillKind) -> (r: ShapePipeline<PipelineSetup, Vec<BindingSetup>>)
    ensures
        r.write_mask_pipelines@.len() == MASK_BITS,
        forall|i: int| 0 <= i < MASK_BITS ==> #[trigger] r.write_mask_pipelines@[i] == write_mask_spec(i as u32),
        r.read_mask_pipelines@.len() == MASK_VALUES,
        forall|i: int| 0 <= i < MASK_VALUES ==> #[trigger] r.read_mask_pipelines@[i] == read_mask_spec(kind, i as u32),
        r.bind_layout@ == layout_spec(kind),
{
    let mut write_mask_pipelines: Vec<PipelineSetup> = Vec::new();
    let mut i: u32 = 0;
    while i < MASK_BITS
        invariant
            i <= MASK_BITS,
            write_mask_pipelines@.len() == i,
            forall|j: int| 0 <= j < i ==> #[trigger] write_mask_pipelines@[j] == write_mask_spec(j as u32),
        decreases MASK_BITS - i,
    {
        write_mask_pipelines.push(write_mask_setup(i));
        i += 1;
    }
    let mut read_mask_pipelines: Vec<PipelineSetup> = Vec::new();
    let mut k: u32 = 0;
    while k < MASK_VALUES
        invariant
            k <= MASK_VALUES,
            read_mask_pipelines@.len() == k,
            forall|j: int| 0 <= j < k ==> #[trigger] read_mask_pipelines@[j] == read_mask_spec(kind, j as u32),
        decreases MASK_VALUES - k,
    {
        read_mask_pipelines.push(read_mask_setup(kind, k));
        k += 1;
    }
    ShapePipeline { write_mask_pipelines, read_mask_pipelines, bind_layout: bind_layout(kind) }
}

impl Pipelines<PipelineSetup, Vec<BindingSetup>> {
    /// The pipelines of every fill kind.
    pub fn new() -> (r: Self)
        ensures
            r.color.read_mask_pipelines@.len() == MASK_VALUES,
            r.color.write_mask_pipelines@.len() == MASK_BITS,
            r.color.bind_layout@ == layout_spec(FillKind::Color),
            forall|i: int| 0 <= i < MASK_VALUES ==> #[trigger] r.color.read_mask_pipelines@[i] == read_mask_spec(FillKind::Color, i as u32),
            forall|i: int| 0 <= i < MASK_BITS ==> #[trigger] r.color.write_mask_pipelines@[i] == write_mask_spec(i as u32),
            r.bitmap.read_mask_pipelines@.len() == MASK_VALUES,
            r.bitmap.write_mask_pipelines@.len() == MASK_BITS,
            r.bitmap.bind_layout@ == layout_spec(FillKind::Bitmap),
            forall|i: int| 0 <= i < MASK_VALUES ==> #[trigger] r.bitmap.read_mask_pipelines@[i] == read_mask_spec(FillKind::Bitmap, i as u32),
            forall|i: int| 0 <= i < MASK_BITS ==> #[trigger] r.bitmap.write_mask_pipelines@[i] == write_mask_spec(i as u32),
            r.gradient.read_mask_pipelines@.len() == MASK_VALUES,
            r.gradient.write_mask_pipelines@.len() == MASK_BITS,
            r.gradient.bind_layout@ == layout_spec(FillKind::Gradient),
            forall|i: int| 0 <= i < MASK_VALUES ==> #[trigger] r.gradient.read_mask_pipelines@[i] == read_mask_spec(FillKind::Gradient, i as u32),
            forall|i: int| 0 <= i < MASK_BITS ==> #[trigger] r.gradient.write_mask_pipelines@[i] == write_mask_spec(i as u32),
    {
        Pipelines {
            color: create_shape_pipeline(FillKind::Color),
            bitmap: create_shape_pipeline(FillKind::Bitmap),
            gradient: create_shape_pipeline(FillKind::Gradient),
        }
    }
}

/// How a bitmap fill samples its texture.
#[derive(Clone, Copy, Debug, PartialEq, Eq, Structural)]
pub struct SamplerSetup {
    /// Whether coordinates outside the texture wrap around; otherwise they clamp to its edge.
    pub repeat: bool,
    /// Whether sampling filters linearly; otherwise it takes the nearest texel.
    pub linear: bool,
}

/// The kind of a draw whose buffers are not built yet.
#[derive(Clone, Copy, Debug, PartialEq, Eq, Structural)]
pub enum IncompleteDrawType {
    /// A solid color fill.
    Color,
    /// A gradient fill.
    Gradient,
    /// A bitmap fill with its sampling flags.
    Bitmap {
        /// Whether the bitmap is smoothed.
        is_smoothed: bool,
        /// Whether the bitmap repeats.
        is_repeating: bool,
    },
}

impl IncompleteDrawType {
    /// The fill kind of the draw.
    pub open spec fn fill_kind(&self) -> FillKind {
        match self {
            IncompleteDrawType::Color => FillKind::Color,
            IncompleteDrawType::Gradient => FillKind::Gradient,
            IncompleteDrawType::Bitmap { .. } => FillKind::Bitmap,
        }
    }

    /// The draw kind's name.
    pub fn name(&self) -> (r: &'static str)
        ensures
            self.fill_kind() == FillKind::Color ==> r@ == "Color"@,
            self.fill_kind() == FillKind::Gradient ==> r@ == "Gradient"@,
            self.fill_kind() == FillKind::Bitmap ==> r@ == "Bitmap"@,
    {
        match self {
            IncompleteDrawType::Color => "Color",
            IncompleteDrawType::Gradient => "Gradient",
            IncompleteDrawType::Bitmap { .. } => "Bitmap",
        }
    }

    /// The bind group layout the draw's bind group follows.
    pub fn layout(&self) -> (r: Vec<BindingSetup>)
        ensures
            r@ == layout_spec(self.fill_kind()),
    {
        match self {
            IncompleteDrawType::Color => bind_layout(FillKind::Color),
            IncompleteDrawType::Gradient => bind_layout(FillKind::Gradient),
            IncompleteDrawType::Bitmap { .. } => bind_layout(FillKind::Bitmap),
        }
    }

    /// The sampler of a bitmap draw: repeating bitmaps wrap and smoothed ones
    /// filter linearly; other draws sample no texture.
    pub fn sampler(&self) -> (r: Option<SamplerSetup>)
        ensures
            match self {
                IncompleteDrawType::Bitmap { is_smoothed, is_repeating } => r == Some(
                    SamplerSetup { repeat: *is_repeating, linear: *is_smoothed },
                ),
                _ => r is None,
            },
    {
        match self {
            IncompleteDrawType::Bitmap { is_smoothed, is_repeating } => Some(
                SamplerSetup { repeat: *is_repeating, linear: *is_smoothed },
            ),
            _ => None,
        }
    }
}

} // verus!
