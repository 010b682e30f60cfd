use vstd::prelude::*;

use crate::key::{
    key_2d, key_blend, key_hdr, key_local_aa, key_msaa_log2, key_textured, ShapePipelineKey,
    BLEND_ADD, BLEND_ALPHA, BLEND_MULTIPLY,
};

verus! {

/// The closed set of shape kinds; each has its own shader and instance layout.
#[derive(Debug, Clone, Copy, PartialEq, Eq, Structural)]
pub enum ShapeKind {
    Disc,
    Line,
    Rectangle,
    RegularPolygon,
    Triangle,
}

/// Colour blending of a pipeline's single colour target.
#[derive(Debug, Clone, Copy, PartialEq, Eq, Structural)]
pub enum BlendState {
    /// Standard alpha blending.
    AlphaBlending,
    /// Source and destination added, colour and alpha alike.
    Additive,
    /// Colour multiplied by the destination; alpha composited over.
    Multiplicative,
    /// Source replaces destination.
    Replace,
}

/// Which family a pipeline belongs to, as shown in its debug label.
#[derive(Debug, Clone, Copy, PartialEq, Eq, Structural)]
pub enum PipelineLabel {
    AlphaBlend,
    AddBlend,
    MultiplyBlend,
    Opaque,
}

/// Shader definitions that select code paths in the shape shaders.
#[derive(Debug, Clone, Copy, PartialEq, Eq, Structural)]
pub enum ShaderDef {
    BlendAlpha,
    BlendAdd,
    BlendMultiply,
    Pipeline2d,
    Pipeline3d,
    LocalAa,
    DisableLocalAa,
    Textured,
}

/// Depth testing of a 3D pipeline: a 32-bit float depth buffer compared with `Greater`.
#[derive(Debug, Clone, Copy, PartialEq, Eq, Structural)]
pub struct DepthState {
    pub depth_write_enabled: bool,
}

/// Everything that distinguishes one compiled shape pipeline from another.
///
/// The fragment stage uses `shader_defs` plus a fragment marker.
#[derive(Debug)]
pub struct PipelineDescriptor {
    pub shape: ShapeKind,
    pub label: PipelineLabel,
    pub blend: BlendState,
    /// `None` for 2D pipelines, which have no depth buffer.
    pub depth: Option<DepthState>,
    pub shader_defs: Vec<ShaderDef>,
    /// Colour target uses the HDR texture format.
    pub hdr: bool,
    /// Layout has a third bind group for the texture.
    pub textured: bool,
    pub msaa_samples: u32,
}

pub open spec fn label_of(blend: u32) -> PipelineLabel {
    if blend == BLEND_ALPHA {
        PipelineLabel::AlphaBlend
    } else if blend == BLEND_ADD {
        PipelineLabel::AddBlend
    } else if blend == BLEND_MULTIPLY {
        PipelineLabel::MultiplyBlend
    } else {
        PipelineLabel::Opaque
    }
}

pub open spec fn blend_state_of(blend: u32) -> BlendState {
    if blend == BLEND_ALPHA {
        BlendState::AlphaBlending
    } else if blend == BLEND_ADD {
        BlendState::Additive
    } else if blend == BLEND_MULTIPLY {
        BlendState::Multiplicative
    } else {
        BlendState::Replace
    }
}

pub open spec fn blend_def_of(blend: u32) -> ShaderDef {
    if blend == BLEND_ADD {
        ShaderDef::BlendAdd
    } else if blend == BLEND_MULTIPLY {
        ShaderDef::BlendMultiply
    } else {
        ShaderDef::BlendAlpha
    }
}

/// Shader definitions of a key: blend, dimension, anti-aliasing, then texturing.
pub open spec fn shader_defs_of(bits: u32) -> Seq<ShaderDef> {
    let base = seq![
        blend_def_of(key_blend(bits)),
        if key_2d(bits) {
            ShaderDef::Pipeline2d
        } else {
            ShaderDef::Pipeline3d
        },
        if key_local_aa(bits) {
            ShaderDef::LocalAa
        } else {
            ShaderDef::DisableLocalAa
        },
    ];
    if key_textured(bits) {
        base.push(ShaderDef::Textured)
    } else {
        base
    }
}

/// Whether a descriptor is the one that a shape kind and key call for.
pub open spec fn describes(d: PipelineDescriptor, shape: ShapeKind, bits: u32) -> bool {
    &&& d.shape == shape
    &&& d.label == label_of(key_blend(bits))
    &&& d.blend == blend_state_of(key_blend(bits))
    &&& d.depth == (if key_2d(bits) {
        None
    } else {
        Some(DepthState { depth_write_enabled: label_of(key_blend(bits)) == PipelineLabel::Opaque })
    })
    &&& d.shader_defs@ == shader_defs_of(bits)
    &&& d.hdr == key_hdr(bits)
    &&& d.textured == key_textured(bits)
    &&& d.msaa_samples == 1u32 << key_msaa_log2(bits)
}

/// Builds the pipeline description that a shape kind needs under a key.
pub fn describe_pipeline(shape: ShapeKind, key: ShapePipelineKey) -> (d: PipelineDescriptor)
    ensures
        describes(d, shape, key.0),
{
    let blend = key.blend();
    let (label, blend_state, blend_def, opaque) = if blend == BLEND_ALPHA {
        (PipelineLabel::AlphaBlend, BlendState::AlphaBlending, ShaderDef::BlendAlpha, false)
    } else if blend == BLEND_ADD {
        (PipelineLabel::AddBlend, BlendState::Additive, ShaderDef::BlendAdd, false)
    } else if blend == BLEND_MULTIPLY {
        (PipelineLabel::MultiplyBlend, BlendState::Multiplicative, ShaderDef::BlendMultiply, false)
    } else {
        (PipelineLabel::Opaque, BlendState::Replace, ShaderDef::BlendAlpha, true)
    };
    let mut shader_defs: Vec<ShaderDef> = Vec::new();
    shader_defs.push(blend_def);
    let depth = if key.is_2d() {
        shader_defs.push(ShaderDef::Pipeline2d);
        None
    } else {
        shader_defs.push(ShaderDef::Pipeline3d);
        Some(DepthState { depth_write_enabled: opaque })
    };
    if key.local_aa() {
        shader_defs.push(ShaderDef::LocalAa);
    } else {
        shader_defs.push(ShaderDef::DisableLocalAa);
    }
    let textured = key.textured();
    if textured {
        shader_defs.push(ShaderDef::Textured);
    }
    assert(shader_defs@ =~= shader_defs_of(key.0));
    PipelineDescriptor {
        shape,
        label,
        blend: blend_state,
        depth,
        shader_defs,
        hdr: key.is_hdr(),
        textured,
        msaa_samples: key.msaa_samples(),
    }
}

/// What a cache lookup of `(shape, key)` does to the list of built pipelines: an entry already
/// built is returned as is; otherwise one pipeline is built and its position returned.
pub open spec fn specialized(
    before: Seq<(ShapeKind, u32)>,
    shape: ShapeKind,
    bits: u32,
    after: Seq<(ShapeKind, u32)>,
    id: int,
) -> bool {
    if before.contains((shape, bits)) {
        &&& after == before
        &&& 0 <= id < before.len()
        &&& before[id] == (shape, bits)
    } else {
        &&& after == before.push((shape, bits))
        &&& id == before.len()
    }
}

/// Memoised pipelines: each `(shape kind, key)` pair is described once, and its position in
/// build order is the pipeline's identifier.
pub struct ShapePipelines {
    built: Vec<(ShapeKind, ShapePipelineKey)>,
    descriptors: Vec<PipelineDescriptor>,
}

impl ShapePipelines {
    /// The `(shape kind, key bits)` pairs described so far, in build order.
    pub closed spec fn built(&self) -> Seq<(ShapeKind, u32)> {
        self.built@.map_values(|e: (ShapeKind, ShapePipelineKey)| (e.0, e.1.0))
    }

    /// Every pair is built at most once and each descriptor matches its pair.
    pub closed spec fn wf(&self) -> bool {
        &&& self.built().no_duplicates()
        &&& self.descriptors@.len() == self.built@.len()
        &&& forall|i: int|
            0 <= i < self.built@.len() ==> describes(
                #[trigger] self.descriptors@[i],
                self.built@[i].0,
                self.built@[i].1.0,
            )
    }

    pub fn new() -> (r: Self)
        ensures
            r.wf(),
            r.built() == Seq::<(ShapeKind, u32)>::empty(),
    {
        let r = ShapePipelines { built: Vec::new(), descriptors: Vec::new() };
        assert(r.built() =~= Seq::<(ShapeKind, u32)>::empty());
        r
    }

    /// Number of pipelines built so far.
    pub fn len(&self) -> (r: usize)
        requires
            self.wf(),
        ensures
            r == self.built().len(),
    {
        self.built.len()
    }

    /// The description of a built pipeline.
    pub fn descriptor(&self, id: usize) -> (d: &PipelineDescriptor)
        requires
            self.wf(),
            id < self.built().len(),
        ensures
            describes(*d, self.built()[id as int].0, self.built()[id as int].1),
    {
        &self.descriptors[id]
    }

    /// Two identifiers of built pipelines with the same shape kind and key are the same.
    pub proof fn lemma_ids_unique(&self, a: int, b: int)
        requires
            self.wf(),
            0 <= a < self.built().len(),
            0 <= b < self.built().len(),
            self.built()[a] == self.built()[b],
        ensures
            a == b,
    {
    }

    /// Returns the pipeline for a shape kind and key, describing it on first use only.
    pub fn specialize(&mut self, shape: ShapeKind, key: ShapePipelineKey) -> (id: usize)
        requires
            old(self).wf(),
        ensures
            final(self).wf(),
            specialized(old(self).built(), shape, key.0, final(self).built(), id as int),
    {
        let n = self.built.len();
        let mut i: usize = 0;
        while i < n
            invariant
                n == self.built@.len(),
                0 <= i <= n,
                self.wf(),
                self.built() == old(self).built(),
                forall|j: int| 0 <= j < i ==> self.built()[j] != (shape, key.0),
            decreases n - i,
        {
            let entry = self.built[i];
            if entry.0 == shape && entry.1.0 == key.0 {
                assert(self.built()[i as int] == (shape, key.0));
                assert(self.built().contains((shape, key.0)));
                return i;
            }
            i += 1;
        }
        assert(!self.built().contains((shape, key.0)));
        let d = describe_pipeline(shape, key);
        self.built.push((shape, key));
        self.descriptors.push(d);
        proof {
            let before = old(self).built();
            assert(self.built() =~= before.push((shape, key.0)));
            assert forall|a: int, b: int|
                0 <= a < b < self.built().len() implies self.built()[a] != self.built()[b] by {
                if b == before.len() {
                    assert(before[a] == self.built()[a]);
                }
            }
        }
        n
    }
}

/// Asking the cache twice for the same shape kind and key builds at most one pipeline, and both
/// answers name the same pipeline; the second lookup builds nothing.
pub proof fn lemma_specialize_memoized(
    b0: Seq<(ShapeKind, u32)>,
    b1: Seq<(ShapeKind, u32)>,
    b2: Seq<(ShapeKind, u32)>,
    shape: ShapeKind,
    bits: u32,
    id1: int,
    id2: int,
)
    requires
        b0.no_duplicates(),
        specialized(b0, shape, bits, b1, id1),
        specialized(b1, shape, bits, b2, id2),
    ensures
        id1 == id2,
        b2 == b1,
        b1[id1] == (shape, bits),
        b1.len() <= b0.len() + 1,
        b0.contains((shape, bits)) <==> b1.len() == b0.len(),
{
    if b0.contains((shape, bits)) {
        assert(b1 == b0);
        assert(b1[id1] == b1[id2]);
    } else {
        assert(b1[b0.len() as int] == (shape, bits));
        assert(b1.contains((shape, bits)));
        assert(b1[id1] == b1[id2]);
    }
}

} // verus!
