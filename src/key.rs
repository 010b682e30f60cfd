use vstd::prelude::*;

use crate::material::{ShapeAlphaMode, ShapePipelineMaterial, ShapePipelineType};

verus! {

/// Render target uses a high dynamic range format.
pub const HDR_BIT: u32 = 1;

/// Pipeline draws into a 2D phase (no depth buffer).
pub const PIPELINE_2D_BIT: u32 = 4;

/// Local anti-aliasing is enabled in the shader.
pub const LOCAL_AA_BIT: u32 = 8;

/// Pipeline binds a texture.
pub const TEXTURED_BIT: u32 = 16;

/// Position of the two-bit blend field.
pub const BLEND_SHIFT: u32 = 27;

/// Position of the three-bit field holding log2 of the MSAA sample count.
pub const MSAA_SHIFT: u32 = 29;

/// Blend field values.
pub const BLEND_OPAQUE: u32 = 0;

pub const BLEND_ADD: u32 = 1;

pub const BLEND_MULTIPLY: u32 = 2;

pub const BLEND_ALPHA: u32 = 3;

/// Sample counts that a pipeline can be specialised for.
pub open spec fn valid_msaa_samples(samples: u32) -> bool {
    samples == 1 || samples == 2 || samples == 4 || samples == 8
}

/// Whether a pipeline can be specialised for this sample count.
pub fn valid_msaa_sample_count(samples: u32) -> (r: bool)
    ensures
        r == valid_msaa_samples(samples),
{
    samples == 1 || samples == 2 || samples == 4 || samples == 8
}

/// log2 of a supported sample count.
pub open spec fn msaa_log2(samples: u32) -> u32 {
    if samples == 1 {
        0
    } else if samples == 2 {
        1
    } else if samples == 4 {
        2
    } else {
        3
    }
}

/// The blend field that an alpha mode selects.
pub open spec fn blend_field_of(mode: ShapeAlphaMode) -> u32 {
    match mode {
        ShapeAlphaMode::Opaque | ShapeAlphaMode::Mask => BLEND_OPAQUE,
        ShapeAlphaMode::Add => BLEND_ADD,
        ShapeAlphaMode::Multiply => BLEND_MULTIPLY,
        ShapeAlphaMode::Blend | ShapeAlphaMode::Premultiplied => BLEND_ALPHA,
    }
}

pub open spec fn flag(b: bool, bit: u32) -> u32 {
    if b {
        bit
    } else {
        0
    }
}

/// Bit pattern of a key from its fields.
pub open spec fn key_bits(
    hdr: bool,
    pipeline_2d: bool,
    local_aa: bool,
    textured: bool,
    blend: u32,
    msaa_log2: u32,
) -> u32 {
    flag(hdr, HDR_BIT) | flag(pipeline_2d, PIPELINE_2D_BIT) | flag(local_aa, LOCAL_AA_BIT) | flag(
        textured,
        TEXTURED_BIT,
    ) | (blend << BLEND_SHIFT) | (msaa_log2 << MSAA_SHIFT)
}

/// Bit pattern of the key that a material needs in a pipeline on a view.
pub open spec fn material_key_bits(
    m: ShapePipelineMaterial,
    pipeline: ShapePipelineType,
    msaa_samples: u32,
    hdr: bool,
) -> u32 {
    key_bits(
        hdr,
        pipeline == ShapePipelineType::Shape2d,
        !m.disable_laa,
        m.texture is Some,
        blend_field_of(m.alpha_mode),
        msaa_log2(msaa_samples),
    )
}

/// Decodes the fields of a key.
pub open spec fn key_hdr(bits: u32) -> bool {
    bits & HDR_BIT != 0
}

pub open spec fn key_2d(bits: u32) -> bool {
    bits & PIPELINE_2D_BIT != 0
}

pub open spec fn key_local_aa(bits: u32) -> bool {
    bits & LOCAL_AA_BIT != 0
}

pub open spec fn key_textured(bits: u32) -> bool {
    bits & TEXTURED_BIT != 0
}

pub open spec fn key_blend(bits: u32) -> u32 {
    (bits >> BLEND_SHIFT) & 3
}

pub open spec fn key_msaa_log2(bits: u32) -> u32 {
    (bits >> MSAA_SHIFT) & 7
}

/// Every field of a key is recovered from its bit pattern.
pub proof fn lemma_key_fields(
    hdr: bool,
    pipeline_2d: bool,
    local_aa: bool,
    textured: bool,
    blend: u32,
    msaa: u32,
)
    requires
        blend < 4,
        msaa < 8,
    ensures
        key_hdr(key_bits(hdr, pipeline_2d, local_aa, textured, blend, msaa)) == hdr,
        key_2d(key_bits(hdr, pipeline_2d, local_aa, textured, blend, msaa)) == pipeline_2d,
        key_local_aa(key_bits(hdr, pipeline_2d, local_aa, textured, blend, msaa)) == local_aa,
        key_textured(key_bits(hdr, pipeline_2d, local_aa, textured, blend, msaa)) == textured,
        key_blend(key_bits(hdr, pipeline_2d, local_aa, textured, blend, msaa)) == blend,
        key_msaa_log2(key_bits(hdr, pipeline_2d, local_aa, textured, blend, msaa)) == msaa,
{
    let h = flag(hdr, HDR_BIT);
    let p = flag(pipeline_2d, PIPELINE_2D_BIT);
    let a = flag(local_aa, LOCAL_AA_BIT);
    let t = flag(textured, TEXTURED_BIT);
    assert(h == 0 || h == 1);
    assert(p == 0 || p == 4);
    assert(a == 0 || a == 8);
    assert(t == 0 || t == 16);
    let k = h | p | a | t | (blend << 27u32) | (msaa << 29u32);
    assert(k == key_bits(hdr, pipeline_2d, local_aa, textured, blend, msaa));
    assert({
        &&& (k & 1 != 0) == (h == 1)
        &&& (k & 4 != 0) == (p == 4)
        &&& (k & 8 != 0) == (a == 8)
        &&& (k & 16 != 0) == (t == 16)
        &&& ((k >> 27u32) & 3) == blend
        &&& ((k >> 29u32) & 7) == msaa
    }) by (bit_vector)
        requires
            h == 0 || h == 1,
            p == 0 || p == 4,
            a == 0 || a == 8,
            t == 0 || t == 16,
            blend < 4,
            msaa < 8,
            k == h | p | a | t | (blend << 27u32) | (msaa << 29u32),
    ;
}

/// Bitset of all state that a compiled shape pipeline depends on.
#[derive(Debug, Clone, Copy, PartialEq, Eq, Structural)]
pub struct ShapePipelineKey(pub u32);

impl ShapePipelineKey {
    pub fn bits(&self) -> (r: u32)
        ensures
            r == self.0,
    {
        self.0
    }

    /// The key with no bit set.
    pub fn none() -> (r: Self)
        ensures
            r.0 == 0,
    {
        ShapePipelineKey(0)
    }

    /// Both keys' bits.
    pub fn union(&self, other: &Self) -> (r: Self)
        ensures
            r.0 == self.0 | other.0,
    {
        ShapePipelineKey(self.0 | other.0)
    }

    /// Whether every bit of `other` is set here.
    pub fn contains(&self, other: &Self) -> (r: bool)
        ensures
            r == (self.0 & other.0 == other.0),
    {
        self.0 & other.0 == other.0
    }

    /// Encodes a sample count as log2 in the MSAA field.
    pub fn from_msaa_samples(msaa_samples: u32) -> (r: Self)
        requires
            valid_msaa_samples(msaa_samples),
        ensures
            r.0 == msaa_log2(msaa_samples) << MSAA_SHIFT,
    {
        let log2: u32 = if msaa_samples == 1 {
            0
        } else if msaa_samples == 2 {
            1
        } else if msaa_samples == 4 {
            2
        } else {
            3
        };
        ShapePipelineKey(log2 << MSAA_SHIFT)
    }

    pub fn from_hdr(hdr: bool) -> (r: Self)
        ensures
            r.0 == flag(hdr, HDR_BIT),
    {
        if hdr {
            ShapePipelineKey(HDR_BIT)
        } else {
            ShapePipelineKey(0)
        }
    }

    /// The sample count stored in the MSAA field.
    pub fn msaa_samples(&self) -> (r: u32)
        ensures
            r == 1u32 << key_msaa_log2(self.0),
    {
        let v = self.0;
        let log2 = (v >> MSAA_SHIFT) & 7;
        assert(log2 < 8) by (bit_vector)
            requires
                log2 == (v >> 29u32) & 7,
        ;
        1u32 << log2
    }

    /// Blend field, anti-aliasing and textured flags that a material contributes to its key.
    pub fn from_material(material: &ShapePipelineMaterial) -> (r: Self)
        ensures
            r.0 == key_bits(
                false,
                false,
                !material.disable_laa,
                material.texture is Some,
                blend_field_of(material.alpha_mode),
                0,
            ),
    {
        let blend: u32 = match material.alpha_mode {
            ShapeAlphaMode::Opaque | ShapeAlphaMode::Mask => BLEND_OPAQUE,
            ShapeAlphaMode::Add => BLEND_ADD,
            ShapeAlphaMode::Multiply => BLEND_MULTIPLY,
            ShapeAlphaMode::Blend | ShapeAlphaMode::Premultiplied => BLEND_ALPHA,
        };
        let textured: u32 = if material.texture.is_some() {
            TEXTURED_BIT
        } else {
            0
        };
        let local_aa: u32 = if material.disable_laa {
            0
        } else {
            LOCAL_AA_BIT
        };
        ShapePipelineKey(0 | 0 | local_aa | textured | (blend << BLEND_SHIFT) | (0u32 << MSAA_SHIFT))
    }

    /// The full key of a material drawn by a pipeline to a view with the given sample count and
    /// HDR flag.
    pub fn for_view(
        material: &ShapePipelineMaterial,
        pipeline: ShapePipelineType,
        msaa_samples: u32,
        hdr: bool,
    ) -> (r: Self)
        requires
            valid_msaa_samples(msaa_samples),
        ensures
            r.0 == material_key_bits(*material, pipeline, msaa_samples, hdr),
    {
        let blend: u32 = match material.alpha_mode {
            ShapeAlphaMode::Opaque | ShapeAlphaMode::Mask => BLEND_OPAQUE,
            ShapeAlphaMode::Add => BLEND_ADD,
            ShapeAlphaMode::Multiply => BLEND_MULTIPLY,
            ShapeAlphaMode::Blend | ShapeAlphaMode::Premultiplied => BLEND_ALPHA,
        };
        let log2: u32 = if msaa_samples == 1 {
            0
        } else if msaa_samples == 2 {
            1
        } else if msaa_samples == 4 {
            2
        } else {
            3
        };
        let h: u32 = if hdr {
            HDR_BIT
        } else {
            0
        };
        let p: u32 = match pipeline {
            ShapePipelineType::Shape2d => PIPELINE_2D_BIT,
            ShapePipelineType::Shape3d => 0,
        };
        let a: u32 = if material.disable_laa {
            0
        } else {
            LOCAL_AA_BIT
        };
        let t: u32 = if material.texture.is_some() {
            TEXTURED_BIT
        } else {
            0
        };
        ShapePipelineKey(h | p | a | t | (blend << BLEND_SHIFT) | (log2 << MSAA_SHIFT))
    }

    pub fn is_hdr(&self) -> (r: bool)
        ensures
            r == key_hdr(self.0),
    {
        self.0 & HDR_BIT != 0
    }

    pub fn is_2d(&self) -> (r: bool)
        ensures
            r == key_2d(self.0),
    {
        self.0 & PIPELINE_2D_BIT != 0
    }

    pub fn local_aa(&self) -> (r: bool)
        ensures
            r == key_local_aa(self.0),
    {
        self.0 & LOCAL_AA_BIT != 0
    }

    pub fn textured(&self) -> (r: bool)
        ensures
            r == key_textured(self.0),
    {
        self.0 & TEXTURED_BIT != 0
    }

    pub fn blend(&self) -> (r: u32)
        ensures
            r == key_blend(self.0),
    {
        (self.0 >> BLEND_SHIFT) & 3
    }
}

/// Decoding the key of a material on a view gives back the view's sample count, its HDR flag,
/// the pipeline, and the material's anti-aliasing, texture and blend mode.
pub proof fn lemma_key_round_trip(
    m: ShapePipelineMaterial,
    pipeline: ShapePipelineType,
    msaa_samples: u32,
    hdr: bool,
)
    requires
        valid_msaa_samples(msaa_samples),
    ensures
        1u32 << key_msaa_log2(material_key_bits(m, pipeline, msaa_samples, hdr)) == msaa_samples,
        key_hdr(material_key_bits(m, pipeline, msaa_samples, hdr)) == hdr,
        key_2d(material_key_bits(m, pipeline, msaa_samples, hdr)) == (pipeline
            == ShapePipelineType::Shape2d),
        key_local_aa(material_key_bits(m, pipeline, msaa_samples, hdr)) == !m.disable_laa,
        key_textured(material_key_bits(m, pipeline, msaa_samples, hdr)) == (m.texture is Some),
        key_blend(material_key_bits(m, pipeline, msaa_samples, hdr)) == blend_field_of(m.alpha_mode),
{
    lemma_key_fields(
        hdr,
        pipeline == ShapePipelineType::Shape2d,
        !m.disable_laa,
        m.texture is Some,
        blend_field_of(m.alpha_mode),
        msaa_log2(msaa_samples),
    );
    assert(1u32 << 0u32 == 1 && 1u32 << 1u32 == 2 && 1u32 << 2u32 == 4 && 1u32 << 3u32 == 8)
        by (bit_vector);
}

/// Two keys are equal exactly when all their fields are.
pub proof fn lemma_key_injective(
    h1: bool,
    p1: bool,
    a1: bool,
    t1: bool,
    b1: u32,
    m1: u32,
    h2: bool,
    p2: bool,
    a2: bool,
    t2: bool,
    b2: u32,
    m2: u32,
)
    requires
        b1 < 4,
        m1 < 8,
        b2 < 4,
        m2 < 8,
        key_bits(h1, p1, a1, t1, b1, m1) == key_bits(h2, p2, a2, t2, b2, m2),
    ensures
        h1 == h2 && p1 == p2 && a1 == a2 && t1 == t2 && b1 == b2 && m1 == m2,
{
    lemma_key_fields(h1, p1, a1, t1, b1, m1);
    lemma_key_fields(h2, p2, a2, t2, b2, m2);
}

} // verus!
