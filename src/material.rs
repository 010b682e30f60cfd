use vstd::prelude::*;

verus! {

/// Render layer mask used when a shape names no layer of its own: layer 0 only.
pub const DEFAULT_RENDER_LAYERS: u32 = 1;

/// How a shape's colour is combined with what is already in the target.
#[derive(Debug, Clone, Copy, PartialEq, Eq, PartialOrd, Ord, Hash, Structural)]
pub enum ShapeAlphaMode {
    Opaque,
    Blend,
    Premultiplied,
    Add,
    Multiply,
    Mask,
}

/// Selects whether a shape is drawn by the 2D or the 3D pipeline.
#[derive(Debug, Clone, Copy, PartialEq, Eq, PartialOrd, Ord, Hash, Structural)]
pub enum ShapePipelineType {
    Shape3d,
    Shape2d,
}

/// Per-shape rendering settings as the application sets them.
///
/// Canvases are named by the identifier of their view, textures by an asset identifier.
#[derive(Debug, Clone, Copy, PartialEq, Eq, Structural)]
pub struct ShapeMaterial {
    pub alpha_mode: ShapeAlphaMode,
    /// Forcibly disable local anti-aliasing.
    pub disable_laa: bool,
    pub pipeline: ShapePipelineType,
    /// Off-screen view to draw the shape to, instead of every matching camera.
    pub canvas: Option<u64>,
    pub texture: Option<u64>,
}

impl ShapeMaterial {
    /// The settings used for a shape that carries none: blended, anti-aliased, 2D, on screen,
    /// untextured.
    pub open spec fn spec_default() -> ShapeMaterial {
        ShapeMaterial {
            alpha_mode: ShapeAlphaMode::Blend,
            disable_laa: false,
            pipeline: ShapePipelineType::Shape2d,
            canvas: None,
            texture: None,
        }
    }
}

impl ShapeMaterial {
    /// Draws to a canvas instead of the cameras; canvases are drawn by the 2D pipeline.
    pub fn set_canvas(&mut self, canvas: u64)
        ensures
            *final(self) == (ShapeMaterial {
                pipeline: ShapePipelineType::Shape2d,
                canvas: Some(canvas),
                ..*old(self)
            }),
    {
        self.pipeline = ShapePipelineType::Shape2d;
        self.canvas = Some(canvas);
    }

    pub fn set_3d(&mut self)
        ensures
            *final(self) == (ShapeMaterial { pipeline: ShapePipelineType::Shape3d, ..*old(self) }),
    {
        self.pipeline = ShapePipelineType::Shape3d;
    }

    pub fn set_2d(&mut self)
        ensures
            *final(self) == (ShapeMaterial { pipeline: ShapePipelineType::Shape2d, ..*old(self) }),
    {
        self.pipeline = ShapePipelineType::Shape2d;
    }
}

impl Default for ShapeMaterial {
    fn default() -> (r: ShapeMaterial)
        ensures
            r == ShapeMaterial::spec_default(),
    {
        ShapeMaterial {
            alpha_mode: ShapeAlphaMode::Blend,
            disable_laa: false,
            pipeline: ShapePipelineType::Shape2d,
            canvas: None,
            texture: None,
        }
    }
}

/// The rendering-relevant state of a shape: shapes with equal materials are batched together.
#[derive(Debug, Clone, Copy, PartialEq, Eq, PartialOrd, Ord, Hash, Structural)]
pub struct ShapePipelineMaterial {
    pub render_layers: u32,
    pub alpha_mode: ShapeAlphaMode,
    pub disable_laa: bool,
    pub texture: Option<u64>,
    pub canvas: Option<u64>,
    pub pipeline: ShapePipelineType,
}

/// The pipeline material of a shape with the given settings and render layer mask.
pub open spec fn material_of(m: ShapeMaterial, render_layers: u32) -> ShapePipelineMaterial {
    ShapePipelineMaterial {
        render_layers,
        alpha_mode: m.alpha_mode,
        disable_laa: m.disable_laa || m.alpha_mode == ShapeAlphaMode::Opaque,
        texture: m.texture,
        canvas: m.canvas,
        pipeline: m.pipeline,
    }
}

/// Settings that stand in for an absent component.
pub open spec fn settings_or_default(material: Option<ShapeMaterial>) -> ShapeMaterial {
    match material {
        Some(m) => m,
        None => ShapeMaterial::spec_default(),
    }
}

/// Layer mask that stands in for an absent component.
pub open spec fn layers_or_default(render_layers: Option<u32>) -> u32 {
    match render_layers {
        Some(l) => l,
        None => DEFAULT_RENDER_LAYERS,
    }
}

impl ShapePipelineMaterial {
    /// Builds the material of a shape from its optional settings and optional layer mask.
    ///
    /// Opaque shapes never get local anti-aliasing.
    pub fn new(material: Option<&ShapeMaterial>, render_layers: Option<u32>) -> (r: Self)
        ensures
            r == material_of(
                settings_or_default(
                    match material {
                        Some(m) => Some(*m),
                        None => None,
                    },
                ),
                layers_or_default(render_layers),
            ),
    {
        let m = match material {
            Some(m) => *m,
            None => ShapeMaterial::default(),
        };
        let layers = match render_layers {
            Some(l) => l,
            None => DEFAULT_RENDER_LAYERS,
        };
        ShapePipelineMaterial::from_parts(&m, layers)
    }

    /// Builds the material of a shape from its settings and layer mask.
    pub fn from_parts(m: &ShapeMaterial, render_layers: u32) -> (r: Self)
        ensures
            r == material_of(*m, render_layers),
    {
        ShapePipelineMaterial {
            render_layers,
            alpha_mode: m.alpha_mode,
            disable_laa: m.disable_laa || m.alpha_mode == ShapeAlphaMode::Opaque,
            texture: m.texture,
            canvas: m.canvas,
            pipeline: m.pipeline,
        }
    }

    /// Field-by-field equality, as used when grouping shapes into batches.
    pub fn same_as(&self, other: &Self) -> (r: bool)
        ensures
            r == (*self == *other),
    {
        self.render_layers == other.render_layers && self.alpha_mode == other.alpha_mode
            && self.disable_laa == other.disable_laa && self.texture == other.texture
            && self.canvas == other.canvas && self.pipeline == other.pipeline
    }
}

} // verus!
