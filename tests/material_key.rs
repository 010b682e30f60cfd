use bevy_vector_shapes::key::{valid_msaa_sample_count, ShapePipelineKey};
use bevy_vector_shapes::material::{
    ShapeAlphaMode, ShapeMaterial, ShapePipelineMaterial, ShapePipelineType,
};
use bevy_vector_shapes::pipeline::{
    describe_pipeline, BlendState, DepthState, PipelineLabel, ShaderDef, ShapeKind, ShapePipelines,
};

fn material(alpha_mode: ShapeAlphaMode, disable_laa: bool) -> ShapeMaterial {
    ShapeMaterial {
        alpha_mode,
        disable_laa,
        pipeline: ShapePipelineType::Shape2d,
        canvas: None,
        texture: None,
    }
}

#[test]
fn default_material_is_blend_on_layer_zero() {
    let m = ShapePipelineMaterial::new(None, None);
    assert_eq!(m.render_layers, 1);
    assert_eq!(m.alpha_mode, ShapeAlphaMode::Blend);
    assert!(!m.disable_laa);
    assert_eq!(m.pipeline, ShapePipelineType::Shape2d);
    assert_eq!(m.canvas, None);
    assert_eq!(m.texture, None);
}

#[test]
fn opaque_material_disables_anti_aliasing() {
    let settings = material(ShapeAlphaMode::Opaque, false);
    let m = ShapePipelineMaterial::new(Some(&settings), Some(4));
    assert!(m.disable_laa);
    assert_eq!(m.render_layers, 4);
    let blended = ShapePipelineMaterial::new(Some(&material(ShapeAlphaMode::Blend, false)), None);
    assert!(!blended.disable_laa);
    let forced = ShapePipelineMaterial::new(Some(&material(ShapeAlphaMode::Add, true)), None);
    assert!(forced.disable_laa);
}

#[test]
fn equal_settings_give_equal_materials() {
    let a = ShapePipelineMaterial::new(Some(&material(ShapeAlphaMode::Multiply, false)), Some(3));
    let b = ShapePipelineMaterial::new(Some(&material(ShapeAlphaMode::Multiply, false)), Some(3));
    let c = ShapePipelineMaterial::new(Some(&material(ShapeAlphaMode::Multiply, false)), Some(2));
    assert!(a.same_as(&b));
    assert_eq!(a, b);
    assert!(!a.same_as(&c));
}

#[test]
fn material_setters_pick_pipeline_and_canvas() {
    let mut m = ShapeMaterial::default();
    m.set_3d();
    assert_eq!(m.pipeline, ShapePipelineType::Shape3d);
    m.set_canvas(77);
    assert_eq!(m.pipeline, ShapePipelineType::Shape2d);
    assert_eq!(m.canvas, Some(77));
    m.set_3d();
    m.set_2d();
    assert_eq!(m.pipeline, ShapePipelineType::Shape2d);
}

#[test]
fn key_bits_for_blended_2d_hdr_view() {
    let m = ShapePipelineMaterial::new(None, None);
    let key = ShapePipelineKey::for_view(&m, ShapePipelineType::Shape2d, 4, true);
    assert_eq!(key.bits(), 1 | 4 | 8 | (3 << 27) | (2 << 29));
    assert_eq!(key.bits(), 0x5800_000D);
    assert!(key.is_hdr());
    assert!(key.is_2d());
    assert!(key.local_aa());
    assert!(!key.textured());
    assert_eq!(key.blend(), 3);
    assert_eq!(key.msaa_samples(), 4);
}

#[test]
fn key_blend_field_mapping() {
    let cases = [
        (ShapeAlphaMode::Opaque, 0u32),
        (ShapeAlphaMode::Mask, 0),
        (ShapeAlphaMode::Add, 1),
        (ShapeAlphaMode::Multiply, 2),
        (ShapeAlphaMode::Blend, 3),
        (ShapeAlphaMode::Premultiplied, 3),
    ];
    for (mode, field) in cases {
        let m = ShapePipelineMaterial::new(Some(&material(mode, false)), None);
        let key = ShapePipelineKey::for_view(&m, ShapePipelineType::Shape3d, 1, false);
        assert_eq!(key.blend(), field);
        assert_eq!(ShapePipelineKey::from_material(&m).blend(), field);
    }
}

#[test]
fn msaa_round_trip() {
    for samples in [1u32, 2, 4, 8] {
        let key = ShapePipelineKey::from_msaa_samples(samples);
        assert_eq!(key.msaa_samples(), samples);
    }
    assert_eq!(ShapePipelineKey::from_msaa_samples(8).bits(), 0x6000_0000);
    assert_eq!(ShapePipelineKey::from_msaa_samples(1).bits(), 0);
}

#[test]
fn key_flags_combine() {
    let mut settings = material(ShapeAlphaMode::Add, false);
    settings.texture = Some(9);
    let m = ShapePipelineMaterial::new(Some(&settings), None);
    let k = ShapePipelineKey::from_material(&m);
    assert_eq!(k.bits(), (1 << 27) | 8 | 16);
    assert!(k.local_aa());
    let plain = ShapePipelineMaterial::new(Some(&material(ShapeAlphaMode::Add, true)), None);
    assert!(!ShapePipelineKey::from_material(&plain).local_aa());
    assert_eq!(ShapePipelineKey::from_material(&plain).bits(), 1 << 27);
    let hdr = ShapePipelineKey::from_hdr(true);
    assert_eq!(hdr.bits(), 1);
    assert_eq!(ShapePipelineKey::from_hdr(false).bits(), 0);
    let both = k.union(&hdr);
    assert!(both.contains(&hdr));
    assert!(both.contains(&k));
    assert!(!hdr.contains(&k));
    assert_eq!(ShapePipelineKey::none().bits(), 0);
}

#[test]
fn opaque_3d_pipeline_description() {
    let m = ShapePipelineMaterial::new(Some(&material(ShapeAlphaMode::Opaque, false)), None);
    let key = ShapePipelineKey::for_view(&m, ShapePipelineType::Shape3d, 1, false);
    let d = describe_pipeline(ShapeKind::Disc, key);
    assert_eq!(d.shape, ShapeKind::Disc);
    assert_eq!(d.label, PipelineLabel::Opaque);
    assert_eq!(d.blend, BlendState::Replace);
    assert_eq!(d.depth, Some(DepthState { depth_write_enabled: true }));
    assert_eq!(
        d.shader_defs,
        vec![ShaderDef::BlendAlpha, ShaderDef::Pipeline3d, ShaderDef::DisableLocalAa]
    );
    assert!(!d.hdr);
    assert!(!d.textured);
    assert_eq!(d.msaa_samples, 1);
}

#[test]
fn textured_2d_multiply_pipeline_description() {
    let mut settings = material(ShapeAlphaMode::Multiply, false);
    settings.texture = Some(3);
    let m = ShapePipelineMaterial::new(Some(&settings), None);
    let key = ShapePipelineKey::for_view(&m, ShapePipelineType::Shape2d, 8, true);
    let d = describe_pipeline(ShapeKind::Rectangle, key);
    assert_eq!(d.label, PipelineLabel::MultiplyBlend);
    assert_eq!(d.blend, BlendState::Multiplicative);
    assert_eq!(d.depth, None);
    assert_eq!(
        d.shader_defs,
        vec![
            ShaderDef::BlendMultiply,
            ShaderDef::Pipeline2d,
            ShaderDef::LocalAa,
            ShaderDef::Textured
        ]
    );
    assert!(d.hdr);
    assert!(d.textured);
    assert_eq!(d.msaa_samples, 8);
}

#[test]
fn additive_3d_pipeline_does_not_write_depth() {
    let m = ShapePipelineMaterial::new(Some(&material(ShapeAlphaMode::Add, false)), None);
    let key = ShapePipelineKey::for_view(&m, ShapePipelineType::Shape3d, 2, false);
    let d = describe_pipeline(ShapeKind::Line, key);
    assert_eq!(d.label, PipelineLabel::AddBlend);
    assert_eq!(d.blend, BlendState::Additive);
    assert_eq!(d.depth, Some(DepthState { depth_write_enabled: false }));
    assert_eq!(d.shader_defs[0], ShaderDef::BlendAdd);
    assert_eq!(d.msaa_samples, 2);
}

#[test]
fn pipeline_cache_builds_once_per_key_and_kind() {
    let mut cache = ShapePipelines::new();
    let m = ShapePipelineMaterial::new(None, None);
    let key = ShapePipelineKey::for_view(&m, ShapePipelineType::Shape2d, 4, false);
    let first = cache.specialize(ShapeKind::Disc, key);
    let second = cache.specialize(ShapeKind::Disc, key);
    assert_eq!(first, second);
    assert_eq!(cache.len(), 1);
    let other_kind = cache.specialize(ShapeKind::Line, key);
    assert_ne!(other_kind, first);
    let hdr_key = ShapePipelineKey::for_view(&m, ShapePipelineType::Shape2d, 4, true);
    let other_key = cache.specialize(ShapeKind::Disc, hdr_key);
    assert_ne!(other_key, first);
    assert_eq!(cache.len(), 3);
    assert_eq!(cache.specialize(ShapeKind::Disc, key), first);
    assert_eq!(cache.len(), 3);
    assert!(cache.descriptor(other_key).hdr);
    assert_eq!(cache.descriptor(other_kind).shape, ShapeKind::Line);
}

#[test]
fn supported_sample_counts() {
    for samples in [1u32, 2, 4, 8] {
        assert!(valid_msaa_sample_count(samples));
    }
    for samples in [0u32, 3, 16] {
        assert!(!valid_msaa_sample_count(samples));
    }
}

#[test]
fn materials_work_as_map_keys() {
    let mut groups: std::collections::HashMap<ShapePipelineMaterial, Vec<u32>> =
        std::collections::HashMap::new();
    let a = ShapePipelineMaterial::new(None, Some(1));
    let b = ShapePipelineMaterial::new(Some(&material(ShapeAlphaMode::Add, false)), Some(1));
    for (m, v) in [(a, 1u32), (b, 2), (a, 3)] {
        groups.entry(m).or_default().push(v);
    }
    assert_eq!(groups.len(), 2);
    assert_eq!(groups[&a], vec![1, 3]);
    let mut ordered = std::collections::BTreeMap::new();
    ordered.insert(b, 0);
    ordered.insert(a, 1);
    ordered.insert(a, 2);
    assert_eq!(ordered.len(), 2);
}
