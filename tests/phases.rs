use bevy_vector_shapes::flags::{Alignment, Cap, Flags, ThicknessType};
use bevy_vector_shapes::json::{Shape, Shapes};
use bevy_vector_shapes::material::{ShapeAlphaMode, ShapeMaterial, ShapePipelineMaterial, ShapePipelineType};
use bevy_vector_shapes::merge::batch_and_prepare_render_phase;
use bevy_vector_shapes::phase::{depth_sort_key, order_key, phase_for, sort_phase_items, PhaseItem, RenderPhaseKind};
use bevy_vector_shapes::pipeline::{ShapeKind, ShapePipelines};
use bevy_vector_shapes::queue::queue_view;
use bevy_vector_shapes::store::{ExtractedShape, ShapeInstances};
use bevy_vector_shapes::upload::{InstanceBuffer, UploadAction};
use bevy_vector_shapes::visibility::ViewInfo;

fn item(entity: usize, pipeline: usize, sort_key: u32) -> PhaseItem {
    PhaseItem {
        shape: ShapeKind::Rectangle,
        phase: RenderPhaseKind::Transparent,
        entity,
        pipeline,
        draw_function: 0,
        sort_key,
    }
}

fn camera(id: u64) -> ViewInfo {
    ViewInfo { id, render_layers: None, msaa_samples: 4, hdr: false }
}

fn shape(material: ShapePipelineMaterial, data: u32) -> ExtractedShape<u32> {
    ExtractedShape { visible: true, material, data }
}

#[test]
fn depth_key_follows_float_order() {
    let values = [-1000.0f32, -2.5, -1.0, -0.0, 0.0, 0.5, 1.0, 3.0e9];
    for pair in values.windows(2) {
        assert!(depth_sort_key(pair[0].to_bits()) <= depth_sort_key(pair[1].to_bits()));
    }
    assert_eq!(depth_sort_key(1.0f32.to_bits()), 0xBF80_0000);
    assert_eq!(depth_sort_key((-1.0f32).to_bits()), 0x407F_FFFF);
    assert_eq!(depth_sort_key(0), 0x8000_0000);
}

#[test]
fn sort_is_stable_and_repeatable() {
    let items = vec![item(0, 0, 5), item(1, 0, 2), item(2, 0, 5), item(3, 0, 1), item(4, 0, 2)];
    let first = sort_phase_items(&items);
    let second = sort_phase_items(&items);
    assert_eq!(first, second);
    let order: Vec<usize> = first.iter().map(|i| i.entity).collect();
    assert_eq!(order, vec![3, 1, 4, 0, 2]);
    assert!(sort_phase_items(&Vec::new()).is_empty());
}

#[test]
fn merge_reconstructs_phase_order() {
    let mut store: ShapeInstances<u32> = ShapeInstances::new();
    let m = ShapePipelineMaterial::new(None, None);
    for d in 0..4u32 {
        store.push_instance(m, 100 + d);
    }
    let items = vec![item(2, 0, 0), item(0, 0, 1), item(3, 1, 2), item(1, 1, 3)];
    let mut buffer: InstanceBuffer<u32> = InstanceBuffer::new();
    let batches = batch_and_prepare_render_phase(&items, ShapeKind::Rectangle, &store, &mut buffer);
    assert_eq!(buffer.records_ref(), &vec![102, 100, 103, 101]);
    assert_eq!(batches.len(), 2);
    assert_eq!((batches[0].item, batches[0].start, batches[0].end), (0, 0, 2));
    assert_eq!((batches[1].item, batches[1].start, batches[1].end), (2, 2, 4));
    assert_eq!(batches[1].meta.pipeline, 1);
    let covered: Vec<u32> = batches
        .iter()
        .flat_map(|b| buffer.records_ref()[b.start..b.end].to_vec())
        .collect();
    assert_eq!(covered, vec![102, 100, 103, 101]);
}

#[test]
fn foreign_items_split_runs_and_get_no_record() {
    let mut store: ShapeInstances<u32> = ShapeInstances::new();
    let m = ShapePipelineMaterial::new(None, None);
    store.push_instance(m, 7);
    store.push_instance(m, 8);
    let foreign = PhaseItem {
        shape: ShapeKind::Disc,
        phase: RenderPhaseKind::Transparent,
        entity: 0,
        pipeline: 0,
        draw_function: 0,
        sort_key: 0,
    };
    let missing = item(9, 0, 0);
    let items = vec![item(0, 0, 0), foreign, item(1, 0, 0), missing];
    let mut buffer: InstanceBuffer<u32> = InstanceBuffer::new();
    buffer.push(1);
    let batches = batch_and_prepare_render_phase(&items, ShapeKind::Rectangle, &store, &mut buffer);
    assert_eq!(buffer.records_ref(), &vec![1, 7, 8]);
    assert_eq!(batches.len(), 2);
    assert_eq!((batches[0].item, batches[0].start, batches[0].end), (0, 1, 2));
    assert_eq!((batches[1].item, batches[1].start, batches[1].end), (2, 2, 3));
}

#[test]
fn different_materials_split_runs() {
    let mut store: ShapeInstances<u32> = ShapeInstances::new();
    store.push_instance(ShapePipelineMaterial::new(None, Some(1)), 0);
    store.push_instance(ShapePipelineMaterial::new(None, Some(2)), 1);
    let items = vec![item(0, 0, 0), item(1, 0, 0)];
    let mut buffer: InstanceBuffer<u32> = InstanceBuffer::new();
    let batches = batch_and_prepare_render_phase(&items, ShapeKind::Rectangle, &store, &mut buffer);
    assert_eq!(batches.len(), 2);
    let empty = batch_and_prepare_render_phase(&Vec::new(), ShapeKind::Rectangle, &store, &mut buffer);
    assert!(empty.is_empty());
}

#[test]
fn upload_grows_and_never_shrinks() {
    let mut buffer: InstanceBuffer<u32> = InstanceBuffer::new();
    buffer.push(1);
    buffer.push(2);
    assert_eq!(buffer.write_frame(), UploadAction::Create { len: 2 });
    assert_eq!(buffer.capacity_records(), 2);
    buffer.clear_frame();
    assert_eq!(buffer.len(), 0);
    assert_eq!(buffer.capacity_records(), 2);
    buffer.push(3);
    assert_eq!(buffer.write_frame(), UploadAction::Write { len: 1 });
    assert_eq!(buffer.capacity_records(), 2);
    buffer.push(4);
    buffer.push(5);
    assert_eq!(buffer.write_frame(), UploadAction::Create { len: 3 });
    assert_eq!(buffer.capacity_records(), 3);
    buffer.clear_frame();
    assert_eq!(buffer.write_frame(), UploadAction::Write { len: 0 });
}

#[test]
fn single_record_is_padded_outside_the_draw_range() {
    let mut store: ShapeInstances<u32> = ShapeInstances::new();
    store.push_instance(ShapePipelineMaterial::new(None, None), 42);
    let mut buffer: InstanceBuffer<u32> = InstanceBuffer::new();
    let batches = batch_and_prepare_render_phase(&vec![item(0, 0, 0)], ShapeKind::Rectangle, &store, &mut buffer);
    buffer.pad_single(0);
    assert_eq!(buffer.records_ref(), &vec![42, 0]);
    assert_eq!(batches.len(), 1);
    assert_eq!((batches[0].start, batches[0].end), (0, 1));
    buffer.pad_single(0);
    assert_eq!(buffer.len(), 2);
    let mut empty: InstanceBuffer<u32> = InstanceBuffer::new();
    empty.pad_single(0);
    assert_eq!(empty.len(), 0);
}

#[test]
fn scenario_two_blended_rectangles_one_draw() {
    let m = ShapePipelineMaterial::new(None, None);
    let scan = vec![shape(m, 1), shape(m, 2)];
    let mut store: ShapeInstances<u32> = ShapeInstances::new();
    store.extract(&scan, &Vec::new(), true);
    assert_eq!(store.len(), 2);
    assert_eq!(store.group_count(), 1);
    let mut pipelines = ShapePipelines::new();
    let keys = vec![depth_sort_key(1.0f32.to_bits()), depth_sort_key(2.0f32.to_bits())];
    let items = queue_view(&mut pipelines, &store, ShapeKind::Rectangle, ShapePipelineType::Shape2d, &camera(1), 3, &keys);
    assert_eq!(items.len(), 2);
    let sorted = sort_phase_items(&items);
    let mut buffer: InstanceBuffer<u32> = InstanceBuffer::new();
    let batches = batch_and_prepare_render_phase(&sorted, ShapeKind::Rectangle, &store, &mut buffer);
    assert_eq!(batches.len(), 1);
    assert_eq!((batches[0].start, batches[0].end), (0, 2));
    assert_eq!(pipelines.len(), 1);
}

#[test]
fn scenario_canvas_and_screen_shapes_stay_apart() {
    let mut canvas_settings = ShapeMaterial::default();
    canvas_settings.set_canvas(50);
    let m1 = ShapePipelineMaterial::new(Some(&canvas_settings), None);
    let m2 = ShapePipelineMaterial::new(None, None);
    let mut store: ShapeInstances<u32> = ShapeInstances::new();
    store.extract(&vec![shape(m1, 1), shape(m2, 2)], &Vec::new(), true);
    let keys = vec![0u32, 0];
    let mut pipelines = ShapePipelines::new();
    let canvas_view = ViewInfo { id: 50, render_layers: Some(0b10), msaa_samples: 1, hdr: false };
    let screen_view = ViewInfo { id: 60, render_layers: Some(1), msaa_samples: 4, hdr: false };
    let on_canvas = queue_view(&mut pipelines, &store, ShapeKind::Disc, ShapePipelineType::Shape2d, &canvas_view, 0, &keys);
    let on_screen = queue_view(&mut pipelines, &store, ShapeKind::Disc, ShapePipelineType::Shape2d, &screen_view, 0, &keys);
    assert_eq!(on_canvas.iter().map(|i| i.entity).collect::<Vec<_>>(), vec![0]);
    assert_eq!(on_screen.iter().map(|i| i.entity).collect::<Vec<_>>(), vec![1]);
    assert_ne!(on_canvas[0].pipeline, on_screen[0].pipeline);
}

#[test]
fn scenario_hundred_3d_shapes_sorted_by_distance() {
    let mut settings = ShapeMaterial::default();
    settings.set_3d();
    let m = ShapePipelineMaterial::new(Some(&settings), None);
    let mut scan = Vec::new();
    let mut keys = Vec::new();
    for i in 0..100u32 {
        scan.push(shape(m, i));
        let distance = ((i * 37) % 100) as f32 - 50.0;
        keys.push(depth_sort_key(distance.to_bits()));
    }
    let mut store: ShapeInstances<u32> = ShapeInstances::new();
    store.extract(&scan, &Vec::new(), true);
    let mut pipelines = ShapePipelines::new();
    let items = queue_view(&mut pipelines, &store, ShapeKind::Triangle, ShapePipelineType::Shape3d, &camera(1), 2, &keys);
    let sorted = sort_phase_items(&items);
    assert_eq!(sorted.len(), 100);
    for pair in sorted.windows(2) {
        assert!(pair[0].sort_key <= pair[1].sort_key);
    }
    let mut buffer: InstanceBuffer<u32> = InstanceBuffer::new();
    let batches = batch_and_prepare_render_phase(&sorted, ShapeKind::Triangle, &store, &mut buffer);
    assert_eq!(batches.len(), 1);
    assert_eq!((batches[0].start, batches[0].end), (0, 100));
    assert!(!pipelines.descriptor(0).depth.is_none());
}

#[test]
fn scenario_opaque_shape_never_anti_aliased() {
    for disable_laa in [false, true] {
        let settings = ShapeMaterial {
            alpha_mode: ShapeAlphaMode::Opaque,
            disable_laa,
            pipeline: ShapePipelineType::Shape3d,
            canvas: None,
            texture: None,
        };
        assert!(ShapePipelineMaterial::new(Some(&settings), None).disable_laa);
    }
}

#[test]
fn flags_fields_pack_into_their_bits() {
    let mut flags = Flags(0);
    flags.set_thickness_type(ThicknessType::Screen);
    flags.set_alignment(Alignment::Billboard);
    flags.set_hollow(1);
    flags.set_cap(Cap::Round);
    flags.set_arc(1);
    assert_eq!(flags.0, 0b1_10_1_1_10);
    flags.set_cap(Cap::Square);
    flags.set_hollow(2);
    assert_eq!(flags.0, 0b1_01_0_1_10);
    assert_eq!(ThicknessType::Pixels.code(), 1);
    assert_eq!(Cap::Butt.code(), 0);
    assert_eq!(Alignment::Flat.code(), 0);
}

#[test]
fn shapes_list_keeps_insertion_order() {
    let mut shapes: Shapes<u8, u16, u32, u64> = Shapes::new();
    assert!(shapes.0.is_empty());
    shapes.add(Shape::Disc(1)).add(Shape::Line(2)).add(Shape::Ngon(4)).add(Shape::Rect(3));
    assert_eq!(shapes.0, vec![Shape::Disc(1), Shape::Line(2), Shape::Ngon(4), Shape::Rect(3)]);
}

fn settings(alpha_mode: ShapeAlphaMode, pipeline: ShapePipelineType) -> ShapePipelineMaterial {
    let m = ShapeMaterial { alpha_mode, disable_laa: false, pipeline, canvas: None, texture: None };
    ShapePipelineMaterial::new(Some(&m), None)
}

#[test]
fn alpha_mode_selects_the_3d_phase() {
    let cases = [
        (ShapeAlphaMode::Opaque, RenderPhaseKind::Opaque),
        (ShapeAlphaMode::Mask, RenderPhaseKind::AlphaMask),
        (ShapeAlphaMode::Blend, RenderPhaseKind::Transparent),
        (ShapeAlphaMode::Premultiplied, RenderPhaseKind::Transparent),
        (ShapeAlphaMode::Add, RenderPhaseKind::Transparent),
        (ShapeAlphaMode::Multiply, RenderPhaseKind::Transparent),
    ];
    for (mode, phase) in cases {
        let m = settings(mode, ShapePipelineType::Shape3d);
        assert_eq!(phase_for(&m, ShapePipelineType::Shape3d), phase);
        assert_eq!(phase_for(&m, ShapePipelineType::Shape2d), RenderPhaseKind::Transparent);
    }
    assert_eq!(order_key(RenderPhaseKind::Transparent, 5), 5);
    assert_eq!(order_key(RenderPhaseKind::Opaque, 5), !5u32);
    assert_eq!(order_key(RenderPhaseKind::AlphaMask, 0), u32::MAX);
}

#[test]
fn opaque_3d_shapes_sort_front_to_back() {
    let opaque = settings(ShapeAlphaMode::Opaque, ShapePipelineType::Shape3d);
    let blended = settings(ShapeAlphaMode::Blend, ShapePipelineType::Shape3d);
    let depths = [3.0f32, 1.0, 2.0];
    let keys: Vec<u32> = depths.iter().map(|d| depth_sort_key(d.to_bits())).collect();
    for (m, expected) in [(opaque, vec![0usize, 2, 1]), (blended, vec![1usize, 2, 0])] {
        let scan = vec![shape(m, 0), shape(m, 1), shape(m, 2)];
        let mut store: ShapeInstances<u32> = ShapeInstances::new();
        store.extract(&scan, &Vec::new(), true);
        let mut pipelines = ShapePipelines::new();
        let items = queue_view(&mut pipelines, &store, ShapeKind::Disc, ShapePipelineType::Shape3d, &camera(1), 0, &keys);
        let sorted = sort_phase_items(&items);
        let order: Vec<usize> = sorted.iter().map(|i| i.entity).collect();
        assert_eq!(order, expected);
    }
    let scan = vec![shape(opaque, 0)];
    let mut store: ShapeInstances<u32> = ShapeInstances::new();
    store.extract(&scan, &Vec::new(), true);
    let mut pipelines = ShapePipelines::new();
    let items = queue_view(&mut pipelines, &store, ShapeKind::Disc, ShapePipelineType::Shape3d, &camera(1), 0, &vec![7]);
    assert_eq!(items[0].phase, RenderPhaseKind::Opaque);
    assert_eq!(items[0].sort_key, !7u32);
}

#[test]
fn opaque_2d_shapes_stay_back_to_front() {
    let opaque = settings(ShapeAlphaMode::Opaque, ShapePipelineType::Shape2d);
    let scan = vec![shape(opaque, 0), shape(opaque, 1)];
    let mut store: ShapeInstances<u32> = ShapeInstances::new();
    store.extract(&scan, &Vec::new(), true);
    let mut pipelines = ShapePipelines::new();
    let items = queue_view(&mut pipelines, &store, ShapeKind::Rectangle, ShapePipelineType::Shape2d, &camera(1), 0, &vec![9, 4]);
    let sorted = sort_phase_items(&items);
    assert_eq!(sorted.iter().map(|i| i.entity).collect::<Vec<_>>(), vec![1, 0]);
    assert!(sorted.iter().all(|i| i.phase == RenderPhaseKind::Transparent));
}
