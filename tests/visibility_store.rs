use bevy_vector_shapes::material::{
    ShapeAlphaMode, ShapeMaterial, ShapePipelineMaterial, ShapePipelineType,
};
use bevy_vector_shapes::store::{ExtractedShape, ShapeInstance, ShapeInstances, ShapeStorage};
use bevy_vector_shapes::texture::ShapeTextureBindGroups;
use bevy_vector_shapes::visibility::{
    intersects, is_visible_to, resolve_visibility, selector_mismatch, ViewInfo,
};

fn view(id: u64, render_layers: Option<u32>) -> ViewInfo {
    ViewInfo { id, render_layers, msaa_samples: 4, hdr: false }
}

fn layered(layers: u32) -> ShapePipelineMaterial {
    ShapePipelineMaterial::new(None, Some(layers))
}

fn on_canvas(canvas: u64, layers: u32) -> ShapePipelineMaterial {
    let mut m = ShapeMaterial::default();
    m.set_canvas(canvas);
    ShapePipelineMaterial::new(Some(&m), Some(layers))
}

#[test]
fn canvas_material_sees_only_its_canvas() {
    let views = vec![view(1, None), view(7, Some(2)), view(9, Some(1))];
    let m = on_canvas(7, 1);
    assert_eq!(resolve_visibility(&m, &views), vec![7]);
    assert!(is_visible_to(&m, &views[1]));
    assert!(!is_visible_to(&m, &views[0]));
    assert!(!is_visible_to(&m, &views[2]));
}

#[test]
fn missing_canvas_is_dropped_silently() {
    let views = vec![view(1, None), view(2, Some(1))];
    let m = on_canvas(42, 1);
    assert_eq!(resolve_visibility(&m, &views), Vec::<u64>::new());
}

#[test]
fn layer_intersection_selects_views() {
    let views = vec![view(1, Some(0b01)), view(2, Some(0b10)), view(3, Some(0b11)), view(4, None)];
    assert_eq!(resolve_visibility(&layered(0b01), &views), vec![1, 3, 4]);
    assert_eq!(resolve_visibility(&layered(0b10), &views), vec![2, 3, 4]);
    assert_eq!(resolve_visibility(&layered(0b100), &views), vec![4]);
    assert!(intersects(0b110, 0b010));
    assert!(!intersects(0b100, 0b011));
}

#[test]
fn unmasked_camera_matches_every_mask() {
    let camera = view(5, None);
    for layers in [0u32, 1, 0x8000_0000, 0xFFFF_FFFF] {
        assert!(is_visible_to(&layered(layers), &camera));
    }
}

#[test]
fn empty_view_list_sees_nothing() {
    let views: Vec<ViewInfo> = Vec::new();
    assert!(resolve_visibility(&layered(1), &views).is_empty());
}

#[test]
fn pipeline_selector_mismatch_is_reported() {
    let m = layered(1);
    assert!(!selector_mismatch(&m, ShapePipelineType::Shape2d));
    assert!(selector_mismatch(&m, ShapePipelineType::Shape3d));
}

fn scanned(visible: bool, material: ShapePipelineMaterial, data: u32) -> ExtractedShape<u32> {
    ExtractedShape { visible, material, data }
}

#[test]
fn extraction_keeps_visible_shapes_then_sent_ones() {
    let plain = layered(1);
    let mut textured_settings = ShapeMaterial::default();
    textured_settings.texture = Some(11);
    let textured = ShapePipelineMaterial::new(Some(&textured_settings), None);
    let scan = vec![
        scanned(true, plain, 10),
        scanned(false, plain, 11),
        scanned(true, textured, 12),
        scanned(true, layered(2), 13),
    ];
    let sent = vec![
        ShapeInstance { material: plain, data: 20 },
        ShapeInstance { material: textured, data: 21 },
    ];
    let mut store: ShapeInstances<u32> = ShapeInstances::new();
    store.extract(&scan, &sent, false);
    let data: Vec<u32> = (0..store.len()).map(|i| store.get(i).data).collect();
    assert_eq!(data, vec![10, 13, 20]);
    assert_eq!(store.group_count(), 2);
    assert_eq!(store.group(0).material, plain);
    assert_eq!(store.group(0).entities, vec![0, 2]);
    assert_eq!(store.group(1).entities, vec![1]);

    store.extract(&scan, &sent, true);
    let data: Vec<u32> = (0..store.len()).map(|i| store.get(i).data).collect();
    assert_eq!(data, vec![10, 12, 13, 20, 21]);
    assert_eq!(store.group_count(), 3);
    assert_eq!(store.group(1).material, textured);
    assert_eq!(store.group(1).entities, vec![1, 4]);
}

#[test]
fn equal_materials_share_a_group_whatever_the_order() {
    let a = layered(1);
    let b = layered(2);
    let mut store: ShapeInstances<u32> = ShapeInstances::new();
    store.push_instance(b, 0);
    store.push_instance(a, 1);
    store.push_instance(b, 2);
    store.push_instance(a, 3);
    assert_eq!(store.group_count(), 2);
    assert_eq!(store.group(0).entities, vec![0, 2]);
    assert_eq!(store.group(1).entities, vec![1, 3]);
}

#[test]
fn clear_frame_empties_the_store() {
    let mut store: ShapeInstances<u32> = ShapeInstances::new();
    store.push_instance(layered(1), 5);
    store.push_instance(layered(2), 6);
    store.clear_frame();
    assert_eq!(store.len(), 0);
    assert_eq!(store.group_count(), 0);
    store.clear_frame();
    assert_eq!(store.len(), 0);
    let scan = vec![scanned(true, layered(1), 7)];
    store.extract(&scan, &Vec::new(), true);
    assert_eq!(store.len(), 1);
    assert_eq!(store.get(0).data, 7);
}

#[test]
fn storage_keeps_pipelines_apart_until_cleared() {
    let mut storage: ShapeStorage<u32> = ShapeStorage::new();
    let flat = layered(1);
    let mut settings = ShapeMaterial::default();
    settings.set_3d();
    settings.alpha_mode = ShapeAlphaMode::Add;
    let deep = ShapePipelineMaterial::new(Some(&settings), None);
    storage.send(ShapeInstance { material: flat, data: 1 });
    storage.send(ShapeInstance { material: deep, data: 2 });
    storage.send(ShapeInstance { material: flat, data: 3 });
    let two_d: Vec<u32> = storage.get(ShapePipelineType::Shape2d).iter().map(|i| i.data).collect();
    let three_d: Vec<u32> =
        storage.get(ShapePipelineType::Shape3d).iter().map(|i| i.data).collect();
    assert_eq!(two_d, vec![1, 3]);
    assert_eq!(three_d, vec![2]);
    storage.clear();
    assert!(storage.get(ShapePipelineType::Shape2d).is_empty());
    assert!(storage.get(ShapePipelineType::Shape3d).is_empty());
}

fn textured(texture: u64) -> ShapePipelineMaterial {
    let mut m = ShapeMaterial::default();
    m.texture = Some(texture);
    ShapePipelineMaterial::new(Some(&m), None)
}

#[test]
fn texture_bind_groups_created_once_when_ready() {
    let mut store: ShapeInstances<u32> = ShapeInstances::new();
    store.push_instance(textured(5), 0);
    store.push_instance(layered(1), 1);
    store.push_instance(textured(6), 2);
    store.push_instance(textured(5), 3);
    let mut groups = ShapeTextureBindGroups::new();
    assert_eq!(groups.prepare(&store, &vec![5]), vec![5]);
    assert!(groups.is_bound(5));
    assert!(!groups.is_bound(6));
    assert_eq!(groups.prepare(&store, &vec![5]), Vec::<u64>::new());
    assert_eq!(groups.prepare(&store, &vec![7, 6, 5]), vec![6]);
    assert!(groups.is_bound(6));
    assert!(!groups.is_bound(7));
}
