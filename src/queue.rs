use vstd::prelude::*;

use crate::key::{material_key_bits, valid_msaa_samples, ShapePipelineKey};
use crate::material::{ShapePipelineMaterial, ShapePipelineType};
use crate::phase::{order_key, ordered_key, phase_for, phase_of, PhaseItem};
use crate::pipeline::{ShapeKind, ShapePipelines};
use crate::store::ShapeInstances;
use crate::visibility::{is_visible_to, visible_to, ViewInfo};

verus! {

/// The instances a view draws, material entry after material entry of the index.
pub open spec fn queued_entities(
    groups: Seq<(ShapePipelineMaterial, Seq<usize>)>,
    view: ViewInfo,
) -> Seq<usize>
    decreases groups.len(),
{
    if groups.len() == 0 {
        Seq::empty()
    } else {
        let rest = queued_entities(groups.drop_last(), view);
        if visible_to(groups.last().0, view) {
            rest + groups.last().1
        } else {
            rest
        }
    }
}

pub open spec fn entities_of(items: Seq<PhaseItem>) -> Seq<usize> {
    items.map_values(|it: PhaseItem| it.entity)
}

/// Queues the instances of one shape kind that a view draws.
///
/// Each material entry whose material the view draws yields one item per instance, in index
/// order, all with the pipeline cached for the material's key on this view and the phase that
/// the material's alpha mode selects. The sort key is the instance's depth key in the
/// transparent phase and its complement in the opaque and masked phases, so that sorting by
/// ascending key draws blended shapes back to front and opaque ones front to back.
pub fn queue_view<T: Copy>(
    pipelines: &mut ShapePipelines,
    store: &ShapeInstances<T>,
    shape: ShapeKind,
    pipeline: ShapePipelineType,
    view: &ViewInfo,
    draw_function: u32,
    depth_keys: &Vec<u32>,
) -> (items: Vec<PhaseItem>)
    requires
        old(pipelines).wf(),
        store.wf(),
        depth_keys@.len() == store.instances().len(),
        valid_msaa_samples(view.msaa_samples),
    ensures
        final(pipelines).wf(),
        old(pipelines).built().len() <= final(pipelines).built().len(),
        forall|i: int|
            0 <= i < old(pipelines).built().len() ==> #[trigger] final(pipelines).built()[i] == old(
                pipelines,
            ).built()[i],
        entities_of(items@) == queued_entities(store.groups(), *view),
        forall|k: int|
            0 <= k < items@.len() ==> {
                let it = #[trigger] items@[k];
                &&& it.shape == shape
                &&& it.draw_function == draw_function
                &&& it.entity < store.instances().len()
                &&& it.phase == phase_of(store.instances()[it.entity as int].material, pipeline)
                &&& it.sort_key == ordered_key(it.phase, depth_keys@[it.entity as int])
                &&& it.pipeline < final(pipelines).built().len()
                &&& final(pipelines).built()[it.pipeline as int] == (
                    shape,
                    material_key_bits(
                        store.instances()[it.entity as int].material,
                        pipeline,
                        view.msaa_samples,
                        view.hdr,
                    ),
                )
            },
{
    let ghost groups = store.groups();
    let ghost start = pipelines.built();
    let mut items: Vec<PhaseItem> = Vec::new();
    let ng = store.group_count();
    let mut g: usize = 0;
    while g < ng
        invariant
            ng == groups.len(),
            groups == store.groups(),
            0 <= g <= ng,
            store.wf(),
            pipelines.wf(),
            depth_keys@.len() == store.instances().len(),
            valid_msaa_samples(view.msaa_samples),
            start.len() <= pipelines.built().len(),
            forall|i: int| 0 <= i < start.len() ==> #[trigger] pipelines.built()[i] == start[i],
            entities_of(items@) == queued_entities(groups.subrange(0, g as int), *view),
            forall|k: int|
                0 <= k < items@.len() ==> {
                    let it = #[trigger] items@[k];
                    &&& it.shape == shape
                    &&& it.draw_function == draw_function
                    &&& it.entity < store.instances().len()
                    &&& it.phase == phase_of(store.instances()[it.entity as int].material, pipeline)
                    &&& it.sort_key == ordered_key(it.phase, depth_keys@[it.entity as int])
                    &&& it.pipeline < pipelines.built().len()
                    &&& pipelines.built()[it.pipeline as int] == (
                        shape,
                        material_key_bits(
                            store.instances()[it.entity as int].material,
                            pipeline,
                            view.msaa_samples,
                            view.hdr,
                        ),
                    )
                },
        decreases ng - g,
    {
        proof {
            assert(groups.subrange(0, g as int + 1).drop_last() =~= groups.subrange(0, g as int));
        }
        let group = store.group(g);
        if is_visible_to(&group.material, view) {
            let key = ShapePipelineKey::for_view(
                &group.material,
                pipeline,
                view.msaa_samples,
                view.hdr,
            );
            let phase = phase_for(&group.material, pipeline);
            let ghost before = pipelines.built();
            let id = pipelines.specialize(shape, key);
            let ghost entities_before = entities_of(items@);
            let ne = group.entities.len();
            let mut k: usize = 0;
            while k < ne
                invariant
                    ne == group.entities@.len(),
                    (group.material, group.entities@) == groups[g as int],
                    0 <= g < ng,
                    ng == groups.len(),
                    groups == store.groups(),
                    store.wf(),
                    0 <= k <= ne,
                    depth_keys@.len() == store.instances().len(),
                    id < pipelines.built().len(),
                    pipelines.built()[id as int] == (shape, key.0),
                    phase == phase_of(group.material, pipeline),
                    key.0 == material_key_bits(
                        group.material,
                        pipeline,
                        view.msaa_samples,
                        view.hdr,
                    ),
                    entities_of(items@) == entities_before + group.entities@.subrange(0, k as int),
                    forall|j: int|
                        0 <= j < items@.len() ==> {
                            let it = #[trigger] items@[j];
                            &&& it.shape == shape
                            &&& it.draw_function == draw_function
                            &&& it.entity < store.instances().len()
                            &&& it.phase == phase_of(store.instances()[it.entity as int].material, pipeline)
                            &&& it.sort_key == ordered_key(it.phase, depth_keys@[it.entity as int])
                            &&& it.pipeline < pipelines.built().len()
                            &&& pipelines.built()[it.pipeline as int] == (
                                shape,
                                material_key_bits(
                                    store.instances()[it.entity as int].material,
                                    pipeline,
                                    view.msaa_samples,
                                    view.hdr,
                                ),
                            )
                        },
                decreases ne - k,
            {
                let entity = group.entities[k];
                proof {
                    assert(groups[g as int].1[k as int] == entity);
                    assert(entity < store.instances().len());
                    assert(store.instances()[entity as int].material == groups[g as int].0);
                }
                let item = PhaseItem {
                    shape,
                    phase,
                    entity,
                    pipeline: id,
                    draw_function,
                    sort_key: order_key(phase, depth_keys[entity]),
                };
                let ghost prev = items@;
                items.push(item);
                proof {
                    assert(entities_of(items@) =~= entities_of(prev).push(entity));
                    assert(group.entities@.subrange(0, k as int + 1) =~= group.entities@.subrange(
                        0,
                        k as int,
                    ).push(entity));
                    assert(entities_of(items@) =~= entities_before + group.entities@.subrange(
                        0,
                        k as int + 1,
                    ));
                    assert forall|j: int| 0 <= j < items@.len() implies {
                        let it = #[trigger] items@[j];
                        &&& it.shape == shape
                        &&& it.draw_function == draw_function
                        &&& it.entity < store.instances().len()
                        &&& it.phase == phase_of(store.instances()[it.entity as int].material, pipeline)
                        &&& it.sort_key == ordered_key(it.phase, depth_keys@[it.entity as int])
                        &&& it.pipeline < pipelines.built().len()
                        &&& pipelines.built()[it.pipeline as int] == (
                            shape,
                            material_key_bits(
                                store.instances()[it.entity as int].material,
                                pipeline,
                                view.msaa_samples,
                                view.hdr,
                            ),
                        )
                    } by {
                        if j < prev.len() {
                            assert(items@[j] == prev[j]);
                        }
                    }
                }
                k += 1;
            }
            proof {
                assert(group.entities@.subrange(0, ne as int) =~= group.entities@);
                assert(before.len() <= pipelines.built().len());
                assert forall|i: int| 0 <= i < start.len() implies #[trigger] pipelines.built()[i]
                    == start[i] by {
                    assert(before[i] == start[i]);
                }
            }
        } else {
            proof {
                assert(!visible_to(groups[g as int].0, *view));
            }
        }
        g += 1;
    }
    assert(groups.subrange(0, ng as int) =~= groups);
    items
}

/// Two queued items whose instances have equal materials use the same pipeline, so they carry
/// the same batch data and merge into one draw call wherever they are adjacent.
pub proof fn lemma_equal_materials_share_pipeline(
    pipelines: ShapePipelines,
    shape: ShapeKind,
    pipeline: ShapePipelineType,
    view: ViewInfo,
    a: PhaseItem,
    ma: ShapePipelineMaterial,
    b: PhaseItem,
    mb: ShapePipelineMaterial,
)
    requires
        pipelines.wf(),
        a.pipeline < pipelines.built().len(),
        b.pipeline < pipelines.built().len(),
        pipelines.built()[a.pipeline as int] == (
            shape,
            material_key_bits(ma, pipeline, view.msaa_samples, view.hdr),
        ),
        pipelines.built()[b.pipeline as int] == (
            shape,
            material_key_bits(mb, pipeline, view.msaa_samples, view.hdr),
        ),
        ma == mb,
    ensures
        a.pipeline == b.pipeline,
{
    pipelines.lemma_ids_unique(a.pipeline as int, b.pipeline as int);
}

/// When every instance has the same material, every item queued for a view uses one pipeline.
pub proof fn lemma_one_material_one_pipeline<T: Copy>(
    pipelines: ShapePipelines,
    store: ShapeInstances<T>,
    shape: ShapeKind,
    pipeline: ShapePipelineType,
    view: ViewInfo,
    items: Seq<PhaseItem>,
    m: ShapePipelineMaterial,
)
    requires
        pipelines.wf(),
        forall|e: int| 0 <= e < store.instances().len() ==> #[trigger] store.instances()[e].material == m,
        forall|k: int|
            0 <= k < items.len() ==> {
                let it = #[trigger] items[k];
                &&& it.entity < store.instances().len()
                &&& it.pipeline < pipelines.built().len()
                &&& pipelines.built()[it.pipeline as int] == (
                    shape,
                    material_key_bits(
                        store.instances()[it.entity as int].material,
                        pipeline,
                        view.msaa_samples,
                        view.hdr,
                    ),
                )
            },
    ensures
        forall|a: int, b: int|
            0 <= a < items.len() && 0 <= b < items.len() ==> #[trigger] items[a].pipeline
                == #[trigger] items[b].pipeline,
{
    assert forall|a: int, b: int|
        0 <= a < items.len() && 0 <= b < items.len() implies #[trigger] items[a].pipeline
        == #[trigger] items[b].pipeline by {
        let ia = items[a];
        let ib = items[b];
        assert(store.instances()[ia.entity as int].material == m);
        assert(store.instances()[ib.entity as int].material == m);
        pipelines.lemma_ids_unique(ia.pipeline as int, ib.pipeline as int);
    }
}

} // verus!
