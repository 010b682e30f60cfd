use vstd::prelude::*;

use crate::material::{ShapePipelineMaterial, ShapePipelineType};

verus! {

/// One shape to draw this frame: its material and its shape-specific instance record.
#[derive(Debug, Clone, Copy)]
pub struct ShapeInstance<T> {
    pub material: ShapePipelineMaterial,
    pub data: T,
}

/// A shape found by the scan of shape entities, with the visibility the engine computed.
#[derive(Debug, Clone, Copy)]
pub struct ExtractedShape<T> {
    pub visible: bool,
    pub material: ShapePipelineMaterial,
    pub data: T,
}

/// Whether a shape is drawn this frame: it is visible, and a texture it asks for can be bound.
pub open spec fn drawable(visible: bool, m: ShapePipelineMaterial, textures_ready: bool) -> bool {
    visible && (m.texture is None || textures_ready)
}

/// The instances kept from a scan, in scan order.
pub open spec fn kept_scanned<T>(shapes: Seq<ExtractedShape<T>>, textures_ready: bool) -> Seq<
    ShapeInstance<T>,
>
    decreases shapes.len(),
{
    if shapes.len() == 0 {
        Seq::empty()
    } else {
        let rest = kept_scanned(shapes.drop_last(), textures_ready);
        let s = shapes.last();
        if drawable(s.visible, s.material, textures_ready) {
            rest.push(ShapeInstance { material: s.material, data: s.data })
        } else {
            rest
        }
    }
}

/// The immediate-mode instances kept, in the order they were sent.
pub open spec fn kept_sent<T>(shapes: Seq<ShapeInstance<T>>, textures_ready: bool) -> Seq<
    ShapeInstance<T>,
>
    decreases shapes.len(),
{
    if shapes.len() == 0 {
        Seq::empty()
    } else {
        let rest = kept_sent(shapes.drop_last(), textures_ready);
        let s = shapes.last();
        if drawable(true, s.material, textures_ready) {
            rest.push(s)
        } else {
            rest
        }
    }
}

/// The material index after filing instance `e` with material `m`: appended to the entry of
/// that material, or a new entry at the end.
pub open spec fn file_under(
    groups: Seq<(ShapePipelineMaterial, Seq<usize>)>,
    m: ShapePipelineMaterial,
    e: usize,
) -> Seq<(ShapePipelineMaterial, Seq<usize>)> {
    if exists|g: int| 0 <= g < groups.len() && #[trigger] groups[g].0 == m {
        let g = choose|g: int| 0 <= g < groups.len() && #[trigger] groups[g].0 == m;
        groups.update(g, (m, groups[g].1.push(e)))
    } else {
        groups.push((m, seq![e]))
    }
}

/// The material index of a list of instances: each filed in turn, by its position.
pub open spec fn grouped<T>(instances: Seq<ShapeInstance<T>>) -> Seq<
    (ShapePipelineMaterial, Seq<usize>),
>
    decreases instances.len(),
{
    if instances.len() == 0 {
        Seq::empty()
    } else {
        file_under(
            grouped(instances.drop_last()),
            instances.last().material,
            (instances.len() - 1) as usize,
        )
    }
}

/// Shapes that share a material, by their index in the store.
#[derive(Debug)]
pub struct MaterialGroup {
    pub material: ShapePipelineMaterial,
    pub entities: Vec<usize>,
}

/// The instances of one shape kind and pipeline for the current frame, with an index of them
/// by material.
#[derive(Debug)]
pub struct ShapeInstances<T> {
    instances: Vec<ShapeInstance<T>>,
    groups: Vec<MaterialGroup>,
}

/// The store of the 2D pipeline of one shape kind.
pub type Shape2dInstances<T> = ShapeInstances<T>;

/// The store of the 3D pipeline of one shape kind.
pub type Shape3dInstances<T> = ShapeInstances<T>;

impl<T: Copy> ShapeInstances<T> {
    /// The instances, in the order they were added; an instance's index is its identity.
    pub closed spec fn instances(&self) -> Seq<ShapeInstance<T>> {
        self.instances@
    }

    /// The material index: each material with the indices of its instances.
    pub closed spec fn groups(&self) -> Seq<(ShapePipelineMaterial, Seq<usize>)> {
        self.groups@.map_values(|g: MaterialGroup| (g.material, g.entities@))
    }

    /// The material index lists every instance once, under its own material, with one entry
    /// per distinct material.
    pub open spec fn wf(&self) -> bool {
        &&& forall|a: int, b: int|
            0 <= a < b < self.groups().len() ==> #[trigger] self.groups()[a].0
                != #[trigger] self.groups()[b].0
        &&& forall|g: int, k: int|
            0 <= g < self.groups().len() && 0 <= k < self.groups()[g].1.len() ==> {
                let e = #[trigger] self.groups()[g].1[k];
                &&& e < self.instances().len()
                &&& self.instances()[e as int].material == self.groups()[g].0
            }
        &&& forall|g: int, j: int, k: int|
            0 <= g < self.groups().len() && 0 <= j < k < self.groups()[g].1.len()
                ==> #[trigger] self.groups()[g].1[j] < #[trigger] self.groups()[g].1[k]
        &&& forall|e: int| 0 <= e < self.instances().len() ==> #[trigger] self.filed(e)
        &&& self.groups() == grouped(self.instances())
    }

    /// Some entry of the material index lists instance `e`.
    pub open spec fn filed(&self, e: int) -> bool {
        exists|g: int, k: int|
            0 <= g < self.groups().len() && 0 <= k < self.groups()[g].1.len()
                && #[trigger] self.groups()[g].1[k] == e
    }

    pub fn new() -> (r: Self)
        ensures
            r.wf(),
            r.instances().len() == 0,
            r.groups().len() == 0,
    {
        let r = ShapeInstances { instances: Vec::new(), groups: Vec::new() };
        assert(r.groups() =~= grouped(r.instances()));
        r
    }

    pub fn len(&self) -> (r: usize)
        ensures
            r == self.instances().len(),
    {
        self.instances.len()
    }

    pub fn get(&self, entity: usize) -> (r: &ShapeInstance<T>)
        requires
            entity < self.instances().len(),
        ensures
            *r == self.instances()[entity as int],
    {
        &self.instances[entity]
    }

    pub fn group_count(&self) -> (r: usize)
        ensures
            r == self.groups().len(),
    {
        self.groups.len()
    }

    pub fn group(&self, g: usize) -> (r: &MaterialGroup)
        requires
            g < self.groups().len(),
        ensures
            (r.material, r.entities@) == self.groups()[g as int],
    {
        &self.groups[g]
    }

    /// Empties the store and its index.
    pub fn clear_frame(&mut self)
        ensures
            final(self).wf(),
            final(self).instances().len() == 0,
            final(self).groups().len() == 0,
    {
        self.instances.clear();
        self.groups.clear();
        assert(self.groups() =~= grouped(self.instances()));
    }

    /// Adds an instance at the end of the store and files it under its material.
    pub fn push_instance(&mut self, material: ShapePipelineMaterial, data: T) -> (entity: usize)
        requires
            old(self).wf(),
            old(self).instances().len() < usize::MAX,
        ensures
            final(self).wf(),
            entity == old(self).instances().len(),
            final(self).instances() == old(self).instances().push(
                ShapeInstance { material, data },
            ),
            final(self).groups() == file_under(old(self).groups(), material, entity),
    {
        let n = self.instances.len();
        let ghost old_groups = self.groups();
        let ng = self.groups.len();
        let mut gi: usize = 0;
        while gi < ng
            invariant
                ng == self.groups@.len(),
                0 <= gi <= ng,
                self.groups() == old_groups,
                forall|j: int| 0 <= j < gi ==> old_groups[j].0 != material,
            ensures
                gi <= ng,
                self.groups() == old_groups,
                forall|j: int| 0 <= j < gi ==> old_groups[j].0 != material,
                gi < ng ==> old_groups[gi as int].0 == material,
            decreases ng - gi,
        {
            if self.groups[gi].material.same_as(&material) {
                break;
            }
            gi += 1;
        }
        self.instances.push(ShapeInstance { material, data });
        if gi < ng {
            assert(old_groups[gi as int].0 == material);
            let ghost before = self.groups@;
            self.groups[gi].entities.push(n);
            proof {
                let groups = self.groups();
                assert forall|g: int| 0 <= g < groups.len() && g != gi implies groups[g]
                    == old_groups[g] by {
                    assert(self.groups@[g] == before[g]);
                }
                assert(groups[gi as int].1 == old_groups[gi as int].1.push(n));
                assert(groups[gi as int].0 == old_groups[gi as int].0);
                let c = choose|g: int| 0 <= g < old_groups.len() && #[trigger] old_groups[g].0 == material;
                assert(c == gi) by {
                    if c < gi {
                        assert(old_groups[c].0 != old_groups[gi as int].0);
                    } else if c > gi {
                        assert(old_groups[gi as int].0 != old_groups[c].0);
                    }
                }
                assert(groups =~= file_under(old_groups, material, n));
                assert(self.instances().drop_last() =~= old(self).instances());
                assert forall|e: int| 0 <= e < self.instances().len() implies #[trigger] self.filed(
                    e,
                ) by {
                    if e == n {
                        let k = old_groups[gi as int].1.len() as int;
                        assert(groups[gi as int].1[k] == e);
                    } else {
                        assert(old(self).filed(e));
                        let (g, k) = choose|g: int, k: int|
                            0 <= g < old_groups.len() && 0 <= k < old_groups[g].1.len()
                                && #[trigger] old_groups[g].1[k] == e;
                        assert(groups[g].1[k] == e);
                    }
                }
            }
        } else {
            let mut entities: Vec<usize> = Vec::new();
            entities.push(n);
            self.groups.push(MaterialGroup { material, entities });
            proof {
                let groups = self.groups();
                assert(groups =~= old_groups.push((material, seq![n])));
                assert(groups =~= file_under(old_groups, material, n));
                assert(self.instances().drop_last() =~= old(self).instances());
                assert forall|e: int| 0 <= e < self.instances().len() implies #[trigger] self.filed(
                    e,
                ) by {
                    if e == n {
                        assert(groups[ng as int].1[0] == e);
                    } else {
                        assert(old(self).filed(e));
                        let (g, k) = choose|g: int, k: int|
                            0 <= g < old_groups.len() && 0 <= k < old_groups[g].1.len()
                                && #[trigger] old_groups[g].1[k] == e;
                        assert(groups[g].1[k] == e);
                    }
                }
            }
        }
        n
    }

    /// Rebuilds the store for a new frame: the drawable shapes of the entity scan in scan order,
    /// then the drawable immediate-mode shapes in the order they were sent. A shape whose texture
    /// cannot be bound yet is left out of this frame.
    pub fn extract(
        &mut self,
        scanned: &Vec<ExtractedShape<T>>,
        sent: &Vec<ShapeInstance<T>>,
        textures_ready: bool,
    )
        requires
            scanned@.len() + sent@.len() < usize::MAX,
        ensures
            final(self).wf(),
            final(self).instances() == kept_scanned(scanned@, textures_ready) + kept_sent(
                sent@,
                textures_ready,
            ),
    {
        self.clear_frame();
        let mut i: usize = 0;
        while i < scanned.len()
            invariant
                0 <= i <= scanned@.len(),
                scanned@.len() + sent@.len() < usize::MAX,
                self.wf(),
                self.instances() == kept_scanned(scanned@.subrange(0, i as int), textures_ready),
            decreases scanned@.len() - i,
        {
            proof {
                lemma_kept_scanned_len(scanned@.subrange(0, i as int), textures_ready);
                assert(scanned@.subrange(0, i as int + 1).drop_last() =~= scanned@.subrange(
                    0,
                    i as int,
                ));
            }
            let s = scanned[i];
            let ready = match s.material.texture {
                None => true,
                Some(_) => textures_ready,
            };
            if s.visible && ready {
                self.push_instance(s.material, s.data);
            }
            i += 1;
        }
        assert(scanned@.subrange(0, scanned@.len() as int) =~= scanned@);
        proof {
            lemma_kept_scanned_len(scanned@, textures_ready);
        }
        let ghost first = self.instances();
        let mut j: usize = 0;
        while j < sent.len()
            invariant
                0 <= j <= sent@.len(),
                first.len() <= scanned@.len(),
                scanned@.len() + sent@.len() < usize::MAX,
                self.wf(),
                first == kept_scanned(scanned@, textures_ready),
                self.instances() == first + kept_sent(sent@.subrange(0, j as int), textures_ready),
            decreases sent@.len() - j,
        {
            proof {
                lemma_kept_sent_len(sent@.subrange(0, j as int), textures_ready);
                assert(sent@.subrange(0, j as int + 1).drop_last() =~= sent@.subrange(
                    0,
                    j as int,
                ));
            }
            let s = sent[j];
            let ready = match s.material.texture {
                None => true,
                Some(_) => textures_ready,
            };
            if ready {
                self.push_instance(s.material, s.data);
                proof {
                    let next = sent@.subrange(0, j as int + 1);
                    assert(kept_sent(next, textures_ready) == kept_sent(
                        sent@.subrange(0, j as int),
                        textures_ready,
                    ).push(s));
                    assert(self.instances() =~= first + kept_sent(next, textures_ready));
                }
            }
            j += 1;
        }
        assert(sent@.subrange(0, sent@.len() as int) =~= sent@);
    }
}

proof fn lemma_kept_scanned_len<T>(shapes: Seq<ExtractedShape<T>>, textures_ready: bool)
    ensures
        kept_scanned(shapes, textures_ready).len() <= shapes.len(),
    decreases shapes.len(),
{
    if shapes.len() > 0 {
        lemma_kept_scanned_len(shapes.drop_last(), textures_ready);
    }
}

proof fn lemma_kept_sent_len<T>(shapes: Seq<ShapeInstance<T>>, textures_ready: bool)
    ensures
        kept_sent(shapes, textures_ready).len() <= shapes.len(),
    decreases shapes.len(),
{
    if shapes.len() > 0 {
        lemma_kept_sent_len(shapes.drop_last(), textures_ready);
    }
}

/// Two instances with equal materials are filed under the same entry of the material index,
/// so they are queued, and batched, together for every view.
pub proof fn lemma_equal_materials_grouped<T: Copy>(store: ShapeInstances<T>, a: int, b: int)
    requires
        store.wf(),
        0 <= a < store.instances().len(),
        0 <= b < store.instances().len(),
        store.instances()[a].material == store.instances()[b].material,
    ensures
        exists|g: int, ka: int, kb: int|
            0 <= g < store.groups().len() && 0 <= ka < store.groups()[g].1.len() && 0 <= kb
                < store.groups()[g].1.len() && #[trigger] store.groups()[g].1[ka] == a
                && #[trigger] store.groups()[g].1[kb] == b,
{
    assert(store.filed(a));
    assert(store.filed(b));
    let (ga, ka) = choose|g: int, k: int|
        0 <= g < store.groups().len() && 0 <= k < store.groups()[g].1.len()
            && #[trigger] store.groups()[g].1[k] == a;
    let (gb, kb) = choose|g: int, k: int|
        0 <= g < store.groups().len() && 0 <= k < store.groups()[g].1.len()
            && #[trigger] store.groups()[g].1[k] == b;
    let ea = store.groups()[ga].1[ka];
    let eb = store.groups()[gb].1[kb];
    assert(store.instances()[ea as int].material == store.groups()[ga].0);
    assert(store.instances()[eb as int].material == store.groups()[gb].0);
    if ga != gb {
        if ga < gb {
            assert(store.groups()[ga].0 != store.groups()[gb].0);
        } else {
            assert(store.groups()[gb].0 != store.groups()[ga].0);
        }
    }
    assert(store.groups()[ga].1[kb] == b);
}

/// Extraction depends on the current frame's shapes alone: two stores extracted from the same
/// shapes hold the same instances and the same material index, whatever they held before.
pub proof fn lemma_frame_isolation<T: Copy>(
    a: ShapeInstances<T>,
    b: ShapeInstances<T>,
    scanned: Seq<ExtractedShape<T>>,
    sent: Seq<ShapeInstance<T>>,
    textures_ready: bool,
)
    requires
        a.wf(),
        b.wf(),
        a.instances() == kept_scanned(scanned, textures_ready) + kept_sent(sent, textures_ready),
        b.instances() == kept_scanned(scanned, textures_ready) + kept_sent(sent, textures_ready),
    ensures
        a.instances() == b.instances(),
        a.groups() == b.groups(),
{
}

/// Two drawable shapes of equal material, extracted with no immediate-mode shapes, give two
/// instances filed under a single entry of the material index.
pub proof fn lemma_equal_pair_one_entry<T: Copy>(
    store: ShapeInstances<T>,
    a: ExtractedShape<T>,
    b: ExtractedShape<T>,
    textures_ready: bool,
)
    requires
        store.wf(),
        store.instances() == kept_scanned(seq![a, b], textures_ready) + kept_sent(
            Seq::<ShapeInstance<T>>::empty(),
            textures_ready,
        ),
        drawable(a.visible, a.material, textures_ready),
        drawable(b.visible, b.material, textures_ready),
        a.material == b.material,
    ensures
        store.instances().len() == 2,
        store.groups() == seq![(a.material, seq![0usize, 1usize])],
{
    let s = seq![a, b];
    assert(s.drop_last() =~= seq![a]);
    assert(seq![a].drop_last() =~= Seq::<ExtractedShape<T>>::empty());
    let ia = ShapeInstance { material: a.material, data: a.data };
    let ib = ShapeInstance { material: b.material, data: b.data };
    assert(kept_sent(Seq::<ShapeInstance<T>>::empty(), textures_ready) =~= Seq::empty());
    assert(kept_scanned(Seq::<ExtractedShape<T>>::empty(), textures_ready) =~= Seq::empty());
    assert(kept_scanned(seq![a], textures_ready) =~= seq![ia]);
    assert(kept_scanned(s, textures_ready) =~= seq![ia, ib]);
    let inst = store.instances();
    assert(inst =~= seq![
        ShapeInstance { material: a.material, data: a.data },
        ShapeInstance { material: b.material, data: b.data },
    ]);
    assert(inst.drop_last() =~= seq![ShapeInstance { material: a.material, data: a.data }]);
    assert(inst.drop_last().drop_last() =~= Seq::<ShapeInstance<T>>::empty());
    let g0 = grouped(inst.drop_last().drop_last());
    assert(g0 =~= Seq::empty());
    let g1 = grouped(inst.drop_last());
    assert(g1 == file_under(g0, a.material, 0));
    assert(!(exists|g: int| 0 <= g < g0.len() && #[trigger] g0[g].0 == a.material));
    assert(g1 =~= seq![(a.material, seq![0usize])]);
    assert(g1[0].0 == a.material);
    let c = choose|g: int| 0 <= g < g1.len() && #[trigger] g1[g].0 == b.material;
    assert(c == 0);
    assert(store.groups() == file_under(g1, b.material, 1));
    assert(seq![0usize].push(1usize) =~= seq![0usize, 1usize]);
    assert(store.groups() =~= seq![(a.material, seq![0usize, 1usize])]);
}

/// Immediate-mode shapes sent this frame, kept apart by pipeline until extraction.
#[derive(Debug)]
pub struct ShapeStorage<T> {
    shapes_2d: Vec<ShapeInstance<T>>,
    shapes_3d: Vec<ShapeInstance<T>>,
}

impl<T: Copy> ShapeStorage<T> {
    /// The shapes sent to a pipeline since the last clear, in sending order.
    pub closed spec fn sent(&self, pipeline: ShapePipelineType) -> Seq<ShapeInstance<T>> {
        match pipeline {
            ShapePipelineType::Shape2d => self.shapes_2d@,
            ShapePipelineType::Shape3d => self.shapes_3d@,
        }
    }

    pub fn new() -> (r: Self)
        ensures
            r.sent(ShapePipelineType::Shape2d).len() == 0,
            r.sent(ShapePipelineType::Shape3d).len() == 0,
    {
        ShapeStorage { shapes_2d: Vec::new(), shapes_3d: Vec::new() }
    }

    /// Queues a shape for the pipeline that its material selects.
    pub fn send(&mut self, instance: ShapeInstance<T>)
        ensures
            final(self).sent(instance.material.pipeline) == old(self).sent(
                instance.material.pipeline,
            ).push(instance),
            forall|p: ShapePipelineType|
                p != instance.material.pipeline ==> #[trigger] final(self).sent(p) == old(
                    self,
                ).sent(p),
    {
        match instance.material.pipeline {
            ShapePipelineType::Shape2d => self.shapes_2d.push(instance),
            ShapePipelineType::Shape3d => self.shapes_3d.push(instance),
        }
    }

    /// The shapes sent to a pipeline this frame.
    pub fn get(&self, pipeline: ShapePipelineType) -> (r: &Vec<ShapeInstance<T>>)
        ensures
            r@ == self.sent(pipeline),
    {
        match pipeline {
            ShapePipelineType::Shape2d => &self.shapes_2d,
            ShapePipelineType::Shape3d => &self.shapes_3d,
        }
    }

    /// Forgets every shape sent, at the start of a frame.
    pub fn clear(&mut self)
        ensures
            forall|p: ShapePipelineType| #[trigger] final(self).sent(p).len() == 0,
    {
        self.shapes_2d.clear();
        self.shapes_3d.clear();
    }
}

} // verus!
