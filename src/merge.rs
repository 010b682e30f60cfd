use vstd::prelude::*;

use crate::material::ShapePipelineMaterial;
use crate::phase::PhaseItem;
use crate::pipeline::ShapeKind;
use crate::store::{ShapeInstance, ShapeInstances};
use crate::upload::InstanceBuffer;

verus! {

/// What two adjacent phase items must share to be drawn by one call.
#[derive(Debug, Clone, Copy, PartialEq, Eq, Structural)]
pub struct BatchMeta {
    pub pipeline: usize,
    pub draw_function: u32,
    /// The material whose bind groups the draw commands set.
    pub material: ShapePipelineMaterial,
}

/// One draw call: the phase item that issues it and its range of records in the frame buffer.
#[derive(Debug, Clone, Copy, PartialEq, Eq, Structural)]
pub struct DrawBatch {
    /// Index of the first phase item of the run.
    pub item: usize,
    pub start: usize,
    pub end: usize,
    pub meta: BatchMeta,
}

/// The item belongs to the shape kind being prepared and names an instance of its store.
pub open spec fn takes(item: PhaseItem, shape: ShapeKind, n: nat) -> bool {
    item.shape == shape && item.entity < n
}

pub open spec fn meta_for<T>(item: PhaseItem, instances: Seq<ShapeInstance<T>>) -> BatchMeta {
    BatchMeta {
        pipeline: item.pipeline,
        draw_function: item.draw_function,
        material: instances[item.entity as int].material,
    }
}

/// The items that are prepared, in phase order: each with its position in the phase, its
/// instance, and its batch data.
pub open spec fn taken<T>(
    items: Seq<PhaseItem>,
    shape: ShapeKind,
    instances: Seq<ShapeInstance<T>>,
) -> Seq<(int, usize, BatchMeta)>
    decreases items.len(),
{
    if items.len() == 0 {
        Seq::empty()
    } else {
        let rest = taken(items.drop_last(), shape, instances);
        let it = items.last();
        if takes(it, shape, instances.len()) {
            rest.push((items.len() - 1, it.entity, meta_for(it, instances)))
        } else {
            rest
        }
    }
}

/// Prepared item `j` directly follows item `j - 1` in the phase and shares its batch data.
pub open spec fn joins(t: Seq<(int, usize, BatchMeta)>, j: int) -> bool {
    t[j].0 == t[j - 1].0 + 1 && t[j].2 == t[j - 1].2
}

/// The records laid out for prepared items, in order.
pub open spec fn records_for<T>(
    t: Seq<(int, usize, BatchMeta)>,
    instances: Seq<ShapeInstance<T>>,
) -> Seq<T> {
    t.map_values(|x: (int, usize, BatchMeta)| instances[x.1 as int].data)
}

/// Every run's record range lies within `[base, base + t.len())`.
#[verifier::opaque]
pub open spec fn runs_within(batches: Seq<DrawBatch>, t: Seq<(int, usize, BatchMeta)>, base: int) -> bool {
    forall|k: int|
        0 <= k < batches.len() ==> base <= #[trigger] batches[k].start && batches[k].end <= base
            + t.len()
}

/// The runs are non-empty and follow one another from `base` to `base + t.len()`.
#[verifier::opaque]
pub open spec fn runs_tile(batches: Seq<DrawBatch>, t: Seq<(int, usize, BatchMeta)>, base: int) -> bool {
    &&& (batches.len() == 0) == (t.len() == 0)
    &&& batches.len() > 0 ==> batches[0].start == base && batches.last().end == base + t.len()
    &&& forall|k: int| 0 <= k < batches.len() - 1 ==> #[trigger] batches[k].end == batches[k + 1].start
    &&& forall|k: int| 0 <= k < batches.len() ==> #[trigger] batches[k].start < batches[k].end
}

/// Each run is issued by its first item and carries that item's batch data.
#[verifier::opaque]
pub open spec fn runs_headed(batches: Seq<DrawBatch>, t: Seq<(int, usize, BatchMeta)>, base: int) -> bool {
    forall|k: int|
        0 <= k < batches.len() ==> {
            &&& #[trigger] batches[k].item == t[batches[k].start - base].0
            &&& batches[k].meta == t[batches[k].start - base].2
        }
}

/// Every item of a run has the run's batch data.
#[verifier::opaque]
pub open spec fn runs_uniform(batches: Seq<DrawBatch>, t: Seq<(int, usize, BatchMeta)>, base: int) -> bool {
    forall|k: int, j: int|
        0 <= k < batches.len() && batches[k].start - base <= j < batches[k].end - base ==> #[trigger] t[j].2
            == #[trigger] batches[k].meta
}

/// Every item of a run after its first directly follows the one before it in the phase.
#[verifier::opaque]
pub open spec fn runs_joined(batches: Seq<DrawBatch>, t: Seq<(int, usize, BatchMeta)>, base: int) -> bool {
    forall|k: int, j: int|
        #![trigger joins(t, j), batches[k]]
        0 <= k < batches.len() && batches[k].start - base < j < batches[k].end - base ==> joins(t, j)
}

/// A run other than the first starts with an item that does not continue the previous one.
#[verifier::opaque]
pub open spec fn runs_maximal(batches: Seq<DrawBatch>, t: Seq<(int, usize, BatchMeta)>, base: int) -> bool {
    forall|k: int| 0 < k < batches.len() ==> !joins(t, #[trigger] batches[k].start - base)
}

/// `batches` are the maximal runs of prepared items that follow one another in the phase with
/// equal batch data; their record ranges tile `[base, base + t.len())` in order.
pub open spec fn merged(batches: Seq<DrawBatch>, t: Seq<(int, usize, BatchMeta)>, base: int) -> bool {
    &&& runs_within(batches, t, base)
    &&& runs_tile(batches, t, base)
    &&& runs_headed(batches, t, base)
    &&& runs_uniform(batches, t, base)
    &&& runs_joined(batches, t, base)
    &&& runs_maximal(batches, t, base)
}

proof fn lemma_taken_bounds<T>(
    items: Seq<PhaseItem>,
    shape: ShapeKind,
    instances: Seq<ShapeInstance<T>>,
)
    ensures
        taken(items, shape, instances).len() <= items.len(),
        forall|j: int|
            0 <= j < taken(items, shape, instances).len() ==> {
                let x = #[trigger] taken(items, shape, instances)[j];
                &&& 0 <= x.0 < items.len()
                &&& x.1 == items[x.0].entity
                &&& items[x.0].shape == shape
                &&& x.1 < instances.len()
                &&& x.2 == meta_for(items[x.0], instances)
            },
        forall|a: int, b: int|
            0 <= a < b < taken(items, shape, instances).len() ==> #[trigger] taken(
                items,
                shape,
                instances,
            )[a].0 < #[trigger] taken(items, shape, instances)[b].0,
    decreases items.len(),
{
    if items.len() > 0 {
        lemma_taken_bounds(items.drop_last(), shape, instances);
    }
}

/// A new run that starts with the next prepared item keeps the runs maximal when that item does
/// not continue the last one.
proof fn lemma_merged_start(
    all: Seq<DrawBatch>,
    t: Seq<(int, usize, BatchMeta)>,
    base: int,
    x: (int, usize, BatchMeta),
    nb: DrawBatch,
)
    requires
        merged(all, t, base),
        t.len() > 0 ==> t.last().0 + 1 != x.0 || all.last().meta != x.2,
        nb.item == x.0,
        nb.start == base + t.len(),
        nb.end == base + t.len() + 1,
        nb.meta == x.2,
    ensures
        merged(all.push(nb), t.push(x), base),
{
    let all2 = all.push(nb);
    let t2 = t.push(x);
    lemma_within(all, t, base);
    assert(all.len() > 0 <==> t.len() > 0) by {
        reveal(runs_tile);
    }
    if t.len() > 0 {
        let l = all.len() - 1;
        assert(all.len() > 0 && all[l].start < all[l].end && all[l].end == base + t.len()) by {
            reveal(runs_tile);
        }
        assert(t[t.len() - 1].2 == all[l].meta) by {
            reveal(runs_uniform);
        }
        assert(!joins(t2, t.len() as int));
    }
    assert(runs_within(all2, t2, base)) by {
        reveal(runs_within);
        assert forall|k: int| 0 <= k < all2.len() implies base <= #[trigger] all2[k].start
            && all2[k].end <= base + t2.len() by {
            if k < all2.len() - 1 {
                assert(all2[k] == all[k]);
            }
        }
    }
    assert(runs_tile(all2, t2, base)) by {
        reveal(runs_tile);
        assert forall|k: int| 0 <= k < all2.len() - 1 implies #[trigger] all2[k].end == all2[k
            + 1].start by {
            if k < all2.len() - 2 {
                assert(all[k].end == all[k + 1].start);
            }
        }
        assert forall|k: int| 0 <= k < all2.len() implies #[trigger] all2[k].start < all2[k].end by {
            if k < all2.len() - 1 {
                assert(all2[k] == all[k]);
            }
        }
    }
    assert(runs_headed(all2, t2, base)) by {
        reveal(runs_headed);
        assert forall|k: int| 0 <= k < all2.len() implies {
            &&& #[trigger] all2[k].item == t2[all2[k].start - base].0
            &&& all2[k].meta == t2[all2[k].start - base].2
        } by {
            if k < all2.len() - 1 {
                assert(all2[k] == all[k]);
                assert(all[k].item == t[all[k].start - base].0);
                assert(all[k].start < all[k].end) by {
                    reveal(runs_tile);
                }
            }
        }
    }
    assert(runs_uniform(all2, t2, base)) by {
        reveal(runs_uniform);
        assert forall|k: int, j: int|
            0 <= k < all2.len() && all2[k].start - base <= j < all2[k].end - base implies #[trigger] t2[j].2
            == #[trigger] all2[k].meta by {
            if k < all2.len() - 1 {
                assert(all2[k] == all[k]);
                assert(t2[j] == t[j]);
            }
        }
    }
    assert(runs_joined(all2, t2, base)) by {
        reveal(runs_joined);
        assert forall|k: int, j: int|
            #![trigger joins(t2, j), all2[k]]
            0 <= k < all2.len() && all2[k].start - base < j < all2[k].end - base implies joins(
                t2,
                j,
            ) by {
            if k < all2.len() - 1 {
                assert(all2[k] == all[k]);
                assert(joins(t, j));
                assert(t2[j] == t[j] && t2[j - 1] == t[j - 1]);
            }
        }
    }
    assert(runs_maximal(all2, t2, base)) by {
        reveal(runs_maximal);
        assert forall|k: int| 0 < k < all2.len() implies !joins(t2, #[trigger] all2[k].start - base) by {
            if k < all2.len() - 1 {
                assert(all2[k] == all[k]);
                assert(!joins(t, all[k].start - base));
                assert(all[k].start < all[k].end) by {
                    reveal(runs_tile);
                }
                assert(all[k - 1].start < all[k - 1].end && all[k - 1].end == all[k].start) by {
                    reveal(runs_tile);
                }
                assert(t2[all[k].start - base] == t[all[k].start - base]);
                assert(t2[all[k].start - base - 1] == t[all[k].start - base - 1]);
            }
        }
    }
}

/// The next prepared item joins the last run when it continues it.
proof fn lemma_merged_extend(
    all: Seq<DrawBatch>,
    t: Seq<(int, usize, BatchMeta)>,
    base: int,
    x: (int, usize, BatchMeta),
    nb: DrawBatch,
)
    requires
        merged(all, t, base),
        all.len() > 0,
        t.len() > 0,
        t.last().0 + 1 == x.0,
        all.last().meta == x.2,
        base + t.len() + 1 <= usize::MAX,
        nb == (DrawBatch { end: (base + t.len() + 1) as usize, ..all.last() }),
    ensures
        merged(all.drop_last().push(nb), t.push(x), base),
{
    let all2 = all.drop_last().push(nb);
    let t2 = t.push(x);
    let last = all.len() - 1;
    lemma_within(all, t, base);
    assert(all.len() > 0 <==> t.len() > 0) by {
        reveal(runs_tile);
    }
    assert(all[last].end == base + t.len() && all[last].start < all[last].end) by {
        reveal(runs_tile);
    }
    assert(t[t.len() - 1].2 == all[last].meta) by {
        reveal(runs_uniform);
    }
    assert(joins(t2, t.len() as int));
    assert forall|k: int| 0 <= k < all2.len() - 1 implies all2[k] == all[k] by {}
    assert(runs_within(all2, t2, base)) by {
        reveal(runs_within);
    }
    assert(runs_tile(all2, t2, base)) by {
        reveal(runs_tile);
        assert forall|k: int| 0 <= k < all2.len() - 1 implies #[trigger] all2[k].end == all2[k
            + 1].start by {
            assert(all[k].end == all[k + 1].start);
        }
        assert forall|k: int| 0 <= k < all2.len() implies #[trigger] all2[k].start < all2[k].end by {
            assert(all[k].start < all[k].end);
        }
    }
    assert(runs_headed(all2, t2, base)) by {
        reveal(runs_headed);
        assert forall|k: int| 0 <= k < all2.len() implies {
            &&& #[trigger] all2[k].item == t2[all2[k].start - base].0
            &&& all2[k].meta == t2[all2[k].start - base].2
        } by {
            assert(all[k].item == t[all[k].start - base].0);
            assert(all[k].start < all[k].end) by {
                reveal(runs_tile);
            }
        }
    }
    assert(runs_uniform(all2, t2, base)) by {
        reveal(runs_uniform);
        assert forall|k: int, j: int|
            0 <= k < all2.len() && all2[k].start - base <= j < all2[k].end - base implies #[trigger] t2[j].2
            == #[trigger] all2[k].meta by {
            if j < t.len() {
                assert(t2[j] == t[j]);
                assert(t[j].2 == all[k].meta);
            }
        }
    }
    assert(runs_joined(all2, t2, base)) by {
        reveal(runs_joined);
        assert forall|k: int, j: int|
            #![trigger joins(t2, j), all2[k]]
            0 <= k < all2.len() && all2[k].start - base < j < all2[k].end - base implies joins(
                t2,
                j,
            ) by {
            if j < t.len() {
                assert(joins(t, j));
                assert(t2[j] == t[j] && t2[j - 1] == t[j - 1]);
            }
        }
    }
    assert(runs_maximal(all2, t2, base)) by {
        reveal(runs_maximal);
        assert forall|k: int| 0 < k < all2.len() implies !joins(t2, #[trigger] all2[k].start - base) by {
            assert(!joins(t, all[k].start - base));
            assert(all[k].start < all[k].end) by {
                reveal(runs_tile);
            }
            assert(all[k - 1].start < all[k - 1].end && all[k - 1].end == all[k].start) by {
                reveal(runs_tile);
            }
            assert(t2[all[k].start - base] == t[all[k].start - base]);
            assert(t2[all[k].start - base - 1] == t[all[k].start - base - 1]);
        }
    }
}

/// Lays out the records of one shape kind for a sorted phase and merges its items into draw
/// calls.
///
/// Each item of this kind whose instance exists gets the next record of `buffer`, in phase order.
/// Adjacent such items with equal batch data share one draw call; any other item ends a run.
pub fn batch_and_prepare_render_phase<T: Copy>(
    items: &Vec<PhaseItem>,
    shape: ShapeKind,
    store: &ShapeInstances<T>,
    buffer: &mut InstanceBuffer<T>,
) -> (batches: Vec<DrawBatch>)
    requires
        old(buffer).records().len() + items@.len() < usize::MAX,
    ensures
        final(buffer).records() == old(buffer).records() + records_for(
            taken(items@, shape, store.instances()),
            store.instances(),
        ),
        final(buffer).capacity() == old(buffer).capacity(),
        merged(batches@, taken(items@, shape, store.instances()), old(buffer).records().len() as int),
{
    let ghost instances = store.instances();
    let ghost base = buffer.records().len() as int;
    let n = items.len();
    let mut batches: Vec<DrawBatch> = Vec::new();
    let mut open: Option<DrawBatch> = None;
    let mut i: usize = 0;
    proof {
        assert(items@.subrange(0, 0) =~= Seq::<PhaseItem>::empty());
        assert(merged(Seq::<DrawBatch>::empty(), Seq::empty(), base)) by {
            reveal(runs_within);
            reveal(runs_tile);
            reveal(runs_headed);
            reveal(runs_uniform);
            reveal(runs_joined);
            reveal(runs_maximal);
        }
        assert(records_for(Seq::<(int, usize, BatchMeta)>::empty(), instances) =~= Seq::empty());
        assert(buffer.records() =~= old(buffer).records() + Seq::empty());
    }
    while i < n
        invariant
            n == items@.len(),
            0 <= i <= n,
            instances == store.instances(),
            base == old(buffer).records().len(),
            base + n < usize::MAX,
            buffer.capacity() == old(buffer).capacity(),
            buffer.records() == old(buffer).records() + records_for(
                taken(items@.subrange(0, i as int), shape, instances),
                instances,
            ),
            merged(
                match open {
                    Some(b) => batches@.push(b),
                    None => batches@,
                },
                taken(items@.subrange(0, i as int), shape, instances),
                base,
            ),
            open is Some ==> i > 0 && takes(items@[i - 1], shape, instances.len()),
            open is None ==> i == 0 || !takes(items@[i - 1], shape, instances.len()),
        decreases n - i,
    {
        let ghost prev = items@.subrange(0, i as int);
        let ghost next = items@.subrange(0, i as int + 1);
        let ghost t = taken(prev, shape, instances);
        proof {
            assert(next.drop_last() =~= prev);
            lemma_taken_bounds(prev, shape, instances);
        }
        let item = items[i];
        if item.shape == shape && item.entity < store.len() {
            let instance = store.get(item.entity);
            let index = buffer.push(instance.data);
            let meta = BatchMeta {
                pipeline: item.pipeline,
                draw_function: item.draw_function,
                material: instance.material,
            };
            let ghost x = (i as int, item.entity, meta);
            proof {
                assert(taken(next, shape, instances) == t.push(x));
                assert(records_for(t.push(x), instances) =~= records_for(t, instances).push(
                    instance.data,
                ));
                assert(index == base + t.len()) by {
                    assert(buffer.records().len() == base + t.len() + 1);
                }
            }
            match open {
                Some(b) => {
                    if b.meta == meta {
                        let nb = DrawBatch { end: index + 1, ..b };
                        proof {
                            let all = batches@.push(b);
                            assert(t.len() > 0) by {
                                reveal(runs_tile);
                            }
                            assert(t.last().0 == i - 1) by {
                                assert(prev.drop_last() =~= items@.subrange(0, i - 1));
                                assert(prev.last() == items@[i - 1]);
                            }
                            lemma_merged_extend(all, t, base, x, nb);
                            assert(all.drop_last() =~= batches@);
                        }
                        open = Some(nb);
                    } else {
                        let nb = DrawBatch { item: i, start: index, end: index + 1, meta };
                        proof {
                            let all = batches@.push(b);
                            lemma_merged_start(all, t, base, x, nb);
                        }
                        batches.push(b);
                        open = Some(nb);
                    }
                },
                None => {
                    let nb = DrawBatch { item: i, start: index, end: index + 1, meta };
                    proof {
                        if t.len() > 0 {
                            assert(t.last().0 + 1 != i) by {
                                if t.last().0 == i - 1 {
                                    assert(takes(items@[i - 1], shape, instances.len()));
                                }
                            }
                        }
                        lemma_merged_start(batches@, t, base, x, nb);
                    }
                    open = Some(nb);
                },
            }
        } else {
            proof {
                assert(taken(next, shape, instances) == t);
            }
            match open {
                Some(b) => {
                    batches.push(b);
                },
                None => {},
            }
            open = None;
        }
        i += 1;
    }
    match open {
        Some(b) => {
            batches.push(b);
        },
        None => {},
    }
    assert(items@.subrange(0, n as int) =~= items@);
    batches
}

/// The instances of the records that the batches cover, batch after batch.
pub open spec fn covered_entities(
    batches: Seq<DrawBatch>,
    t: Seq<(int, usize, BatchMeta)>,
    base: int,
) -> Seq<usize>
    decreases batches.len(),
{
    if batches.len() == 0 {
        Seq::empty()
    } else {
        covered_entities(batches.drop_last(), t, base) + t.subrange(
            batches.last().start - base,
            batches.last().end - base,
        ).map_values(|x: (int, usize, BatchMeta)| x.1)
    }
}

proof fn lemma_covered_prefix(batches: Seq<DrawBatch>, t: Seq<(int, usize, BatchMeta)>, base: int)
    requires
        batches.len() > 0,
        batches[0].start == base,
        batches.last().end <= base + t.len(),
        forall|k: int|
            0 <= k < batches.len() ==> base <= #[trigger] batches[k].start && batches[k].end <= base
                + t.len(),
        forall|k: int| 0 <= k < batches.len() - 1 ==> #[trigger] batches[k].end == batches[k + 1].start,
        forall|k: int| 0 <= k < batches.len() ==> #[trigger] batches[k].start < batches[k].end,
    ensures
        covered_entities(batches, t, base) == t.subrange(0, batches.last().end - base).map_values(
            |x: (int, usize, BatchMeta)| x.1,
        ),
    decreases batches.len(),
{
    let f = |x: (int, usize, BatchMeta)| x.1;
    let last = batches.last();
    if batches.len() == 1 {
        assert(covered_entities(batches.drop_last(), t, base) =~= Seq::empty());
        assert(covered_entities(batches, t, base) =~= t.subrange(0, last.end - base).map_values(f));
    } else {
        let init = batches.drop_last();
        assert forall|k: int| 0 <= k < init.len() - 1 implies #[trigger] init[k].end == init[k
            + 1].start by {
            assert(batches[k].end == batches[k + 1].start);
        }
        assert forall|k: int| 0 <= k < init.len() implies #[trigger] init[k].start < init[k].end by {
            assert(batches[k].start < batches[k].end);
        }
        assert forall|k: int| 0 <= k < init.len() implies base <= #[trigger] init[k].start
            && init[k].end <= base + t.len() by {
            assert(base <= batches[k].start && batches[k].end <= base + t.len());
        }
        assert(init.last() == batches[batches.len() - 2]);
        assert(batches[batches.len() - 2].end == last.start);
        lemma_covered_prefix(init, t, base);
        let a = last.start - base;
        let b = last.end - base;
        assert(covered_entities(batches, t, base) == covered_entities(init, t, base)
            + t.subrange(a, b).map_values(f));
        assert(t.subrange(0, a).map_values(f) + t.subrange(a, b).map_values(f) =~= t.subrange(
            0,
            b,
        ).map_values(f));
    }
}

/// The record ranges of the draw calls, taken in order, cover the prepared items exactly in
/// their phase order: merging never reorders.
pub proof fn lemma_merge_keeps_order(
    batches: Seq<DrawBatch>,
    t: Seq<(int, usize, BatchMeta)>,
    base: int,
)
    requires
        merged(batches, t, base),
    ensures
        covered_entities(batches, t, base) == t.map_values(|x: (int, usize, BatchMeta)| x.1),
{
    reveal(runs_within);
    reveal(runs_tile);
    if batches.len() == 0 {
        assert(t.map_values(|x: (int, usize, BatchMeta)| x.1) =~= Seq::empty());
    } else {
        lemma_covered_prefix(batches, t, base);
        assert(t.subrange(0, t.len() as int) =~= t);
    }
}

proof fn lemma_within(batches: Seq<DrawBatch>, t: Seq<(int, usize, BatchMeta)>, base: int)
    requires
        runs_within(batches, t, base),
    ensures
        forall|k: int|
            0 <= k < batches.len() ==> base <= #[trigger] batches[k].start && batches[k].end <= base
                + t.len(),
{
    reveal(runs_within);
}

/// The draw calls cover only the records laid out for them: a record appended to the buffer
/// afterwards, such as the filler of a single-record frame, lies outside every range.
pub proof fn lemma_ranges_within(
    batches: Seq<DrawBatch>,
    t: Seq<(int, usize, BatchMeta)>,
    base: int,
    k: int,
)
    requires
        merged(batches, t, base),
        0 <= k < batches.len(),
    ensures
        base <= batches[k].start < batches[k].end <= base + t.len(),
{
    reveal(runs_within);
    reveal(runs_tile);
}

/// Prepared items that all follow one another with equal batch data are drawn by a single call.
pub proof fn lemma_one_run(batches: Seq<DrawBatch>, t: Seq<(int, usize, BatchMeta)>, base: int)
    requires
        merged(batches, t, base),
        forall|j: int| 0 < j < t.len() ==> #[trigger] joins(t, j),
    ensures
        batches.len() == (if t.len() == 0 {
            0int
        } else {
            1int
        }),
{
    reveal(runs_tile);
    reveal(runs_maximal);
    reveal(runs_within);
    if batches.len() >= 2 {
        assert(batches[0].end == batches[1].start);
        assert(batches[0].start < batches[0].end);
        assert(batches[1].start < batches[1].end);
        assert(base <= batches[0].start);
        assert(batches[1].end <= base + t.len());
        assert(!joins(t, batches[1].start - base));
        assert(joins(t, batches[1].start - base));
    }
}

/// Padding after layout is invisible: every record that a draw call covers is the same before
/// and after a filler record is appended.
pub proof fn lemma_padding_invisible<T>(
    batches: Seq<DrawBatch>,
    t: Seq<(int, usize, BatchMeta)>,
    base: int,
    laid_out: Seq<T>,
    filler: T,
    k: int,
    j: int,
)
    requires
        merged(batches, t, base),
        base + t.len() == laid_out.len(),
        0 <= k < batches.len(),
        batches[k].start <= j < batches[k].end,
    ensures
        j < laid_out.len(),
        laid_out.push(filler)[j] == laid_out[j],
{
    lemma_ranges_within(batches, t, base, k);
}

} // verus!
