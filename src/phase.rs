use vstd::prelude::*;

use crate::material::{ShapeAlphaMode, ShapePipelineMaterial, ShapePipelineType};
use crate::pipeline::ShapeKind;

verus! {

/// The render phase a shape is drawn in.
#[derive(Debug, Clone, Copy, PartialEq, Eq, Structural)]
pub enum RenderPhaseKind {
    /// 3D opaque shapes, drawn front to back.
    Opaque,
    /// 3D alpha-masked shapes, drawn front to back.
    AlphaMask,
    /// Blended shapes, and every 2D shape, drawn back to front.
    Transparent,
}

/// The phase of a material in a pipeline: the 2D pipeline has only the transparent phase; the
/// 3D pipeline routes opaque and masked materials to phases of their own.
pub open spec fn phase_of(m: ShapePipelineMaterial, pipeline: ShapePipelineType) -> RenderPhaseKind {
    if pipeline == ShapePipelineType::Shape2d {
        RenderPhaseKind::Transparent
    } else {
        match m.alpha_mode {
            ShapeAlphaMode::Opaque => RenderPhaseKind::Opaque,
            ShapeAlphaMode::Mask => RenderPhaseKind::AlphaMask,
            _ => RenderPhaseKind::Transparent,
        }
    }
}

/// The sort key of a shape with depth key `depth`: the depth key itself in the transparent
/// phase (ascending depth, back to front), its complement in the opaque and masked phases
/// (descending depth, front to back).
pub open spec fn ordered_key(phase: RenderPhaseKind, depth: u32) -> u32 {
    if phase == RenderPhaseKind::Transparent {
        depth
    } else {
        !depth
    }
}

/// The phase a material is drawn in by a pipeline.
pub fn phase_for(m: &ShapePipelineMaterial, pipeline: ShapePipelineType) -> (r: RenderPhaseKind)
    ensures
        r == phase_of(*m, pipeline),
{
    match pipeline {
        ShapePipelineType::Shape2d => RenderPhaseKind::Transparent,
        ShapePipelineType::Shape3d => match m.alpha_mode {
            ShapeAlphaMode::Opaque => RenderPhaseKind::Opaque,
            ShapeAlphaMode::Mask => RenderPhaseKind::AlphaMask,
            _ => RenderPhaseKind::Transparent,
        },
    }
}

/// The sort key of a shape in a phase, from its depth key.
pub fn order_key(phase: RenderPhaseKind, depth: u32) -> (r: u32)
    ensures
        r == ordered_key(phase, depth),
{
    match phase {
        RenderPhaseKind::Transparent => depth,
        _ => !depth,
    }
}

/// In the opaque and masked phases, ascending sort keys mean descending depth keys: those
/// phases are drawn front to back. In the transparent phase the order of the keys is that of
/// the depths.
pub proof fn lemma_phase_order(phase: RenderPhaseKind, a: u32, b: u32)
    ensures
        phase == RenderPhaseKind::Transparent ==> (ordered_key(phase, a) <= ordered_key(phase, b)
            <==> a <= b),
        phase != RenderPhaseKind::Transparent ==> (ordered_key(phase, a) <= ordered_key(phase, b)
            <==> b <= a),
{
    assert((!a <= !b) == (b <= a)) by (bit_vector);
}

/// One shape instance queued for drawing in a view's render phase.
#[derive(Debug, Clone, Copy, PartialEq, Eq, Structural)]
pub struct PhaseItem {
    pub shape: ShapeKind,
    pub phase: RenderPhaseKind,
    /// Index of the instance in its shape kind's store.
    pub entity: usize,
    /// Identifier of the specialised pipeline.
    pub pipeline: usize,
    pub draw_function: u32,
    /// Ascending draw order.
    pub sort_key: u32,
}

/// The order key of a 32-bit float given by its bit pattern: negative values have every bit
/// flipped, others only the sign bit, so that unsigned comparison follows the numeric order.
pub open spec fn float_order_key(bits: u32) -> u32 {
    if bits & 0x8000_0000 != 0 {
        !bits
    } else {
        bits | 0x8000_0000
    }
}

/// The value of a 32-bit sign-and-magnitude pattern: the low 31 bits, negated when the top bit
/// is set. For floats other than NaN, patterns order as the floats they encode do.
pub open spec fn sign_magnitude(bits: u32) -> int {
    if bits & 0x8000_0000 != 0 {
        -((bits & 0x7FFF_FFFF) as int)
    } else {
        (bits & 0x7FFF_FFFF) as int
    }
}

proof fn lemma_order_key_value(x: u32)
    ensures
        x & 0x8000_0000 != 0 ==> float_order_key(x) == 0x7FFF_FFFF - (x & 0x7FFF_FFFF),
        x & 0x8000_0000 == 0 ==> float_order_key(x) == 0x8000_0000 + (x & 0x7FFF_FFFF),
        x & 0x7FFF_FFFF <= 0x7FFF_FFFF,
{
    assert({
        &&& x & 0x8000_0000u32 != 0 ==> !x == 0x7FFF_FFFFu32 - (x & 0x7FFF_FFFFu32)
        &&& x & 0x8000_0000u32 == 0 ==> x | 0x8000_0000u32 == 0x8000_0000u32 + (x & 0x7FFF_FFFFu32)
        &&& x & 0x7FFF_FFFFu32 <= 0x7FFF_FFFFu32
    }) by (bit_vector);
}

/// The order key follows the sign-and-magnitude value of the bits: a smaller value gets a
/// smaller key, and a key no larger never belongs to a larger value. Only the two zeros, of equal
/// value, get different keys.
pub proof fn lemma_float_order_key_monotone(a: u32, b: u32)
    ensures
        sign_magnitude(a) < sign_magnitude(b) ==> float_order_key(a) < float_order_key(b),
        float_order_key(a) <= float_order_key(b) ==> sign_magnitude(a) <= sign_magnitude(b),
        sign_magnitude(a) == sign_magnitude(b) && float_order_key(a) != float_order_key(b) ==> (
        a & 0x7FFF_FFFF == 0 && b & 0x7FFF_FFFF == 0),
{
    lemma_order_key_value(a);
    lemma_order_key_value(b);
}

/// Sort key of a depth given as the bit pattern of a 32-bit float.
pub fn depth_sort_key(bits: u32) -> (r: u32)
    ensures
        r == float_order_key(bits),
{
    if bits & 0x8000_0000 != 0 {
        !bits
    } else {
        bits | 0x8000_0000
    }
}

/// Item `x` is drawn before item `y`: a smaller key, or an equal key and an earlier position.
pub open spec fn drawn_before(items: Seq<PhaseItem>, x: int, y: int) -> bool {
    items[x].sort_key < items[y].sort_key || (items[x].sort_key == items[y].sort_key && x < y)
}

/// `sorted` holds the items of `items` in drawing order, with `perm` giving for each position
/// the index it came from.
pub open spec fn sorted_by(items: Seq<PhaseItem>, sorted: Seq<PhaseItem>, perm: Seq<int>) -> bool {
    &&& perm.len() == items.len()
    &&& sorted.len() == items.len()
    &&& forall|j: int|
        0 <= j < perm.len() ==> 0 <= #[trigger] perm[j] < items.len() && sorted[j]
            == items[perm[j]]
    &&& forall|x: int| 0 <= x < items.len() ==> #[trigger] perm.contains(x)
    &&& forall|a: int, b: int|
        0 <= a < b < perm.len() ==> drawn_before(items, #[trigger] perm[a], #[trigger] perm[b])
}

/// `sorted` is the stable ascending sort of `items` by key.
pub open spec fn stably_sorted(items: Seq<PhaseItem>, sorted: Seq<PhaseItem>) -> bool {
    exists|perm: Seq<int>| sorted_by(items, sorted, perm)
}

/// Sorts phase items by ascending key, keeping the queued order among equal keys.
pub fn sort_phase_items(items: &Vec<PhaseItem>) -> (r: Vec<PhaseItem>)
    ensures
        r@.len() == items@.len(),
        stably_sorted(items@, r@),
{
    let n = items.len();
    let mut r: Vec<PhaseItem> = Vec::new();
    let ghost mut perm: Seq<int> = Seq::empty();
    let mut i: usize = 0;
    while i < n
        invariant
            n == items@.len(),
            0 <= i <= n,
            perm.len() == i,
            r@.len() == i,
            forall|j: int| 0 <= j < i ==> 0 <= #[trigger] perm[j] < i && r@[j] == items@[perm[j]],
            forall|x: int| 0 <= x < i ==> #[trigger] perm.contains(x),
            forall|a: int, b: int|
                0 <= a < b < i ==> drawn_before(items@, #[trigger] perm[a], #[trigger] perm[b]),
        decreases n - i,
    {
        let item = items[i];
        let mut p: usize = r.len();
        while p > 0 && r[p - 1].sort_key > item.sort_key
            invariant
                0 <= p <= i,
                r@.len() == i,
                item == items@[i as int],
                forall|q: int| p <= q < i ==> #[trigger] r@[q].sort_key > item.sort_key,
            decreases p,
        {
            p -= 1;
        }
        proof {
            assert forall|q: int| 0 <= q < p implies #[trigger] r@[q].sort_key <= item.sort_key by {
                if q < p - 1 {
                    assert(drawn_before(items@, perm[q], perm[p - 1]));
                }
            }
        }
        r.insert(p, item);
        proof {
            let old_perm = perm;
            perm = old_perm.insert(p as int, i as int);
            assert forall|j: int| 0 <= j < i + 1 implies 0 <= #[trigger] perm[j] < i + 1 && r@[j]
                == items@[perm[j]] by {
                if j < p {
                    assert(perm[j] == old_perm[j]);
                } else if j > p {
                    assert(perm[j] == old_perm[j - 1]);
                }
            }
            assert forall|x: int| 0 <= x < i + 1 implies #[trigger] perm.contains(x) by {
                if x == i {
                    assert(perm[p as int] == x);
                } else {
                    assert(old_perm.contains(x));
                    let j = choose|j: int| 0 <= j < old_perm.len() && old_perm[j] == x;
                    if j < p {
                        assert(perm[j] == x);
                    } else {
                        assert(perm[j + 1] == x);
                    }
                }
            }
            assert forall|a: int, b: int| 0 <= a < b < i + 1 implies drawn_before(
                items@,
                #[trigger] perm[a],
                #[trigger] perm[b],
            ) by {
                if b < p {
                    assert(drawn_before(items@, old_perm[a], old_perm[b]));
                } else if a > p {
                    assert(drawn_before(items@, old_perm[a - 1], old_perm[b - 1]));
                } else if a < p && b > p {
                    assert(drawn_before(items@, old_perm[a], old_perm[b - 1]));
                } else if a == p {
                    assert(r@[b].sort_key > item.sort_key);
                } else {
                    assert(r@[a].sort_key <= item.sort_key);
                    assert(old_perm[a] < i);
                }
            }
        }
        i += 1;
    }
    assert(sorted_by(items@, r@, perm));
    r
}

/// Two sequences of positions, each strictly ordered by drawing order and listing the same
/// positions, are equal.
proof fn lemma_ordered_positions_unique(items: Seq<PhaseItem>, s1: Seq<int>, s2: Seq<int>)
    requires
        forall|j: int| 0 <= j < s1.len() ==> 0 <= #[trigger] s1[j] < items.len(),
        forall|j: int| 0 <= j < s2.len() ==> 0 <= #[trigger] s2[j] < items.len(),
        forall|a: int, b: int|
            0 <= a < b < s1.len() ==> drawn_before(items, #[trigger] s1[a], #[trigger] s1[b]),
        forall|a: int, b: int|
            0 <= a < b < s2.len() ==> drawn_before(items, #[trigger] s2[a], #[trigger] s2[b]),
        forall|x: int| #[trigger] s1.contains(x) <==> s2.contains(x),
    ensures
        s1 == s2,
    decreases s1.len(),
{
    if s1.len() == 0 {
        if s2.len() > 0 {
            assert(s2.contains(s2[0]));
            assert(s1.contains(s2[0]));
            assert(false);
        }
        assert(s1 =~= s2);
    } else {
        assert(s1.contains(s1[0]));
        assert(s2.contains(s1[0]));
        let j = choose|j: int| 0 <= j < s2.len() && s2[j] == s1[0];
        assert(s2.contains(s2[0]));
        assert(s2.contains(s2[0]) ==> s1.contains(s2[0]));
        assert(s1.contains(s2[0]));
        let i = choose|i: int| 0 <= i < s1.len() && s1[i] == s2[0];
        if j > 0 {
            assert(drawn_before(items, s2[0], s2[j]));
            if i > 0 {
                assert(drawn_before(items, s1[0], s1[i]));
            }
        }
        assert(s1[0] == s2[0]);
        let t1 = s1.drop_first();
        let t2 = s2.drop_first();
        assert forall|x: int| #[trigger] t1.contains(x) <==> t2.contains(x) by {
            if t1.contains(x) {
                let k = choose|k: int| 0 <= k < t1.len() && t1[k] == x;
                assert(s1[k + 1] == x);
                assert(drawn_before(items, s1[0], s1[k + 1]));
                assert(s1.contains(x));
                let m = choose|m: int| 0 <= m < s2.len() && s2[m] == x;
                assert(m != 0);
                assert(t2[m - 1] == x);
            }
            if t2.contains(x) {
                let k = choose|k: int| 0 <= k < t2.len() && t2[k] == x;
                assert(s2[k + 1] == x);
                assert(drawn_before(items, s2[0], s2[k + 1]));
                assert(s2.contains(x));
                assert(s2.contains(x) ==> s1.contains(x));
                assert(s1.contains(x));
                let m = choose|m: int| 0 <= m < s1.len() && s1[m] == x;
                assert(m != 0);
                assert(t1[m - 1] == x);
            }
        }
        assert forall|a: int, b: int| 0 <= a < b < t1.len() implies drawn_before(
            items,
            #[trigger] t1[a],
            #[trigger] t1[b],
        ) by {
            assert(drawn_before(items, s1[a + 1], s1[b + 1]));
        }
        assert forall|a: int, b: int| 0 <= a < b < t2.len() implies drawn_before(
            items,
            #[trigger] t2[a],
            #[trigger] t2[b],
        ) by {
            assert(drawn_before(items, s2[a + 1], s2[b + 1]));
        }
        assert forall|j: int| 0 <= j < t1.len() implies 0 <= #[trigger] t1[j] < items.len() by {
            assert(t1[j] == s1[j + 1]);
        }
        assert forall|j: int| 0 <= j < t2.len() implies 0 <= #[trigger] t2[j] < items.len() by {
            assert(t2[j] == s2[j + 1]);
        }
        lemma_ordered_positions_unique(items, t1, t2);
        assert(s1 =~= seq![s1[0]] + t1);
        assert(s2 =~= seq![s2[0]] + t2);
    }
}

/// Sorting the same items twice gives the same order both times.
pub proof fn lemma_sort_deterministic(items: Seq<PhaseItem>, r1: Seq<PhaseItem>, r2: Seq<PhaseItem>)
    requires
        stably_sorted(items, r1),
        stably_sorted(items, r2),
    ensures
        r1 == r2,
{
    let p1 = choose|p: Seq<int>| sorted_by(items, r1, p);
    let p2 = choose|p: Seq<int>| sorted_by(items, r2, p);
    assert forall|x: int| #[trigger] p1.contains(x) <==> p2.contains(x) by {
        if p1.contains(x) {
            let j = choose|j: int| 0 <= j < p1.len() && p1[j] == x;
            assert(0 <= p1[j] < items.len());
        }
        if p2.contains(x) {
            let j = choose|j: int| 0 <= j < p2.len() && p2[j] == x;
            assert(0 <= p2[j] < items.len());
        }
    }
    lemma_ordered_positions_unique(items, p1, p2);
    assert forall|j: int| 0 <= j < r1.len() implies r1[j] == r2[j] by {
        assert(r1[j] == items[p1[j]]);
        assert(r2[j] == items[p2[j]]);
    }
    assert(r1 =~= r2);
}

/// A sorted phase lists its keys in ascending order.
pub proof fn lemma_sorted_ascending(items: Seq<PhaseItem>, sorted: Seq<PhaseItem>, a: int, b: int)
    requires
        stably_sorted(items, sorted),
        0 <= a < b < sorted.len(),
    ensures
        sorted[a].sort_key <= sorted[b].sort_key,
{
    let p = choose|p: Seq<int>| sorted_by(items, sorted, p);
    assert(drawn_before(items, p[a], p[b]));
}

} // verus!
