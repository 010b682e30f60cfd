use vstd::prelude::*;

use crate::material::{ShapePipelineMaterial, ShapePipelineType};

verus! {

/// What the batching needs to know of a camera or canvas view.
#[derive(Debug, Clone, Copy, PartialEq, Eq, Structural)]
pub struct ViewInfo {
    pub id: u64,
    /// `None` when the view has no layer mask: it then sees every layer.
    pub render_layers: Option<u32>,
    pub msaa_samples: u32,
    pub hdr: bool,
}

/// Two layer masks share at least one layer.
pub open spec fn layers_intersect(a: u32, b: u32) -> bool {
    a & b != 0
}

/// Whether two layer masks share a layer.
pub fn intersects(a: u32, b: u32) -> (r: bool)
    ensures
        r == layers_intersect(a, b),
{
    a & b != 0
}

/// A view sees a material by its layers: it has no mask, or its mask meets the material's.
pub open spec fn layers_match(view: ViewInfo, m: ShapePipelineMaterial) -> bool {
    match view.render_layers {
        None => true,
        Some(layers) => layers_intersect(layers, m.render_layers),
    }
}

/// Whether a material is drawn to a view: only its canvas if it has one, else every view
/// whose layers match.
pub open spec fn visible_to(m: ShapePipelineMaterial, view: ViewInfo) -> bool {
    match m.canvas {
        Some(c) => view.id == c,
        None => layers_match(view, m),
    }
}

/// Identifiers of the views whose layers match a material, in order.
pub open spec fn layer_matches(m: ShapePipelineMaterial, views: Seq<ViewInfo>) -> Seq<u64>
    decreases views.len(),
{
    if views.len() == 0 {
        Seq::empty()
    } else {
        let rest = layer_matches(m, views.drop_last());
        if layers_match(views.last(), m) {
            rest.push(views.last().id)
        } else {
            rest
        }
    }
}

/// Some view of the list has this identifier.
pub open spec fn has_view(views: Seq<ViewInfo>, id: u64) -> bool {
    exists|i: int| 0 <= i < views.len() && #[trigger] views[i].id == id
}

/// The views a material is drawn to: its canvas alone if that view exists (none if it does
/// not), else the views whose layers match.
pub open spec fn visible_views(m: ShapePipelineMaterial, views: Seq<ViewInfo>) -> Seq<u64> {
    match m.canvas {
        Some(c) => if has_view(views, c) {
            seq![c]
        } else {
            Seq::empty()
        },
        None => layer_matches(m, views),
    }
}

/// Whether a material is drawn to the given view.
pub fn is_visible_to(m: &ShapePipelineMaterial, view: &ViewInfo) -> (r: bool)
    ensures
        r == visible_to(*m, *view),
{
    match m.canvas {
        Some(c) => view.id == c,
        None => match view.render_layers {
            None => true,
            Some(layers) => intersects(layers, m.render_layers),
        },
    }
}

/// Lists the views among `views` that a material is drawn to.
pub fn resolve_visibility(m: &ShapePipelineMaterial, views: &Vec<ViewInfo>) -> (r: Vec<u64>)
    ensures
        r@ == visible_views(*m, views@),
{
    let mut r: Vec<u64> = Vec::new();
    match m.canvas {
        Some(c) => {
            let mut i: usize = 0;
            while i < views.len()
                invariant
                    0 <= i <= views@.len(),
                    m.canvas == Some(c),
                    r@ == Seq::<u64>::empty(),
                    forall|j: int| 0 <= j < i ==> views@[j].id != c,
                decreases views@.len() - i,
            {
                if views[i].id == c {
                    r.push(c);
                    assert(has_view(views@, c));
                    assert(r@ =~= seq![c]);
                    return r;
                }
                i += 1;
            }
            assert(!has_view(views@, c));
            r
        },
        None => {
            let mut i: usize = 0;
            while i < views.len()
                invariant
                    0 <= i <= views@.len(),
                    m.canvas is None,
                    r@ == layer_matches(*m, views@.subrange(0, i as int)),
                decreases views@.len() - i,
            {
                let ghost prefix = views@.subrange(0, i as int + 1);
                assert(prefix.drop_last() =~= views@.subrange(0, i as int));
                let view = &views[i];
                let keep = match view.render_layers {
                    None => true,
                    Some(layers) => intersects(layers, m.render_layers),
                };
                if keep {
                    r.push(view.id);
                }
                i += 1;
            }
            assert(views@.subrange(0, views@.len() as int) =~= views@);
            r
        },
    }
}

/// A material with a canvas is drawn to that canvas and nowhere else, whatever its layers:
/// exactly once if the canvas is among the views, not at all otherwise.
pub proof fn lemma_canvas_exclusive(m: ShapePipelineMaterial, views: Seq<ViewInfo>, c: u64)
    requires
        m.canvas == Some(c),
    ensures
        has_view(views, c) ==> visible_views(m, views) == seq![c],
        !has_view(views, c) ==> visible_views(m, views).len() == 0,
        forall|id: u64| #[trigger] visible_views(m, views).contains(id) ==> id == c,
{
    if has_view(views, c) {
        assert(forall|id: u64| #[trigger] seq![c].contains(id) ==> id == c) by {
            assert forall|id: u64| #[trigger] seq![c].contains(id) implies id == c by {
                let k = choose|k: int| 0 <= k < seq![c].len() && seq![c][k] == id;
                assert(k == 0);
            }
        }
    }
}

/// Without a canvas, a view is among those a material is drawn to exactly when the view has no
/// layer mask or its mask shares a layer with the material's.
pub proof fn lemma_layer_visibility(m: ShapePipelineMaterial, views: Seq<ViewInfo>, id: u64)
    requires
        m.canvas is None,
    ensures
        visible_views(m, views).contains(id) <==> exists|i: int|
            0 <= i < views.len() && #[trigger] views[i].id == id && layers_match(views[i], m),
    decreases views.len(),
{
    if views.len() > 0 {
        let rest = views.drop_last();
        lemma_layer_visibility(m, rest, id);
        let r = layer_matches(m, views);
        let rr = layer_matches(m, rest);
        if r.contains(id) {
            let k = choose|k: int| 0 <= k < r.len() && r[k] == id;
            if k < rr.len() {
                assert(rr.contains(id));
                let i = choose|i: int|
                    0 <= i < rest.len() && #[trigger] rest[i].id == id && layers_match(rest[i], m);
                assert(views[i] == rest[i]);
            } else {
                let i = views.len() - 1;
                assert(views[i].id == id && layers_match(views[i], m));
            }
        }
        if exists|i: int|
            0 <= i < views.len() && #[trigger] views[i].id == id && layers_match(views[i], m) {
            let i = choose|i: int|
                0 <= i < views.len() && #[trigger] views[i].id == id && layers_match(views[i], m);
            if i < views.len() - 1 {
                assert(rest[i] == views[i]);
                assert(rr.contains(id));
                let k = choose|k: int| 0 <= k < rr.len() && rr[k] == id;
                assert(r[k] == id);
            } else {
                assert(r[r.len() - 1] == id);
            }
        }
    }
}

/// A view without a layer mask is drawn to by every material that has no canvas.
pub proof fn lemma_unmasked_view_sees_all(m: ShapePipelineMaterial, view: ViewInfo)
    requires
        m.canvas is None,
        view.render_layers is None,
    ensures
        visible_to(m, view),
{
}

/// The pipeline a material asks for differs from the one being prepared: a caller's
/// configuration mistake, reported rather than acted on.
pub fn selector_mismatch(m: &ShapePipelineMaterial, pipeline: ShapePipelineType) -> (r: bool)
    ensures
        r == (m.pipeline != pipeline),
{
    m.pipeline != pipeline
}

} // verus!
