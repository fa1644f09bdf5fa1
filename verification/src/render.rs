//! The render consumer: what a renderer offers to the frame, and what a frame
//! hands to it.

use vstd::prelude::*;
use crate::identity::Identifyable;
use crate::scene::SceneGraph;

verus! {

/// How meshes are rasterized.
#[derive(Clone, Copy, Debug, PartialEq, Eq, Structural)]
pub enum DrawMode {
    /// Filled triangles.
    Colored,
    /// Vertices only.
    Points,
    /// Edges only.
    Wireframe,
}

/// What consumes the scene graphs of a frame: a renderer is handed each queued
/// layer, and then asked to present what it was handed.
///
/// The two operations of a frame come with a relation each that says what one
/// call may do to the renderer. A renderer that overrides neither promises
/// nothing.
pub trait Renderer<X, R>: Identifyable + Sized {
    /// Taking in `layer` may leave the renderer at `after`.
    open spec fn takes_in(&self, layer: SceneGraph<X, R>, after: &Self) -> bool {
        true
    }

    /// Presenting may leave the renderer at `after`.
    open spec fn presents(&self, after: &Self) -> bool {
        true
    }

    /// Prepares the renderer for use.
    fn load(&mut self);

    /// Lets go of what the renderer has built up, such as cached buffers.
    fn unload(&mut self);

    /// Takes in a scene graph for the current frame.
    fn queue_render_layer(&mut self, layer: &SceneGraph<X, R>)
        ensures
            old(self).takes_in(*layer, final(self)),
    ;

    /// Draws what was taken in since the last call and shows the frame.
    fn present(&mut self)
        ensures
            old(self).presents(final(self)),
    ;
}

/// The renderer takes in `layers` one after the other, which leads it from
/// `before` to `after`.
pub open spec fn handed_over<X, R, Rn: Renderer<X, R>>(
    before: Rn,
    layers: Seq<SceneGraph<X, R>>,
    after: Rn,
) -> bool
    decreases layers.len(),
{
    if layers.len() == 0 {
        after == before
    } else {
        exists|mid: Rn|
            handed_over(before, layers.drop_last(), mid) && mid.takes_in(layers.last(), &after)
    }
}

/// The entries of the queue that name one of `count` layers, in order.
pub open spec fn existing(queued: Seq<usize>, count: nat) -> Seq<usize>
    decreases queued.len(),
{
    if queued.len() == 0 {
        Seq::empty()
    } else if queued.last() < count {
        existing(queued.drop_last(), count).push(queued.last())
    } else {
        existing(queued.drop_last(), count)
    }
}

/// What a frame hands to the renderer: for each queued layer, in the order of
/// the queue, what a pass with `delta` makes of the layer.
pub open spec fn frame_of<X, R, F: Fn(&X, &X) -> X>(
    layers: Seq<SceneGraph<X, R>>,
    queued: Seq<usize>,
    compose: &F,
    delta: X,
    handed: Seq<SceneGraph<X, R>>,
) -> bool {
    &&& handed.len() == existing(queued, layers.len()).len()
    &&& forall|j: int|
        0 <= j < handed.len() ==> layers[existing(queued, layers.len())[j] as int].passed(
            #[trigger] handed[j],
            compose,
            delta,
        )
}

} // verus!
