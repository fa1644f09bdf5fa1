//! The shared state: the one container that every module is lent each frame.
//!
//! It holds the source of identities, the entities of the world, what is to be
//! rendered, the input that is waiting to be consumed, and what the user
//! interface keeps between frames. Nothing in it is global: a second state is
//! a second, independent world.

use vstd::prelude::*;
use std::collections::VecDeque;
use crate::identity::{Identity, IdentitySource};
use crate::input::events::InputEvent;
use crate::input::InputSource;
use crate::render::{frame_of, handed_over, DrawMode, Renderer};
use crate::scene::SceneGraph;

verus! {

/// A window that the renderer is to open.
pub struct Window {
    /// The identity under which the window's events arrive.
    pub id: Identity,
    /// Width in pixels.
    pub width: u32,
    /// Height in pixels.
    pub height: u32,
    /// What the title bar says.
    pub title: String,
}

/// Everything that is to be rendered: the windows, the scene graphs, and
/// which of the graphs are queued for the current frame.
pub struct RenderState<X, R> {
    windows: Vec<Window>,
    layers: Vec<SceneGraph<X, R>>,
    queue: VecDeque<usize>,
    draw_mode: DrawMode,
}

/// The input that arrived and was not consumed yet.
pub struct InputState {
    pending_input_events: VecDeque<InputEvent>,
}

/// What the user interface keeps between frames.
pub struct UIState {
    focus: Option<Identity>,
}

/// The entities of the world, by identity, in the order they came to be.
pub struct World {
    things: Vec<Identity>,
}

/// The state that is passed to every module during the frame loop.
pub struct State<X, R> {
    identities: IdentitySource,
    world: World,
    render_state: RenderState<X, R>,
    input_state: InputState,
    ui_state: UIState,
}

impl<X, R> State<X, R> {
    /// How many identities this state has handed out.
    pub closed spec fn issued(&self) -> nat {
        self.identities.issued()
    }

    /// The entities of the world.
    pub closed spec fn things(&self) -> Seq<Identity> {
        self.world.things@
    }

    /// The windows that were asked for.
    pub closed spec fn windows(&self) -> Seq<Window> {
        self.render_state.windows@
    }

    /// The scene graphs, by layer.
    pub closed spec fn layers(&self) -> Seq<SceneGraph<X, R>> {
        self.render_state.layers@
    }

    /// The layers queued for rendering, next first.
    pub closed spec fn queued_layers(&self) -> Seq<usize> {
        self.render_state.queue@
    }

    /// How meshes are rasterized.
    pub closed spec fn draw_mode(&self) -> DrawMode {
        self.render_state.draw_mode
    }

    /// The input events waiting to be consumed, oldest first.
    pub closed spec fn pending_input_events(&self) -> Seq<InputEvent> {
        self.input_state.pending_input_events@
    }

    /// The window that the user interface takes to have the focus, if any.
    pub closed spec fn focus(&self) -> Option<Identity> {
        self.ui_state.focus
    }

    /// A new, empty state: no entities, no windows, no layers, no input, and
    /// no identity handed out yet.
    pub fn new() -> (state: Self)
        ensures
            state.issued() == 0,
            state.things() == Seq::<Identity>::empty(),
            state.windows() == Seq::<Window>::empty(),
            state.layers() == Seq::<SceneGraph<X, R>>::empty(),
            state.queued_layers() == Seq::<usize>::empty(),
            state.draw_mode() == DrawMode::Colored,
            state.pending_input_events() == Seq::<InputEvent>::empty(),
            state.focus() is None,
    {
        State {
            identities: IdentitySource::new(),
            world: World { things: Vec::new() },
            render_state: RenderState {
                windows: Vec::new(),
                layers: Vec::new(),
                queue: VecDeque::new(),
                draw_mode: DrawMode::Colored,
            },
            input_state: InputState { pending_input_events: VecDeque::new() },
            ui_state: UIState { focus: None },
        }
    }

    /// Hands out the next identity of this state: the smallest number that it
    /// has not handed out before. `None` once none is left.
    pub fn create_next_identity(&mut self) -> (id: Option<Identity>)
        ensures
            match id {
                Some(id) => {
                    &&& id == old(self).issued()
                    &&& final(self).issued() == old(self).issued() + 1
                },
                None => {
                    &&& old(self).issued() == u64::MAX
                    &&& final(self).issued() == old(self).issued()
                },
            },
            id is Some <==> old(self).issued() < u64::MAX,
            final(self).things() == old(self).things(),
            final(self).windows() == old(self).windows(),
            final(self).layers() == old(self).layers(),
            final(self).queued_layers() == old(self).queued_layers(),
            final(self).draw_mode() == old(self).draw_mode(),
            final(self).focus() == old(self).focus(),
            final(self).pending_input_events() == old(self).pending_input_events(),
    {
        self.identities.create_next_identity()
    }

    /// Adds an entity to the world and returns its fresh identity. `None`,
    /// and no entity, once no identity is left.
    pub fn add_thing(&mut self) -> (id: Option<Identity>)
        ensures
            match id {
                Some(id) => {
                    &&& id == old(self).issued()
                    &&& final(self).issued() == old(self).issued() + 1
                    &&& final(self).things() == old(self).things().push(id)
                },
                None => {
                    &&& old(self).issued() == u64::MAX
                    &&& final(self).issued() == old(self).issued()
                    &&& final(self).things() == old(self).things()
                },
            },
            id is Some <==> old(self).issued() < u64::MAX,
            final(self).windows() == old(self).windows(),
            final(self).layers() == old(self).layers(),
            final(self).queued_layers() == old(self).queued_layers(),
            final(self).draw_mode() == old(self).draw_mode(),
            final(self).focus() == old(self).focus(),
            final(self).pending_input_events() == old(self).pending_input_events(),
    {
        match self.identities.create_next_identity() {
            Some(id) => {
                self.world.things.push(id);
                Some(id)
            },
            None => None,
        }
    }

    /// Asks for a window of the given size and title and returns the fresh
    /// identity under which its events will arrive. `None`, and no window,
    /// once no identity is left.
    pub fn add_window(&mut self, width: u32, height: u32, title: String) -> (id: Option<Identity>)
        ensures
            match id {
                Some(id) => {
                    &&& id == old(self).issued()
                    &&& final(self).issued() == old(self).issued() + 1
                    &&& final(self).windows() == old(self).windows().push(
                        Window { id, width, height, title },
                    )
                },
                None => {
                    &&& old(self).issued() == u64::MAX
                    &&& final(self).issued() == old(self).issued()
                    &&& final(self).windows() == old(self).windows()
                },
            },
            id is Some <==> old(self).issued() < u64::MAX,
            final(self).things() == old(self).things(),
            final(self).layers() == old(self).layers(),
            final(self).queued_layers() == old(self).queued_layers(),
            final(self).draw_mode() == old(self).draw_mode(),
            final(self).focus() == old(self).focus(),
            final(self).pending_input_events() == old(self).pending_input_events(),
    {
        match self.identities.create_next_identity() {
            Some(id) => {
                self.render_state.windows.push(Window { id, width, height, title });
                Some(id)
            },
            None => None,
        }
    }

    /// The windows that were asked for, in order.
    pub fn get_windows(&self) -> (windows: &Vec<Window>)
        ensures
            windows@ == self.windows(),
    {
        &self.render_state.windows
    }

    /// How meshes are rasterized.
    pub fn get_draw_mode(&self) -> (mode: DrawMode)
        ensures
            mode == self.draw_mode(),
    {
        self.render_state.draw_mode
    }

    /// Chooses how meshes are rasterized.
    pub fn set_draw_mode(&mut self, mode: DrawMode)
        ensures
            final(self).draw_mode() == mode,
            final(self).focus() == old(self).focus(),
            final(self).issued() == old(self).issued(),
            final(self).things() == old(self).things(),
            final(self).windows() == old(self).windows(),
            final(self).layers() == old(self).layers(),
            final(self).queued_layers() == old(self).queued_layers(),
            final(self).pending_input_events() == old(self).pending_input_events(),
    {
        self.render_state.draw_mode = mode;
    }

    /// The window that the user interface takes to have the focus, if any.
    pub fn get_focus(&self) -> (focus: Option<Identity>)
        ensures
            focus == self.focus(),
    {
        self.ui_state.focus
    }

    /// Notes which window the user interface takes to have the focus.
    pub fn set_focus(&mut self, focus: Option<Identity>)
        ensures
            final(self).focus() == focus,
            final(self).issued() == old(self).issued(),
            final(self).things() == old(self).things(),
            final(self).windows() == old(self).windows(),
            final(self).layers() == old(self).layers(),
            final(self).queued_layers() == old(self).queued_layers(),
            final(self).draw_mode() == old(self).draw_mode(),
            final(self).pending_input_events() == old(self).pending_input_events(),
    {
        self.ui_state.focus = focus;
    }

    /// Adds a scene graph as a new layer and returns the number of the layer.
    pub fn add_render_layer(&mut self, graph: SceneGraph<X, R>) -> (layer: usize)
        ensures
            layer == old(self).layers().len(),
            final(self).layers() == old(self).layers().push(graph),
            final(self).issued() == old(self).issued(),
            final(self).things() == old(self).things(),
            final(self).windows() == old(self).windows(),
            final(self).queued_layers() == old(self).queued_layers(),
            final(self).draw_mode() == old(self).draw_mode(),
            final(self).focus() == old(self).focus(),
            final(self).pending_input_events() == old(self).pending_input_events(),
    {
        let layer = self.render_state.layers.len();
        self.render_state.layers.push(graph);
        layer
    }

    /// The number of layers.
    pub fn render_layer_count(&self) -> (n: usize)
        ensures
            n == self.layers().len(),
    {
        self.render_state.layers.len()
    }

    /// The scene graph of a layer; `None` if there is no such layer.
    pub fn render_layer(&self, layer: usize) -> (graph: Option<&SceneGraph<X, R>>)
        ensures
            graph == if layer < self.layers().len() {
                Some(&self.layers()[layer as int])
            } else {
                None
            },
    {
        if layer < self.render_state.layers.len() {
            Some(&self.render_state.layers[layer])
        } else {
            None
        }
    }

    /// Mutable access to the scene graph of a layer; `None` if there is no such
    /// layer. Nothing else changes.
    pub fn render_layer_mut(&mut self, layer: usize) -> (graph: Option<&mut SceneGraph<X, R>>)
        ensures
            match graph {
                Some(graph) => {
                    &&& layer < old(self).layers().len()
                    &&& *graph == old(self).layers()[layer as int]
                    &&& final(self).layers() == old(self).layers().update(
                        layer as int,
                        *final(graph),
                    )
                },
                None => {
                    &&& layer >= old(self).layers().len()
                    &&& final(self).layers() == old(self).layers()
                },
            },
            final(self).issued() == old(self).issued(),
            final(self).things() == old(self).things(),
            final(self).windows() == old(self).windows(),
            final(self).queued_layers() == old(self).queued_layers(),
            final(self).draw_mode() == old(self).draw_mode(),
            final(self).focus() == old(self).focus(),
            final(self).pending_input_events() == old(self).pending_input_events(),
    {
        if layer < self.render_state.layers.len() {
            Some(&mut self.render_state.layers[layer])
        } else {
            None
        }
    }

    /// Queues a layer for rendering in the current frame, behind the layers
    /// queued before it. A layer that does not exist is not queued; the result
    /// says whether the layer was queued.
    pub fn queue_render_layer(&mut self, layer: usize) -> (queued: bool)
        ensures
            queued == (layer < old(self).layers().len()),
            final(self).queued_layers() == if queued {
                old(self).queued_layers().push(layer)
            } else {
                old(self).queued_layers()
            },
            final(self).issued() == old(self).issued(),
            final(self).things() == old(self).things(),
            final(self).windows() == old(self).windows(),
            final(self).layers() == old(self).layers(),
            final(self).draw_mode() == old(self).draw_mode(),
            final(self).focus() == old(self).focus(),
            final(self).pending_input_events() == old(self).pending_input_events(),
    {
        if layer < self.render_state.layers.len() {
            self.render_state.queue.push_back(layer);
            true
        } else {
            false
        }
    }

    /// Takes the next queued layer off the queue; `None` when the queue is
    /// empty.
    pub fn next_render_layer(&mut self) -> (layer: Option<usize>)
        ensures
            match layer {
                Some(layer) => {
                    &&& old(self).queued_layers().len() > 0
                    &&& layer == old(self).queued_layers()[0]
                    &&& final(self).queued_layers() == old(self).queued_layers().subrange(
                        1,
                        old(self).queued_layers().len() as int,
                    )
                },
                None => {
                    &&& old(self).queued_layers().len() == 0
                    &&& final(self).queued_layers() == old(self).queued_layers()
                },
            },
            final(self).issued() == old(self).issued(),
            final(self).things() == old(self).things(),
            final(self).windows() == old(self).windows(),
            final(self).layers() == old(self).layers(),
            final(self).draw_mode() == old(self).draw_mode(),
            final(self).focus() == old(self).focus(),
            final(self).pending_input_events() == old(self).pending_input_events(),
    {
        self.render_state.queue.pop_front()
    }

    /// Renders the frame: takes the queued layers off the queue, first queued
    /// first, derives the world transforms of each with `delta` and hands it
    /// to the renderer, and then has the renderer present. A layer that was
    /// queued more than once is handed over as often.
    pub fn present_queued_layers<Rn: Renderer<X, R>, F: Fn(&X, &X) -> X>(
        &mut self,
        renderer: &mut Rn,
        delta: &X,
        compose: &F,
    )
        requires
            forall|a: X, b: X| call_requires(*compose, (&a, &b)),
        ensures
            final(self).queued_layers() == Seq::<usize>::empty(),
            final(self).layers().len() == old(self).layers().len(),
            forall|i: int|
                0 <= i < old(self).layers().len() ==> if old(self).queued_layers().contains(
                    i as usize,
                ) {
                    old(self).layers()[i].passed(#[trigger] final(self).layers()[i], compose, *delta)
                } else {
                    final(self).layers()[i] == old(self).layers()[i]
                },
            exists|handed: Seq<SceneGraph<X, R>>, ready: Rn|
                {
                    &&& frame_of(
                        old(self).layers(),
                        old(self).queued_layers(),
                        compose,
                        *delta,
                        handed,
                    )
                    &&& #[trigger] handed_over(*old(renderer), handed, ready)
                    &&& ready.presents(final(renderer))
                },
            final(self).issued() == old(self).issued(),
            final(self).things() == old(self).things(),
            final(self).windows() == old(self).windows(),
            final(self).draw_mode() == old(self).draw_mode(),
            final(self).focus() == old(self).focus(),
            final(self).pending_input_events() == old(self).pending_input_events(),
    {
        let ghost queued = self.render_state.queue@;
        let ghost before = self.render_state.layers@;
        let mut done: Ghost<int> = Ghost(0);
        let mut handed: Ghost<Seq<SceneGraph<X, R>>> = Ghost(Seq::empty());
        while self.render_state.queue.len() > 0
            invariant
                forall|a: X, b: X| call_requires(*compose, (&a, &b)),
                0 <= done@ <= queued.len(),
                frame_of(before, queued.take(done@), compose, *delta, handed@),
                handed_over(*old(renderer), handed@, *renderer),
                self.render_state.queue@ == queued.subrange(done@, queued.len() as int),
                self.render_state.layers@.len() == before.len(),
                forall|i: int|
                    0 <= i < before.len() ==> if queued.take(done@).contains(i as usize) {
                        before[i].passed(#[trigger] self.render_state.layers@[i], compose, *delta)
                    } else {
                        self.render_state.layers@[i] == before[i]
                    },
                self.identities == old(self).identities,
                self.world == old(self).world,
                self.input_state == old(self).input_state,
                self.render_state.windows == old(self).render_state.windows,
                self.render_state.draw_mode == old(self).render_state.draw_mode,
                self.ui_state == old(self).ui_state,
            decreases self.render_state.queue@.len(),
        {
            let ghost handled = queued.take(done@);
            let ghost layers = self.render_state.layers@;
            let ghost taken = *renderer;
            if let Some(layer) = self.render_state.queue.pop_front() {
                if layer < self.render_state.layers.len() {
                    self.render_state.layers[layer].update_world_transforms(delta, compose);
                    renderer.queue_render_layer(&self.render_state.layers[layer]);
                }
                proof {
                    let now = self.render_state.layers@;
                    let next = queued.take(done@ + 1);
                    assert(next =~= handled.push(layer));
                    assert(next.drop_last() =~= handled);
                    if layer < before.len() {
                        let i = layer as int;
                        if handled.contains(layer) {
                            before[i].lemma_passed_again(layers[i], now[i], compose, *delta);
                        }
                        let so_far = handed@;
                        handed@ = so_far.push(now[i]);
                        assert(handed@.drop_last() =~= so_far);
                        assert(handed_over(*old(renderer), handed@.drop_last(), taken)
                            && taken.takes_in(handed@.last(), &*renderer));
                    }
                    assert forall|i: int| 0 <= i < before.len() implies if next.contains(
                        i as usize,
                    ) {
                        before[i].passed(#[trigger] now[i], compose, *delta)
                    } else {
                        now[i] == before[i]
                    } by {
                        if i == layer {
                            assert(next[done@] == layer);
                            if handled.contains(layer) {
                                before[i].lemma_passed_again(layers[i], now[i], compose, *delta);
                            }
                        } else {
                            assert(now[i] == layers[i]);
                            if handled.contains(i as usize) {
                                let at = choose|at: int|
                                    0 <= at < handled.len() && handled[at] == i as usize;
                                assert(next[at] == i as usize);
                            }
                            if next.contains(i as usize) {
                                let at = choose|at: int|
                                    0 <= at < next.len() && next[at] == i as usize;
                                assert(handled[at] == i as usize);
                            }
                        }
                    }
                    done@ = done@ + 1;
                }
            }
        }
        proof {
            assert(queued.take(queued.len() as int) =~= queued);
        }
        let ghost ready = *renderer;
        renderer.present();
        proof {
            assert(handed_over(*old(renderer), handed@, ready));
        }
    }

    /// Puts an input event behind those that are waiting.
    pub fn queue_input_event(&mut self, event: InputEvent)
        ensures
            final(self).pending_input_events() == old(self).pending_input_events().push(event),
            final(self).issued() == old(self).issued(),
            final(self).things() == old(self).things(),
            final(self).windows() == old(self).windows(),
            final(self).layers() == old(self).layers(),
            final(self).queued_layers() == old(self).queued_layers(),
            final(self).draw_mode() == old(self).draw_mode(),
            final(self).focus() == old(self).focus(),
    {
        self.input_state.pending_input_events.push_back(event);
    }

    /// Asks an input source for its events and puts them behind those that are
    /// waiting, in the order the source gave them. Returns how many there
    /// were.
    pub fn gather_input_events<Src: InputSource>(&mut self, source: &mut Src) -> (count: usize)
        ensures
            exists|events: Seq<InputEvent>|
                {
                    &&& #[trigger] old(source).hands_out(events, final(source))
                    &&& final(self).pending_input_events() == old(self).pending_input_events()
                        + events
                    &&& count == events.len()
                },
            final(self).issued() == old(self).issued(),
            final(self).things() == old(self).things(),
            final(self).windows() == old(self).windows(),
            final(self).layers() == old(self).layers(),
            final(self).queued_layers() == old(self).queued_layers(),
            final(self).draw_mode() == old(self).draw_mode(),
            final(self).focus() == old(self).focus(),
    {
        let mut events = source.get_input_events();
        let ghost handed = events@;
        let count = events.len();
        self.input_state.pending_input_events.append(&mut events);
        proof {
            assert(old(source).hands_out(handed, source));
            assert(self.pending_input_events() == old(self).pending_input_events() + handed);
        }
        count
    }

    /// Hands out the input events that are waiting, oldest first. None stays
    /// behind.
    pub fn take_input_events(&mut self) -> (events: VecDeque<InputEvent>)
        ensures
            events@ == old(self).pending_input_events(),
            final(self).pending_input_events() == Seq::<InputEvent>::empty(),
            final(self).issued() == old(self).issued(),
            final(self).things() == old(self).things(),
            final(self).windows() == old(self).windows(),
            final(self).layers() == old(self).layers(),
            final(self).queued_layers() == old(self).queued_layers(),
            final(self).draw_mode() == old(self).draw_mode(),
            final(self).focus() == old(self).focus(),
    {
        let mut events: VecDeque<InputEvent> = VecDeque::new();
        std::mem::swap(&mut events, &mut self.input_state.pending_input_events);
        events
    }
}

} // verus!
