use cgmath::{Matrix4, SquareMatrix, Vector3};
use game_state::identity::Identifyable;
use game_state::scene::{Model, SceneGraph};
use game_state::tree::GraphError;

type Mat = Matrix4<f32>;

fn model(id: u64, local: Mat) -> Model<Mat, &'static str> {
    // The world transform starts out as something a pass has to overwrite.
    Model::new(id, local, Matrix4::from_scale(99.0), "mesh")
}

fn compose(a: &Mat, b: &Mat) -> Mat {
    a * b
}

#[test]
fn child_of_identity_root_gets_its_translation() {
    let t = Matrix4::from_translation(Vector3::new(1.0, 2.0, 3.0));
    let mut graph = SceneGraph::new(model(0, Matrix4::identity()));
    let child = graph.create(model(1, t), Some(graph.root())).unwrap();

    graph.update_world_transforms(&Matrix4::identity(), &compose);

    assert_eq!(*graph.model(graph.root()).unwrap().get_world_matrix(), Matrix4::identity());
    assert_eq!(*graph.model(child).unwrap().get_world_matrix(), t);
    // The local transforms are as they were.
    assert_eq!(*graph.model(graph.root()).unwrap().get_model_matrix(), Matrix4::identity());
    assert_eq!(*graph.model(child).unwrap().get_model_matrix(), t);
}

#[test]
fn world_transforms_compose_down_the_tree() {
    let a = Matrix4::from_translation(Vector3::new(1.0, 0.0, 0.0));
    let b = Matrix4::from_scale(2.0);
    let c = Matrix4::from_translation(Vector3::new(0.0, 3.0, 0.0));
    let delta = Matrix4::from_translation(Vector3::new(0.0, 0.0, 5.0));

    let mut graph = SceneGraph::new(model(0, a));
    let child = graph.create(model(1, b), Some(0)).unwrap();
    let grandchild = graph.create(model(2, c), Some(child)).unwrap();
    let sibling = graph.create(model(3, c), Some(0)).unwrap();

    graph.update_world_transforms(&delta, &compose);

    let root_world = a * delta;
    let child_world = root_world * (b * delta);
    assert_eq!(*graph.model(0).unwrap().get_world_matrix(), root_world);
    assert_eq!(*graph.model(child).unwrap().get_world_matrix(), child_world);
    assert_eq!(*graph.model(grandchild).unwrap().get_world_matrix(), child_world * (c * delta));
    assert_eq!(*graph.model(sibling).unwrap().get_world_matrix(), root_world * (c * delta));
}

#[test]
fn every_pass_starts_from_the_local_transforms() {
    let t = Matrix4::from_translation(Vector3::new(1.0, 0.0, 0.0));
    let mut graph = SceneGraph::new(model(0, t));
    let child = graph.create(model(1, t), Some(0)).unwrap();

    graph.update_world_transforms(&Matrix4::identity(), &compose);
    let first = *graph.model(child).unwrap().get_world_matrix();
    graph.update_world_transforms(&Matrix4::identity(), &compose);
    assert_eq!(*graph.model(child).unwrap().get_world_matrix(), first);
    assert_eq!(first, t * t);
}

#[test]
fn each_composition_is_made_once_per_node() {
    let mut graph: SceneGraph<u32, ()> = SceneGraph::new(Model::new(0, 1, 0, ()));
    graph.create(Model::new(1, 2, 0, ()), Some(0)).unwrap();
    graph.create(Model::new(2, 3, 0, ()), Some(1)).unwrap();
    let calls = std::cell::Cell::new(0);
    let counted = |a: &u32, b: &u32| {
        calls.set(calls.get() + 1);
        a * b
    };
    graph.update_world_transforms(&10, &counted);
    // One composition with the delta per node, one with the parent for each of
    // the two nodes that have one.
    assert_eq!(calls.get(), 5);
    assert_eq!(*graph.model(0).unwrap().get_world_matrix(), 10);
    assert_eq!(*graph.model(1).unwrap().get_world_matrix(), 10 * 20);
    assert_eq!(*graph.model(2).unwrap().get_world_matrix(), 10 * 20 * 30);
}

#[test]
fn detached_nodes_are_left_alone() {
    let t = Matrix4::from_translation(Vector3::new(1.0, 0.0, 0.0));
    let mut graph = SceneGraph::new(model(0, Matrix4::identity()));
    let detached = graph.create(model(1, t), None).unwrap();
    let below = graph.create(model(2, t), Some(detached)).unwrap();

    graph.update_world_transforms(&Matrix4::identity(), &compose);

    assert_eq!(*graph.model(detached).unwrap().get_world_matrix(), Matrix4::from_scale(99.0));
    assert_eq!(*graph.model(below).unwrap().get_world_matrix(), Matrix4::from_scale(99.0));
    let walk: Vec<(u64, usize)> = graph.traverse_breadth_first();
    assert_eq!(walk, vec![(0, 0)]);
}

#[test]
fn traversal_pairs_identities_with_handles() {
    let mut graph: SceneGraph<u8, ()> = SceneGraph::new(Model::new(100, 0, 0, ()));
    graph.create(Model::new(300, 0, 0, ()), Some(0)).unwrap();
    graph.create(Model::new(200, 0, 0, ()), Some(0)).unwrap();
    graph.create(Model::new(500, 0, 0, ()), Some(1)).unwrap();
    graph.create(Model::new(400, 0, 0, ()), Some(2)).unwrap();
    graph.create(Model::new(600, 0, 0, ()), Some(1)).unwrap();
    assert_eq!(
        graph.traverse_breadth_first(),
        vec![(100, 0), (300, 1), (200, 2), (500, 3), (600, 5), (400, 4)]
    );
    assert_eq!(graph.len(), 6);
    assert_eq!(graph.parent(5), Some(1));
    assert_eq!(graph.children(1), Some(&vec![3, 5]));
    assert_eq!(graph.children(4), Some(&vec![]));
    assert_eq!(graph.children(6), None);
}

#[test]
fn scene_create_refuses_a_dangling_parent() {
    let mut graph: SceneGraph<u8, ()> = SceneGraph::new(Model::new(0, 0, 0, ()));
    assert_eq!(graph.create(Model::new(1, 0, 0, ()), Some(1)), Err(GraphError::DanglingParent));
    assert_eq!(graph.len(), 1);
    assert_eq!(graph.traverse_breadth_first(), vec![(0, 0)]);
    assert!(graph.model(1).is_none());
}

#[test]
fn model_accessors() {
    let mut m: Model<i32, &str> = Model::new(7, 1, 2, "cube");
    assert_eq!(m.identify(), 7);
    assert_eq!(*m.get_model_matrix(), 1);
    assert_eq!(*m.get_world_matrix(), 2);
    assert_eq!(*m.get_resource(), "cube");
    m.set_world_matrix(5);
    assert_eq!(*m.get_world_matrix(), 5);
    assert_eq!(*m.get_model_matrix(), 1);
    assert_eq!(m.identify(), 7);
}

#[test]
fn a_changed_local_transform_shows_after_the_next_pass() {
    let mut graph: SceneGraph<i32, ()> = SceneGraph::new(Model::new(0, 2, 0, ()));
    let child = graph.create(Model::new(1, 3, 0, ()), Some(0)).unwrap();
    let times = |a: &i32, b: &i32| a * b;
    graph.update_world_transforms(&1, &times);
    assert_eq!(*graph.model(child).unwrap().get_world_matrix(), 6);

    graph.model_mut(0).unwrap().set_model_matrix(5);
    assert!(graph.model_mut(2).is_none());
    // Nothing is derived until the next pass.
    assert_eq!(*graph.model(child).unwrap().get_world_matrix(), 6);
    graph.update_world_transforms(&1, &times);
    assert_eq!(*graph.model(0).unwrap().get_world_matrix(), 5);
    assert_eq!(*graph.model(child).unwrap().get_world_matrix(), 15);
}
