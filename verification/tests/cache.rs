use game_state::cache::{BufferItem, ResourceCache};
use std::cell::Cell;
use std::rc::Rc;

#[test]
fn a_cached_resource_is_not_built_again() {
    let mut cache: ResourceCache<String> = ResourceCache::new();
    let builds = Cell::new(0);
    let build = |text: &'static str| {
        let builds = &builds;
        move || {
            builds.set(builds.get() + 1);
            text.to_string()
        }
    };

    assert_eq!(cache.get_or_insert_with(5, build("first")), "first");
    assert_eq!(builds.get(), 1);
    assert_eq!(cache.get_or_insert_with(5, build("second")), "first");
    assert_eq!(cache.get_or_insert_with(5, build("third")), "first");
    assert_eq!(builds.get(), 1);
    assert_eq!(cache.len(), 1);

    assert_eq!(cache.get_or_insert_with(6, build("other")), "other");
    assert_eq!(builds.get(), 2);
    assert_eq!(cache.len(), 2);
    assert_eq!(cache.get(5), Some(&"first".to_string()));
}

#[test]
fn queries_after_an_insert_return_the_inserted_object() {
    let mut cache: ResourceCache<Rc<u32>> = ResourceCache::new();
    let inserted = Rc::new(1);
    assert_eq!(cache.insert(9, inserted.clone()), None);
    let first = cache.get_or_insert_with(9, || panic!("must not build")).clone();
    let second = cache.get_or_insert_with(9, || panic!("must not build")).clone();
    let third = cache.get(9).unwrap().clone();
    assert!(Rc::ptr_eq(&inserted, &first));
    assert!(Rc::ptr_eq(&inserted, &second));
    assert!(Rc::ptr_eq(&inserted, &third));

    let replacement = Rc::new(1);
    assert!(cache.insert(9, replacement.clone()).is_some());
    let fourth = cache.get_or_insert_with(9, || panic!("must not build")).clone();
    assert!(Rc::ptr_eq(&replacement, &fourth));
    assert!(!Rc::ptr_eq(&inserted, &fourth));
}

#[test]
fn the_last_insert_wins() {
    let mut cache: ResourceCache<u32> = ResourceCache::new();
    assert_eq!(cache.insert(9, 1), None);
    assert_eq!(cache.insert(9, 2), Some(1));
    assert_eq!(*cache.get_or_insert_with(9, || 3), 2);
    assert_eq!(cache.get(9), Some(&2));
    assert_eq!(cache.len(), 1);
}

#[test]
fn lookups_do_not_insert() {
    let mut cache: ResourceCache<u32> = ResourceCache::new();
    assert!(!cache.contains(1));
    assert_eq!(cache.get(1), None);
    assert_eq!(cache.len(), 0);
    cache.insert(1, 10);
    assert!(cache.contains(1));
    assert!(!cache.contains(2));
}

#[test]
fn clear_empties_the_cache() {
    let mut cache: ResourceCache<u32> = ResourceCache::new();
    cache.insert(1, 10);
    cache.insert(2, 20);
    cache.clear();
    assert_eq!(cache.len(), 0);
    assert!(!cache.contains(1));
    assert_eq!(*cache.get_or_insert_with(1, || 11), 11);
}

#[test]
fn buffer_items_are_cached_whole() {
    let mut cache: ResourceCache<BufferItem<Vec<[i32; 3]>, Vec<u16>, Vec<[u8; 4]>>> =
        ResourceCache::new();
    let item = cache.get_or_insert_with(0, || BufferItem {
        vertices: vec![[0, 0, 0], [1, 0, 0], [0, 1, 0]],
        indices: vec![0, 1, 2],
        diffuse_map: vec![[255, 0, 0, 255]],
    });
    assert_eq!(item.indices, vec![0, 1, 2]);
    assert_eq!(item.vertices.len(), 3);
    assert_eq!(item.diffuse_map, vec![[255, 0, 0, 255]]);
}
