use std::sync::Arc;
use wecs::world::{append, remove_with_id};
use wecs::{Component, Components, Entity, EventHandler, Handle, IdGenerator, Scene, World};

struct Mesh {
    vertices: Vec<[f32; 3]>,
}

impl Component for Mesh {
    fn category(&self) -> Arc<String> {
        Arc::new("mesh".to_string())
    }
}

fn key(text: &str) -> Arc<String> {
    Arc::new(text.to_string())
}

fn ids_of(world: &World) -> Vec<String> {
    world.entities().lock().unwrap().iter().map(|entity| (*entity.id).clone()).collect()
}

#[test]
fn new_world_is_empty() {
    let world = World::new();
    assert!(world.entities().lock().unwrap().is_empty());
    assert!(world.entities.lock().unwrap().is_empty());
}

#[test]
fn create_appends_and_returns_the_entity() {
    let world = World::new();
    let first = world.clone().create(key("a"), Components::new());
    let second = world.clone().create(key("b"), Components::new());
    assert_eq!(*first.id, "a");
    assert_eq!(*second.id, "b");
    assert_eq!(ids_of(&world), vec!["a", "b"]);
    let list = world.entities().lock().unwrap();
    assert!(Arc::ptr_eq(&list[0], &first));
    assert!(Arc::ptr_eq(&list[1], &second));
}

#[test]
fn create_takes_the_given_components() {
    let world = World::new();
    let mut components = Components::new();
    components.add(key("mesh"), Handle::new(Arc::new(Mesh { vertices: vec![[0.0; 3]] })));
    let entity = world.clone().create(key("a"), components);
    assert_eq!(entity.get_type::<Mesh>(key("mesh")).len(), 1);
}

#[test]
fn create_default_is_not_listed() {
    let world = World::new();
    let entity = world.clone().create_default(key("loose"));
    assert_eq!(*entity.id, "loose");
    assert!(entity.get_type::<Mesh>(key("mesh")).is_empty());
    assert!(world.entities().lock().unwrap().is_empty());
    assert!(Arc::ptr_eq(&entity.world().unwrap(), &world));
    world.remove_by_id(key("loose"));
    assert_eq!(*entity.id, "loose");
}

#[test]
fn scenario_mesh_on_one_entity() {
    let world = World::new();
    let entity = world.clone().create(key("e1"), Components::new());
    let vertices = vec![[0.0, 0.5, 0.0], [0.5, -0.5, 0.0], [-0.5, -0.5, 0.0]];
    entity.add_component(key("mesh"), Arc::new(Mesh { vertices: vertices.clone() }));
    let listed = world.entities().lock().unwrap()[0].clone();
    let found = listed.get_type::<Mesh>(key("mesh"));
    assert_eq!(found.len(), 1);
    assert_eq!(found[0].vertices.len(), 3);
    assert_eq!(found[0].vertices, vertices);
    world.remove_by_id(key("e1"));
    assert!(world.entities().lock().unwrap().is_empty());
}

#[test]
fn scenario_duplicate_ids_leave_together() {
    let world = World::new();
    world.clone().create(key("keep"), Components::new());
    world.clone().create(key("dup"), Components::new());
    world.clone().create(key("dup"), Components::new());
    let before = world.entities().lock().unwrap().len();
    world.remove_by_id(key("dup"));
    let after = world.entities().lock().unwrap().len();
    assert_eq!(before - after, 2);
    assert_eq!(ids_of(&world), vec!["keep"]);
}

#[test]
fn remove_by_id_takes_all_matches_and_no_other() {
    let world = World::new();
    for id in ["a", "x", "b", "x", "x", "c", "X", "x "] {
        world.clone().create(key(id), Components::new());
    }
    world.remove_by_id(key("x"));
    assert_eq!(ids_of(&world), vec!["a", "b", "c", "X", "x "]);
}

#[test]
fn remove_by_id_twice_is_once() {
    let world = World::new();
    for id in ["a", "x", "b", "x"] {
        world.clone().create(key(id), Components::new());
    }
    world.remove_by_id(key("x"));
    let once = ids_of(&world);
    world.remove_by_id(key("x"));
    assert_eq!(ids_of(&world), once);
    assert_eq!(once, vec!["a", "b"]);
}

#[test]
fn remove_by_id_of_an_unknown_id_changes_nothing() {
    let world = World::new();
    world.remove_by_id(key("nobody"));
    assert!(ids_of(&world).is_empty());
    world.clone().create(key("a"), Components::new());
    world.remove_by_id(key("nobody"));
    world.remove_by_id(key(""));
    assert_eq!(ids_of(&world), vec!["a"]);
}

#[test]
fn remove_goes_by_the_identifier() {
    let world = World::new();
    let first = world.clone().create(key("same"), Components::new());
    world.clone().create(key("same"), Components::new());
    world.clone().create(key("other"), Components::new());
    world.remove(first.clone());
    assert_eq!(ids_of(&world), vec!["other"]);
    let loose = world.clone().create_default(key("other"));
    world.remove(&*loose);
    assert!(ids_of(&world).is_empty());
}

#[test]
fn a_removed_entity_lives_on_with_its_holders() {
    let world = World::new();
    let entity = world.clone().create(key("e"), Components::new());
    entity.add_component(key("mesh"), Arc::new(Mesh { vertices: vec![] }));
    world.remove_by_id(key("e"));
    assert_eq!(entity.get_type::<Mesh>(key("mesh")).len(), 1);
    assert_eq!(Arc::strong_count(&entity), 1);
}

#[test]
fn remove_with_id_filters_a_list() {
    let world = World::new();
    let mut list: Vec<Arc<Entity>> = Vec::new();
    for id in ["x", "a", "x", "b", "x"] {
        list.push(Entity::new(key(id), &world, Components::new()));
    }
    let a = list[1].clone();
    let b = list[3].clone();
    remove_with_id(&mut list, &"x".to_string());
    assert_eq!(list.len(), 2);
    assert!(Arc::ptr_eq(&list[0], &a));
    assert!(Arc::ptr_eq(&list[1], &b));
    remove_with_id(&mut list, &"x".to_string());
    assert_eq!(list.len(), 2);
    remove_with_id(&mut list, &"a".to_string());
    remove_with_id(&mut list, &"b".to_string());
    assert!(list.is_empty());
    remove_with_id(&mut list, &"b".to_string());
    assert!(list.is_empty());
}

#[test]
fn entities_is_the_lock_of_the_field() {
    let world = World::new();
    assert!(std::ptr::eq(world.entities(), &world.entities));
}

#[test]
fn append_puts_the_entity_last() {
    let world = World::new();
    let mut list: Vec<Arc<Entity>> = Vec::new();
    let first = Entity::new(key("a"), &world, Components::new());
    let second = Entity::new(key("a"), &world, Components::new());
    append(&mut list, first.clone());
    append(&mut list, second.clone());
    assert_eq!(list.len(), 2);
    assert!(Arc::ptr_eq(&list[0], &first));
    assert!(Arc::ptr_eq(&list[1], &second));
}

#[test]
fn scene_keeps_its_parts() {
    let world = World::new();
    world.clone().create(key("e"), Components::new());
    let scene = Scene::new(world.clone(), Arc::new("camera"), vec![Arc::new(1u8), Arc::new(2u8)]);
    assert!(Arc::ptr_eq(&scene.world, &world));
    assert_eq!(**scene.camera.lock().unwrap(), "camera");
    assert_eq!(scene.lights.lock().unwrap().len(), 2);
    *scene.camera.lock().unwrap() = Arc::new("other camera");
    assert_eq!(**scene.camera.lock().unwrap(), "other camera");
    assert_eq!(scene.world.entities().lock().unwrap().len(), 1);
}

fn shareable<T: Send + Sync>() {}

#[test]
fn the_shared_types_can_cross_threads() {
    shareable::<World>();
    shareable::<Entity>();
    shareable::<EventHandler>();
    shareable::<IdGenerator>();
    shareable::<Handle>();
    shareable::<Components>();
}
