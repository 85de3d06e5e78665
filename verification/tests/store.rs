use rusty_roguelike::components::{CombatStats, Entity, Name, Position, Viewshed};
use rusty_roguelike::store::{Component, ComponentKind};
use rusty_roguelike::world::World;

#[test]
fn create_gives_fresh_handles() {
    let mut world = World::new();
    let a = world.create();
    let b = world.create();
    assert_ne!(a, b);
    assert_eq!(a, Entity { id: 0 });
    assert_eq!(b, Entity { id: 1 });
    assert_eq!(world.len(), 2);
    assert!(world.is_alive(a));
    assert!(world.is_alive(b));
}

#[test]
fn a_handle_that_was_never_given_out_finds_nothing() {
    let world = World::new();
    let ghost = Entity { id: 7 };
    assert!(!world.is_alive(ghost));
    assert!(world.get(ghost).is_none());
    assert!(!world.has(ghost, ComponentKind::Position));
    assert_eq!(world.label_of(ghost), None);
}

#[test]
fn attach_then_get() {
    let mut world = World::new();
    let e = world.create();
    world.attach(e, Component::Position(Position { x: 3, y: 4 }));
    world.attach(e, Component::Name(Name { name: "Rat".to_string() }));
    let record = world.get(e).unwrap();
    assert_eq!(record.position, Some(Position { x: 3, y: 4 }));
    assert!(world.has(e, ComponentKind::Position));
    assert!(world.has(e, ComponentKind::Name));
    assert!(!world.has(e, ComponentKind::CombatStats));
    assert_eq!(world.label_of(e), Some("Rat".to_string()));
}

#[test]
fn attach_replaces_the_component_of_that_type() {
    let mut world = World::new();
    let e = world.create();
    world.attach(e, Component::Position(Position { x: 1, y: 1 }));
    world.attach(e, Component::Position(Position { x: 2, y: 5 }));
    assert_eq!(world.get(e).unwrap().position, Some(Position { x: 2, y: 5 }));
}

#[test]
fn remove_takes_one_component_only() {
    let mut world = World::new();
    let e = world.create();
    world.attach(e, Component::Position(Position { x: 1, y: 1 }));
    world.attach(e, Component::CombatStats(CombatStats { max_hp: 5, hp: 5, defense: 0, power: 1 }));
    world.remove(e, ComponentKind::Position);
    assert!(!world.has(e, ComponentKind::Position));
    assert!(world.has(e, ComponentKind::CombatStats));
}

#[test]
fn remove_on_a_gone_entity_changes_nothing() {
    let mut world = World::new();
    let e = world.create();
    world.attach(e, Component::Position(Position { x: 1, y: 1 }));
    world.delete(e);
    world.remove(e, ComponentKind::Position);
    assert_eq!(world.slots[0].position, Some(Position { x: 1, y: 1 }));
}

#[test]
fn delete_hides_at_once_and_maintain_drops_the_components() {
    let mut world = World::new();
    let e = world.create();
    let other = world.create();
    world.attach(e, Component::Position(Position { x: 1, y: 1 }));
    world.attach(other, Component::Position(Position { x: 2, y: 2 }));
    world.delete(e);
    assert!(!world.is_alive(e));
    assert!(world.get(e).is_none());
    assert!(!world.has(e, ComponentKind::Position));
    assert_eq!(world.entities_with(&vec![ComponentKind::Position]), vec![other]);
    // not swept yet: the record still holds the component
    assert!(world.slots[e.id].position.is_some());
    world.maintain();
    assert!(world.slots[e.id].position.is_none());
    assert!(!world.slots[e.id].live);
    assert!(world.is_alive(other));
    assert_eq!(world.get(other).unwrap().position, Some(Position { x: 2, y: 2 }));
}

#[test]
fn delete_twice_is_delete_once() {
    let mut world = World::new();
    let e = world.create();
    world.delete(e);
    world.delete(e);
    assert!(!world.is_alive(e));
    assert_eq!(world.len(), 1);
}

#[test]
fn handles_are_not_given_out_again_after_a_sweep() {
    let mut world = World::new();
    let a = world.create();
    world.delete(a);
    world.maintain();
    let b = world.create();
    assert_ne!(a, b);
    assert!(!world.is_alive(a));
    assert!(world.is_alive(b));
}

#[test]
fn entities_with_asks_for_every_kind() {
    let mut world = World::new();
    let a = world.create();
    let b = world.create();
    let c = world.create();
    world.attach(a, Component::Position(Position { x: 0, y: 0 }));
    world.attach(b, Component::Position(Position { x: 0, y: 0 }));
    world.attach(b, Component::Viewshed(Viewshed { visible_tiles: Vec::new(), range: 8, dirty: true }));
    world.attach(c, Component::Viewshed(Viewshed { visible_tiles: Vec::new(), range: 8, dirty: true }));
    assert_eq!(world.entities_with(&vec![ComponentKind::Position, ComponentKind::Viewshed]), vec![b]);
    assert_eq!(world.entities_with(&vec![ComponentKind::Position]), vec![a, b]);
    assert_eq!(world.entities_with(&vec![]), vec![a, b, c]);
    assert_eq!(world.entities_with(&vec![ComponentKind::Monster]), Vec::<Entity>::new());
}
