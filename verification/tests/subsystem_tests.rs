use ship_core::id_types::{
    Asteroid, DatabaseId, Module, ModuleHandle, Resource, ResourceHandle, ResourceKind, Ship,
    User,
};
use ship_core::inventory::crafting::CraftingLevels;
use ship_core::inventory::{Inventories, Inventory, Requirement};
use ship_core::modules::cooldowns::CooldownEngine;
use ship_core::modules::mounts::Mounts;
use ship_core::ships::damageables::{DamageOutcome, Healths};
use ship_core::ships::exploration::Asteroids;
use ship_core::ships::heartbeats::Heartbeats;
use ship_core::ships::identifications::Identifiers;
use ship_core::ships::positions::GridCells;
use ship_core::Quantity;

fn id(seed: &str) -> DatabaseId {
    DatabaseId::from_string(seed).unwrap()
}

fn ship(seed: &str) -> Ship {
    Ship::Starter(id(seed))
}

#[test]
fn healths_damage_and_destruction() {
    let mut healths = Healths::init(8);
    let s = ship("ship0001");
    healths.add(&s, Quantity::new(100).unwrap());
    assert_eq!(healths.read(&s).map(|h| h.get()), Some(100));
    assert_eq!(healths.take_damage(&s, Quantity::new(30).unwrap()), DamageOutcome::Damaged(70));
    assert_eq!(healths.read(&s).map(|h| h.get()), Some(70));
    // Health never reaches zero in the store: the ship is deleted instead.
    assert_eq!(healths.take_damage(&s, Quantity::new(70).unwrap()), DamageOutcome::Destroyed);
    assert!(healths.read(&s).is_none());
    assert_eq!(
        healths.take_damage(&s, Quantity::new(1).unwrap()),
        DamageOutcome::NoShip,
    );
}

#[test]
fn identifiers_crud_lifecycle() {
    let mut identifiers = Identifiers::init(8);
    let s = ship("ship0001");
    assert!(identifiers.read(&s).is_none());
    identifiers.add(&s, &User::new(id("user0001")));
    assert_eq!(identifiers.read(&s), Some(User::new(id("user0001"))));
    identifiers.add(&s, &User::new(id("user0002")));
    assert_eq!(identifiers.read(&s), Some(User::new(id("user0002"))));
    identifiers.remove(&s);
    assert!(identifiers.read(&s).is_none());
}

#[test]
fn asteroids_crud_lifecycle() {
    let mut asteroids = Asteroids::init(8);
    let s = ship("ship0001");
    asteroids.add(&s, &Asteroid::new(id("rock0001")));
    assert_eq!(asteroids.read(&s), Some(Asteroid::new(id("rock0001"))));
    asteroids.remove(&s);
    assert!(asteroids.read(&s).is_none());
}

#[test]
fn crafting_levels_crud_lifecycle() {
    let mut levels = CraftingLevels::init(8);
    let s = ship("ship0001");
    assert!(levels.read(&s).is_none());
    levels.add(&s, &[1, 2, 3, 4, 5]);
    assert_eq!(levels.read(&s), Some([1, 2, 3, 4, 5]));
    levels.add(&s, &[9, 9, 9, 9, 9]);
    assert_eq!(levels.read(&s), Some([9, 9, 9, 9, 9]));
    levels.remove(&s);
    assert!(levels.read(&s).is_none());
}

#[test]
fn heartbeat_poll_targets_a_registered_ship() {
    let mut heartbeats = Heartbeats::init(8, 30_000);
    assert!(heartbeats.periodic_hearbeat().is_none());
    let s = ship("ship0001");
    heartbeats.add_component(s);
    // With a single registered ship the random pick has only one outcome.
    assert_eq!(heartbeats.periodic_hearbeat(), Some(s));
    assert_eq!(heartbeats.periodic_hearbeat(), Some(s));
    heartbeats.remove_component(s);
    assert!(heartbeats.periodic_hearbeat().is_none());
}

#[test]
fn heartbeat_responses_trigger_deletion_past_five() {
    let mut heartbeats = Heartbeats::init(8, 30_000);
    let s = ship("ship0001");
    heartbeats.add_component(s);
    for _ in 0..5 {
        assert!(!heartbeats.process_response(s));
    }
    // The sixth response raises the missed count past five.
    assert!(heartbeats.process_response(s));
    assert!(heartbeats.process_response(s));
}

#[test]
fn heartbeat_removal_forgets_the_missed_count() {
    let mut heartbeats = Heartbeats::init(8, 30_000);
    let s = ship("ship0001");
    let other = ship("ship0002");
    heartbeats.add_component(s);
    heartbeats.add_component(other);
    for _ in 0..6 {
        heartbeats.process_response(s);
    }
    heartbeats.remove_component(s);
    heartbeats.add_component(s);
    // The count starts over after a remove: five more responses stay quiet.
    for _ in 0..5 {
        assert!(!heartbeats.process_response(s));
    }
}

#[test]
fn grid_cells_announce_only_first_sightings() {
    let mut cells = GridCells::init(8);
    assert!(cells.insert((0, 0)));
    assert!(cells.insert((1, -1)));
    assert!(!cells.insert((0, 0)));
    assert!(!cells.insert((1, -1)));
    assert!(cells.insert((1, 1)));
}

#[test]
fn module_use_checks_mount_cooldown_and_inventory() {
    let s = ship("ship0001");
    let module = Module::Sensor(id("sensor01"));
    let metal = Resource::Metal(id("iron0001"));

    let mut mounts = Mounts::init(8);
    let mut engine = CooldownEngine::init(8);
    let mut inventories = Inventories::new(8);
    let mut identifiers = Identifiers::init(8);
    inventories.add(&s, Inventory::new(8));
    identifiers.add(&s, &User::new(id("user0001")));
    inventories.add_or_update_resource(&s, &metal, 10);
    let reqs = vec![Requirement { kind: ResourceKind::Metal, quantity: Quantity::new(5).unwrap() }];
    inventories
        .craft_module(
            &identifiers,
            &s,
            &module,
            String::from("front sensor"),
            &[3, 1, 4],
            &[metal],
            Some(&reqs),
        )
        .unwrap();

    // No module mounted yet: the use request is dropped.
    assert!(mounts.prepare_module_use(&engine, &inventories, &s).is_none());
    mounts.add_component(&s, &module);
    let prepared = mounts.prepare_module_use(&engine, &inventories, &s);
    assert_eq!(prepared, Some((module, vec![3, 1, 4])));

    // A running cooldown blocks the module.
    engine.add_or_update_component(&module, 1000);
    engine.start_timer(&module);
    assert!(mounts.prepare_module_use(&engine, &inventories, &s).is_none());
    engine.update_timers(1000);
    assert!(mounts.prepare_module_use(&engine, &inventories, &s).is_some());

    // A destroyed module no longer yields its properties.
    inventories.update_module_durability(&s, &module, -5);
    assert!(mounts.prepare_module_use(&engine, &inventories, &s).is_none());
    mounts.remove_component(&s);
    assert!(mounts.prepare_module_use(&engine, &inventories, &s).is_none());
}

#[test]
fn qualified_handles_carry_their_parts() {
    let s = ship("ship0001");
    let module = Module::Sensor(id("sensor01"));
    let metal = Resource::Metal(id("iron0001"));
    assert_eq!(ModuleHandle::new(s, module), ModuleHandle::new(s, module));
    assert_ne!(
        ModuleHandle::new(s, module),
        ModuleHandle::new(ship("ship0002"), module),
    );
    assert_eq!(ResourceHandle::new(s, metal), ResourceHandle::new(s, metal));
    assert_ne!(
        ResourceHandle::new(s, metal),
        ResourceHandle::new(s, Resource::Crystal(id("iron0001"))),
    );
}
