use ship_core::id_types::{DatabaseId, Module, Resource, ResourceKind, Ship, User};
use ship_core::inventory::{CraftError, Inventories, Inventory, Requirement};
use ship_core::ships::identifications::Identifiers;
use ship_core::Quantity;

fn id(seed: &str) -> DatabaseId {
    DatabaseId::from_string(seed).unwrap()
}

fn requirement(kind: ResourceKind, value: u32) -> Requirement {
    Requirement { kind, quantity: Quantity::new(value).unwrap() }
}

/// One ship with a registered creator and an empty inventory.
fn ship_with_inventory() -> (Inventories, Identifiers, Ship) {
    let ship = Ship::Starter(id("ship0001"));
    let mut inventories = Inventories::new(8);
    inventories.add(&ship, Inventory::new(8));
    let mut identifiers = Identifiers::init(8);
    identifiers.add(&ship, &User::new(id("user0001")));
    (inventories, identifiers, ship)
}

#[test]
fn craft_success_creates_module_and_debits_ledger() {
    let (mut inventories, identifiers, ship) = ship_with_inventory();
    let metal = Resource::Metal(id("iron0001"));
    inventories.add_or_update_resource(&ship, &metal, 10);
    let module = Module::Sensor(id("sensor01"));
    let reqs = vec![requirement(ResourceKind::Metal, 5)];
    let outcome = inventories.craft_module(
        &identifiers,
        &ship,
        &module,
        String::from("front sensor"),
        &[3, 1, 4, 1, 5],
        &[metal],
        Some(&reqs),
    );
    assert_eq!(outcome, Ok(()));
    assert_eq!(inventories.get_module_properties(&ship, &module), Some(vec![3, 1, 4, 1, 5]));
    assert_eq!(inventories.resource_quantity(&ship, &metal), Some(5));
}

#[test]
fn craft_kind_mismatch_aborts_without_change() {
    let (mut inventories, identifiers, ship) = ship_with_inventory();
    let metal = Resource::Metal(id("iron0001"));
    let crystal = Resource::Crystal(id("quartz01"));
    inventories.add_or_update_resource(&ship, &metal, 10);
    inventories.add_or_update_resource(&ship, &crystal, 10);
    let module = Module::Sensor(id("sensor01"));
    let reqs = vec![requirement(ResourceKind::Metal, 5)];
    let outcome = inventories.craft_module(
        &identifiers,
        &ship,
        &module,
        String::from("front sensor"),
        &[1],
        &[crystal],
        Some(&reqs),
    );
    assert_eq!(outcome, Err(CraftError::ResourceKindMismatch));
    assert_eq!(inventories.resource_quantity(&ship, &metal), Some(10));
    assert_eq!(inventories.resource_quantity(&ship, &crystal), Some(10));
    assert_eq!(inventories.get_module_properties(&ship, &module), None);
}

#[test]
fn craft_insufficient_stock_aborts_without_partial_debit() {
    let (mut inventories, identifiers, ship) = ship_with_inventory();
    let metal = Resource::Metal(id("iron0001"));
    inventories.add_or_update_resource(&ship, &metal, 10);
    let module = Module::Sensor(id("sensor01"));
    let reqs = vec![requirement(ResourceKind::Metal, 20)];
    let outcome = inventories.craft_module(
        &identifiers,
        &ship,
        &module,
        String::from("front sensor"),
        &[1],
        &[metal],
        Some(&reqs),
    );
    assert_eq!(outcome, Err(CraftError::InsufficientResources));
    assert_eq!(inventories.resource_quantity(&ship, &metal), Some(10));
    assert_eq!(inventories.get_module_properties(&ship, &module), None);
}

#[test]
fn craft_failure_at_second_position_debits_nothing() {
    let (mut inventories, identifiers, ship) = ship_with_inventory();
    let metal = Resource::Metal(id("iron0001"));
    let crystal = Resource::Crystal(id("quartz01"));
    inventories.add_or_update_resource(&ship, &metal, 10);
    inventories.add_or_update_resource(&ship, &crystal, 3);
    let module = Module::Scanner(id("scanner1"));
    let reqs = vec![requirement(ResourceKind::Metal, 5), requirement(ResourceKind::Crystal, 20)];
    let outcome = inventories.craft_module(
        &identifiers,
        &ship,
        &module,
        String::from("deep scanner"),
        &[1],
        &[metal, crystal],
        Some(&reqs),
    );
    assert_eq!(outcome, Err(CraftError::InsufficientResources));
    assert_eq!(inventories.resource_quantity(&ship, &metal), Some(10));
    assert_eq!(inventories.resource_quantity(&ship, &crystal), Some(3));
    assert_eq!(inventories.get_module_properties(&ship, &module), None);
}

#[test]
fn craft_rejections_name_their_reason() {
    let (mut inventories, identifiers, ship) = ship_with_inventory();
    let metal = Resource::Metal(id("iron0001"));
    inventories.add_or_update_resource(&ship, &metal, 10);
    let module = Module::Sensor(id("sensor01"));
    let reqs = vec![requirement(ResourceKind::Metal, 5)];

    let stranger = Ship::Starter(id("ship0099"));
    let unknown_ship = inventories.craft_module(
        &identifiers,
        &stranger,
        &module,
        String::from("x"),
        &[1],
        &[metal],
        Some(&reqs),
    );
    assert_eq!(unknown_ship, Err(CraftError::UnknownShip));

    let nobody = Identifiers::init(1);
    let unknown_creator = inventories.craft_module(
        &nobody,
        &ship,
        &module,
        String::from("x"),
        &[1],
        &[metal],
        Some(&reqs),
    );
    assert_eq!(unknown_creator, Err(CraftError::UnknownCreator));

    let bad_decode = inventories.craft_module(
        &identifiers,
        &ship,
        &module,
        String::from("x"),
        &[1],
        &[metal],
        None,
    );
    assert_eq!(bad_decode, Err(CraftError::InvalidProperties));

    let count_mismatch = inventories.craft_module(
        &identifiers,
        &ship,
        &module,
        String::from("x"),
        &[1],
        &[metal, metal],
        Some(&reqs),
    );
    assert_eq!(count_mismatch, Err(CraftError::RequirementCountMismatch));

    // None of the rejections touched any state.
    assert_eq!(inventories.resource_quantity(&ship, &metal), Some(10));
    assert_eq!(inventories.get_module_properties(&ship, &module), None);
}

#[test]
fn serialized_craft_requests_cannot_double_spend() {
    // Stock funds exactly one of the two requests; however the requests were
    // interleaved on their way in, the inventory actor serializes them, so
    // exactly one commits.
    let (mut inventories, identifiers, ship) = ship_with_inventory();
    let metal = Resource::Metal(id("iron0001"));
    inventories.add_or_update_resource(&ship, &metal, 5);
    let first = Module::Sensor(id("sensor01"));
    let second = Module::Sensor(id("sensor02"));
    let reqs = vec![requirement(ResourceKind::Metal, 5)];
    let first_outcome = inventories.craft_module(
        &identifiers,
        &ship,
        &first,
        String::from("sensor one"),
        &[1],
        &[metal],
        Some(&reqs),
    );
    let second_outcome = inventories.craft_module(
        &identifiers,
        &ship,
        &second,
        String::from("sensor two"),
        &[2],
        &[metal],
        Some(&reqs),
    );
    assert_eq!(first_outcome, Ok(()));
    assert_eq!(second_outcome, Err(CraftError::InsufficientResources));
    assert!(inventories.get_module_properties(&ship, &first).is_some());
    assert!(inventories.get_module_properties(&ship, &second).is_none());
    assert_eq!(inventories.resource_quantity(&ship, &metal), None);
}

#[test]
fn durability_damage_is_spread_and_total_is_exact() {
    // A module backed by 4 + 4 units takes 5 damage: the backing ledger then
    // holds exactly 3 units, so 3 more damage destroys it (3 is not
    // strictly more than 3), while the ship's general ledger keeps what the
    // craft left.
    let (mut inventories, identifiers, ship) = ship_with_inventory();
    let metal = Resource::Metal(id("iron0001"));
    let crystal = Resource::Crystal(id("quartz01"));
    inventories.add_or_update_resource(&ship, &metal, 10);
    inventories.add_or_update_resource(&ship, &crystal, 10);
    let module = Module::Sampler(id("sampler1"));
    let reqs = vec![requirement(ResourceKind::Metal, 4), requirement(ResourceKind::Crystal, 4)];
    let outcome = inventories.craft_module(
        &identifiers,
        &ship,
        &module,
        String::from("core sampler"),
        &[7],
        &[metal, crystal],
        Some(&reqs),
    );
    assert_eq!(outcome, Ok(()));
    assert_eq!(inventories.resource_quantity(&ship, &metal), Some(6));
    assert_eq!(inventories.resource_quantity(&ship, &crystal), Some(6));

    assert!(inventories.update_module_durability(&ship, &module, -5));
    assert!(inventories.get_module_properties(&ship, &module).is_some());
    // 2 damage is strictly below the remaining 3, so the module survives.
    assert!(inventories.update_module_durability(&ship, &module, -2));
    assert!(inventories.get_module_properties(&ship, &module).is_some());
    // The backing ledger now holds exactly 1 unit: 1 more destroys it.
    assert!(inventories.update_module_durability(&ship, &module, -1));
    assert!(inventories.get_module_properties(&ship, &module).is_none());
    // Only the module's backing ledger was consumed, never the ship's.
    assert_eq!(inventories.resource_quantity(&ship, &metal), Some(6));
    assert_eq!(inventories.resource_quantity(&ship, &crystal), Some(6));
}

#[test]
fn durability_damage_at_or_above_total_destroys_outright() {
    let (mut inventories, identifiers, ship) = ship_with_inventory();
    let metal = Resource::Metal(id("iron0001"));
    inventories.add_or_update_resource(&ship, &metal, 10);
    let module = Module::Sensor(id("sensor01"));
    let reqs = vec![requirement(ResourceKind::Metal, 8)];
    inventories
        .craft_module(
            &identifiers,
            &ship,
            &module,
            String::from("front sensor"),
            &[1],
            &[metal],
            Some(&reqs),
        )
        .unwrap();
    assert!(inventories.update_module_durability(&ship, &module, -8));
    assert_eq!(inventories.get_module_properties(&ship, &module), None);
    // The destruction refunded nothing and spent nothing from the ship.
    assert_eq!(inventories.resource_quantity(&ship, &metal), Some(2));
}

#[test]
fn durability_repair_leaves_backing_resources_alone() {
    let (mut inventories, identifiers, ship) = ship_with_inventory();
    let metal = Resource::Metal(id("iron0001"));
    inventories.add_or_update_resource(&ship, &metal, 10);
    let module = Module::Sensor(id("sensor01"));
    let reqs = vec![requirement(ResourceKind::Metal, 8)];
    inventories
        .craft_module(
            &identifiers,
            &ship,
            &module,
            String::from("front sensor"),
            &[1],
            &[metal],
            Some(&reqs),
        )
        .unwrap();
    assert!(inventories.update_module_durability(&ship, &module, 5));
    // Backing still 8: 7 damage survives, the next 1 does not.
    assert!(inventories.update_module_durability(&ship, &module, -7));
    assert!(inventories.get_module_properties(&ship, &module).is_some());
    assert!(inventories.update_module_durability(&ship, &module, -1));
    assert_eq!(inventories.get_module_properties(&ship, &module), None);
}

#[test]
fn durability_change_for_missing_ship_or_module_commits_nothing() {
    let (mut inventories, _identifiers, ship) = ship_with_inventory();
    let module = Module::Sensor(id("sensor01"));
    let stranger = Ship::Starter(id("ship0099"));
    assert!(!inventories.update_module_durability(&stranger, &module, -1));
    // An unknown module on a known ship still commits (and notifies) the
    // untouched inventory.
    assert!(inventories.update_module_durability(&ship, &module, -1));
    assert_eq!(inventories.get_module_properties(&ship, &module), None);
}

#[test]
fn inventory_component_lifecycle() {
    let (mut inventories, _identifiers, ship) = ship_with_inventory();
    let metal = Resource::Metal(id("iron0001"));
    assert!(inventories.add_or_update_resource(&ship, &metal, 4));
    // Replacing the component wholesale starts from an empty ledger again.
    inventories.add(&ship, Inventory::new(8));
    assert_eq!(inventories.resource_quantity(&ship, &metal), None);
    inventories.remove(&ship);
    assert!(!inventories.add_or_update_resource(&ship, &metal, 4));
    assert_eq!(inventories.resource_quantity(&ship, &metal), None);
}
