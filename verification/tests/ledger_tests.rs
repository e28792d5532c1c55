use ship_core::id_types::{DatabaseId, Resource};
use ship_core::inventory::resources::Resources;
use ship_core::Quantity;

fn metal(seed: &str) -> Resource {
    Resource::Metal(DatabaseId::from_string(seed).unwrap())
}

fn quantity(value: u32) -> Quantity {
    Quantity::new(value).unwrap()
}

#[test]
fn sat_neg_add() {
    // A negative delta is a saturating subtraction: it floors at zero and
    // removes the entry instead of storing a non-positive quantity.
    let mut ledger = Resources::with_capacity(4);
    let iron = metal("iron0001");
    ledger.update_or_insert(&iron, 5);
    ledger.update_or_insert(&iron, -3);
    assert_eq!(ledger.quantity(&iron), Some(2));
    ledger.update_or_insert(&iron, -8);
    assert_eq!(ledger.quantity(&iron), None);
    assert!(!ledger.has_enough(&iron, quantity(1)));
    // Subtracting from an absent entry stays absent rather than wrapping.
    ledger.update_or_insert(&iron, -1);
    assert_eq!(ledger.quantity(&iron), None);
}

#[test]
fn subtracting_to_exactly_zero_removes_the_entry() {
    let mut ledger = Resources::with_capacity(4);
    let iron = metal("iron0001");
    ledger.update_or_insert(&iron, 5);
    ledger.update_or_insert(&iron, -5);
    assert_eq!(ledger.quantity(&iron), None);
}

#[test]
fn positive_deltas_accumulate() {
    let mut ledger = Resources::with_capacity(4);
    let iron = metal("iron0001");
    let gold = metal("gold0001");
    ledger.update_or_insert(&iron, 5);
    ledger.update_or_insert(&iron, 7);
    ledger.update_or_insert(&gold, 1);
    assert_eq!(ledger.quantity(&iron), Some(12));
    assert_eq!(ledger.quantity(&gold), Some(1));
    assert!(ledger.has_enough(&iron, quantity(12)));
    assert!(!ledger.has_enough(&iron, quantity(13)));
}

#[test]
fn zero_delta_on_absent_entry_stores_nothing() {
    let mut ledger = Resources::with_capacity(4);
    let iron = metal("iron0001");
    ledger.update_or_insert(&iron, 0);
    assert_eq!(ledger.quantity(&iron), None);
}

#[test]
fn has_enough_is_false_for_resources_never_inserted() {
    let ledger = Resources::with_capacity(4);
    assert!(!ledger.has_enough(&metal("iron0001"), quantity(1)));
}

#[test]
fn ledger_never_stores_a_non_positive_quantity() {
    // Whatever sequence of updates runs, every readable entry is positive.
    let mut ledger = Resources::with_capacity(4);
    let iron = metal("iron0001");
    let gold = metal("gold0001");
    let deltas: [i32; 9] = [3, -1, -7, 10, 0, -2, -2, -2, -2];
    for delta in deltas {
        ledger.update_or_insert(&iron, delta);
        ledger.update_or_insert(&gold, delta.wrapping_neg());
        for entry in [&iron, &gold] {
            if let Some(q) = ledger.quantity(entry) {
                assert!(q > 0);
            }
        }
    }
}

#[test]
fn quantity_rejects_zero() {
    assert!(Quantity::new(0).is_none());
    let five = Quantity::new(5).unwrap();
    assert_eq!(five.get(), 5);
}
