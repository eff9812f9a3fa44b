//! End-to-end tests of the entity store: validation, referential
//! integrity, identifier allocation, derived fields, and aggregation.

use dairy_ledger::{EntityStore, StoreError};

const NOW: u64 = 1_700_000_000;

fn farm_payload() -> (Vec<u8>, Vec<u8>, Vec<u8>, Vec<u8>, Vec<u8>) {
    (
        b"Green Meadows".to_vec(),
        b"Hill Valley".to_vec(),
        b"Alex Mason".to_vec(),
        b"555-0101".to_vec(),
        b"farm@example.com".to_vec(),
    )
}

fn new_farm(store: &mut EntityStore) -> u64 {
    let (name, location, owner, contact, email) = farm_payload();
    store
        .create_farm(name, location, owner, contact, email, 40, NOW)
        .expect("valid farm payload")
        .id
}

#[test]
fn create_farm_stores_fields() {
    let mut store = EntityStore::open();
    let (name, location, owner, contact, email) = farm_payload();
    let farm = store
        .create_farm(name, location, owner, contact, email, 40, NOW)
        .expect("valid farm payload");
    assert_eq!(farm.id, 0);
    assert_eq!(farm.name, b"Green Meadows".to_vec());
    assert_eq!(farm.location, b"Hill Valley".to_vec());
    assert_eq!(farm.owner, b"Alex Mason".to_vec());
    assert_eq!(farm.contact, b"555-0101".to_vec());
    assert_eq!(farm.email, b"farm@example.com".to_vec());
    assert_eq!(farm.total_cows, 40);
    assert_eq!(farm.created_at, NOW);
}

#[test]
fn create_farm_rejects_empty_required_fields() {
    let mut store = EntityStore::open();
    let (_, location, owner, contact, email) = farm_payload();
    let r = store.create_farm(Vec::new(), location, owner, contact, email, 40, NOW);
    assert_eq!(r, Err(StoreError::InvalidPayload));
    let (name, location, owner, _, email) = farm_payload();
    let r = store.create_farm(name, location, owner, Vec::new(), email, 40, NOW);
    assert_eq!(r, Err(StoreError::InvalidPayload));
    let (name, location, owner, contact, _) = farm_payload();
    let r = store.create_farm(name, location, owner, contact, Vec::new(), 40, NOW);
    assert_eq!(r, Err(StoreError::InvalidPayload));
    // A failed creation consumes no identifier.
    assert_eq!(store.next_id(), 0);
}

#[test]
fn identifiers_are_unique_and_strictly_increasing() {
    let mut store = EntityStore::open();
    let farm_id = new_farm(&mut store);
    let animal = store
        .register_dairy_animal(farm_id, b"TAG-1".to_vec(), b"Jersey".to_vec(), 4, 18)
        .expect("valid animal");
    let milk = store
        .record_milk_production(farm_id, 100, 60, 2, NOW)
        .expect("valid milk record");
    let expense = store
        .record_expense(farm_id, b"vet".to_vec(), 250, b"checkup".to_vec(), NOW)
        .expect("valid expense");
    let feed = store
        .record_feed(farm_id, b"hay".to_vec(), 500, 120, NOW)
        .expect("valid feed record");
    let second_farm = new_farm(&mut store);
    let ids = vec![farm_id, animal.id, milk.id, expense.id, feed.id, second_farm];
    for w in ids.windows(2) {
        assert!(w[0] < w[1]);
    }
    assert_eq!(ids, vec![0, 1, 2, 3, 4, 5]);
}

#[test]
fn register_animal_defaults_health_status() {
    let mut store = EntityStore::open();
    let farm_id = new_farm(&mut store);
    let animal = store
        .register_dairy_animal(farm_id, b"TAG-7".to_vec(), b"Holstein".to_vec(), 3, 25)
        .expect("valid animal");
    assert_eq!(animal.farm_id, farm_id);
    assert_eq!(animal.tag_number, b"TAG-7".to_vec());
    assert_eq!(animal.breed, b"Holstein".to_vec());
    assert_eq!(animal.health_status, b"Healthy".to_vec());
}

#[test]
fn register_animal_missing_farm_is_not_found() {
    let mut store = EntityStore::open();
    let r = store.register_dairy_animal(9, b"TAG-1".to_vec(), b"Jersey".to_vec(), 4, 18);
    assert_eq!(r, Err(StoreError::NotFound));
}

#[test]
fn validation_runs_before_referential_check() {
    // An empty tag number against a nonexistent farm reports the
    // payload error, not the missing farm.
    let mut store = EntityStore::open();
    let r = store.register_dairy_animal(9, Vec::new(), b"Jersey".to_vec(), 4, 18);
    assert_eq!(r, Err(StoreError::InvalidPayload));
}

#[test]
fn milk_production_derived_fields() {
    let mut store = EntityStore::open();
    let farm_id = new_farm(&mut store);
    let record = store
        .record_milk_production(farm_id, 100, 60, 2, NOW)
        .expect("valid milk record");
    assert_eq!(record.total_milk, 100);
    assert_eq!(record.sold_milk, 60);
    assert_eq!(record.remaining_milk, 40);
    assert_eq!(record.revenue, 120);
    assert_eq!(record.date, NOW);
}

#[test]
fn milk_production_boundaries() {
    let mut store = EntityStore::open();
    let farm_id = new_farm(&mut store);
    // Selling everything produced succeeds with nothing remaining.
    let record = store
        .record_milk_production(farm_id, 80, 80, 3, NOW)
        .expect("selling all milk is allowed");
    assert_eq!(record.remaining_milk, 0);
    assert_eq!(record.revenue, 240);
    // Selling more than produced is refused.
    let r = store.record_milk_production(farm_id, 80, 81, 3, NOW);
    assert_eq!(r, Err(StoreError::InvalidPayload));
    // Producing nothing is refused.
    let r = store.record_milk_production(farm_id, 0, 0, 3, NOW);
    assert_eq!(r, Err(StoreError::InvalidPayload));
    // A revenue that does not fit the field is refused.
    let r = store.record_milk_production(farm_id, u64::MAX, u64::MAX, 2, NOW);
    assert_eq!(r, Err(StoreError::InvalidPayload));
}

#[test]
fn milk_production_missing_farm_is_not_found() {
    let mut store = EntityStore::open();
    let r = store.record_milk_production(3, 100, 60, 2, NOW);
    assert_eq!(r, Err(StoreError::NotFound));
}

#[test]
fn expense_validation_and_storage() {
    let mut store = EntityStore::open();
    let farm_id = new_farm(&mut store);
    let expense = store
        .record_expense(farm_id, b"vet".to_vec(), 250, b"spring checkup".to_vec(), NOW)
        .expect("valid expense");
    assert_eq!(expense.amount, 250);
    assert_eq!(expense.category, b"vet".to_vec());
    assert_eq!(expense.description, b"spring checkup".to_vec());
    let r = store.record_expense(farm_id, b"vet".to_vec(), 0, b"free".to_vec(), NOW);
    assert_eq!(r, Err(StoreError::InvalidPayload));
    let r = store.record_expense(99, b"vet".to_vec(), 10, b"x".to_vec(), NOW);
    assert_eq!(r, Err(StoreError::NotFound));
}

#[test]
fn feed_validation_and_storage() {
    let mut store = EntityStore::open();
    let farm_id = new_farm(&mut store);
    let feed = store
        .record_feed(farm_id, b"hay".to_vec(), 500, 120, NOW)
        .expect("valid feed record");
    assert_eq!(feed.quantity, 500);
    assert_eq!(feed.cost, 120);
    let r = store.record_feed(farm_id, b"hay".to_vec(), 0, 120, NOW);
    assert_eq!(r, Err(StoreError::InvalidPayload));
    let r = store.record_feed(farm_id, b"hay".to_vec(), 500, 0, NOW);
    assert_eq!(r, Err(StoreError::InvalidPayload));
    let r = store.record_feed(42, b"hay".to_vec(), 500, 120, NOW);
    assert_eq!(r, Err(StoreError::NotFound));
}

#[test]
fn fresh_farm_aggregates_to_zero() {
    let mut store = EntityStore::open();
    let farm_id = new_farm(&mut store);
    assert_eq!(store.calculate_total_revenue(farm_id), Ok(0));
    assert_eq!(store.calculate_total_expenses(farm_id), Ok(0));
    assert_eq!(store.calculate_total_feed_cost(farm_id), Ok(0));
}

#[test]
fn aggregation_sums_only_the_requested_farm() {
    let mut store = EntityStore::open();
    let farm_id = new_farm(&mut store);
    let other_farm = new_farm(&mut store);
    // Two records with revenue 50 and 75 for the first farm.
    store
        .record_milk_production(farm_id, 100, 50, 1, NOW)
        .expect("valid milk record");
    store
        .record_milk_production(farm_id, 100, 75, 1, NOW)
        .expect("valid milk record");
    // A third record for another farm must not change the total.
    store
        .record_milk_production(other_farm, 100, 90, 7, NOW)
        .expect("valid milk record");
    assert_eq!(store.calculate_total_revenue(farm_id), Ok(125));
    assert_eq!(store.calculate_total_revenue(other_farm), Ok(630));
}

#[test]
fn aggregation_missing_farm_is_not_found() {
    let store = EntityStore::open();
    assert_eq!(store.calculate_total_revenue(7), Err(StoreError::NotFound));
    assert_eq!(store.calculate_total_expenses(7), Err(StoreError::NotFound));
    assert_eq!(store.calculate_total_feed_cost(7), Err(StoreError::NotFound));
}

#[test]
fn expense_and_feed_totals_sum_in_order() {
    let mut store = EntityStore::open();
    let farm_id = new_farm(&mut store);
    store
        .record_expense(farm_id, b"vet".to_vec(), 250, b"a".to_vec(), NOW)
        .expect("valid expense");
    store
        .record_expense(farm_id, b"fuel".to_vec(), 40, b"b".to_vec(), NOW)
        .expect("valid expense");
    store
        .record_feed(farm_id, b"hay".to_vec(), 500, 120, NOW)
        .expect("valid feed record");
    store
        .record_feed(farm_id, b"silage".to_vec(), 200, 85, NOW)
        .expect("valid feed record");
    assert_eq!(store.calculate_total_expenses(farm_id), Ok(290));
    assert_eq!(store.calculate_total_feed_cost(farm_id), Ok(205));
}

#[test]
fn stored_farm_reads_back_equal() {
    let mut store = EntityStore::open();
    let (name, location, owner, contact, email) = farm_payload();
    let created = store
        .create_farm(name, location, owner, contact, email, 40, NOW)
        .expect("valid farm payload");
    // The persisted encoding decodes back to the created value.
    assert_eq!(store.get_farm(created.id), Some(created));
    assert_eq!(store.get_farm(1234), None);
}

#[test]
fn boundary_length_text_is_accepted() {
    // Text fields at the schema's per-field byte cap go through and
    // are stored unchanged; the cap keeps every encoding within the
    // fixed per-entity size bound.
    let mut store = EntityStore::open();
    let farm_id = new_farm(&mut store);
    let farm = store
        .create_farm(
            vec![b'n'; 64],
            vec![b'l'; 64],
            vec![b'o'; 64],
            vec![b'c'; 64],
            vec![b'e'; 64],
            40,
            NOW,
        )
        .expect("boundary-length farm payload");
    assert_eq!(farm.name, vec![b'n'; 64]);
    let expense = store
        .record_expense(farm_id, vec![b'c'; 64], 10, vec![b'd'; 64], NOW)
        .expect("boundary-length expense payload");
    assert_eq!(expense.description, vec![b'd'; 64]);
}
