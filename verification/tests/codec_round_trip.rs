//! Round-trip tests of the canonical byte codec: decoding a persisted
//! encoding yields a value equal to the original, and corrupt or
//! truncated bytes are refused.

use dairy_ledger::codec::{
    decode_animal, decode_expense, decode_farm, decode_feed, decode_milk, encode_animal,
    encode_expense, encode_farm, encode_feed, encode_milk,
};
use dairy_ledger::{Animal, Expense, Farm, FeedRecord, MilkRecord};

fn sample_farm() -> Farm {
    Farm {
        id: 17,
        name: b"Green Meadows".to_vec(),
        location: b"Hill Valley".to_vec(),
        owner: b"Alex Mason".to_vec(),
        contact: b"555-0101".to_vec(),
        email: b"farm@example.com".to_vec(),
        total_cows: 40,
        created_at: 1_700_000_000,
    }
}

#[test]
fn farm_round_trip() {
    let farm = sample_farm();
    let bytes = encode_farm(&farm);
    assert_eq!(decode_farm(&bytes), Some(farm));
}

#[test]
fn animal_round_trip() {
    let animal = Animal {
        id: 3,
        farm_id: 0,
        tag_number: b"TAG-7".to_vec(),
        breed: b"Holstein".to_vec(),
        age: 4,
        milk_yield: 25,
        health_status: b"Healthy".to_vec(),
    };
    let bytes = encode_animal(&animal);
    assert_eq!(decode_animal(&bytes), Some(animal));
}

#[test]
fn milk_record_round_trip() {
    let record = MilkRecord {
        id: 5,
        farm_id: 0,
        date: 1_700_000_000,
        total_milk: 100,
        sold_milk: 60,
        remaining_milk: 40,
        revenue: 120,
    };
    let bytes = encode_milk(&record);
    assert_eq!(decode_milk(&bytes), Some(record));
}

#[test]
fn expense_round_trip() {
    let expense = Expense {
        id: 8,
        farm_id: 2,
        date: 1_700_000_000,
        category: b"vet".to_vec(),
        amount: 250,
        description: b"spring checkup".to_vec(),
    };
    let bytes = encode_expense(&expense);
    assert_eq!(decode_expense(&bytes), Some(expense));
}

#[test]
fn feed_record_round_trip() {
    let feed = FeedRecord {
        id: 9,
        farm_id: 2,
        feed_type: b"hay".to_vec(),
        quantity: 500,
        cost: 120,
        date: 1_700_000_000,
    };
    let bytes = encode_feed(&feed);
    assert_eq!(decode_feed(&bytes), Some(feed));
}

#[test]
fn empty_text_fields_round_trip() {
    let mut farm = sample_farm();
    farm.location = Vec::new();
    farm.owner = Vec::new();
    let bytes = encode_farm(&farm);
    assert_eq!(decode_farm(&bytes), Some(farm));
}

#[test]
fn truncated_or_padded_encodings_are_refused() {
    let farm = sample_farm();
    let bytes = encode_farm(&farm);
    let truncated = bytes[..bytes.len() - 1].to_vec();
    assert_eq!(decode_farm(&truncated), None);
    let mut padded = bytes.clone();
    padded.push(0);
    assert_eq!(decode_farm(&padded), None);
    assert_eq!(decode_farm(&Vec::new()), None);
}
