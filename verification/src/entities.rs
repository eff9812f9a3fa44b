//! The five entity types of the store, their mathematical views, and the
//! error taxonomy shared by every store operation.
//!
//! All quantities (milk volumes, money amounts, feed weights) are
//! unsigned fixed-point integers whose scale is the caller's choice;
//! text fields are byte strings. Every entity is immutable once written
//! and carries the system-assigned identifier in its `id` field.

use vstd::prelude::*;

verus! {

/// Why a store operation was refused.
///
/// `InvalidPayload`: a required field was empty or a numeric field
/// violated a domain constraint. `NotFound`: the referenced farm does
/// not exist. Field-shape checks always run before referential checks,
/// so a malformed payload against a nonexistent farm reports
/// `InvalidPayload`, never `NotFound`.
#[derive(Clone, Copy, Debug, PartialEq, Eq, Structural)]
pub enum StoreError {
    InvalidPayload,
    NotFound,
}

/// A dairy farm. `name`, `contact` and `email` are non-empty for every
/// farm the store accepts.
#[derive(Clone, Debug, PartialEq)]
pub struct Farm {
    pub id: u64,
    pub name: Vec<u8>,
    pub location: Vec<u8>,
    pub owner: Vec<u8>,
    pub contact: Vec<u8>,
    pub email: Vec<u8>,
    pub total_cows: u64,
    pub created_at: u64,
}

/// The mathematical value of a [`Farm`].
#[verifier::ext_equal]
pub ghost struct FarmView {
    pub id: u64,
    pub name: Seq<u8>,
    pub location: Seq<u8>,
    pub owner: Seq<u8>,
    pub contact: Seq<u8>,
    pub email: Seq<u8>,
    pub total_cows: u64,
    pub created_at: u64,
}

impl View for Farm {
    type V = FarmView;

    open spec fn view(&self) -> FarmView {
        FarmView {
            id: self.id,
            name: self.name@,
            location: self.location@,
            owner: self.owner@,
            contact: self.contact@,
            email: self.email@,
            total_cows: self.total_cows,
            created_at: self.created_at,
        }
    }
}

/// A dairy animal registered under an existing farm. `tag_number` and
/// `breed` are non-empty; `farm_id` names a farm present in the store.
#[derive(Clone, Debug, PartialEq)]
pub struct Animal {
    pub id: u64,
    pub farm_id: u64,
    pub tag_number: Vec<u8>,
    pub breed: Vec<u8>,
    pub age: u64,
    pub milk_yield: u64,
    pub health_status: Vec<u8>,
}

/// The mathematical value of an [`Animal`].
#[verifier::ext_equal]
pub ghost struct AnimalView {
    pub id: u64,
    pub farm_id: u64,
    pub tag_number: Seq<u8>,
    pub breed: Seq<u8>,
    pub age: u64,
    pub milk_yield: u64,
    pub health_status: Seq<u8>,
}

impl View for Animal {
    type V = AnimalView;

    open spec fn view(&self) -> AnimalView {
        AnimalView {
            id: self.id,
            farm_id: self.farm_id,
            tag_number: self.tag_number@,
            breed: self.breed@,
            age: self.age,
            milk_yield: self.milk_yield,
            health_status: self.health_status@,
        }
    }
}

/// One day's milk production for a farm. `remaining_milk` and `revenue`
/// are derived: `remaining_milk == total_milk - sold_milk` and
/// `revenue == sold_milk * revenue_per_liter`.
#[derive(Clone, Debug, PartialEq)]
pub struct MilkRecord {
    pub id: u64,
    pub farm_id: u64,
    pub date: u64,
    pub total_milk: u64,
    pub sold_milk: u64,
    pub remaining_milk: u64,
    pub revenue: u64,
}

/// The mathematical value of a [`MilkRecord`].
#[verifier::ext_equal]
pub ghost struct MilkRecordView {
    pub id: u64,
    pub farm_id: u64,
    pub date: u64,
    pub total_milk: u64,
    pub sold_milk: u64,
    pub remaining_milk: u64,
    pub revenue: u64,
}

impl View for MilkRecord {
    type V = MilkRecordView;

    open spec fn view(&self) -> MilkRecordView {
        MilkRecordView {
            id: self.id,
            farm_id: self.farm_id,
            date: self.date,
            total_milk: self.total_milk,
            sold_milk: self.sold_milk,
            remaining_milk: self.remaining_milk,
            revenue: self.revenue,
        }
    }
}

/// An expense booked against a farm. `amount` is strictly positive.
#[derive(Clone, Debug, PartialEq)]
pub struct Expense {
    pub id: u64,
    pub farm_id: u64,
    pub date: u64,
    pub category: Vec<u8>,
    pub amount: u64,
    pub description: Vec<u8>,
}

/// The mathematical value of an [`Expense`].
#[verifier::ext_equal]
pub ghost struct ExpenseView {
    pub id: u64,
    pub farm_id: u64,
    pub date: u64,
    pub category: Seq<u8>,
    pub amount: u64,
    pub description: Seq<u8>,
}

impl View for Expense {
    type V = ExpenseView;

    open spec fn view(&self) -> ExpenseView {
        ExpenseView {
            id: self.id,
            farm_id: self.farm_id,
            date: self.date,
            category: self.category@,
            amount: self.amount,
            description: self.description@,
        }
    }
}

/// A feed purchase for a farm. `quantity` and `cost` are strictly
/// positive.
#[derive(Clone, Debug, PartialEq)]
pub struct FeedRecord {
    pub id: u64,
    pub farm_id: u64,
    pub feed_type: Vec<u8>,
    pub quantity: u64,
    pub cost: u64,
    pub date: u64,
}

/// The mathematical value of a [`FeedRecord`].
#[verifier::ext_equal]
pub ghost struct FeedRecordView {
    pub id: u64,
    pub farm_id: u64,
    pub feed_type: Seq<u8>,
    pub quantity: u64,
    pub cost: u64,
    pub date: u64,
}

impl View for FeedRecord {
    type V = FeedRecordView;

    open spec fn view(&self) -> FeedRecordView {
        FeedRecordView {
            id: self.id,
            farm_id: self.farm_id,
            feed_type: self.feed_type@,
            quantity: self.quantity,
            cost: self.cost,
            date: self.date,
        }
    }
}

/// The health status every newly registered animal starts with: the
/// ASCII bytes of "Healthy".
pub open spec fn healthy_status() -> Seq<u8> {
    seq![72u8, 101u8, 97u8, 108u8, 116u8, 104u8, 121u8]
}

/// Builds the default health status for a newly registered animal.
pub fn healthy_status_bytes() -> (r: Vec<u8>)
    ensures
        r@ == healthy_status(),
{
    let mut v: Vec<u8> = Vec::new();
    v.push(72);
    v.push(101);
    v.push(97);
    v.push(108);
    v.push(116);
    v.push(104);
    v.push(121);
    proof {
        assert(v@ =~= healthy_status());
    }
    v
}

} // verus!
