//! The entity store: the only writer of entities.
//!
//! It composes one durable identifier allocator with five keyed
//! collections and enforces, before any insert of a dependent record,
//! that the referenced farm exists. Field-shape validation always runs
//! before the referential check, so a malformed payload against a
//! nonexistent farm reports `InvalidPayload`, never `NotFound`.
//! Aggregate queries scan one collection in ascending identifier order
//! and sum one field over the records of a single farm.

use vstd::prelude::*;
use vstd::pervasive::unreached;

use ic_stable_structures::cell::Cell;
use ic_stable_structures::memory_manager::{MemoryId, MemoryManager};
use ic_stable_structures::{DefaultMemoryImpl, StableBTreeMap};

use crate::codec::{
    decode_expense, decode_farm, decode_feed, decode_milk, encode_animal, MAX_TEXT_LEN,
    encode_expense, encode_farm, encode_feed, encode_milk, lemma_animal_round_trip,
    lemma_expense_round_trip, lemma_farm_round_trip, lemma_feed_round_trip,
    lemma_milk_round_trip, spec_decode_animal, spec_decode_expense, spec_decode_farm,
    spec_decode_feed, spec_decode_milk, spec_encode_animal, spec_encode_expense,
    spec_encode_farm, spec_encode_feed, spec_encode_milk,
};
use crate::entities::{
    healthy_status, healthy_status_bytes, Animal, AnimalView, Expense, ExpenseView, Farm,
    FarmView, FeedRecord, FeedRecordView, MilkRecord, MilkRecordView, StoreError,
};
use crate::stable::{counter_value, table_entries, ByteTable, IdCounter};

verus! {

/// The mathematical state of an [`EntityStore`]: the next identifier
/// to hand out and the five entity sequences, each in ascending
/// identifier order.
#[verifier::ext_equal]
pub ghost struct StoreView {
    pub next_id: u64,
    pub farms: Seq<FarmView>,
    pub animals: Seq<AnimalView>,
    pub milks: Seq<MilkRecordView>,
    pub expenses: Seq<ExpenseView>,
    pub feeds: Seq<FeedRecordView>,
}

/// Whether some entry of `e` carries the key `k`.
pub open spec fn has_key(e: Seq<(u64, Seq<u8>)>, k: u64) -> bool {
    exists|i: int| 0 <= i < e.len() && e[i].0 == k
}

/// Shape of one persisted collection: keys strictly ascending and below
/// `next`, and every stored encoding decodes to an entity carrying its
/// own key.
pub open spec fn table_ok<T>(
    e: Seq<(u64, Seq<u8>)>,
    next: u64,
    dec: spec_fn(Seq<u8>) -> Option<T>,
    id_of: spec_fn(T) -> u64,
) -> bool {
    &&& forall|i: int, j: int| 0 <= i < j < e.len() ==> e[i].0 < e[j].0
    &&& forall|i: int| 0 <= i < e.len() ==> e[i].0 < next
    &&& forall|i: int|
        0 <= i < e.len() ==> dec(e[i].1) is Some && id_of(dec(e[i].1)->0) == e[i].0
}

/// Referential integrity of one dependent collection: every stored
/// record names a farm key present in `fe`.
pub open spec fn refs_ok<T>(
    e: Seq<(u64, Seq<u8>)>,
    fe: Seq<(u64, Seq<u8>)>,
    dec: spec_fn(Seq<u8>) -> Option<T>,
    farm_of: spec_fn(T) -> u64,
) -> bool {
    forall|i: int| 0 <= i < e.len() ==> has_key(fe, farm_of(dec(e[i].1)->0))
}

/// No key occurs in both collections: identifiers come from one shared
/// counter, so they are unique across entity types.
pub open spec fn keys_disjoint(a: Seq<(u64, Seq<u8>)>, b: Seq<(u64, Seq<u8>)>) -> bool {
    forall|i: int, j: int| 0 <= i < a.len() && 0 <= j < b.len() ==> a[i].0 != b[j].0
}

/// Whether a farm with identifier `farm_id` exists in the state `v`.
pub open spec fn farm_exists(v: StoreView, farm_id: u64) -> bool {
    exists|i: int| 0 <= i < v.farms.len() && v.farms[i].id == farm_id
}

/// Whether one text field fits the per-field byte cap that keeps
/// every encoding within [`crate::codec::MAX_ENCODED_LEN`]. The cap
/// is a schema constraint, not payload validation: the operations
/// require it, and a caller that breaks it has misconfigured the
/// schema, which spec-wise is fatal, never a recoverable error.
pub open spec fn text_fits(t: Seq<u8>) -> bool {
    t.len() <= MAX_TEXT_LEN
}

/// Whether a farm payload passes field-shape validation: `name`,
/// `contact` and `email` non-empty.
pub open spec fn farm_payload_valid(name: Seq<u8>, contact: Seq<u8>, email: Seq<u8>) -> bool {
    name.len() > 0 && contact.len() > 0 && email.len() > 0
}

/// The persistent entity store.
pub struct EntityStore {
    counter: IdCounter,
    farms: ByteTable,
    animals: ByteTable,
    milks: ByteTable,
    expenses: ByteTable,
    feeds: ByteTable,
}

impl View for EntityStore {
    type V = StoreView;

    closed spec fn view(&self) -> StoreView {
        StoreView {
            next_id: counter_value(self.counter),
            farms: table_entries(self.farms).map(
                |i: int, kv: (u64, Seq<u8>)| spec_decode_farm(kv.1)->0,
            ),
            animals: table_entries(self.animals).map(
                |i: int, kv: (u64, Seq<u8>)| spec_decode_animal(kv.1)->0,
            ),
            milks: table_entries(self.milks).map(
                |i: int, kv: (u64, Seq<u8>)| spec_decode_milk(kv.1)->0,
            ),
            expenses: table_entries(self.expenses).map(
                |i: int, kv: (u64, Seq<u8>)| spec_decode_expense(kv.1)->0,
            ),
            feeds: table_entries(self.feeds).map(
                |i: int, kv: (u64, Seq<u8>)| spec_decode_feed(kv.1)->0,
            ),
        }
    }
}

impl EntityStore {
    /// Well-formedness of the store: every collection has the
    /// [`table_ok`] shape under the shared counter, every dependent
    /// record names an existing farm, and keys never repeat across
    /// collections.
    pub closed spec fn inv(self) -> bool {
        let fe = table_entries(self.farms);
        let ae = table_entries(self.animals);
        let me = table_entries(self.milks);
        let ee = table_entries(self.expenses);
        let ge = table_entries(self.feeds);
        let next = counter_value(self.counter);
        &&& table_ok(fe, next, |b: Seq<u8>| spec_decode_farm(b), |f: FarmView| f.id)
        &&& table_ok(ae, next, |b: Seq<u8>| spec_decode_animal(b), |a: AnimalView| a.id)
        &&& table_ok(me, next, |b: Seq<u8>| spec_decode_milk(b), |m: MilkRecordView| m.id)
        &&& table_ok(ee, next, |b: Seq<u8>| spec_decode_expense(b), |x: ExpenseView| x.id)
        &&& table_ok(ge, next, |b: Seq<u8>| spec_decode_feed(b), |g: FeedRecordView| g.id)
        &&& refs_ok(ae, fe, |b: Seq<u8>| spec_decode_animal(b), |a: AnimalView| a.farm_id)
        &&& refs_ok(me, fe, |b: Seq<u8>| spec_decode_milk(b), |m: MilkRecordView| m.farm_id)
        &&& refs_ok(ee, fe, |b: Seq<u8>| spec_decode_expense(b), |x: ExpenseView| x.farm_id)
        &&& refs_ok(ge, fe, |b: Seq<u8>| spec_decode_feed(b), |g: FeedRecordView| g.farm_id)
        &&& keys_disjoint(fe, ae)
        &&& keys_disjoint(fe, me)
        &&& keys_disjoint(fe, ee)
        &&& keys_disjoint(fe, ge)
        &&& keys_disjoint(ae, me)
        &&& keys_disjoint(ae, ee)
        &&& keys_disjoint(ae, ge)
        &&& keys_disjoint(me, ee)
        &&& keys_disjoint(me, ge)
        &&& keys_disjoint(ee, ge)
    }

    /// A farm key is present in the farm collection exactly when the
    /// state holds a farm with that identifier.
    proof fn lemma_farm_lookup(self, k: u64)
        requires
            self.inv(),
        ensures
            has_key(table_entries(self.farms), k) <==> farm_exists(self.view(), k),
    {
        let fe = table_entries(self.farms);
        let v = self.view();
        assert(v.farms.len() == fe.len());
        if has_key(fe, k) {
            let i = choose|i: int| 0 <= i < fe.len() && fe[i].0 == k;
            assert(v.farms[i] == spec_decode_farm(fe[i].1)->0);
            assert(v.farms[i].id == k);
        }
        if farm_exists(v, k) {
            let i = choose|i: int| 0 <= i < v.farms.len() && v.farms[i].id == k;
            assert(v.farms[i] == spec_decode_farm(fe[i].1)->0);
            assert(fe[i].0 == k);
        }
    }

    /// Every stored milk encoding decodes to the corresponding
    /// record of the abstract state.
    proof fn lemma_milk_decode_facts(self)
        requires
            self.inv(),
        ensures
            self@.milks.len() == table_entries(self.milks).len(),
            forall|j: int|
                0 <= j < table_entries(self.milks).len() ==> spec_decode_milk(
                    table_entries(self.milks)[j].1,
                ) == Some(self@.milks[j]),
    {
        let me = table_entries(self.milks);
        let v = self@;
        assert forall|j: int| 0 <= j < me.len() implies spec_decode_milk(me[j].1) == Some(
            v.milks[j],
        ) by {
            assert(v.milks[j] == spec_decode_milk(me[j].1)->0);
        }
    }

    /// Every stored expense encoding decodes to the corresponding
    /// record of the abstract state.
    proof fn lemma_expense_decode_facts(self)
        requires
            self.inv(),
        ensures
            self@.expenses.len() == table_entries(self.expenses).len(),
            forall|j: int|
                0 <= j < table_entries(self.expenses).len() ==> spec_decode_expense(
                    table_entries(self.expenses)[j].1,
                ) == Some(self@.expenses[j]),
    {
        let ee = table_entries(self.expenses);
        let v = self@;
        assert forall|j: int| 0 <= j < ee.len() implies spec_decode_expense(ee[j].1) == Some(
            v.expenses[j],
        ) by {
            assert(v.expenses[j] == spec_decode_expense(ee[j].1)->0);
        }
    }

    /// Every stored feed encoding decodes to the corresponding record
    /// of the abstract state.
    proof fn lemma_feed_decode_facts(self)
        requires
            self.inv(),
        ensures
            self@.feeds.len() == table_entries(self.feeds).len(),
            forall|j: int|
                0 <= j < table_entries(self.feeds).len() ==> spec_decode_feed(
                    table_entries(self.feeds)[j].1,
                ) == Some(self@.feeds[j]),
    {
        let ge = table_entries(self.feeds);
        let v = self@;
        assert forall|j: int| 0 <= j < ge.len() implies spec_decode_feed(ge[j].1) == Some(
            v.feeds[j],
        ) by {
            assert(v.feeds[j] == spec_decode_feed(ge[j].1)->0);
        }
    }

    /// Opens the store over the process's durable backend: the
    /// counter and the five collections each get their own
    /// virtual-memory region under a fixed region identifier, so a
    /// backend nothing has written yields an empty well-formed store,
    /// and a backend a previous run of this store wrote is reattached
    /// as it was left -- the counter keeps its persisted value, above
    /// every persisted identifier, so identifiers stay unique and
    /// increasing across restarts.
    ///
    /// Relies on `MemoryManager::init` and `MemoryManager::get`:
    /// distinct memory identifiers name disjoint growable regions of
    /// one backend, found again under the same identifier after a
    /// restart; on `Cell::init` and `StableBTreeMap::init`: each
    /// structure reloads exactly what its region holds, and holds
    /// nothing over fresh memory. That a reattached state satisfies
    /// [`EntityStore::inv`] rests on these regions being written by
    /// this store alone: a fresh backend satisfies the invariant
    /// trivially and every operation of this library preserves it.
    /// For the same reason, open the store once per process: a second
    /// open would hand out a second handle on the same regions, and
    /// writes through one would not be seen in the contracts of the
    /// other. A region whose header cannot be read terminates the
    /// process, the fatal path for a broken durability guarantee.
    #[verifier::external_body]
    pub fn open() -> (r: EntityStore)
        ensures
            r.inv(),
    {
        let mgr = MemoryManager::init(DefaultMemoryImpl::default());
        EntityStore {
            counter: IdCounter {
                cell: Cell::init(mgr.get(MemoryId::new(0)), 0).expect("counter region"),
            },
            farms: ByteTable { map: StableBTreeMap::init(mgr.get(MemoryId::new(10))) },
            animals: ByteTable { map: StableBTreeMap::init(mgr.get(MemoryId::new(11))) },
            milks: ByteTable { map: StableBTreeMap::init(mgr.get(MemoryId::new(12))) },
            expenses: ByteTable { map: StableBTreeMap::init(mgr.get(MemoryId::new(13))) },
            feeds: ByteTable { map: StableBTreeMap::init(mgr.get(MemoryId::new(14))) },
        }
    }

    /// Validates the payload, allocates the next identifier, stamps
    /// `created_at` with `now`, persists the farm, and returns the
    /// stored value.
    ///
    /// Succeeds exactly when `name`, `contact` and `email` are all
    /// non-empty; on failure nothing is persisted and no identifier
    /// is consumed. Callers keep every text field within
    /// [`text_fits`] -- the schema bound that keeps the encoding
    /// under [`crate::codec::MAX_ENCODED_LEN`]; breaking it is a
    /// schema design violation and fatal, so it is no error variant
    /// here.
    #[verifier::rlimit(100)]
    pub fn create_farm(
        &mut self,
        name: Vec<u8>,
        location: Vec<u8>,
        owner: Vec<u8>,
        contact: Vec<u8>,
        email: Vec<u8>,
        total_cows: u64,
        now: u64,
    ) -> (r: Result<Farm, StoreError>)
        requires
            old(self).inv(),
            old(self)@.next_id < u64::MAX,
            text_fits(name@),
            text_fits(location@),
            text_fits(owner@),
            text_fits(contact@),
            text_fits(email@),
        ensures
            final(self).inv(),
            (match r {
                Ok(f) => {
                    &&& farm_payload_valid(name@, contact@, email@)
                    &&& f@ == (FarmView {
                        id: old(self)@.next_id,
                        name: name@,
                        location: location@,
                        owner: owner@,
                        contact: contact@,
                        email: email@,
                        total_cows: total_cows,
                        created_at: now,
                    })
                    &&& final(self)@ == (StoreView {
                        next_id: (old(self)@.next_id + 1) as u64,
                        farms: old(self)@.farms.push(f@),
                        ..old(self)@
                    })
                },
                Err(e) => {
                    &&& e == StoreError::InvalidPayload
                    &&& !farm_payload_valid(name@, contact@, email@)
                    &&& final(self)@ == old(self)@
                },
            }),
    {
        if name.len() == 0 || contact.len() == 0 || email.len() == 0 {
            return Err(StoreError::InvalidPayload);
        }
        let id = self.counter.get();
        let farm = Farm {
            id: id,
            name: name,
            location: location,
            owner: owner,
            contact: contact,
            email: email,
            total_cows: total_cows,
            created_at: now,
        };
        let bytes = encode_farm(&farm);
        proof {
            assert(farm.name.len() == farm.name@.len());
            assert(farm.location.len() == farm.location@.len());
            assert(farm.owner.len() == farm.owner@.len());
            assert(farm.contact.len() == farm.contact@.len());
            assert(farm.email.len() == farm.email@.len());
            lemma_farm_round_trip(farm@);
            crate::codec::lemma_farm_encoding_bounded(farm@);
            assert(bytes@.len() <= crate::codec::MAX_ENCODED_LEN);
        }
        proof {
            assert(forall|i: int|
                0 <= i < table_entries(old(self).farms).len() ==> table_entries(
                    old(self).farms,
                )[i].0 < id);
        }
        self.counter.set(id + 1);
        self.farms.append(id, bytes);
        proof {
            lemma_farm_appended(*old(self), *self, farm@, spec_encode_farm(farm@));
        }
        Ok(farm)
    }
}

/// Whether an animal payload passes field-shape validation:
/// `tag_number` and `breed` non-empty.
pub open spec fn animal_payload_valid(tag_number: Seq<u8>, breed: Seq<u8>) -> bool {
    tag_number.len() > 0 && breed.len() > 0
}

/// Whether a milk-production payload passes field-shape validation:
/// some milk was produced, no more was sold than produced, and the
/// revenue `sold_milk * revenue_per_liter` fits the revenue field.
pub open spec fn milk_payload_valid(total_milk: u64, sold_milk: u64, revenue_per_liter: u64) -> bool {
    &&& total_milk > 0
    &&& sold_milk <= total_milk
    &&& sold_milk * revenue_per_liter <= u64::MAX
}

/// Whether an expense payload passes field-shape validation: a
/// strictly positive amount.
pub open spec fn expense_payload_valid(amount: u64) -> bool {
    amount > 0
}

/// Whether a feed payload passes field-shape validation: strictly
/// positive quantity and cost.
pub open spec fn feed_payload_valid(quantity: u64, cost: u64) -> bool {
    quantity > 0 && cost > 0
}

impl EntityStore {
    /// Validates the payload, checks that the farm exists, allocates
    /// the next identifier, and persists the animal with the default
    /// health status.
    ///
    /// Fails with `InvalidPayload` exactly when `tag_number` or
    /// `breed` is empty, and otherwise with `NotFound` exactly when
    /// no farm carries `farm_id`; on failure nothing is persisted.
    /// Callers keep both text fields within [`text_fits`], the fatal
    /// schema bound.
    #[verifier::rlimit(100)]
    pub fn register_dairy_animal(
        &mut self,
        farm_id: u64,
        tag_number: Vec<u8>,
        breed: Vec<u8>,
        age: u64,
        milk_yield: u64,
    ) -> (r: Result<Animal, StoreError>)
        requires
            old(self).inv(),
            old(self)@.next_id < u64::MAX,
            text_fits(tag_number@),
            text_fits(breed@),
        ensures
            final(self).inv(),
            (match r {
                Ok(a) => {
                    &&& animal_payload_valid(tag_number@, breed@)
                    &&& farm_exists(old(self)@, farm_id)
                    &&& a@ == (AnimalView {
                        id: old(self)@.next_id,
                        farm_id: farm_id,
                        tag_number: tag_number@,
                        breed: breed@,
                        age: age,
                        milk_yield: milk_yield,
                        health_status: healthy_status(),
                    })
                    &&& final(self)@ == (StoreView {
                        next_id: (old(self)@.next_id + 1) as u64,
                        animals: old(self)@.animals.push(a@),
                        ..old(self)@
                    })
                },
                Err(e) => {
                    &&& final(self)@ == old(self)@
                    &&& (e == StoreError::InvalidPayload <==> !animal_payload_valid(
                        tag_number@,
                        breed@,
                    ))
                    &&& (e == StoreError::NotFound <==> animal_payload_valid(tag_number@, breed@)
                        && !farm_exists(old(self)@, farm_id))
                },
            }),
    {
        if tag_number.len() == 0 || breed.len() == 0 {
            return Err(StoreError::InvalidPayload);
        }
        proof {
            old(self).lemma_farm_lookup(farm_id);
        }
        if !self.farms.contains(farm_id) {
            return Err(StoreError::NotFound);
        }
        let id = self.counter.get();
        let animal = Animal {
            id: id,
            farm_id: farm_id,
            tag_number: tag_number,
            breed: breed,
            age: age,
            milk_yield: milk_yield,
            health_status: healthy_status_bytes(),
        };
        let bytes = encode_animal(&animal);
        proof {
            assert(animal.tag_number.len() == animal.tag_number@.len());
            assert(animal.breed.len() == animal.breed@.len());
            assert(animal.health_status@.len() == 7);
            lemma_animal_round_trip(animal@);
            crate::codec::lemma_animal_encoding_bounded(animal@);
            assert(bytes@.len() <= crate::codec::MAX_ENCODED_LEN);
            assert(forall|i: int|
                0 <= i < table_entries(old(self).animals).len() ==> table_entries(
                    old(self).animals,
                )[i].0 < id);
        }
        self.counter.set(id + 1);
        self.animals.append(id, bytes);
        proof {
            lemma_animal_appended(*old(self), *self, animal@, spec_encode_animal(animal@));
        }
        Ok(animal)
    }

    /// Validates the payload, checks that the farm exists, allocates
    /// the next identifier, computes the derived fields, stamps the
    /// record with `now`, and persists it.
    ///
    /// The stored record satisfies
    /// `remaining_milk == total_milk - sold_milk` and
    /// `revenue == sold_milk * revenue_per_liter`. Fails with
    /// `InvalidPayload` exactly when no milk was produced, more was
    /// sold than produced, or the revenue would not fit its field; and
    /// otherwise with `NotFound` exactly when no farm carries
    /// `farm_id`.
    pub fn record_milk_production(
        &mut self,
        farm_id: u64,
        total_milk: u64,
        sold_milk: u64,
        revenue_per_liter: u64,
        now: u64,
    ) -> (r: Result<MilkRecord, StoreError>)
        requires
            old(self).inv(),
            old(self)@.next_id < u64::MAX,
        ensures
            final(self).inv(),
            (match r {
                Ok(m) => {
                    &&& milk_payload_valid(total_milk, sold_milk, revenue_per_liter)
                    &&& farm_exists(old(self)@, farm_id)
                    &&& m@ == (MilkRecordView {
                        id: old(self)@.next_id,
                        farm_id: farm_id,
                        date: now,
                        total_milk: total_milk,
                        sold_milk: sold_milk,
                        remaining_milk: (total_milk - sold_milk) as u64,
                        revenue: (sold_milk * revenue_per_liter) as u64,
                    })
                    &&& final(self)@ == (StoreView {
                        next_id: (old(self)@.next_id + 1) as u64,
                        milks: old(self)@.milks.push(m@),
                        ..old(self)@
                    })
                },
                Err(e) => {
                    &&& final(self)@ == old(self)@
                    &&& (e == StoreError::InvalidPayload <==> !milk_payload_valid(
                        total_milk,
                        sold_milk,
                        revenue_per_liter,
                    ))
                    &&& (e == StoreError::NotFound <==> milk_payload_valid(
                        total_milk,
                        sold_milk,
                        revenue_per_liter,
                    ) && !farm_exists(old(self)@, farm_id))
                },
            }),
    {
        if total_milk == 0 || sold_milk > total_milk {
            return Err(StoreError::InvalidPayload);
        }
        let revenue = match sold_milk.checked_mul(revenue_per_liter) {
            Some(v) => v,
            None => {
                return Err(StoreError::InvalidPayload);
            },
        };
        proof {
            old(self).lemma_farm_lookup(farm_id);
        }
        if !self.farms.contains(farm_id) {
            return Err(StoreError::NotFound);
        }
        let id = self.counter.get();
        let record = MilkRecord {
            id: id,
            farm_id: farm_id,
            date: now,
            total_milk: total_milk,
            sold_milk: sold_milk,
            remaining_milk: total_milk - sold_milk,
            revenue: revenue,
        };
        let bytes = encode_milk(&record);
        proof {
            lemma_milk_round_trip(record@);
            crate::codec::lemma_milk_encoding_bounded(record@);
            assert(bytes@.len() <= crate::codec::MAX_ENCODED_LEN);
            assert(forall|i: int|
                0 <= i < table_entries(old(self).milks).len() ==> table_entries(
                    old(self).milks,
                )[i].0 < id);
        }
        self.counter.set(id + 1);
        self.milks.append(id, bytes);
        proof {
            lemma_milk_appended(*old(self), *self, record@, spec_encode_milk(record@));
        }
        Ok(record)
    }

    /// Validates the payload, checks that the farm exists, allocates
    /// the next identifier, stamps the expense with `now`, and
    /// persists it.
    ///
    /// Fails with `InvalidPayload` exactly when `amount` is zero, and
    /// otherwise with `NotFound` exactly when no farm carries
    /// `farm_id`. Callers keep both text fields within
    /// [`text_fits`], the fatal schema bound.
    pub fn record_expense(
        &mut self,
        farm_id: u64,
        category: Vec<u8>,
        amount: u64,
        description: Vec<u8>,
        now: u64,
    ) -> (r: Result<Expense, StoreError>)
        requires
            old(self).inv(),
            old(self)@.next_id < u64::MAX,
            text_fits(category@),
            text_fits(description@),
        ensures
            final(self).inv(),
            (match r {
                Ok(x) => {
                    &&& expense_payload_valid(amount)
                    &&& farm_exists(old(self)@, farm_id)
                    &&& x@ == (ExpenseView {
                        id: old(self)@.next_id,
                        farm_id: farm_id,
                        date: now,
                        category: category@,
                        amount: amount,
                        description: description@,
                    })
                    &&& final(self)@ == (StoreView {
                        next_id: (old(self)@.next_id + 1) as u64,
                        expenses: old(self)@.expenses.push(x@),
                        ..old(self)@
                    })
                },
                Err(e) => {
                    &&& final(self)@ == old(self)@
                    &&& (e == StoreError::InvalidPayload <==> !expense_payload_valid(amount))
                    &&& (e == StoreError::NotFound <==> expense_payload_valid(amount)
                        && !farm_exists(old(self)@, farm_id))
                },
            }),
    {
        if amount == 0 {
            return Err(StoreError::InvalidPayload);
        }
        proof {
            old(self).lemma_farm_lookup(farm_id);
        }
        if !self.farms.contains(farm_id) {
            return Err(StoreError::NotFound);
        }
        let id = self.counter.get();
        let expense = Expense {
            id: id,
            farm_id: farm_id,
            date: now,
            category: category,
            amount: amount,
            description: description,
        };
        let bytes = encode_expense(&expense);
        proof {
            assert(expense.category.len() == expense.category@.len());
            assert(expense.description.len() == expense.description@.len());
            lemma_expense_round_trip(expense@);
            crate::codec::lemma_expense_encoding_bounded(expense@);
            assert(bytes@.len() <= crate::codec::MAX_ENCODED_LEN);
            assert(forall|i: int|
                0 <= i < table_entries(old(self).expenses).len() ==> table_entries(
                    old(self).expenses,
                )[i].0 < id);
        }
        self.counter.set(id + 1);
        self.expenses.append(id, bytes);
        proof {
            lemma_expense_appended(*old(self), *self, expense@, spec_encode_expense(expense@));
        }
        Ok(expense)
    }

    /// Validates the payload, checks that the farm exists, allocates
    /// the next identifier, stamps the purchase with `now`, and
    /// persists it.
    ///
    /// Fails with `InvalidPayload` exactly when `quantity` or `cost`
    /// is zero, and otherwise with `NotFound` exactly when no farm
    /// carries `farm_id`. Callers keep `feed_type` within
    /// [`text_fits`], the fatal schema bound.
    pub fn record_feed(
        &mut self,
        farm_id: u64,
        feed_type: Vec<u8>,
        quantity: u64,
        cost: u64,
        now: u64,
    ) -> (r: Result<FeedRecord, StoreError>)
        requires
            old(self).inv(),
            old(self)@.next_id < u64::MAX,
            text_fits(feed_type@),
        ensures
            final(self).inv(),
            (match r {
                Ok(g) => {
                    &&& feed_payload_valid(quantity, cost)
                    &&& farm_exists(old(self)@, farm_id)
                    &&& g@ == (FeedRecordView {
                        id: old(self)@.next_id,
                        farm_id: farm_id,
                        feed_type: feed_type@,
                        quantity: quantity,
                        cost: cost,
                        date: now,
                    })
                    &&& final(self)@ == (StoreView {
                        next_id: (old(self)@.next_id + 1) as u64,
                        feeds: old(self)@.feeds.push(g@),
                        ..old(self)@
                    })
                },
                Err(e) => {
                    &&& final(self)@ == old(self)@
                    &&& (e == StoreError::InvalidPayload <==> !feed_payload_valid(quantity, cost))
                    &&& (e == StoreError::NotFound <==> feed_payload_valid(quantity, cost)
                        && !farm_exists(old(self)@, farm_id))
                },
            }),
    {
        if quantity == 0 || cost == 0 {
            return Err(StoreError::InvalidPayload);
        }
        proof {
            old(self).lemma_farm_lookup(farm_id);
        }
        if !self.farms.contains(farm_id) {
            return Err(StoreError::NotFound);
        }
        let id = self.counter.get();
        let feed = FeedRecord {
            id: id,
            farm_id: farm_id,
            feed_type: feed_type,
            quantity: quantity,
            cost: cost,
            date: now,
        };
        let bytes = encode_feed(&feed);
        proof {
            assert(feed.feed_type.len() == feed.feed_type@.len());
            lemma_feed_round_trip(feed@);
            crate::codec::lemma_feed_encoding_bounded(feed@);
            assert(bytes@.len() <= crate::codec::MAX_ENCODED_LEN);
            assert(forall|i: int|
                0 <= i < table_entries(old(self).feeds).len() ==> table_entries(
                    old(self).feeds,
                )[i].0 < id);
        }
        self.counter.set(id + 1);
        self.feeds.append(id, bytes);
        proof {
            lemma_feed_appended(*old(self), *self, feed@, spec_encode_feed(feed@));
        }
        Ok(feed)
    }
}

/// The summed `revenue` of the milk records of farm `farm_id`, in
/// record order.
pub open spec fn revenue_sum(milks: Seq<MilkRecordView>, farm_id: u64) -> int
    decreases milks.len(),
{
    if milks.len() == 0 {
        0
    } else {
        revenue_sum(milks.drop_last(), farm_id) + (if milks.last().farm_id == farm_id {
            milks.last().revenue as int
        } else {
            0
        })
    }
}

/// The summed `amount` of the expenses of farm `farm_id`, in record
/// order.
pub open spec fn expense_sum(expenses: Seq<ExpenseView>, farm_id: u64) -> int
    decreases expenses.len(),
{
    if expenses.len() == 0 {
        0
    } else {
        expense_sum(expenses.drop_last(), farm_id) + (if expenses.last().farm_id == farm_id {
            expenses.last().amount as int
        } else {
            0
        })
    }
}

/// The summed `cost` of the feed purchases of farm `farm_id`, in
/// record order.
pub open spec fn feed_cost_sum(feeds: Seq<FeedRecordView>, farm_id: u64) -> int
    decreases feeds.len(),
{
    if feeds.len() == 0 {
        0
    } else {
        feed_cost_sum(feeds.drop_last(), farm_id) + (if feeds.last().farm_id == farm_id {
            feeds.last().cost as int
        } else {
            0
        })
    }
}

/// One step of a running aggregate: a total bounded by `i` summands
/// stays bounded by `i + 1` summands after adding one more, and that
/// bound still fits a `u128`.
proof fn lemma_sum_step_bound(total: u128, i: usize)
    requires
        total as int <= (i as int) * (u64::MAX as int),
    ensures
        total as int + (u64::MAX as int) <= ((i as int) + 1) * (u64::MAX as int),
        ((i as int) + 1) * (u64::MAX as int) < u128::MAX as int,
{
    assert((total as int) + (u64::MAX as int) <= ((i as int) + 1) * (u64::MAX as int))
        by (nonlinear_arith)
        requires
            total as int <= (i as int) * (u64::MAX as int),
            0 <= i,
    ;
    assert(((i as int) + 1) * (u64::MAX as int) < u128::MAX as int) by (nonlinear_arith)
        requires
            (i as int) + 1 <= 0x1_0000_0000_0000_0000,
    ;
}

/// Sums the `revenue` field of the records encoded in `entries`, in
/// order, over the records of `farm_id`.
fn sum_milk_revenue(
    entries: &Vec<(u64, Vec<u8>)>,
    farm_id: u64,
    Ghost(ms): Ghost<Seq<MilkRecordView>>,
) -> (r: u128)
    requires
        entries@.len() == ms.len(),
        forall|j: int|
            0 <= j < entries@.len() ==> spec_decode_milk(entries@[j].1@) == Some(ms[j]),
    ensures
        r as int == revenue_sum(ms, farm_id),
{
    let mut total: u128 = 0;
    let mut i: usize = 0;
    proof {
        assert(ms.take(0) =~= Seq::<MilkRecordView>::empty());
    }
    while i < entries.len()
        invariant
            i <= entries.len(),
            entries@.len() == ms.len(),
            forall|j: int|
                0 <= j < entries@.len() ==> spec_decode_milk(entries@[j].1@) == Some(ms[j]),
            total as int == revenue_sum(ms.take(i as int), farm_id),
            total as int <= (i as int) * (u64::MAX as int),
        decreases entries@.len() - i,
    {
        let bytes = &entries[i].1;
        proof {
            assert(bytes@ == entries@[i as int].1@);
            assert(spec_decode_milk(bytes@) == Some(ms[i as int]));
        }
        let m = match decode_milk(bytes) {
            Some(m) => m,
            None => unreached(),
        };
        proof {
            assert(m@ == ms[i as int]);
            assert(ms.take(i as int + 1).drop_last() =~= ms.take(i as int));
            assert(ms.take(i as int + 1).last() == ms[i as int]);
            lemma_sum_step_bound(total, i);
        }
        if m.farm_id == farm_id {
            total = total + (m.revenue as u128);
        }
        i += 1;
    }
    proof {
        assert(ms.take(ms.len() as int) =~= ms);
    }
    total
}

/// Sums the `amount` field of the records encoded in `entries`, in
/// order, over the records of `farm_id`.
fn sum_expense_amount(
    entries: &Vec<(u64, Vec<u8>)>,
    farm_id: u64,
    Ghost(es): Ghost<Seq<ExpenseView>>,
) -> (r: u128)
    requires
        entries@.len() == es.len(),
        forall|j: int|
            0 <= j < entries@.len() ==> spec_decode_expense(entries@[j].1@) == Some(es[j]),
    ensures
        r as int == expense_sum(es, farm_id),
{
    let mut total: u128 = 0;
    let mut i: usize = 0;
    proof {
        assert(es.take(0) =~= Seq::<ExpenseView>::empty());
    }
    while i < entries.len()
        invariant
            i <= entries.len(),
            entries@.len() == es.len(),
            forall|j: int|
                0 <= j < entries@.len() ==> spec_decode_expense(entries@[j].1@) == Some(
                    es[j],
                ),
            total as int == expense_sum(es.take(i as int), farm_id),
            total as int <= (i as int) * (u64::MAX as int),
        decreases entries@.len() - i,
    {
        let bytes = &entries[i].1;
        proof {
            assert(bytes@ == entries@[i as int].1@);
            assert(spec_decode_expense(bytes@) == Some(es[i as int]));
        }
        let x = match decode_expense(bytes) {
            Some(x) => x,
            None => unreached(),
        };
        proof {
            assert(x@ == es[i as int]);
            assert(es.take(i as int + 1).drop_last() =~= es.take(i as int));
            assert(es.take(i as int + 1).last() == es[i as int]);
            lemma_sum_step_bound(total, i);
        }
        if x.farm_id == farm_id {
            total = total + (x.amount as u128);
        }
        i += 1;
    }
    proof {
        assert(es.take(es.len() as int) =~= es);
    }
    total
}

/// Sums the `cost` field of the records encoded in `entries`, in
/// order, over the records of `farm_id`.
fn sum_feed_cost(
    entries: &Vec<(u64, Vec<u8>)>,
    farm_id: u64,
    Ghost(gs): Ghost<Seq<FeedRecordView>>,
) -> (r: u128)
    requires
        entries@.len() == gs.len(),
        forall|j: int|
            0 <= j < entries@.len() ==> spec_decode_feed(entries@[j].1@) == Some(gs[j]),
    ensures
        r as int == feed_cost_sum(gs, farm_id),
{
    let mut total: u128 = 0;
    let mut i: usize = 0;
    proof {
        assert(gs.take(0) =~= Seq::<FeedRecordView>::empty());
    }
    while i < entries.len()
        invariant
            i <= entries.len(),
            entries@.len() == gs.len(),
            forall|j: int|
                0 <= j < entries@.len() ==> spec_decode_feed(entries@[j].1@) == Some(gs[j]),
            total as int == feed_cost_sum(gs.take(i as int), farm_id),
            total as int <= (i as int) * (u64::MAX as int),
        decreases entries@.len() - i,
    {
        let bytes = &entries[i].1;
        proof {
            assert(bytes@ == entries@[i as int].1@);
            assert(spec_decode_feed(bytes@) == Some(gs[i as int]));
        }
        let g = match decode_feed(bytes) {
            Some(g) => g,
            None => unreached(),
        };
        proof {
            assert(g@ == gs[i as int]);
            assert(gs.take(i as int + 1).drop_last() =~= gs.take(i as int));
            assert(gs.take(i as int + 1).last() == gs[i as int]);
            lemma_sum_step_bound(total, i);
        }
        if g.farm_id == farm_id {
            total = total + (g.cost as u128);
        }
        i += 1;
    }
    proof {
        assert(gs.take(gs.len() as int) =~= gs);
    }
    total
}

impl EntityStore {
    /// Sums the `revenue` field over the milk records of `farm_id`,
    /// in ascending identifier order.
    ///
    /// Fails with `NotFound` exactly when no farm carries `farm_id`;
    /// a farm without milk records sums to zero.
    pub fn calculate_total_revenue(&self, farm_id: u64) -> (r: Result<u128, StoreError>)
        requires
            self.inv(),
        ensures
            (match r {
                Ok(total) => farm_exists(self@, farm_id) && total as int == revenue_sum(
                    self@.milks,
                    farm_id,
                ),
                Err(e) => e == StoreError::NotFound && !farm_exists(self@, farm_id),
            }),
    {
        proof {
            self.lemma_farm_lookup(farm_id);
        }
        if !self.farms.contains(farm_id) {
            return Err(StoreError::NotFound);
        }
        let entries = self.milks.entries();
        let ghost ms = self@.milks;
        proof {
            self.lemma_milk_decode_facts();
            assert forall|j: int| 0 <= j < entries@.len() implies spec_decode_milk(
                entries@[j].1@,
            ) == Some(ms[j]) by {
                assert(entries@[j].1@ == table_entries(self.milks)[j].1);
            }
        }
        let total = sum_milk_revenue(&entries, farm_id, Ghost(ms));
        Ok(total)
    }

    /// Sums the `amount` field over the expenses of `farm_id`, in
    /// ascending identifier order.
    ///
    /// Fails with `NotFound` exactly when no farm carries `farm_id`;
    /// a farm without expenses sums to zero.
    pub fn calculate_total_expenses(&self, farm_id: u64) -> (r: Result<u128, StoreError>)
        requires
            self.inv(),
        ensures
            (match r {
                Ok(total) => farm_exists(self@, farm_id) && total as int == expense_sum(
                    self@.expenses,
                    farm_id,
                ),
                Err(e) => e == StoreError::NotFound && !farm_exists(self@, farm_id),
            }),
    {
        proof {
            self.lemma_farm_lookup(farm_id);
        }
        if !self.farms.contains(farm_id) {
            return Err(StoreError::NotFound);
        }
        let entries = self.expenses.entries();
        let ghost es = self@.expenses;
        proof {
            self.lemma_expense_decode_facts();
            assert forall|j: int| 0 <= j < entries@.len() implies spec_decode_expense(
                entries@[j].1@,
            ) == Some(es[j]) by {
                assert(entries@[j].1@ == table_entries(self.expenses)[j].1);
            }
        }
        let total = sum_expense_amount(&entries, farm_id, Ghost(es));
        Ok(total)
    }

    /// Sums the `cost` field over the feed purchases of `farm_id`, in
    /// ascending identifier order.
    ///
    /// Fails with `NotFound` exactly when no farm carries `farm_id`;
    /// a farm without feed purchases sums to zero.
    pub fn calculate_total_feed_cost(&self, farm_id: u64) -> (r: Result<u128, StoreError>)
        requires
            self.inv(),
        ensures
            (match r {
                Ok(total) => farm_exists(self@, farm_id) && total as int == feed_cost_sum(
                    self@.feeds,
                    farm_id,
                ),
                Err(e) => e == StoreError::NotFound && !farm_exists(self@, farm_id),
            }),
    {
        proof {
            self.lemma_farm_lookup(farm_id);
        }
        if !self.farms.contains(farm_id) {
            return Err(StoreError::NotFound);
        }
        let entries = self.feeds.entries();
        let ghost gs = self@.feeds;
        proof {
            self.lemma_feed_decode_facts();
            assert forall|j: int| 0 <= j < entries@.len() implies spec_decode_feed(
                entries@[j].1@,
            ) == Some(gs[j]) by {
                assert(entries@[j].1@ == table_entries(self.feeds)[j].1);
            }
        }
        let total = sum_feed_cost(&entries, farm_id, Ghost(gs));
        Ok(total)
    }
}

/// Facts every reachable store state satisfies: identifiers ascend
/// within each collection and stay below `next_id`, they never repeat
/// across collections, and every dependent record names an existing
/// farm.
pub open spec fn view_wf(v: StoreView) -> bool {
    &&& forall|i: int, j: int| 0 <= i < j < v.farms.len() ==> v.farms[i].id < v.farms[j].id
    &&& forall|i: int, j: int|
        0 <= i < j < v.animals.len() ==> v.animals[i].id < v.animals[j].id
    &&& forall|i: int, j: int| 0 <= i < j < v.milks.len() ==> v.milks[i].id < v.milks[j].id
    &&& forall|i: int, j: int|
        0 <= i < j < v.expenses.len() ==> v.expenses[i].id < v.expenses[j].id
    &&& forall|i: int, j: int| 0 <= i < j < v.feeds.len() ==> v.feeds[i].id < v.feeds[j].id
    &&& forall|i: int| 0 <= i < v.farms.len() ==> v.farms[i].id < v.next_id
    &&& forall|i: int| 0 <= i < v.animals.len() ==> v.animals[i].id < v.next_id
    &&& forall|i: int| 0 <= i < v.milks.len() ==> v.milks[i].id < v.next_id
    &&& forall|i: int| 0 <= i < v.expenses.len() ==> v.expenses[i].id < v.next_id
    &&& forall|i: int| 0 <= i < v.feeds.len() ==> v.feeds[i].id < v.next_id
    &&& forall|i: int| 0 <= i < v.animals.len() ==> farm_exists(v, v.animals[i].farm_id)
    &&& forall|i: int| 0 <= i < v.milks.len() ==> farm_exists(v, v.milks[i].farm_id)
    &&& forall|i: int| 0 <= i < v.expenses.len() ==> farm_exists(v, v.expenses[i].farm_id)
    &&& forall|i: int| 0 <= i < v.feeds.len() ==> farm_exists(v, v.feeds[i].farm_id)
    &&& forall|i: int, j: int|
        0 <= i < v.farms.len() && 0 <= j < v.animals.len() ==> v.farms[i].id != v.animals[j].id
    &&& forall|i: int, j: int|
        0 <= i < v.farms.len() && 0 <= j < v.milks.len() ==> v.farms[i].id != v.milks[j].id
    &&& forall|i: int, j: int|
        0 <= i < v.farms.len() && 0 <= j < v.expenses.len() ==> v.farms[i].id
            != v.expenses[j].id
    &&& forall|i: int, j: int|
        0 <= i < v.farms.len() && 0 <= j < v.feeds.len() ==> v.farms[i].id != v.feeds[j].id
    &&& forall|i: int, j: int|
        0 <= i < v.animals.len() && 0 <= j < v.milks.len() ==> v.animals[i].id
            != v.milks[j].id
    &&& forall|i: int, j: int|
        0 <= i < v.animals.len() && 0 <= j < v.expenses.len() ==> v.animals[i].id
            != v.expenses[j].id
    &&& forall|i: int, j: int|
        0 <= i < v.animals.len() && 0 <= j < v.feeds.len() ==> v.animals[i].id
            != v.feeds[j].id
    &&& forall|i: int, j: int|
        0 <= i < v.milks.len() && 0 <= j < v.expenses.len() ==> v.milks[i].id
            != v.expenses[j].id
    &&& forall|i: int, j: int|
        0 <= i < v.milks.len() && 0 <= j < v.feeds.len() ==> v.milks[i].id != v.feeds[j].id
    &&& forall|i: int, j: int|
        0 <= i < v.expenses.len() && 0 <= j < v.feeds.len() ==> v.expenses[i].id
            != v.feeds[j].id
}

impl EntityStore {
    /// Looks a farm up by identifier, decoding its persisted
    /// encoding; `None` exactly when no farm carries `id`.
    #[verifier::rlimit(100)]
    #[verifier::spinoff_prover]
    pub fn get_farm(&self, id: u64) -> (r: Option<Farm>)
        requires
            self.inv(),
        ensures
            (match r {
                Some(f) => farm_exists(self@, id) && f@.id == id && (exists|i: int|
                    0 <= i < self@.farms.len() && self@.farms[i] == f@),
                None => !farm_exists(self@, id),
            }),
    {
        proof {
            self.lemma_farm_lookup(id);
        }
        match self.farms.get(id) {
            None => None,
            Some(bytes) => {
                proof {
                    let fe = table_entries(self.farms);
                    let i = choose|i: int| 0 <= i < fe.len() && fe[i] == (id, bytes@);
                    assert(fe[i].0 == id);
                    assert(has_key(fe, id));
                    assert(spec_decode_farm(bytes@) is Some);
                    assert(self@.farms[i] == spec_decode_farm(fe[i].1)->0);
                    assert(self@.farms[i].id == id);
                }
                match decode_farm(&bytes) {
                    Some(f) => Some(f),
                    None => unreached(),
                }
            },
        }
    }

    /// The identifier the next successful write operation will assign.
    pub fn next_id(&self) -> (r: u64)
        ensures
            r == self@.next_id,
    {
        self.counter.get()
    }

    /// Exports the state facts of [`view_wf`] from the store's own
    /// well-formedness: every store reachable through this library's
    /// operations satisfies them.
    #[verifier::rlimit(100)]
    #[verifier::spinoff_prover]
    pub proof fn lemma_view_wf(&self)
        requires
            self.inv(),
        ensures
            view_wf(self@),
    {
        let v = self@;
        let fe = table_entries(self.farms);
        let ae = table_entries(self.animals);
        let me = table_entries(self.milks);
        let ee = table_entries(self.expenses);
        let ge = table_entries(self.feeds);
        assert(forall|i: int| 0 <= i < fe.len() ==> v.farms[i] == spec_decode_farm(fe[i].1)->0);
        assert(forall|i: int|
            0 <= i < ae.len() ==> v.animals[i] == spec_decode_animal(ae[i].1)->0);
        assert(forall|i: int| 0 <= i < me.len() ==> v.milks[i] == spec_decode_milk(me[i].1)->0);
        assert(forall|i: int|
            0 <= i < ee.len() ==> v.expenses[i] == spec_decode_expense(ee[i].1)->0);
        assert(forall|i: int| 0 <= i < ge.len() ==> v.feeds[i] == spec_decode_feed(ge[i].1)->0);
        assert(forall|i: int| 0 <= i < fe.len() ==> v.farms[i].id == fe[i].0);
        assert(forall|i: int| 0 <= i < ae.len() ==> v.animals[i].id == ae[i].0);
        assert(forall|i: int| 0 <= i < me.len() ==> v.milks[i].id == me[i].0);
        assert(forall|i: int| 0 <= i < ee.len() ==> v.expenses[i].id == ee[i].0);
        assert(forall|i: int| 0 <= i < ge.len() ==> v.feeds[i].id == ge[i].0);
        assert forall|i: int| 0 <= i < v.animals.len() implies farm_exists(
            v,
            v.animals[i].farm_id,
        ) by {
            let k = v.animals[i].farm_id;
            assert(has_key(fe, k));
            let j = choose|j: int| 0 <= j < fe.len() && fe[j].0 == k;
            assert(v.farms[j].id == k);
        }
        assert forall|i: int| 0 <= i < v.milks.len() implies farm_exists(
            v,
            v.milks[i].farm_id,
        ) by {
            let k = v.milks[i].farm_id;
            assert(has_key(fe, k));
            let j = choose|j: int| 0 <= j < fe.len() && fe[j].0 == k;
            assert(v.farms[j].id == k);
        }
        assert forall|i: int| 0 <= i < v.expenses.len() implies farm_exists(
            v,
            v.expenses[i].farm_id,
        ) by {
            let k = v.expenses[i].farm_id;
            assert(has_key(fe, k));
            let j = choose|j: int| 0 <= j < fe.len() && fe[j].0 == k;
            assert(v.farms[j].id == k);
        }
        assert forall|i: int| 0 <= i < v.feeds.len() implies farm_exists(
            v,
            v.feeds[i].farm_id,
        ) by {
            let k = v.feeds[i].farm_id;
            assert(has_key(fe, k));
            let j = choose|j: int| 0 <= j < fe.len() && fe[j].0 == k;
            assert(v.farms[j].id == k);
        }
    }
}

/// After appending one encoded animal under the freshly allocated
/// identifier and advancing the counter, the store is well formed
/// again and its state is the old state with the animal pushed.
#[verifier::rlimit(50)]
proof fn lemma_animal_appended(pre: EntityStore, post: EntityStore, a: AnimalView, bytes: Seq<u8>)
    requires
        pre.inv(),
        counter_value(pre.counter) < u64::MAX,
        a.id == counter_value(pre.counter),
        spec_decode_animal(bytes) == Some(a),
        has_key(table_entries(pre.farms), a.farm_id),
        counter_value(post.counter) == counter_value(pre.counter) + 1,
        table_entries(post.animals) == table_entries(pre.animals).push((a.id, bytes)),
        table_entries(post.farms) == table_entries(pre.farms),
        table_entries(post.milks) == table_entries(pre.milks),
        table_entries(post.expenses) == table_entries(pre.expenses),
        table_entries(post.feeds) == table_entries(pre.feeds),
    ensures
        post.inv(),
        post@ == (StoreView {
            next_id: (counter_value(pre.counter) + 1) as u64,
            animals: pre@.animals.push(a),
            ..pre@
        }),
{
    assert(post.inv());
    assert(post@.animals =~= pre@.animals.push(a));
    assert(post@ =~= (StoreView {
        next_id: (counter_value(pre.counter) + 1) as u64,
        animals: pre@.animals.push(a),
        ..pre@
    }));
}

/// After appending one encoded milk record under the freshly
/// allocated identifier and advancing the counter, the store is well
/// formed again and its state is the old state with the record pushed.
#[verifier::rlimit(50)]
proof fn lemma_milk_appended(
    pre: EntityStore,
    post: EntityStore,
    m: MilkRecordView,
    bytes: Seq<u8>,
)
    requires
        pre.inv(),
        counter_value(pre.counter) < u64::MAX,
        m.id == counter_value(pre.counter),
        spec_decode_milk(bytes) == Some(m),
        has_key(table_entries(pre.farms), m.farm_id),
        counter_value(post.counter) == counter_value(pre.counter) + 1,
        table_entries(post.milks) == table_entries(pre.milks).push((m.id, bytes)),
        table_entries(post.farms) == table_entries(pre.farms),
        table_entries(post.animals) == table_entries(pre.animals),
        table_entries(post.expenses) == table_entries(pre.expenses),
        table_entries(post.feeds) == table_entries(pre.feeds),
    ensures
        post.inv(),
        post@ == (StoreView {
            next_id: (counter_value(pre.counter) + 1) as u64,
            milks: pre@.milks.push(m),
            ..pre@
        }),
{
    assert(post.inv());
    assert(post@.milks =~= pre@.milks.push(m));
    assert(post@ =~= (StoreView {
        next_id: (counter_value(pre.counter) + 1) as u64,
        milks: pre@.milks.push(m),
        ..pre@
    }));
}

/// After appending one encoded expense under the freshly allocated
/// identifier and advancing the counter, the store is well formed
/// again and its state is the old state with the expense pushed.
#[verifier::rlimit(50)]
proof fn lemma_expense_appended(
    pre: EntityStore,
    post: EntityStore,
    x: ExpenseView,
    bytes: Seq<u8>,
)
    requires
        pre.inv(),
        counter_value(pre.counter) < u64::MAX,
        x.id == counter_value(pre.counter),
        spec_decode_expense(bytes) == Some(x),
        has_key(table_entries(pre.farms), x.farm_id),
        counter_value(post.counter) == counter_value(pre.counter) + 1,
        table_entries(post.expenses) == table_entries(pre.expenses).push((x.id, bytes)),
        table_entries(post.farms) == table_entries(pre.farms),
        table_entries(post.animals) == table_entries(pre.animals),
        table_entries(post.milks) == table_entries(pre.milks),
        table_entries(post.feeds) == table_entries(pre.feeds),
    ensures
        post.inv(),
        post@ == (StoreView {
            next_id: (counter_value(pre.counter) + 1) as u64,
            expenses: pre@.expenses.push(x),
            ..pre@
        }),
{
    assert(post.inv());
    assert(post@.expenses =~= pre@.expenses.push(x));
    assert(post@ =~= (StoreView {
        next_id: (counter_value(pre.counter) + 1) as u64,
        expenses: pre@.expenses.push(x),
        ..pre@
    }));
}

/// After appending one encoded feed record under the freshly
/// allocated identifier and advancing the counter, the store is well
/// formed again and its state is the old state with the record pushed.
#[verifier::rlimit(50)]
proof fn lemma_feed_appended(
    pre: EntityStore,
    post: EntityStore,
    g: FeedRecordView,
    bytes: Seq<u8>,
)
    requires
        pre.inv(),
        counter_value(pre.counter) < u64::MAX,
        g.id == counter_value(pre.counter),
        spec_decode_feed(bytes) == Some(g),
        has_key(table_entries(pre.farms), g.farm_id),
        counter_value(post.counter) == counter_value(pre.counter) + 1,
        table_entries(post.feeds) == table_entries(pre.feeds).push((g.id, bytes)),
        table_entries(post.farms) == table_entries(pre.farms),
        table_entries(post.animals) == table_entries(pre.animals),
        table_entries(post.milks) == table_entries(pre.milks),
        table_entries(post.expenses) == table_entries(pre.expenses),
    ensures
        post.inv(),
        post@ == (StoreView {
            next_id: (counter_value(pre.counter) + 1) as u64,
            feeds: pre@.feeds.push(g),
            ..pre@
        }),
{
    assert(post.inv());
    assert(post@.feeds =~= pre@.feeds.push(g));
    assert(post@ =~= (StoreView {
        next_id: (counter_value(pre.counter) + 1) as u64,
        feeds: pre@.feeds.push(g),
        ..pre@
    }));
}

/// After appending one encoded farm under the freshly allocated
/// identifier and advancing the counter, the store is well formed
/// again and its state is the old state with the farm pushed.
#[verifier::rlimit(50)]
proof fn lemma_farm_appended(pre: EntityStore, post: EntityStore, f: FarmView, bytes: Seq<u8>)
    requires
        pre.inv(),
        counter_value(pre.counter) < u64::MAX,
        f.id == counter_value(pre.counter),
        spec_decode_farm(bytes) == Some(f),
        counter_value(post.counter) == counter_value(pre.counter) + 1,
        table_entries(post.farms) == table_entries(pre.farms).push((f.id, bytes)),
        table_entries(post.animals) == table_entries(pre.animals),
        table_entries(post.milks) == table_entries(pre.milks),
        table_entries(post.expenses) == table_entries(pre.expenses),
        table_entries(post.feeds) == table_entries(pre.feeds),
    ensures
        post.inv(),
        post@ == (StoreView {
            next_id: (counter_value(pre.counter) + 1) as u64,
            farms: pre@.farms.push(f),
            ..pre@
        }),
{
    let fe = table_entries(pre.farms);
    let fe2 = table_entries(post.farms);
    let ae = table_entries(pre.animals);
    let me = table_entries(pre.milks);
    let ee = table_entries(pre.expenses);
    let ge = table_entries(pre.feeds);
    assert forall|i: int| 0 <= i < ae.len() implies has_key(
        fe2,
        (|a: AnimalView| a.farm_id)((|b: Seq<u8>| spec_decode_animal(b))(ae[i].1)->0),
    ) by {
        let k = (|a: AnimalView| a.farm_id)((|b: Seq<u8>| spec_decode_animal(b))(ae[i].1)->0);
        let j = choose|j: int| 0 <= j < fe.len() && fe[j].0 == k;
        assert(fe2[j].0 == k);
    }
    assert forall|i: int| 0 <= i < me.len() implies has_key(
        fe2,
        (|m: MilkRecordView| m.farm_id)((|b: Seq<u8>| spec_decode_milk(b))(me[i].1)->0),
    ) by {
        let k = (|m: MilkRecordView| m.farm_id)((|b: Seq<u8>| spec_decode_milk(b))(me[i].1)->0);
        let j = choose|j: int| 0 <= j < fe.len() && fe[j].0 == k;
        assert(fe2[j].0 == k);
    }
    assert forall|i: int| 0 <= i < ee.len() implies has_key(
        fe2,
        (|x: ExpenseView| x.farm_id)((|b: Seq<u8>| spec_decode_expense(b))(ee[i].1)->0),
    ) by {
        let k = (|x: ExpenseView| x.farm_id)((|b: Seq<u8>| spec_decode_expense(b))(ee[i].1)->0);
        let j = choose|j: int| 0 <= j < fe.len() && fe[j].0 == k;
        assert(fe2[j].0 == k);
    }
    assert forall|i: int| 0 <= i < ge.len() implies has_key(
        fe2,
        (|g: FeedRecordView| g.farm_id)((|b: Seq<u8>| spec_decode_feed(b))(ge[i].1)->0),
    ) by {
        let k = (|g: FeedRecordView| g.farm_id)((|b: Seq<u8>| spec_decode_feed(b))(ge[i].1)->0);
        let j = choose|j: int| 0 <= j < fe.len() && fe[j].0 == k;
        assert(fe2[j].0 == k);
    }
    assert(post.inv());
    assert(post@.farms =~= pre@.farms.push(f));
    assert(post@ =~= (StoreView {
        next_id: (counter_value(pre.counter) + 1) as u64,
        farms: pre@.farms.push(f),
        ..pre@
    }));
}

} // verus!
