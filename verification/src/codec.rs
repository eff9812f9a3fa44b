//! Canonical byte encoding of the entity types.
//!
//! Every entity is persisted as a fixed field sequence: `u64` fields as
//! eight little-endian bytes, text fields as a `u64` length followed by
//! the bytes themselves. Decoding consumes the whole input or fails, so
//! the encoding is canonical and `decode(encode(v)) == Some(v)` is
//! proved for every entity type.

use vstd::prelude::*;

use crate::entities::{Animal, AnimalView, Expense, ExpenseView, Farm, FarmView};
use crate::entities::{FeedRecord, FeedRecordView, MilkRecord, MilkRecordView};

verus! {

/// The largest byte length the store accepts for one text field:
/// keeping text fields bounded is what keeps every encoding below
/// [`MAX_ENCODED_LEN`].
pub const MAX_TEXT_LEN: usize = 64;

/// The strict upper bound on the encoded size of one entity, fixed
/// per entity type by the lemmas below: every payload the store
/// accepts encodes within it, so an oversized record can never reach
/// the durable collections.
pub const MAX_ENCODED_LEN: usize = 512;

/// One more than the largest length a text field can carry through the
/// `u64` length prefix.
pub open spec fn len_limit() -> int {
    0x1_0000_0000_0000_0000
}

/// The eight little-endian bytes of `v`.
pub open spec fn u64_le_bytes(v: u64) -> Seq<u8> {
    seq![
        (v & 0xff) as u8,
        ((v >> 8) & 0xff) as u8,
        ((v >> 16) & 0xff) as u8,
        ((v >> 24) & 0xff) as u8,
        ((v >> 32) & 0xff) as u8,
        ((v >> 40) & 0xff) as u8,
        ((v >> 48) & 0xff) as u8,
        ((v >> 56) & 0xff) as u8,
    ]
}

/// The `u64` read back from eight little-endian bytes.
pub open spec fn u64_from_le(s: Seq<u8>) -> u64
    recommends
        s.len() == 8,
{
    (s[0] as u64) | ((s[1] as u64) << 8) | ((s[2] as u64) << 16) | ((s[3] as u64) << 24)
        | ((s[4] as u64) << 32) | ((s[5] as u64) << 40) | ((s[6] as u64) << 48)
        | ((s[7] as u64) << 56)
}

/// Splitting a `u64` into little-endian bytes and reassembling them
/// yields the value back.
pub proof fn lemma_u64_le_round_trip(v: u64)
    ensures
        u64_from_le(u64_le_bytes(v)) == v,
{
    assert((((v & 0xff) as u8) as u64) | (((((v >> 8) & 0xff) as u8) as u64) << 8)
        | (((((v >> 16) & 0xff) as u8) as u64) << 16) | (((((v >> 24) & 0xff) as u8) as u64) << 24)
        | (((((v >> 32) & 0xff) as u8) as u64) << 32) | (((((v >> 40) & 0xff) as u8) as u64) << 40)
        | (((((v >> 48) & 0xff) as u8) as u64) << 48) | (((((v >> 56) & 0xff) as u8) as u64) << 56)
        == v) by (bit_vector);
}

/// Reads a `u64` field from the front of `s`, returning it with the
/// unread remainder.
pub open spec fn take_u64(s: Seq<u8>) -> Option<(u64, Seq<u8>)> {
    if s.len() >= 8 {
        Some((u64_from_le(s.take(8)), s.skip(8)))
    } else {
        None
    }
}

/// The encoding of a text field: a `u64` length prefix, then the bytes.
pub open spec fn enc_bytes(b: Seq<u8>) -> Seq<u8> {
    u64_le_bytes(b.len() as u64) + b
}

/// Reads a length-prefixed text field from the front of `s`, returning
/// it with the unread remainder.
pub open spec fn take_bytes(s: Seq<u8>) -> Option<(Seq<u8>, Seq<u8>)> {
    match take_u64(s) {
        None => None,
        Some((n, r)) => {
            if n as int <= r.len() {
                Some((r.take(n as int), r.skip(n as int)))
            } else {
                None
            }
        },
    }
}

/// Reading a `u64` field off `u64_le_bytes(v) + rest` yields `v` and
/// leaves exactly `rest`.
pub proof fn lemma_take_u64_prefix(v: u64, rest: Seq<u8>)
    ensures
        take_u64(u64_le_bytes(v) + rest) == Some((v, rest)),
{
    let s = u64_le_bytes(v) + rest;
    assert(s.take(8) =~= u64_le_bytes(v));
    assert(s.skip(8) =~= rest);
    lemma_u64_le_round_trip(v);
}

/// Reading a text field off `enc_bytes(b) + rest` yields `b` and leaves
/// exactly `rest`.
pub proof fn lemma_take_bytes_prefix(b: Seq<u8>, rest: Seq<u8>)
    requires
        b.len() < len_limit(),
    ensures
        take_bytes(enc_bytes(b) + rest) == Some((b, rest)),
{
    assert(enc_bytes(b) + rest =~= u64_le_bytes(b.len() as u64) + (b + rest));
    lemma_take_u64_prefix(b.len() as u64, b + rest);
    assert((b + rest).take(b.len() as int) =~= b);
    assert((b + rest).skip(b.len() as int) =~= rest);
}

/// Appends the eight little-endian bytes of `v` to `out`.
pub fn push_u64(out: &mut Vec<u8>, v: u64)
    ensures
        final(out)@ == old(out)@ + u64_le_bytes(v),
{
    out.push((v & 0xff) as u8);
    out.push(((v >> 8) & 0xff) as u8);
    out.push(((v >> 16) & 0xff) as u8);
    out.push(((v >> 24) & 0xff) as u8);
    out.push(((v >> 32) & 0xff) as u8);
    out.push(((v >> 40) & 0xff) as u8);
    out.push(((v >> 48) & 0xff) as u8);
    out.push(((v >> 56) & 0xff) as u8);
    proof {
        assert(out@ =~= old(out)@ + u64_le_bytes(v));
    }
}

/// Appends the length-prefixed encoding of `b` to `out`.
pub fn push_bytes(out: &mut Vec<u8>, b: &Vec<u8>)
    ensures
        final(out)@ == old(out)@ + enc_bytes(b@),
{
    push_u64(out, b.len() as u64);
    let ghost mid = out@;
    let mut i: usize = 0;
    while i < b.len()
        invariant
            i <= b.len(),
            out@ == mid + b@.take(i as int),
        decreases b.len() - i,
    {
        out.push(b[i]);
        proof {
            assert(out@ =~= mid + b@.take(i as int + 1));
        }
        i += 1;
    }
    proof {
        assert(b@.take(b.len() as int) =~= b@);
        assert(out@ =~= old(out)@ + enc_bytes(b@));
    }
}

/// Reads a `u64` field at offset `pos`, mirroring [`take_u64`] on the
/// unread suffix of `s`.
pub fn read_u64(s: &Vec<u8>, pos: usize) -> (r: Option<(u64, usize)>)
    requires
        pos <= s.len(),
    ensures
        (match r {
            Some(p) => {
                &&& p.1 == pos + 8
                &&& p.1 <= s.len()
                &&& take_u64(s@.skip(pos as int)) == Some((p.0, s@.skip(p.1 as int)))
            },
            None => take_u64(s@.skip(pos as int)) is None,
        }),
{
    if s.len() - pos >= 8 {
        let v = (s[pos] as u64) | ((s[pos + 1] as u64) << 8) | ((s[pos + 2] as u64) << 16)
            | ((s[pos + 3] as u64) << 24) | ((s[pos + 4] as u64) << 32)
            | ((s[pos + 5] as u64) << 40) | ((s[pos + 6] as u64) << 48)
            | ((s[pos + 7] as u64) << 56);
        proof {
            let t = s@.skip(pos as int);
            assert(t.take(8)[0] == s@[pos as int]);
            assert(t.take(8)[1] == s@[pos as int + 1]);
            assert(t.take(8)[2] == s@[pos as int + 2]);
            assert(t.take(8)[3] == s@[pos as int + 3]);
            assert(t.take(8)[4] == s@[pos as int + 4]);
            assert(t.take(8)[5] == s@[pos as int + 5]);
            assert(t.take(8)[6] == s@[pos as int + 6]);
            assert(t.take(8)[7] == s@[pos as int + 7]);
            assert(v == u64_from_le(t.take(8)));
            assert(t.skip(8) =~= s@.skip(pos as int + 8));
        }
        Some((v, pos + 8))
    } else {
        proof {
            assert(s@.skip(pos as int).len() < 8);
        }
        None
    }
}

/// Reads a length-prefixed text field at offset `pos`, mirroring
/// [`take_bytes`] on the unread suffix of `s`.
pub fn read_bytes(s: &Vec<u8>, pos: usize) -> (r: Option<(Vec<u8>, usize)>)
    requires
        pos <= s.len(),
    ensures
        (match r {
            Some(p) => {
                &&& p.1 <= s.len()
                &&& take_bytes(s@.skip(pos as int)) == Some((p.0@, s@.skip(p.1 as int)))
            },
            None => take_bytes(s@.skip(pos as int)) is None,
        }),
{
    match read_u64(s, pos) {
        None => None,
        Some((n, start)) => {
            if n <= (s.len() - start) as u64 {
                let len = n as usize;
                let mut out: Vec<u8> = Vec::new();
                let mut i: usize = 0;
                proof {
                    assert(out@ =~= s@.subrange(start as int, start as int));
                }
                while i < len
                    invariant
                        i <= len,
                        start + len <= s.len(),
                        out@ == s@.subrange(start as int, start as int + i as int),
                    decreases len - i,
                {
                    out.push(s[start + i]);
                    proof {
                        assert(out@ =~= s@.subrange(start as int, start as int + i as int + 1));
                    }
                    i += 1;
                }
                proof {
                    let t = s@.skip(start as int);
                    assert(out@ =~= t.take(n as int));
                    assert(s@.skip(start as int + len as int) =~= t.skip(n as int));
                }
                Some((out, start + len))
            } else {
                None
            }
        },
    }
}

/// The canonical encoding of a farm.
pub open spec fn spec_encode_farm(f: FarmView) -> Seq<u8> {
    u64_le_bytes(f.id) + (enc_bytes(f.name) + (enc_bytes(f.location) + (enc_bytes(f.owner)
        + (enc_bytes(f.contact) + (enc_bytes(f.email) + (u64_le_bytes(f.total_cows)
        + u64_le_bytes(f.created_at)))))))
}

/// Whether every text field of `f` is short enough for its `u64`
/// length prefix; any farm held in a real vector satisfies this.
pub open spec fn farm_bounded(f: FarmView) -> bool {
    &&& f.name.len() < len_limit()
    &&& f.location.len() < len_limit()
    &&& f.owner.len() < len_limit()
    &&& f.contact.len() < len_limit()
    &&& f.email.len() < len_limit()
}

/// The farm read back from a canonical encoding, or `None` when the
/// bytes are not exactly the encoding of one farm.
pub open spec fn spec_decode_farm(s: Seq<u8>) -> Option<FarmView> {
    match take_u64(s) {
        None => None,
        Some((id, s1)) => match take_bytes(s1) {
            None => None,
            Some((name, s2)) => match take_bytes(s2) {
                None => None,
                Some((location, s3)) => match take_bytes(s3) {
                    None => None,
                    Some((owner, s4)) => match take_bytes(s4) {
                        None => None,
                        Some((contact, s5)) => match take_bytes(s5) {
                            None => None,
                            Some((email, s6)) => match take_u64(s6) {
                                None => None,
                                Some((total_cows, s7)) => match take_u64(s7) {
                                    None => None,
                                    Some((created_at, s8)) => {
                                        if s8.len() == 0 {
                                            Some(
                                                (FarmView {
                                                    id: id,
                                                    name: name,
                                                    location: location,
                                                    owner: owner,
                                                    contact: contact,
                                                    email: email,
                                                    total_cows: total_cows,
                                                    created_at: created_at,
                                                }),
                                            )
                                        } else {
                                            None
                                        }
                                    },
                                },
                            },
                        },
                    },
                },
            },
        },
    }
}

/// Decoding the canonical encoding of a farm yields the farm back.
#[verifier::rlimit(100)]
pub proof fn lemma_farm_round_trip(f: FarmView)
    requires
        farm_bounded(f),
    ensures
        spec_decode_farm(spec_encode_farm(f)) == Some(f),
{
    let t7 = u64_le_bytes(f.created_at);
    let t6 = u64_le_bytes(f.total_cows) + t7;
    let t5 = enc_bytes(f.email) + t6;
    let t4 = enc_bytes(f.contact) + t5;
    let t3 = enc_bytes(f.owner) + t4;
    let t2 = enc_bytes(f.location) + t3;
    let t1 = enc_bytes(f.name) + t2;
    let s = spec_encode_farm(f);
    lemma_take_u64_prefix(f.id, t1);
    assert(take_u64(s) == Some((f.id, t1)));
    lemma_take_bytes_prefix(f.name, t2);
    assert(take_bytes(t1) == Some((f.name, t2)));
    lemma_take_bytes_prefix(f.location, t3);
    assert(take_bytes(t2) == Some((f.location, t3)));
    lemma_take_bytes_prefix(f.owner, t4);
    assert(take_bytes(t3) == Some((f.owner, t4)));
    lemma_take_bytes_prefix(f.contact, t5);
    assert(take_bytes(t4) == Some((f.contact, t5)));
    lemma_take_bytes_prefix(f.email, t6);
    assert(take_bytes(t5) == Some((f.email, t6)));
    lemma_take_u64_prefix(f.total_cows, t7);
    assert(take_u64(t6) == Some((f.total_cows, t7)));
    assert(t7 =~= u64_le_bytes(f.created_at) + Seq::<u8>::empty());
    lemma_take_u64_prefix(f.created_at, Seq::<u8>::empty());
    assert(take_u64(t7) == Some((f.created_at, Seq::<u8>::empty())));
}

/// Encodes a farm canonically.
pub fn encode_farm(f: &Farm) -> (r: Vec<u8>)
    ensures
        r@ == spec_encode_farm(f@),
{
    let mut out: Vec<u8> = Vec::new();
    push_u64(&mut out, f.id);
    push_bytes(&mut out, &f.name);
    push_bytes(&mut out, &f.location);
    push_bytes(&mut out, &f.owner);
    push_bytes(&mut out, &f.contact);
    push_bytes(&mut out, &f.email);
    push_u64(&mut out, f.total_cows);
    push_u64(&mut out, f.created_at);
    proof {
        assert(out@ =~= spec_encode_farm(f@));
    }
    out
}

/// Decodes a farm from its canonical encoding.
#[verifier::rlimit(50)]
pub fn decode_farm(s: &Vec<u8>) -> (r: Option<Farm>)
    ensures
        (match r {
            Some(f) => spec_decode_farm(s@) == Some(f@),
            None => spec_decode_farm(s@) is None,
        }),
{
    proof {
        assert(s@.skip(0) =~= s@);
    }
    let (id, p1) = match read_u64(s, 0) {
        Some(x) => x,
        None => {
            return None;
        },
    };
    let (name, p2) = match read_bytes(s, p1) {
        Some(x) => x,
        None => {
            return None;
        },
    };
    let (location, p3) = match read_bytes(s, p2) {
        Some(x) => x,
        None => {
            return None;
        },
    };
    let (owner, p4) = match read_bytes(s, p3) {
        Some(x) => x,
        None => {
            return None;
        },
    };
    let (contact, p5) = match read_bytes(s, p4) {
        Some(x) => x,
        None => {
            return None;
        },
    };
    let (email, p6) = match read_bytes(s, p5) {
        Some(x) => x,
        None => {
            return None;
        },
    };
    let (total_cows, p7) = match read_u64(s, p6) {
        Some(x) => x,
        None => {
            return None;
        },
    };
    let (created_at, p8) = match read_u64(s, p7) {
        Some(x) => x,
        None => {
            return None;
        },
    };
    if p8 != s.len() {
        return None;
    }
    Some(
        Farm {
            id: id,
            name: name,
            location: location,
            owner: owner,
            contact: contact,
            email: email,
            total_cows: total_cows,
            created_at: created_at,
        },
    )
}

/// The canonical encoding of an animal.
pub open spec fn spec_encode_animal(a: AnimalView) -> Seq<u8> {
    u64_le_bytes(a.id) + (u64_le_bytes(a.farm_id) + (enc_bytes(a.tag_number)
        + (enc_bytes(a.breed) + (u64_le_bytes(a.age) + (u64_le_bytes(a.milk_yield)
        + enc_bytes(a.health_status))))))
}

/// Whether every text field of `a` is short enough for its `u64`
/// length prefix.
pub open spec fn animal_bounded(a: AnimalView) -> bool {
    &&& a.tag_number.len() < len_limit()
    &&& a.breed.len() < len_limit()
    &&& a.health_status.len() < len_limit()
}

/// The animal read back from a canonical encoding.
pub open spec fn spec_decode_animal(s: Seq<u8>) -> Option<AnimalView> {
    match take_u64(s) {
        None => None,
        Some((id, s1)) => match take_u64(s1) {
            None => None,
            Some((farm_id, s2)) => match take_bytes(s2) {
                None => None,
                Some((tag_number, s3)) => match take_bytes(s3) {
                    None => None,
                    Some((breed, s4)) => match take_u64(s4) {
                        None => None,
                        Some((age, s5)) => match take_u64(s5) {
                            None => None,
                            Some((milk_yield, s6)) => match take_bytes(s6) {
                                None => None,
                                Some((health_status, s7)) => {
                                    if s7.len() == 0 {
                                        Some(
                                            (AnimalView {
                                                id: id,
                                                farm_id: farm_id,
                                                tag_number: tag_number,
                                                breed: breed,
                                                age: age,
                                                milk_yield: milk_yield,
                                                health_status: health_status,
                                            }),
                                        )
                                    } else {
                                        None
                                    }
                                },
                            },
                        },
                    },
                },
            },
        },
    }
}

/// Decoding the canonical encoding of an animal yields the animal back.
#[verifier::rlimit(50)]
pub proof fn lemma_animal_round_trip(a: AnimalView)
    requires
        animal_bounded(a),
    ensures
        spec_decode_animal(spec_encode_animal(a)) == Some(a),
{
    let t6 = enc_bytes(a.health_status);
    let t5 = u64_le_bytes(a.milk_yield) + t6;
    let t4 = u64_le_bytes(a.age) + t5;
    let t3 = enc_bytes(a.breed) + t4;
    let t2 = enc_bytes(a.tag_number) + t3;
    let t1 = u64_le_bytes(a.farm_id) + t2;
    let s = spec_encode_animal(a);
    lemma_take_u64_prefix(a.id, t1);
    assert(take_u64(s) == Some((a.id, t1)));
    lemma_take_u64_prefix(a.farm_id, t2);
    assert(take_u64(t1) == Some((a.farm_id, t2)));
    lemma_take_bytes_prefix(a.tag_number, t3);
    assert(take_bytes(t2) == Some((a.tag_number, t3)));
    lemma_take_bytes_prefix(a.breed, t4);
    assert(take_bytes(t3) == Some((a.breed, t4)));
    lemma_take_u64_prefix(a.age, t5);
    assert(take_u64(t4) == Some((a.age, t5)));
    lemma_take_u64_prefix(a.milk_yield, t6);
    assert(take_u64(t5) == Some((a.milk_yield, t6)));
    assert(t6 =~= enc_bytes(a.health_status) + Seq::<u8>::empty());
    lemma_take_bytes_prefix(a.health_status, Seq::<u8>::empty());
    assert(take_bytes(t6) == Some((a.health_status, Seq::<u8>::empty())));
}

/// Encodes an animal canonically.
pub fn encode_animal(a: &Animal) -> (r: Vec<u8>)
    ensures
        r@ == spec_encode_animal(a@),
{
    let mut out: Vec<u8> = Vec::new();
    push_u64(&mut out, a.id);
    push_u64(&mut out, a.farm_id);
    push_bytes(&mut out, &a.tag_number);
    push_bytes(&mut out, &a.breed);
    push_u64(&mut out, a.age);
    push_u64(&mut out, a.milk_yield);
    push_bytes(&mut out, &a.health_status);
    proof {
        assert(out@ =~= spec_encode_animal(a@));
    }
    out
}

/// Decodes an animal from its canonical encoding.
#[verifier::rlimit(50)]
pub fn decode_animal(s: &Vec<u8>) -> (r: Option<Animal>)
    ensures
        (match r {
            Some(a) => spec_decode_animal(s@) == Some(a@),
            None => spec_decode_animal(s@) is None,
        }),
{
    proof {
        assert(s@.skip(0) =~= s@);
    }
    let (id, p1) = match read_u64(s, 0) {
        Some(x) => x,
        None => {
            return None;
        },
    };
    let (farm_id, p2) = match read_u64(s, p1) {
        Some(x) => x,
        None => {
            return None;
        },
    };
    let (tag_number, p3) = match read_bytes(s, p2) {
        Some(x) => x,
        None => {
            return None;
        },
    };
    let (breed, p4) = match read_bytes(s, p3) {
        Some(x) => x,
        None => {
            return None;
        },
    };
    let (age, p5) = match read_u64(s, p4) {
        Some(x) => x,
        None => {
            return None;
        },
    };
    let (milk_yield, p6) = match read_u64(s, p5) {
        Some(x) => x,
        None => {
            return None;
        },
    };
    let (health_status, p7) = match read_bytes(s, p6) {
        Some(x) => x,
        None => {
            return None;
        },
    };
    if p7 != s.len() {
        return None;
    }
    Some(
        Animal {
            id: id,
            farm_id: farm_id,
            tag_number: tag_number,
            breed: breed,
            age: age,
            milk_yield: milk_yield,
            health_status: health_status,
        },
    )
}

/// The canonical encoding of a milk record.
pub open spec fn spec_encode_milk(m: MilkRecordView) -> Seq<u8> {
    u64_le_bytes(m.id) + (u64_le_bytes(m.farm_id) + (u64_le_bytes(m.date)
        + (u64_le_bytes(m.total_milk) + (u64_le_bytes(m.sold_milk)
        + (u64_le_bytes(m.remaining_milk) + u64_le_bytes(m.revenue))))))
}

/// The milk record read back from a canonical encoding.
pub open spec fn spec_decode_milk(s: Seq<u8>) -> Option<MilkRecordView> {
    match take_u64(s) {
        None => None,
        Some((id, s1)) => match take_u64(s1) {
            None => None,
            Some((farm_id, s2)) => match take_u64(s2) {
                None => None,
                Some((date, s3)) => match take_u64(s3) {
                    None => None,
                    Some((total_milk, s4)) => match take_u64(s4) {
                        None => None,
                        Some((sold_milk, s5)) => match take_u64(s5) {
                            None => None,
                            Some((remaining_milk, s6)) => match take_u64(s6) {
                                None => None,
                                Some((revenue, s7)) => {
                                    if s7.len() == 0 {
                                        Some(
                                            (MilkRecordView {
                                                id: id,
                                                farm_id: farm_id,
                                                date: date,
                                                total_milk: total_milk,
                                                sold_milk: sold_milk,
                                                remaining_milk: remaining_milk,
                                                revenue: revenue,
                                            }),
                                        )
                                    } else {
                                        None
                                    }
                                },
                            },
                        },
                    },
                },
            },
        },
    }
}

/// Decoding the canonical encoding of a milk record yields the record
/// back.
#[verifier::rlimit(50)]
pub proof fn lemma_milk_round_trip(m: MilkRecordView)
    ensures
        spec_decode_milk(spec_encode_milk(m)) == Some(m),
{
    let t6 = u64_le_bytes(m.revenue);
    let t5 = u64_le_bytes(m.remaining_milk) + t6;
    let t4 = u64_le_bytes(m.sold_milk) + t5;
    let t3 = u64_le_bytes(m.total_milk) + t4;
    let t2 = u64_le_bytes(m.date) + t3;
    let t1 = u64_le_bytes(m.farm_id) + t2;
    let s = spec_encode_milk(m);
    lemma_take_u64_prefix(m.id, t1);
    assert(take_u64(s) == Some((m.id, t1)));
    lemma_take_u64_prefix(m.farm_id, t2);
    assert(take_u64(t1) == Some((m.farm_id, t2)));
    lemma_take_u64_prefix(m.date, t3);
    assert(take_u64(t2) == Some((m.date, t3)));
    lemma_take_u64_prefix(m.total_milk, t4);
    assert(take_u64(t3) == Some((m.total_milk, t4)));
    lemma_take_u64_prefix(m.sold_milk, t5);
    assert(take_u64(t4) == Some((m.sold_milk, t5)));
    lemma_take_u64_prefix(m.remaining_milk, t6);
    assert(take_u64(t5) == Some((m.remaining_milk, t6)));
    assert(t6 =~= u64_le_bytes(m.revenue) + Seq::<u8>::empty());
    lemma_take_u64_prefix(m.revenue, Seq::<u8>::empty());
    assert(take_u64(t6) == Some((m.revenue, Seq::<u8>::empty())));
}

/// Encodes a milk record canonically.
pub fn encode_milk(m: &MilkRecord) -> (r: Vec<u8>)
    ensures
        r@ == spec_encode_milk(m@),
{
    let mut out: Vec<u8> = Vec::new();
    push_u64(&mut out, m.id);
    push_u64(&mut out, m.farm_id);
    push_u64(&mut out, m.date);
    push_u64(&mut out, m.total_milk);
    push_u64(&mut out, m.sold_milk);
    push_u64(&mut out, m.remaining_milk);
    push_u64(&mut out, m.revenue);
    proof {
        assert(out@ =~= spec_encode_milk(m@));
    }
    out
}

/// Decodes a milk record from its canonical encoding.
#[verifier::rlimit(50)]
pub fn decode_milk(s: &Vec<u8>) -> (r: Option<MilkRecord>)
    ensures
        (match r {
            Some(m) => spec_decode_milk(s@) == Some(m@),
            None => spec_decode_milk(s@) is None,
        }),
{
    proof {
        assert(s@.skip(0) =~= s@);
    }
    let (id, p1) = match read_u64(s, 0) {
        Some(x) => x,
        None => {
            return None;
        },
    };
    let (farm_id, p2) = match read_u64(s, p1) {
        Some(x) => x,
        None => {
            return None;
        },
    };
    let (date, p3) = match read_u64(s, p2) {
        Some(x) => x,
        None => {
            return None;
        },
    };
    let (total_milk, p4) = match read_u64(s, p3) {
        Some(x) => x,
        None => {
            return None;
        },
    };
    let (sold_milk, p5) = match read_u64(s, p4) {
        Some(x) => x,
        None => {
            return None;
        },
    };
    let (remaining_milk, p6) = match read_u64(s, p5) {
        Some(x) => x,
        None => {
            return None;
        },
    };
    let (revenue, p7) = match read_u64(s, p6) {
        Some(x) => x,
        None => {
            return None;
        },
    };
    if p7 != s.len() {
        return None;
    }
    Some(
        MilkRecord {
            id: id,
            farm_id: farm_id,
            date: date,
            total_milk: total_milk,
            sold_milk: sold_milk,
            remaining_milk: remaining_milk,
            revenue: revenue,
        },
    )
}

/// The canonical encoding of an expense.
pub open spec fn spec_encode_expense(e: ExpenseView) -> Seq<u8> {
    u64_le_bytes(e.id) + (u64_le_bytes(e.farm_id) + (u64_le_bytes(e.date)
        + (enc_bytes(e.category) + (u64_le_bytes(e.amount) + enc_bytes(e.description)))))
}

/// Whether every text field of `e` is short enough for its `u64`
/// length prefix.
pub open spec fn expense_bounded(e: ExpenseView) -> bool {
    &&& e.category.len() < len_limit()
    &&& e.description.len() < len_limit()
}

/// The expense read back from a canonical encoding.
pub open spec fn spec_decode_expense(s: Seq<u8>) -> Option<ExpenseView> {
    match take_u64(s) {
        None => None,
        Some((id, s1)) => match take_u64(s1) {
            None => None,
            Some((farm_id, s2)) => match take_u64(s2) {
                None => None,
                Some((date, s3)) => match take_bytes(s3) {
                    None => None,
                    Some((category, s4)) => match take_u64(s4) {
                        None => None,
                        Some((amount, s5)) => match take_bytes(s5) {
                            None => None,
                            Some((description, s6)) => {
                                if s6.len() == 0 {
                                    Some(
                                        (ExpenseView {
                                            id: id,
                                            farm_id: farm_id,
                                            date: date,
                                            category: category,
                                            amount: amount,
                                            description: description,
                                        }),
                                    )
                                } else {
                                    None
                                }
                            },
                        },
                    },
                },
            },
        },
    }
}

/// Decoding the canonical encoding of an expense yields the expense
/// back.
#[verifier::rlimit(50)]
pub proof fn lemma_expense_round_trip(e: ExpenseView)
    requires
        expense_bounded(e),
    ensures
        spec_decode_expense(spec_encode_expense(e)) == Some(e),
{
    let t5 = enc_bytes(e.description);
    let t4 = u64_le_bytes(e.amount) + t5;
    let t3 = enc_bytes(e.category) + t4;
    let t2 = u64_le_bytes(e.date) + t3;
    let t1 = u64_le_bytes(e.farm_id) + t2;
    let s = spec_encode_expense(e);
    lemma_take_u64_prefix(e.id, t1);
    assert(take_u64(s) == Some((e.id, t1)));
    lemma_take_u64_prefix(e.farm_id, t2);
    assert(take_u64(t1) == Some((e.farm_id, t2)));
    lemma_take_u64_prefix(e.date, t3);
    assert(take_u64(t2) == Some((e.date, t3)));
    lemma_take_bytes_prefix(e.category, t4);
    assert(take_bytes(t3) == Some((e.category, t4)));
    lemma_take_u64_prefix(e.amount, t5);
    assert(take_u64(t4) == Some((e.amount, t5)));
    assert(t5 =~= enc_bytes(e.description) + Seq::<u8>::empty());
    lemma_take_bytes_prefix(e.description, Seq::<u8>::empty());
    assert(take_bytes(t5) == Some((e.description, Seq::<u8>::empty())));
}

/// Encodes an expense canonically.
pub fn encode_expense(e: &Expense) -> (r: Vec<u8>)
    ensures
        r@ == spec_encode_expense(e@),
{
    let mut out: Vec<u8> = Vec::new();
    push_u64(&mut out, e.id);
    push_u64(&mut out, e.farm_id);
    push_u64(&mut out, e.date);
    push_bytes(&mut out, &e.category);
    push_u64(&mut out, e.amount);
    push_bytes(&mut out, &e.description);
    proof {
        assert(out@ =~= spec_encode_expense(e@));
    }
    out
}

/// Decodes an expense from its canonical encoding.
#[verifier::rlimit(50)]
pub fn decode_expense(s: &Vec<u8>) -> (r: Option<Expense>)
    ensures
        (match r {
            Some(e) => spec_decode_expense(s@) == Some(e@),
            None => spec_decode_expense(s@) is None,
        }),
{
    proof {
        assert(s@.skip(0) =~= s@);
    }
    let (id, p1) = match read_u64(s, 0) {
        Some(x) => x,
        None => {
            return None;
        },
    };
    let (farm_id, p2) = match read_u64(s, p1) {
        Some(x) => x,
        None => {
            return None;
        },
    };
    let (date, p3) = match read_u64(s, p2) {
        Some(x) => x,
        None => {
            return None;
        },
    };
    let (category, p4) = match read_bytes(s, p3) {
        Some(x) => x,
        None => {
            return None;
        },
    };
    let (amount, p5) = match read_u64(s, p4) {
        Some(x) => x,
        None => {
            return None;
        },
    };
    let (description, p6) = match read_bytes(s, p5) {
        Some(x) => x,
        None => {
            return None;
        },
    };
    if p6 != s.len() {
        return None;
    }
    Some(
        Expense {
            id: id,
            farm_id: farm_id,
            date: date,
            category: category,
            amount: amount,
            description: description,
        },
    )
}

/// The canonical encoding of a feed record.
pub open spec fn spec_encode_feed(f: FeedRecordView) -> Seq<u8> {
    u64_le_bytes(f.id) + (u64_le_bytes(f.farm_id) + (enc_bytes(f.feed_type)
        + (u64_le_bytes(f.quantity) + (u64_le_bytes(f.cost) + u64_le_bytes(f.date)))))
}

/// Whether the text field of `f` is short enough for its `u64` length
/// prefix.
pub open spec fn feed_bounded(f: FeedRecordView) -> bool {
    f.feed_type.len() < len_limit()
}

/// The feed record read back from a canonical encoding.
pub open spec fn spec_decode_feed(s: Seq<u8>) -> Option<FeedRecordView> {
    match take_u64(s) {
        None => None,
        Some((id, s1)) => match take_u64(s1) {
            None => None,
            Some((farm_id, s2)) => match take_bytes(s2) {
                None => None,
                Some((feed_type, s3)) => match take_u64(s3) {
                    None => None,
                    Some((quantity, s4)) => match take_u64(s4) {
                        None => None,
                        Some((cost, s5)) => match take_u64(s5) {
                            None => None,
                            Some((date, s6)) => {
                                if s6.len() == 0 {
                                    Some(
                                        (FeedRecordView {
                                            id: id,
                                            farm_id: farm_id,
                                            feed_type: feed_type,
                                            quantity: quantity,
                                            cost: cost,
                                            date: date,
                                        }),
                                    )
                                } else {
                                    None
                                }
                            },
                        },
                    },
                },
            },
        },
    }
}

/// Decoding the canonical encoding of a feed record yields the record
/// back.
#[verifier::rlimit(50)]
pub proof fn lemma_feed_round_trip(f: FeedRecordView)
    requires
        feed_bounded(f),
    ensures
        spec_decode_feed(spec_encode_feed(f)) == Some(f),
{
    let t5 = u64_le_bytes(f.date);
    let t4 = u64_le_bytes(f.cost) + t5;
    let t3 = u64_le_bytes(f.quantity) + t4;
    let t2 = enc_bytes(f.feed_type) + t3;
    let t1 = u64_le_bytes(f.farm_id) + t2;
    let s = spec_encode_feed(f);
    lemma_take_u64_prefix(f.id, t1);
    assert(take_u64(s) == Some((f.id, t1)));
    lemma_take_u64_prefix(f.farm_id, t2);
    assert(take_u64(t1) == Some((f.farm_id, t2)));
    lemma_take_bytes_prefix(f.feed_type, t3);
    assert(take_bytes(t2) == Some((f.feed_type, t3)));
    lemma_take_u64_prefix(f.quantity, t4);
    assert(take_u64(t3) == Some((f.quantity, t4)));
    lemma_take_u64_prefix(f.cost, t5);
    assert(take_u64(t4) == Some((f.cost, t5)));
    assert(t5 =~= u64_le_bytes(f.date) + Seq::<u8>::empty());
    lemma_take_u64_prefix(f.date, Seq::<u8>::empty());
    assert(take_u64(t5) == Some((f.date, Seq::<u8>::empty())));
}

/// Encodes a feed record canonically.
pub fn encode_feed(f: &FeedRecord) -> (r: Vec<u8>)
    ensures
        r@ == spec_encode_feed(f@),
{
    let mut out: Vec<u8> = Vec::new();
    push_u64(&mut out, f.id);
    push_u64(&mut out, f.farm_id);
    push_bytes(&mut out, &f.feed_type);
    push_u64(&mut out, f.quantity);
    push_u64(&mut out, f.cost);
    push_u64(&mut out, f.date);
    proof {
        assert(out@ =~= spec_encode_feed(f@));
    }
    out
}

/// Decodes a feed record from its canonical encoding.
#[verifier::rlimit(50)]
pub fn decode_feed(s: &Vec<u8>) -> (r: Option<FeedRecord>)
    ensures
        (match r {
            Some(f) => spec_decode_feed(s@) == Some(f@),
            None => spec_decode_feed(s@) is None,
        }),
{
    proof {
        assert(s@.skip(0) =~= s@);
    }
    let (id, p1) = match read_u64(s, 0) {
        Some(x) => x,
        None => {
            return None;
        },
    };
    let (farm_id, p2) = match read_u64(s, p1) {
        Some(x) => x,
        None => {
            return None;
        },
    };
    let (feed_type, p3) = match read_bytes(s, p2) {
        Some(x) => x,
        None => {
            return None;
        },
    };
    let (quantity, p4) = match read_u64(s, p3) {
        Some(x) => x,
        None => {
            return None;
        },
    };
    let (cost, p5) = match read_u64(s, p4) {
        Some(x) => x,
        None => {
            return None;
        },
    };
    let (date, p6) = match read_u64(s, p5) {
        Some(x) => x,
        None => {
            return None;
        },
    };
    if p6 != s.len() {
        return None;
    }
    Some(
        FeedRecord {
            id: id,
            farm_id: farm_id,
            feed_type: feed_type,
            quantity: quantity,
            cost: cost,
            date: date,
        },
    )
}

/// A farm whose text fields respect [`MAX_TEXT_LEN`] encodes within
/// [`MAX_ENCODED_LEN`].
pub proof fn lemma_farm_encoding_bounded(f: FarmView)
    requires
        f.name.len() <= MAX_TEXT_LEN,
        f.location.len() <= MAX_TEXT_LEN,
        f.owner.len() <= MAX_TEXT_LEN,
        f.contact.len() <= MAX_TEXT_LEN,
        f.email.len() <= MAX_TEXT_LEN,
    ensures
        spec_encode_farm(f).len() <= MAX_ENCODED_LEN,
{
}

/// An animal whose text fields respect [`MAX_TEXT_LEN`] encodes
/// within [`MAX_ENCODED_LEN`].
pub proof fn lemma_animal_encoding_bounded(a: AnimalView)
    requires
        a.tag_number.len() <= MAX_TEXT_LEN,
        a.breed.len() <= MAX_TEXT_LEN,
        a.health_status.len() <= MAX_TEXT_LEN,
    ensures
        spec_encode_animal(a).len() <= MAX_ENCODED_LEN,
{
}

/// A milk record always encodes within [`MAX_ENCODED_LEN`]: all its
/// fields are fixed-width.
pub proof fn lemma_milk_encoding_bounded(m: MilkRecordView)
    ensures
        spec_encode_milk(m).len() <= MAX_ENCODED_LEN,
{
}

/// An expense whose text fields respect [`MAX_TEXT_LEN`] encodes
/// within [`MAX_ENCODED_LEN`].
pub proof fn lemma_expense_encoding_bounded(e: ExpenseView)
    requires
        e.category.len() <= MAX_TEXT_LEN,
        e.description.len() <= MAX_TEXT_LEN,
    ensures
        spec_encode_expense(e).len() <= MAX_ENCODED_LEN,
{
}

/// A feed record whose text field respects [`MAX_TEXT_LEN`] encodes
/// within [`MAX_ENCODED_LEN`].
pub proof fn lemma_feed_encoding_bounded(f: FeedRecordView)
    requires
        f.feed_type.len() <= MAX_TEXT_LEN,
    ensures
        spec_encode_feed(f).len() <= MAX_ENCODED_LEN,
{
}

} // verus!
