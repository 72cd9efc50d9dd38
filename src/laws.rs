use vstd::prelude::*;

use crate::address::counter_address;
use crate::identity::Identity;
use crate::state::{Counter, ErrorCode};
use crate::store::{increment_step, initialize_step};

verus! {

/// The records after `n` calls of `increment` by `authority`, one after another.
pub open spec fn increment_times(
    records: Map<Identity, Counter>,
    address: Option<Identity>,
    authority: Identity,
    n: nat,
) -> Map<Identity, Counter>
    decreases n,
{
    if n == 0 {
        records
    } else {
        increment_step(increment_times(records, address, authority, (n - 1) as nat), address, authority).0
    }
}

/// Creating the record of `authority`, where its address holds none yet, leaves
/// at that address a record owned by `authority` with count 0, and returns it.
pub proof fn initialize_then_read(records: Map<Identity, Counter>, program_id: Identity, authority: Identity)
    requires
        counter_address(program_id, authority) is Some,
        !records.contains_key(counter_address(program_id, authority).unwrap()),
    ensures
        ({
            let a = counter_address(program_id, authority).unwrap();
            let (after, r) = initialize_step(records, Some(a), authority);
            &&& r == Ok::<Counter, ErrorCode>(Counter { authority, count: 0 })
            &&& after.contains_key(a)
            &&& after[a] == Counter { authority, count: 0 }
        }),
{
}

/// Creating the same record twice: the second call is refused with
/// `AlreadyExists` and leaves the record as the first made it, at count 0.
pub proof fn initialize_twice(records: Map<Identity, Counter>, program_id: Identity, authority: Identity)
    requires
        counter_address(program_id, authority) is Some,
        !records.contains_key(counter_address(program_id, authority).unwrap()),
    ensures
        ({
            let address = counter_address(program_id, authority);
            let a = address.unwrap();
            let (first, _) = initialize_step(records, address, authority);
            let (second, r) = initialize_step(first, address, authority);
            &&& r == Err::<Counter, ErrorCode>(ErrorCode::AlreadyExists)
            &&& second == first
            &&& second[a] == Counter { authority, count: 0 }
        }),
{
}

/// `n` increments by the owner of a record at count `v`, with `v + n` at most
/// `u64::MAX`, all succeed, the one made after `k` others returning count
/// `v + k + 1`; afterwards the count is `v + n` and the authority unchanged.
pub proof fn increment_repeatedly(
    records: Map<Identity, Counter>,
    program_id: Identity,
    authority: Identity,
    n: nat,
)
    requires
        counter_address(program_id, authority) is Some,
        records.contains_key(counter_address(program_id, authority).unwrap()),
        records[counter_address(program_id, authority).unwrap()].authority == authority,
        records[counter_address(program_id, authority).unwrap()].count + n <= u64::MAX,
    ensures
        ({
            let address = counter_address(program_id, authority);
            let a = address.unwrap();
            let after = increment_times(records, address, authority, n);
            &&& after.contains_key(a)
            &&& after[a] == Counter { authority, count: (records[a].count + n) as u64 }
        }),
        forall|k: nat|
            k < n ==> increment_step(
                #[trigger] increment_times(records, counter_address(program_id, authority), authority, k),
                counter_address(program_id, authority),
                authority,
            ).1 == Ok::<Counter, ErrorCode>(
                Counter {
                    authority,
                    count: (records[counter_address(program_id, authority).unwrap()].count + k + 1) as u64,
                },
            ),
    decreases n,
{
    if n > 0 {
        increment_repeatedly(records, program_id, authority, (n - 1) as nat);
    }
}

/// An increment signed by `other`, not the owner of the record at the owner's
/// address, leaves that record unchanged; where `other`'s own address holds no
/// record the call is refused with `NotFound`, and where it holds one that
/// `other` does not own, with `BadAuthority`, changing nothing.
pub proof fn increment_by_other(
    records: Map<Identity, Counter>,
    program_id: Identity,
    owner: Identity,
    other: Identity,
)
    requires
        owner != other,
        counter_address(program_id, owner) is Some,
        records.contains_key(counter_address(program_id, owner).unwrap()),
        records[counter_address(program_id, owner).unwrap()].authority == owner,
    ensures
        ({
            let a = counter_address(program_id, owner).unwrap();
            let (after, r) = increment_step(records, counter_address(program_id, other), other);
            &&& after.contains_key(a)
            &&& after[a] == records[a]
            &&& forall|b: Identity|
                counter_address(program_id, other) == Some(b) && !records.contains_key(b) ==> r
                    == Err::<Counter, ErrorCode>(ErrorCode::NotFound) && after == records
            &&& forall|b: Identity|
                counter_address(program_id, other) == Some(b) && records.contains_key(b)
                    && records[b].authority != other ==> r == Err::<Counter, ErrorCode>(
                    ErrorCode::BadAuthority,
                ) && after == records
        }),
{
}

/// An increment of a record whose count is `u64::MAX` is refused with
/// `Overflow` and leaves the records unchanged.
pub proof fn increment_at_max(records: Map<Identity, Counter>, program_id: Identity, authority: Identity)
    requires
        counter_address(program_id, authority) is Some,
        records.contains_key(counter_address(program_id, authority).unwrap()),
        records[counter_address(program_id, authority).unwrap()] == (Counter { authority, count: u64::MAX }),
    ensures
        ({
            let (after, r) = increment_step(records, counter_address(program_id, authority), authority);
            &&& r == Err::<Counter, ErrorCode>(ErrorCode::Overflow)
            &&& after == records
        }),
{
}

} // verus!
