use std::str::FromStr;

use agentic_counter::address::{counter_seed, find_counter_address};
use agentic_counter::identity::Identity;
use agentic_counter::state::{Counter, ErrorCode};
use agentic_counter::store::{increment, initialize, CounterStore, Increment, Initialize};
use anchor_lang::prelude::Pubkey;

fn program_id() -> Identity {
    let key = Pubkey::from_str("BtUk5jpsbzNB2yfR31RXecEHXgcMj4kDabZr3dzKthmW").unwrap();
    Identity::new(key.to_bytes())
}

fn alice() -> Identity {
    Identity::new([0xA1; 32])
}

fn bob() -> Identity {
    Identity::new([0xB0; 32])
}

fn create(store: &mut CounterStore, who: Identity) -> Result<Counter, ErrorCode> {
    initialize(store, &Initialize { authority: who, payer: who })
}

fn bump(store: &mut CounterStore, who: Identity) -> Result<Counter, ErrorCode> {
    increment(store, &Increment { authority: who })
}

#[test]
fn seed_is_counter_label() {
    assert_eq!(&counter_seed(), b"counter");
}

#[test]
fn derived_address_is_program_address() {
    let pid = program_id();
    let a = alice();
    let expected = Pubkey::find_program_address(
        &[b"counter", &a.to_bytes()],
        &Pubkey::new_from_array(pid.to_bytes()),
    )
    .0;
    let got = find_counter_address(&pid, &a).unwrap();
    assert_eq!(got.to_bytes(), expected.to_bytes());
    assert_ne!(got, a);
    assert_ne!(got, pid);
}

#[test]
fn derived_address_is_deterministic_and_distinct() {
    let pid = program_id();
    let a1 = find_counter_address(&pid, &alice()).unwrap();
    let a2 = find_counter_address(&pid, &alice()).unwrap();
    let b = find_counter_address(&pid, &bob()).unwrap();
    assert_eq!(a1, a2);
    assert_ne!(a1, b);
    let other_program = Identity::new([7; 32]);
    assert_ne!(find_counter_address(&other_program, &alice()).unwrap(), a1);
}

#[test]
fn new_store_is_empty() {
    let store = CounterStore::new(program_id());
    assert_eq!(store.program_id(), program_id());
    assert_eq!(store.record_of(&alice()), None);
    let address = find_counter_address(&program_id(), &alice()).unwrap();
    assert_eq!(store.get(&address), None);
}

#[test]
fn create_then_read() {
    let mut store = CounterStore::new(program_id());
    let created = create(&mut store, alice()).unwrap();
    assert_eq!(created, Counter { authority: alice(), count: 0 });
    let address = find_counter_address(&program_id(), &alice()).unwrap();
    assert_eq!(store.get(&address), Some(Counter { authority: alice(), count: 0 }));
    assert_eq!(store.record_of(&alice()), Some(Counter { authority: alice(), count: 0 }));
    assert_eq!(store.record_of(&bob()), None);
}

#[test]
fn create_with_separate_payer() {
    let mut store = CounterStore::new(program_id());
    let created = initialize(&mut store, &Initialize { authority: alice(), payer: bob() }).unwrap();
    assert_eq!(created, Counter { authority: alice(), count: 0 });
    assert_eq!(store.record_of(&bob()), None);
}

#[test]
fn create_twice_already_exists() {
    let mut store = CounterStore::new(program_id());
    create(&mut store, alice()).unwrap();
    assert_eq!(create(&mut store, alice()), Err(ErrorCode::AlreadyExists));
    assert_eq!(store.record_of(&alice()), Some(Counter { authority: alice(), count: 0 }));
}

#[test]
fn create_after_increment_keeps_count() {
    let mut store = CounterStore::new(program_id());
    create(&mut store, alice()).unwrap();
    bump(&mut store, alice()).unwrap();
    assert_eq!(create(&mut store, alice()), Err(ErrorCode::AlreadyExists));
    assert_eq!(store.record_of(&alice()), Some(Counter { authority: alice(), count: 1 }));
}

#[test]
fn increment_repeatedly_counts_calls() {
    let mut store = CounterStore::new(program_id());
    create(&mut store, alice()).unwrap();
    assert_eq!(store.record_of(&alice()).unwrap().count, 0);
    for n in 1..=5u64 {
        assert_eq!(bump(&mut store, alice()), Ok(Counter { authority: alice(), count: n }));
    }
    assert_eq!(store.record_of(&alice()), Some(Counter { authority: alice(), count: 5 }));
}

#[test]
fn increment_without_record_not_found() {
    let mut store = CounterStore::new(program_id());
    assert_eq!(bump(&mut store, alice()), Err(ErrorCode::NotFound));
    assert_eq!(store.record_of(&alice()), None);
}

#[test]
fn increment_by_other_leaves_record() {
    let mut store = CounterStore::new(program_id());
    create(&mut store, alice()).unwrap();
    bump(&mut store, alice()).unwrap();
    create(&mut store, bob()).unwrap();
    assert_eq!(bump(&mut store, bob()), Ok(Counter { authority: bob(), count: 1 }));
    assert_eq!(store.record_of(&alice()), Some(Counter { authority: alice(), count: 1 }));
}

#[test]
fn record_rejects_other_signer() {
    let mut record = Counter::new(alice());
    assert_eq!(record.increment_by(&bob()), Err(ErrorCode::BadAuthority));
    assert_eq!(record, Counter { authority: alice(), count: 0 });
}

#[test]
fn record_increments_for_owner() {
    let mut record = Counter { authority: alice(), count: 41 };
    assert_eq!(record.increment_by(&alice()), Ok(Counter { authority: alice(), count: 42 }));
    assert_eq!(record, Counter { authority: alice(), count: 42 });
}

#[test]
fn record_at_max_overflows() {
    let mut record = Counter { authority: alice(), count: u64::MAX };
    assert_eq!(record.increment_by(&alice()), Err(ErrorCode::Overflow));
    assert_eq!(record, Counter { authority: alice(), count: u64::MAX });
}

#[test]
fn record_below_max_reaches_max() {
    let mut record = Counter { authority: alice(), count: u64::MAX - 1 };
    assert_eq!(record.increment_by(&alice()), Ok(Counter { authority: alice(), count: u64::MAX }));
    assert_eq!(record.increment_by(&alice()), Err(ErrorCode::Overflow));
    assert_eq!(record.count, u64::MAX);
}

#[test]
fn alice_and_bob() {
    let mut store = CounterStore::new(program_id());
    assert_eq!(create(&mut store, alice()), Ok(Counter { authority: alice(), count: 0 }));
    assert_eq!(bump(&mut store, alice()), Ok(Counter { authority: alice(), count: 1 }));
    assert_eq!(bump(&mut store, bob()), Err(ErrorCode::NotFound));
    assert_eq!(store.record_of(&alice()), Some(Counter { authority: alice(), count: 1 }));
}
