use vstd::prelude::*;

use crate::address::{counter_address, find_counter_address};
use crate::identity::Identity;
use crate::state::{record_increment, Counter, ErrorCode};

verus! {

/// The signers of an `initialize` call: the identity that will own the record, and
/// the one that pays for its storage (the host charges it; it may be the owner).
pub struct Initialize {
    pub authority: Identity,
    pub payer: Identity,
}

/// The signer of an `increment` call.
pub struct Increment {
    pub authority: Identity,
}

/// What `initialize` does to the records (keyed by address), given the address
/// derived from `authority`: the records afterwards, and the result.
pub open spec fn initialize_step(
    records: Map<Identity, Counter>,
    address: Option<Identity>,
    authority: Identity,
) -> (Map<Identity, Counter>, Result<Counter, ErrorCode>) {
    match address {
        None => (records, Err(ErrorCode::AddressUnavailable)),
        Some(a) => if records.contains_key(a) {
            (records, Err(ErrorCode::AlreadyExists))
        } else {
            let c = Counter { authority, count: 0 };
            (records.insert(a, c), Ok(c))
        },
    }
}

/// What `increment` does to the records, given the address derived from
/// `authority`: the records afterwards, and the result.
pub open spec fn increment_step(
    records: Map<Identity, Counter>,
    address: Option<Identity>,
    authority: Identity,
) -> (Map<Identity, Counter>, Result<Counter, ErrorCode>) {
    match address {
        None => (records, Err(ErrorCode::AddressUnavailable)),
        Some(a) => if !records.contains_key(a) {
            (records, Err(ErrorCode::NotFound))
        } else {
            match record_increment(records[a], authority) {
                Ok(c) => (records.insert(a, c), Ok(c)),
                Err(e) => (records, Err(e)),
            }
        },
    }
}

/// No two entries share an address.
spec fn keys_unique(s: Seq<(Identity, Counter)>) -> bool {
    forall|j: int, k: int|
        0 <= j < s.len() && 0 <= k < s.len() && #[trigger] s[j].0 == #[trigger] s[k].0 ==> j == k
}

spec fn entry_at(s: Seq<(Identity, Counter)>, a: Identity) -> bool {
    exists|k: int| 0 <= k < s.len() && #[trigger] s[k].0 == a
}

/// The entries read as a map from address to record.
spec fn entries_map(s: Seq<(Identity, Counter)>) -> Map<Identity, Counter> {
    Map::new(
        |a: Identity| entry_at(s, a),
        |a: Identity| s[choose|k: int| 0 <= k < s.len() && #[trigger] s[k].0 == a].1,
    )
}

proof fn lemma_entry(s: Seq<(Identity, Counter)>, k: int)
    requires
        keys_unique(s),
        0 <= k < s.len(),
    ensures
        entries_map(s).contains_key(s[k].0),
        entries_map(s)[s[k].0] == s[k].1,
{
    let a = s[k].0;
    assert(entry_at(s, a));
    let j = choose|j: int| 0 <= j < s.len() && #[trigger] s[j].0 == a;
    assert(s[j].0 == s[k].0);
}

proof fn lemma_push(s: Seq<(Identity, Counter)>, a: Identity, c: Counter)
    requires
        keys_unique(s),
        !entry_at(s, a),
    ensures
        keys_unique(s.push((a, c))),
        entries_map(s.push((a, c))) == entries_map(s).insert(a, c),
{
    let t = s.push((a, c));
    assert forall|j: int, k: int|
        0 <= j < t.len() && 0 <= k < t.len() && #[trigger] t[j].0 == #[trigger] t[k].0 implies j == k by {
        if j < s.len() && k == s.len() {
            assert(s[j].0 == a);
        } else if k < s.len() && j == s.len() {
            assert(s[k].0 == a);
        } else if j < s.len() && k < s.len() {
            assert(s[j].0 == s[k].0);
        }
    }
    let m = entries_map(t);
    let n = entries_map(s).insert(a, c);
    assert forall|b: Identity| m.contains_key(b) <==> n.contains_key(b) by {
        if m.contains_key(b) {
            let k = choose|k: int| 0 <= k < t.len() && #[trigger] t[k].0 == b;
            if k < s.len() {
                assert(s[k].0 == b);
            }
        }
        if entries_map(s).contains_key(b) {
            let k = choose|k: int| 0 <= k < s.len() && #[trigger] s[k].0 == b;
            assert(t[k].0 == b);
        }
        if b == a {
            assert(t[s.len() as int].0 == a);
        }
    }
    assert forall|b: Identity| #[trigger] m.contains_key(b) implies m[b] == n[b] by {
        let k = choose|k: int| 0 <= k < t.len() && #[trigger] t[k].0 == b;
        lemma_entry(t, k);
        if k < s.len() {
            assert(t[k] == s[k]);
            lemma_entry(s, k);
        }
    }
    assert(m =~= n);
}

proof fn lemma_replace(s: Seq<(Identity, Counter)>, k: int, c: Counter)
    requires
        keys_unique(s),
        0 <= k < s.len(),
    ensures
        keys_unique(s.update(k, (s[k].0, c))),
        entries_map(s.update(k, (s[k].0, c))) == entries_map(s).insert(s[k].0, c),
{
    let t = s.update(k, (s[k].0, c));
    assert forall|i: int| 0 <= i < t.len() implies #[trigger] t[i].0 == s[i].0 by {}
    assert forall|i: int, j: int|
        0 <= i < t.len() && 0 <= j < t.len() && #[trigger] t[i].0 == #[trigger] t[j].0 implies i == j by {
        assert(s[i].0 == s[j].0);
    }
    let m = entries_map(t);
    let n = entries_map(s).insert(s[k].0, c);
    assert forall|b: Identity| m.contains_key(b) <==> n.contains_key(b) by {
        if m.contains_key(b) {
            let i = choose|i: int| 0 <= i < t.len() && #[trigger] t[i].0 == b;
            assert(s[i].0 == b);
        }
        if entries_map(s).contains_key(b) {
            let i = choose|i: int| 0 <= i < s.len() && #[trigger] s[i].0 == b;
            assert(t[i].0 == b);
        }
        assert(t[k].0 == s[k].0);
    }
    assert forall|b: Identity| #[trigger] m.contains_key(b) implies m[b] == n[b] by {
        let i = choose|i: int| 0 <= i < t.len() && #[trigger] t[i].0 == b;
        lemma_entry(t, i);
        if i != k {
            assert(t[i] == s[i]);
            lemma_entry(s, i);
        }
    }
    assert(m =~= n);
}

/// The records of one program, each at the address derived from its authority.
pub struct CounterStore {
    program_id: Identity,
    entries: Vec<(Identity, Counter)>,
}

impl View for CounterStore {
    type V = Map<Identity, Counter>;

    /// The stored records, keyed by address.
    closed spec fn view(&self) -> Map<Identity, Counter> {
        entries_map(self.entries@)
    }
}

impl CounterStore {
    /// The program whose id namespaces the derived addresses.
    pub closed spec fn program(&self) -> Identity {
        self.program_id
    }

    /// Addresses are unique, and each record sits at the address derived from
    /// its own authority.
    pub closed spec fn well_formed(&self) -> bool {
        &&& keys_unique(self.entries@)
        &&& forall|k: int|
            0 <= k < self.entries@.len() ==> counter_address(self.program_id, #[trigger] self.entries@[k].1.authority)
                == Some(self.entries@[k].0)
    }

    /// An empty store for the program `program_id`.
    pub fn new(program_id: Identity) -> (r: CounterStore)
        ensures
            r.well_formed(),
            r.program() == program_id,
            r@ == Map::<Identity, Counter>::empty(),
    {
        let r = CounterStore { program_id, entries: Vec::new() };
        assert(r@ =~= Map::<Identity, Counter>::empty());
        r
    }

    pub fn program_id(&self) -> (r: Identity)
        ensures
            r == self.program(),
    {
        self.program_id
    }

    /// The position of the entry at `address`, if there is one.
    fn position(&self, address: &Identity) -> (r: Option<usize>)
        requires
            self.well_formed(),
        ensures
            match r {
                Some(k) => k < self.entries@.len() && self.entries@[k as int].0 == *address
                    && self@.contains_key(*address) && self@[*address] == self.entries@[k as int].1,
                None => !self@.contains_key(*address),
            },
    {
        let mut i: usize = 0;
        while i < self.entries.len()
            invariant
                self.well_formed(),
                i <= self.entries@.len(),
                forall|j: int| 0 <= j < i ==> (#[trigger] self.entries@[j]).0 != *address,
            decreases self.entries@.len() - i,
        {
            if self.entries[i].0.same_as(address) {
                proof {
                    lemma_entry(self.entries@, i as int);
                }
                return Some(i);
            }
            i = i + 1;
        }
        None
    }

    /// The record stored at `address`.
    pub fn get(&self, address: &Identity) -> (r: Option<Counter>)
        requires
            self.well_formed(),
        ensures
            r == (if self@.contains_key(*address) { Some(self@[*address]) } else { None::<Counter> }),
    {
        match self.position(address) {
            Some(k) => Some(self.entries[k].1),
            None => None,
        }
    }

    /// The record stored at the address derived from `authority`.
    pub fn record_of(&self, authority: &Identity) -> (r: Option<Counter>)
        requires
            self.well_formed(),
        ensures
            r == match counter_address(self.program(), *authority) {
                Some(a) => if self@.contains_key(a) {
                    Some(self@[a])
                } else {
                    None
                },
                None => None::<Counter>,
            },
    {
        match find_counter_address(&self.program_id, authority) {
            Some(a) => self.get(&a),
            None => None,
        }
    }
}

/// Creates the record of `accounts.authority`, with count 0, at the address
/// derived from it; refused where a record is already stored there.
pub fn initialize(store: &mut CounterStore, accounts: &Initialize) -> (r: Result<Counter, ErrorCode>)
    requires
        old(store).well_formed(),
    ensures
        final(store).well_formed(),
        final(store).program() == old(store).program(),
        (final(store)@, r) == initialize_step(
            old(store)@,
            counter_address(old(store).program(), accounts.authority),
            accounts.authority,
        ),
{
    let address = match find_counter_address(&store.program_id, &accounts.authority) {
        Some(a) => a,
        None => return Err(ErrorCode::AddressUnavailable),
    };
    match store.position(&address) {
        Some(_) => Err(ErrorCode::AlreadyExists),
        None => {
            let c = Counter::new(accounts.authority);
            proof {
                lemma_push(store.entries@, address, c);
            }
            store.entries.push((address, c));
            proof {
                let t = store.entries@;
                assert forall|k: int| 0 <= k < t.len() implies counter_address(
                    store.program_id,
                    #[trigger] t[k].1.authority,
                ) == Some(t[k].0) by {
                    if k < t.len() - 1 {
                        assert(t[k] == old(store).entries@[k]);
                    }
                }
            }
            Ok(c)
        },
    }
}

/// Adds one to the count of the record at the address derived from
/// `accounts.authority`, where that record exists, names the signer as its
/// authority, and is below `u64::MAX`.
pub fn increment(store: &mut CounterStore, accounts: &Increment) -> (r: Result<Counter, ErrorCode>)
    requires
        old(store).well_formed(),
    ensures
        final(store).well_formed(),
        final(store).program() == old(store).program(),
        (final(store)@, r) == increment_step(
            old(store)@,
            counter_address(old(store).program(), accounts.authority),
            accounts.authority,
        ),
{
    let address = match find_counter_address(&store.program_id, &accounts.authority) {
        Some(a) => a,
        None => return Err(ErrorCode::AddressUnavailable),
    };
    let k = match store.position(&address) {
        Some(k) => k,
        None => return Err(ErrorCode::NotFound),
    };
    let mut record = store.entries[k].1;
    let c = match record.increment_by(&accounts.authority) {
        Ok(c) => c,
        Err(e) => return Err(e),
    };
    proof {
        lemma_replace(store.entries@, k as int, c);
    }
    store.entries.set(k, (address, c));
    proof {
        let t = store.entries@;
        assert forall|i: int| 0 <= i < t.len() implies counter_address(
            store.program_id,
            #[trigger] t[i].1.authority,
        ) == Some(t[i].0) by {
            if i != k {
                assert(t[i] == old(store).entries@[i]);
            } else {
                assert(old(store).entries@[i].1.authority == c.authority);
            }
        }
    }
    Ok(c)
}

} // verus!
