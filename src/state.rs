use vstd::prelude::*;

use crate::identity::Identity;

verus! {

/// The stored record: the identity allowed to increment it, and the count.
#[derive(Clone, Copy, Debug, PartialEq, Eq)]
pub struct Counter {
    pub authority: Identity,
    pub count: u64,
}

/// Why a call was refused. A refused call changes nothing.
#[derive(Clone, Copy, Debug, PartialEq, Eq, Structural)]
pub enum ErrorCode {
    /// A record is already stored at the derived address.
    AlreadyExists,
    /// No record is stored at the derived address.
    NotFound,
    /// The signer is not the authority stored in the record.
    BadAuthority,
    /// The count is at `u64::MAX` and cannot grow.
    Overflow,
    /// No program address can be derived from the signer's key.
    AddressUnavailable,
}

/// The increment rule on one record: only its authority may increment it, and
/// the count never passes `u64::MAX`.
pub open spec fn record_increment(c: Counter, signer: Identity) -> Result<Counter, ErrorCode> {
    if c.authority != signer {
        Err(ErrorCode::BadAuthority)
    } else if c.count == u64::MAX {
        Err(ErrorCode::Overflow)
    } else {
        Ok(Counter { authority: c.authority, count: (c.count + 1) as u64 })
    }
}

impl Counter {
    /// A fresh record owned by `authority`, at count 0.
    pub fn new(authority: Identity) -> (r: Counter)
        ensures
            r == (Counter { authority, count: 0 }),
    {
        Counter { authority, count: 0 }
    }

    /// Adds one to the count where `signer` is the authority and the count is
    /// below `u64::MAX`; otherwise leaves the record as it was.
    pub fn increment_by(&mut self, signer: &Identity) -> (r: Result<Counter, ErrorCode>)
        ensures
            r == record_increment(*old(self), *signer),
            *final(self) == match r {
                Ok(c) => c,
                Err(_) => *old(self),
            },
    {
        if !self.authority.same_as(signer) {
            return Err(ErrorCode::BadAuthority);
        }
        match self.count.checked_add(1) {
            Some(n) => {
                self.count = n;
                Ok(*self)
            },
            None => Err(ErrorCode::Overflow),
        }
    }
}

} // verus!
