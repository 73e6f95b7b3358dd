//! The three registries that requests are checked against: the allowlist of
//! creators, the fingerprints seen so far, and the next nonce of each
//! recipient.
//!
//! Each is an ordered collection keyed by pairs of numbers, one pair for each
//! address or hash. A method that only reads takes the registry by `&`, so it
//! may be read from many places at once. A method that changes a registry
//! takes it by `&mut`, so no two changes overlap and each check-and-change is
//! one step.

use std::collections::{BTreeMap, BTreeSet};
use vstd::prelude::*;
use crate::types::{
    address_key, h256_key, lemma_address_key_injective, lemma_h256_key_injective, Address, H256,
    U256,
};

verus! {

/// The creators that may ask for permits.
pub struct Allowlist {
    members: BTreeSet<(u128, u128)>,
}

/// The content fingerprints that were admitted. None ever leaves.
pub struct DedupStore {
    seen: BTreeSet<(u128, u128)>,
}

/// The next nonce of each recipient. A recipient that is not in the table
/// has the next nonce zero.
pub struct NonceBook {
    next: BTreeMap<(u128, u128), U256>,
}

impl View for Allowlist {
    type V = Set<Seq<u8>>;

    closed spec fn view(&self) -> Set<Seq<u8>> {
        Set::new(|a: Seq<u8>| a.len() == 20 && self.members@.contains(address_key(a)))
    }
}

impl View for DedupStore {
    type V = Set<Seq<u8>>;

    closed spec fn view(&self) -> Set<Seq<u8>> {
        Set::new(|f: Seq<u8>| f.len() == 32 && self.seen@.contains(h256_key(f)))
    }
}

impl View for NonceBook {
    type V = Map<Seq<u8>, nat>;

    closed spec fn view(&self) -> Map<Seq<u8>, nat> {
        Map::new(
            |a: Seq<u8>| a.len() == 20 && self.next@.contains_key(address_key(a)),
            |a: Seq<u8>| self.next@[address_key(a)]@,
        )
    }
}

/// Whether admitting a fingerprint succeeds: it does where the fingerprint
/// was not seen before.
pub open spec fn admits(seen: Set<Seq<u8>>, fingerprint: Seq<u8>) -> bool {
    !seen.contains(fingerprint)
}

/// The fingerprints seen once `fingerprint` was offered.
pub open spec fn admitted(seen: Set<Seq<u8>>, fingerprint: Seq<u8>) -> Set<Seq<u8>> {
    seen.insert(fingerprint)
}

/// The nonce that a recipient gets next.
pub open spec fn next_nonce_of(table: Map<Seq<u8>, nat>, recipient: Seq<u8>) -> nat {
    if table.contains_key(recipient) {
        table[recipient]
    } else {
        0
    }
}

/// The table once a recipient was given its next nonce.
pub open spec fn issued(table: Map<Seq<u8>, nat>, recipient: Seq<u8>) -> Map<Seq<u8>, nat> {
    table.insert(recipient, next_nonce_of(table, recipient) + 1)
}

impl Allowlist {
    /// A list with nobody on it.
    pub fn new() -> (r: Allowlist)
        ensures
            r@ == Set::<Seq<u8>>::empty(),
    {
        Allowlist { members: BTreeSet::new() }
    }

    /// Puts a creator on the list.
    pub fn insert(&mut self, creator: Address)
        ensures
            final(self)@ == old(self)@.insert(creator@),
    {
        let key = creator.key();
        self.members.insert(key);
        proof {
            assert forall|a: Seq<u8>| final(self)@.contains(a) == old(self)@.insert(creator@).contains(
                a,
            ) by {
                if a.len() == 20 && address_key(a) == key {
                    lemma_address_key_injective(a, creator@);
                }
            }
        }
    }

    /// Whether a creator is on the list.
    pub fn is_allowed(&self, creator: &Address) -> (r: bool)
        ensures
            r == self@.contains(creator@),
    {
        let key = creator.key();
        self.members.contains(&key)
    }
}

impl DedupStore {
    /// A store that has seen nothing.
    pub fn new() -> (r: DedupStore)
        ensures
            r@ == Set::<Seq<u8>>::empty(),
    {
        DedupStore { seen: BTreeSet::new() }
    }

    /// Whether a fingerprint was admitted before.
    pub fn contains(&self, fingerprint: &H256) -> (r: bool)
        ensures
            r == self@.contains(fingerprint@),
    {
        let key = fingerprint.key();
        self.seen.contains(&key)
    }

    /// Admits a fingerprint unless it was admitted before, and says whether it
    /// did. A fingerprint that was seen leaves the store as it was.
    pub fn admit_fingerprint(&mut self, fingerprint: &H256) -> (r: bool)
        ensures
            r == admits(old(self)@, fingerprint@),
            final(self)@ == admitted(old(self)@, fingerprint@),
    {
        let key = fingerprint.key();
        let fresh = self.seen.insert(key);
        proof {
            assert forall|f: Seq<u8>| final(self)@.contains(f) == admitted(
                old(self)@,
                fingerprint@,
            ).contains(f) by {
                if f.len() == 32 && h256_key(f) == key {
                    lemma_h256_key_injective(f, fingerprint@);
                }
            }
        }
        fresh
    }
}

impl NonceBook {
    /// A table in which every recipient is to get the nonce zero.
    pub fn new() -> (r: NonceBook)
        ensures
            r@ == Map::<Seq<u8>, nat>::empty(),
    {
        NonceBook { next: BTreeMap::new() }
    }

    /// The nonce that a recipient gets next. Nothing changes.
    pub fn peek(&self, recipient: &Address) -> (r: U256)
        ensures
            r@ == next_nonce_of(self@, recipient@),
    {
        let key = recipient.key();
        match self.next.get(&key) {
            Some(n) => *n,
            None => U256::zero(),
        }
    }

    /// Gives a recipient its next nonce and counts one up for it. The
    /// recipient's nonces run from zero without a gap; no other recipient's
    /// count changes.
    pub fn next_nonce(&mut self, recipient: &Address) -> (r: U256)
        requires
            next_nonce_of(old(self)@, recipient@) + 1 < U256::limit(),
        ensures
            r@ == next_nonce_of(old(self)@, recipient@),
            final(self)@ == issued(old(self)@, recipient@),
    {
        let key = recipient.key();
        let current = self.peek(recipient);
        let following = current.succ();
        self.next.insert(key, following);
        proof {
            let after = issued(old(self)@, recipient@);
            assert forall|a: Seq<u8>| final(self)@.contains_key(a) == after.contains_key(a) by {
                if a.len() == 20 && address_key(a) == key {
                    lemma_address_key_injective(a, recipient@);
                }
            }
            assert forall|a: Seq<u8>| final(self)@.contains_key(a) implies final(self)@[a]
                == after[a] by {
                if address_key(a) == key {
                    lemma_address_key_injective(a, recipient@);
                }
            }
        }
        current
    }
}

} // verus!
