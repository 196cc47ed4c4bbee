//! The registry of renderer bundles: one slot for each renderer identity.

use vstd::prelude::*;
use std::collections::HashMap;
use crate::error::LookupError;

verus! {

broadcast use vstd::std_specs::hash::group_hash_axioms;

/// The registry. It owns every bundle installed into it; all others borrow.
pub struct Registry<B> {
    slots: HashMap<u64, B>,
}

impl<B> View for Registry<B> {
    type V = Map<u64, B>;

    closed spec fn view(&self) -> Map<u64, B> {
        self.slots@
    }
}

/// The slots after an attempt to install `bundle` under `id`: a slot that
/// is taken keeps what it has.
pub open spec fn installed<B>(slots: Map<u64, B>, id: u64, bundle: B) -> Map<u64, B> {
    if slots.contains_key(id) {
        slots
    } else {
        slots.insert(id, bundle)
    }
}

/// Installing under one identity twice leaves what the first call left:
/// one entry for that identity, holding the first bundle to arrive, and
/// no more entries than one call makes.
pub proof fn lemma_install_idempotent<B>(slots: Map<u64, B>, id: u64, first: B, second: B)
    requires
        slots.dom().finite(),
    ensures
        installed(installed(slots, id, first), id, second) == installed(slots, id, first),
        installed(slots, id, first).contains_key(id),
        installed(slots, id, first)[id] == (if slots.contains_key(id) {
            slots[id]
        } else {
            first
        }),
        installed(slots, id, first).dom().finite(),
        installed(slots, id, first).len() == slots.len() + (if slots.contains_key(id) {
            0nat
        } else {
            1nat
        }),
{
}

impl<B> Registry<B> {
    /// A registry without bundles.
    pub fn new() -> (res: Registry<B>)
        ensures
            res@ == Map::<u64, B>::empty(),
    {
        Registry { slots: HashMap::new() }
    }

    /// Stores `bundle` under `id` if nothing is installed there yet, and
    /// says whether it did. A second bundle for the same identity is
    /// dropped and the registry stays as it was.
    pub fn install(&mut self, id: u64, bundle: B) -> (stored: bool)
        ensures
            stored == !old(self)@.contains_key(id),
            final(self)@ == installed(old(self)@, id, bundle),
    {
        if self.slots.contains_key(&id) {
            false
        } else {
            self.slots.insert(id, bundle);
            true
        }
    }

    /// The bundle installed under `id`.
    pub fn get(&self, id: u64) -> (res: Result<&B, LookupError>)
        ensures
            match res {
                Ok(bundle) => self@.contains_key(id) && *bundle == self@[id],
                Err(e) => !self@.contains_key(id) && e == LookupError::NotInstalled,
            },
    {
        match self.slots.get(&id) {
            Some(bundle) => Ok(bundle),
            None => Err(LookupError::NotInstalled),
        }
    }

    /// Hands the bundle under `id` out and frees its slot.
    pub fn take(&mut self, id: u64) -> (res: Result<B, LookupError>)
        ensures
            match res {
                Ok(bundle) => {
                    &&& old(self)@.contains_key(id)
                    &&& bundle == old(self)@[id]
                    &&& final(self)@ == old(self)@.remove(id)
                },
                Err(e) => {
                    &&& !old(self)@.contains_key(id)
                    &&& e == LookupError::NotInstalled
                    &&& final(self)@ == old(self)@
                },
            },
    {
        match self.slots.remove(&id) {
            Some(bundle) => Ok(bundle),
            None => {
                assert(self@ =~= old(self)@);
                Err(LookupError::NotInstalled)
            },
        }
    }

    /// The number of bundles installed.
    pub fn len(&self) -> (res: usize)
        ensures
            self@.dom().finite(),
            res == self@.len(),
    {
        self.slots.len()
    }
}

} // verus!
