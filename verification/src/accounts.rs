//! The accounts that are known, each as of every commitment at which it was seen.

use crate::table::Table;
use crate::types::{AccountContext, AccountInfo, Commitment, Pubkey};
use vstd::prelude::*;

verus! {

/// An account as of a slot; the account is `None` where there was none.
pub type Sighting = (Option<AccountInfo>, u64);

/// What is known of an address at each commitment.
#[derive(Debug)]
pub struct AccountState {
    finalized: Option<Sighting>,
    confirmed: Option<Sighting>,
    processed: Option<Sighting>,
}

impl AccountState {
    /// What is known at a commitment.
    pub closed spec fn at(self, commitment: Commitment) -> Option<Sighting> {
        match commitment {
            Commitment::Finalized => self.finalized,
            Commitment::Confirmed => self.confirmed,
            Commitment::Processed => self.processed,
        }
    }

    /// An address of which nothing is known.
    pub fn new() -> (r: AccountState)
        ensures
            forall|c: Commitment| #[trigger] r.at(c) is None,
    {
        AccountState { finalized: None, confirmed: None, processed: None }
    }

    /// What is known at a commitment: the account, if there is one, and the slot.
    pub fn get(&self, commitment: Commitment) -> (r: Option<(Option<&AccountInfo>, u64)>)
        ensures
            match (r, self.at(commitment)) {
                (Some((info, slot)), Some((known, at))) => {
                    &&& slot == at
                    &&& match (info, known) {
                        (Some(info), Some(known)) => *info == known,
                        (None, None) => true,
                        _ => false,
                    }
                },
                (None, None) => true,
                _ => false,
            },
    {
        let sighting = match commitment {
            Commitment::Finalized => &self.finalized,
            Commitment::Confirmed => &self.confirmed,
            Commitment::Processed => &self.processed,
        };
        match sighting {
            Some((Some(info), slot)) => Some((Some(info), *slot)),
            Some((None, slot)) => Some((None, *slot)),
            None => None,
        }
    }

    /// Records what is known at a commitment, in place of what was known before.
    pub fn insert(&mut self, commitment: Commitment, data: AccountContext)
        ensures
            final(self).at(commitment) == Some((data.value, data.context.slot)),
            forall|c: Commitment|
                c != commitment ==> #[trigger] final(self).at(c) == old(self).at(c),
    {
        let sighting = Some((data.value, data.context.slot));
        match commitment {
            Commitment::Finalized => self.finalized = sighting,
            Commitment::Confirmed => self.confirmed = sighting,
            Commitment::Processed => self.processed = sighting,
        }
    }
}

/// The accounts that are known, and how far the chain has come at each commitment.
pub struct AccountsDb {
    states: Table<AccountState>,
    finalized_slot: u64,
    confirmed_slot: u64,
    processed_slot: u64,
}

impl AccountsDb {
    pub closed spec fn wf(self) -> bool {
        self.states.wf()
    }

    /// What is known of each address.
    pub closed spec fn map(self) -> Map<Seq<u8>, AccountState> {
        self.states.map()
    }

    /// How far the chain has come.
    pub closed spec fn slot(self, commitment: Commitment) -> u64 {
        match commitment {
            Commitment::Finalized => self.finalized_slot,
            Commitment::Confirmed => self.confirmed_slot,
            Commitment::Processed => self.processed_slot,
        }
    }

    /// What is known of an address at a commitment.
    pub open spec fn sighting(self, key: Seq<u8>, commitment: Commitment) -> Option<Sighting> {
        if self.map().contains_key(key) {
            self.map()[key].at(commitment)
        } else {
            None
        }
    }

    /// Nothing is known, and the chain has not begun.
    pub fn new() -> (r: AccountsDb)
        ensures
            r.wf(),
            r.map() == Map::<Seq<u8>, AccountState>::empty(),
            forall|c: Commitment| #[trigger] r.slot(c) == 0,
    {
        AccountsDb { states: Table::new(), finalized_slot: 0, confirmed_slot: 0, processed_slot: 0 }
    }

    /// What is known of an address.
    pub fn get(&self, key: &Pubkey) -> (r: Option<&AccountState>)
        requires
            self.wf(),
        ensures
            match r {
                Some(state) => self.map().contains_key(key@) && *state == self.map()[key@],
                None => !self.map().contains_key(key@),
            },
    {
        self.states.get(key)
    }

    /// How far the chain has come.
    pub fn get_slot(&self, commitment: Commitment) -> (r: u64)
        ensures
            r == self.slot(commitment),
    {
        match commitment {
            Commitment::Finalized => self.finalized_slot,
            Commitment::Confirmed => self.confirmed_slot,
            Commitment::Processed => self.processed_slot,
        }
    }

    /// Records how far the chain has come.
    pub fn update_slot(&mut self, commitment: Commitment, slot: u64)
        requires
            old(self).wf(),
        ensures
            final(self).wf(),
            final(self).map() == old(self).map(),
            forall|c: Commitment| #[trigger]
                final(self).slot(c) == if c == commitment {
                    slot
                } else {
                    old(self).slot(c)
                },
    {
        match commitment {
            Commitment::Finalized => self.finalized_slot = slot,
            Commitment::Confirmed => self.confirmed_slot = slot,
            Commitment::Processed => self.processed_slot = slot,
        }
    }

    /// Records what is known of an address at a commitment. What is known of it at the other
    /// commitments, and of other addresses, stays.
    pub fn insert(&mut self, key: Pubkey, data: AccountContext, commitment: Commitment)
        requires
            old(self).wf(),
        ensures
            final(self).wf(),
            final(self).map().dom() == old(self).map().dom().insert(key@),
            forall|k: Seq<u8>, c: Commitment| #[trigger]
                final(self).sighting(k, c) == if k == key@ && c == commitment {
                    Some((data.value, data.context.slot))
                } else {
                    old(self).sighting(k, c)
                },
            forall|c: Commitment| #[trigger] final(self).slot(c) == old(self).slot(c),
    {
        match self.states.get_mut(&key) {
            Some(state) => {
                state.insert(commitment, data);
            },
            None => {
                let mut state = AccountState::new();
                state.insert(commitment, data);
                self.states.insert(key, state);
            },
        }
        proof {
            assert(self.map().dom() =~= old(self).map().dom().insert(key@));
        }
    }
}

} // verus!
