//! Everything that is known, and looking things up in it.

use crate::accounts::{AccountState, AccountsDb};
use crate::response_cache::ResponseCache;
use crate::table::Table;
use crate::types::{AccountCommand, AccountContext, Commitment, Pubkey, Subscription};
use vstd::prelude::*;

verus! {

/// A set of addresses.
pub type KeySet = Table<()>;

/// Everything that is known.
pub struct State {
    /// The accounts.
    pub accounts: AccountsDb,
    /// The accounts of each program.
    pub program_accounts: Table<KeySet>,
    /// The answers that were printed.
    pub lru: ResponseCache,
}

/// Whether each set of addresses is in order.
pub open spec fn key_sets_wf(program_accounts: Table<KeySet>) -> bool {
    &&& program_accounts.wf()
    &&& forall|k: Seq<u8>| #[trigger]
        program_accounts.map().contains_key(k) ==> program_accounts.map()[k].wf()
}

impl State {
    pub open spec fn wf(self) -> bool {
        &&& self.accounts.wf()
        &&& key_sets_wf(self.program_accounts)
        &&& self.lru.wf()
    }

    /// Nothing is known. At most `limit` printed answers will be kept.
    pub fn new(limit: usize) -> (r: State)
        ensures
            r.wf(),
            r.accounts.map() == Map::<Seq<u8>, AccountState>::empty(),
            forall|c: Commitment| #[trigger] r.accounts.slot(c) == 0,
            r.program_accounts.map() == Map::<Seq<u8>, KeySet>::empty(),
            r.lru.entries() == Seq::<(u64, Seq<u8>)>::empty(),
            r.lru.limit() == limit,
    {
        State {
            accounts: AccountsDb::new(),
            program_accounts: Table::new(),
            lru: ResponseCache::new(limit),
        }
    }

    /// What is known of an address, with the command to go on watching it.
    pub fn get_account(&self, key: &Pubkey) -> (r: Option<(&AccountState, AccountCommand)>)
        requires
            self.wf(),
        ensures
            match r {
                Some((state, command)) => {
                    &&& self.accounts.map().contains_key(key@)
                    &&& *state == self.accounts.map()[key@]
                    &&& command == AccountCommand::Reset(Subscription::Account(*key))
                },
                None => !self.accounts.map().contains_key(key@),
            },
    {
        get_account(&self.accounts, key)
    }

    /// Records what is known of an address at a commitment.
    pub fn insert(&mut self, key: Pubkey, data: AccountContext, commitment: Commitment)
        requires
            old(self).wf(),
        ensures
            final(self).wf(),
            final(self).accounts.map().dom() == old(self).accounts.map().dom().insert(key@),
            forall|k: Seq<u8>, c: Commitment| #[trigger]
                final(self).accounts.sighting(k, c) == if k == key@ && c == commitment {
                    Some((data.value, data.context.slot))
                } else {
                    old(self).accounts.sighting(k, c)
                },
            forall|c: Commitment| #[trigger]
                final(self).accounts.slot(c) == old(self).accounts.slot(c),
            final(self).program_accounts == old(self).program_accounts,
            final(self).lru == old(self).lru,
    {
        self.accounts.insert(key, data, commitment);
    }

    /// The command to start watching.
    pub fn subscribe(&self, subscription: Subscription, commitment: Commitment) -> (r:
        AccountCommand)
        ensures
            r == AccountCommand::Subscribe(subscription, commitment),
    {
        AccountCommand::Subscribe(subscription, commitment)
    }
}

/// What is known of an address, with the command to go on watching it: whoever asks for an
/// account keeps its subscription alive.
pub fn get_account<'a>(accounts: &'a AccountsDb, key: &Pubkey) -> (r: Option<
    (&'a AccountState, AccountCommand),
>)
    requires
        accounts.wf(),
    ensures
        match r {
            Some((state, command)) => {
                &&& accounts.map().contains_key(key@)
                &&& *state == accounts.map()[key@]
                &&& command == AccountCommand::Reset(Subscription::Account(*key))
            },
            None => !accounts.map().contains_key(key@),
        },
{
    match accounts.get(key) {
        Some(state) => Some((state, AccountCommand::Reset(Subscription::Account(*key)))),
        None => None,
    }
}

} // verus!
