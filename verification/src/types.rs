//! Accounts, and how a client may ask to see them.

use vstd::prelude::*;

verus! {

/// The address of an account.
#[derive(Clone, Copy, Debug, PartialEq, Eq, Hash)]
pub struct Pubkey(pub [u8; 32]);

impl View for Pubkey {
    type V = Seq<u8>;

    open spec fn view(&self) -> Seq<u8> {
        self.0@
    }
}

/// How settled a state of the chain must be for a client to see it.
#[derive(Clone, Copy, Debug, PartialEq, Eq, Hash, Structural)]
pub enum Commitment {
    Finalized,
    Confirmed,
    Processed,
}

impl Default for Commitment {
    /// What a request that names no commitment means.
    fn default() -> (r: Commitment)
        ensures
            r == Commitment::Finalized,
    {
        Commitment::Finalized
    }
}

/// How the data of an account is written in a reply.
#[derive(Clone, Copy, Debug, PartialEq, Eq, Hash, Structural)]
pub enum Encoding {
    /// Base 58, as a bare text.
    Default,
    /// Base 58, as a pair of the text and the name of the encoding.
    Base58,
    /// Base 64, as such a pair.
    Base64,
    /// Base 64 of a `zstd` frame, as such a pair.
    Base64Zstd,
}

impl Default for Encoding {
    fn default() -> (r: Encoding)
        ensures
            r == Encoding::Default,
    {
        Encoding::Default
    }
}

/// The part of an account's data that a client asks for.
#[derive(Clone, Copy, Debug, PartialEq, Eq, Structural)]
pub struct Slice {
    pub offset: usize,
    pub length: usize,
}

/// The data of an account.
#[derive(Debug)]
pub struct AccountData {
    pub data: Vec<u8>,
}

/// An account.
#[derive(Debug)]
pub struct AccountInfo {
    pub data: AccountData,
    pub lamports: u64,
    pub owner: Pubkey,
    pub executable: bool,
    pub rent_epoch: u64,
}

/// The slot that an answer speaks of.
#[derive(Clone, Copy, Debug, PartialEq, Eq, Structural)]
pub struct SolanaContext {
    pub slot: u64,
}

/// An account as of a slot; `None` if there was none.
#[derive(Debug)]
pub struct AccountContext {
    pub context: SolanaContext,
    pub value: Option<AccountInfo>,
}

/// What the backend is asked to watch.
#[derive(Clone, Copy, Debug, PartialEq, Eq, Hash)]
pub enum Subscription {
    Account(Pubkey),
    Program(Pubkey),
}

/// What is asked of the keeper of the subscriptions.
#[derive(Clone, Copy, Debug, PartialEq, Eq, Hash)]
pub enum AccountCommand {
    /// Start watching.
    Subscribe(Subscription, Commitment),
    /// Go on watching: a client has asked again.
    Reset(Subscription),
}

/// The commitment that a request means.
pub open spec fn commitment_or_default(commitment: Option<Commitment>) -> Commitment {
    match commitment {
        Some(c) => c,
        None => Commitment::Finalized,
    }
}

/// The commitment that a request means: the one it names, or the default.
pub fn effective_commitment(commitment: Option<Commitment>) -> (r: Commitment)
    ensures
        r == commitment_or_default(commitment),
{
    match commitment {
        Some(c) => c,
        None => Commitment::default(),
    }
}

} // verus!
