//! Answering requests for an account.

use crate::accounts::{AccountsDb, Sighting};
use crate::backend::Fetched;
use crate::encode::{
    account_context_tree, encoded_info_tree, info_reads_back, packing_can_fail, response_tree,
    serialize_response, EncodedAccountContext, SerializeError,
};
use crate::error::{error_of_text, Error, Reply};
use crate::json::{error_is_data, json_text, to_vec, value_tree, Tree};
use crate::request::AccountInfoConfig;
use crate::response_cache::{entry_put, entry_used, has_key, hash, hash_of, ResponseCache};
use crate::state::{get_account, State};
use crate::types::{
    AccountCommand, AccountContext, AccountInfo, Commitment, Pubkey, SolanaContext,
    Subscription,
};
use vstd::prelude::*;

verus! {

/// How the answer about an account is written, or `None` where the slice that the client asked
/// for reaches past the data.
pub open spec fn account_answer_tree(
    req_id: u64,
    slot: u64,
    info: Option<AccountInfo>,
    config: AccountInfoConfig,
) -> Option<Tree> {
    let value = match info {
        Some(info) => encoded_info_tree(info, config.encoding, config.data_slice),
        None => Some(Tree::Null),
    };
    match value {
        Some(tree) => Some(
            response_tree(account_context_tree(SolanaContext { slot }, tree), req_id),
        ),
        None => None,
    }
}

/// An answer about an account.
#[derive(Debug)]
pub struct AccountReply {
    /// What is sent, as JSON.
    pub body: Vec<u8>,
    /// Whether it had been printed before.
    pub lru_hit: bool,
}

/// A request, as far as the answer depends on it.
#[derive(Clone, Copy, Debug)]
pub struct AccountQuery {
    pub req_id: u64,
    pub request_hash: u64,
    pub config: AccountInfoConfig,
}

/// Whether `r` is an answer to a request, given the account that is known and the slot of the
/// chain, and whether `post` are the printed answers after it if `pre` were those before.
///
/// An answer that was printed for the same parameters and the same slot of the account is sent
/// again as it is. Otherwise it is printed and kept, and its data reads back. It fails where the
/// slice reaches past the data, and can fail where the data has to be compressed; then nothing is
/// kept.
pub open spec fn account_answered(
    query: AccountQuery,
    slot: u64,
    sighting: Sighting,
    limit: nat,
    pre: Seq<(u64, Seq<u8>)>,
    r: Result<AccountReply, Error>,
    post: Seq<(u64, Seq<u8>)>,
) -> bool {
    let key = hash_of((query.request_hash, sighting.1));
    if has_key(pre, key) {
        &&& r matches Ok(reply)
        &&& reply.lru_hit
        &&& pre.contains((key, reply.body@))
        &&& post == entry_used(pre, key, reply.body@)
    } else {
        match (account_answer_tree(query.req_id, slot, sighting.0, query.config), r) {
            (Some(tree), Ok(reply)) => {
                &&& !reply.lru_hit
                &&& reply.body@ == json_text(tree)
                &&& post == entry_put(pre, limit, key, reply.body@)
                &&& sighting.0 matches Some(info) ==> info_reads_back(
                    info,
                    query.config.encoding,
                    query.config.data_slice,
                )
            },
            (Some(_), Err(e)) => {
                &&& e == Error::InvalidRequest(None)
                &&& sighting.0 matches Some(info)
                &&& packing_can_fail(info, query.config.encoding, query.config.data_slice)
                &&& post == pre
            },
            (None, _) => {
                &&& r == Err::<AccountReply, Error>(Error::InvalidRequest(None))
                &&& post == pre
            },
        }
    }
}

/// The account that was looked up.
pub open spec fn looked_up(acc: (Option<&AccountInfo>, u64)) -> Sighting {
    (
        match acc.0 {
            Some(info) => Some(*info),
            None => None,
        },
        acc.1,
    )
}

/// Prints an answer and keeps it under a key, given what writing it came to. Where it could not be
/// written, the request fails and nothing is kept.
pub fn account_written(
    query: AccountQuery,
    key: u64,
    written: Result<serde_json::Value, SerializeError>,
    lru: &mut ResponseCache,
) -> (r: Result<AccountReply, Error>)
    requires
        old(lru).wf(),
    ensures
        final(lru).wf(),
        final(lru).limit() == old(lru).limit(),
        match written {
            Ok(value) => {
                &&& r matches Ok(reply)
                &&& !reply.lru_hit
                &&& reply.body@ == json_text(response_tree(value_tree(value), query.req_id))
                &&& final(lru).entries() == entry_put(
                    old(lru).entries(),
                    old(lru).limit(),
                    key,
                    reply.body@,
                )
            },
            Err(_) => {
                &&& r == Err::<AccountReply, Error>(Error::InvalidRequest(None))
                &&& final(lru).entries() == old(lru).entries()
            },
        },
{
    let result = match written {
        Ok(result) => result,
        Err(e) => {
            return Err(Error::from(e));
        },
    };
    let body = to_vec(&serialize_response(result, query.req_id));
    lru.put(key, body.as_slice());
    Ok(AccountReply { body, lru_hit: false })
}

/// Answers a request from what is known of an account.
pub fn account_response(
    query: AccountQuery,
    acc: (Option<&AccountInfo>, u64),
    accounts: &AccountsDb,
    lru: &mut ResponseCache,
) -> (r: Result<AccountReply, Error>)
    requires
        old(lru).wf(),
    ensures
        final(lru).wf(),
        final(lru).limit() == old(lru).limit(),
        account_answered(
            query,
            accounts.slot(query.config.spec_commitment()),
            looked_up(acc),
            old(lru).limit(),
            old(lru).entries(),
            r,
            final(lru).entries(),
        ),
{
    let request_and_slot_hash = hash((query.request_hash, acc.1));
    if let Some(body) = lru.get(request_and_slot_hash) {
        return Ok(AccountReply { body, lru_hit: true });
    }
    let slot = accounts.get_slot(query.config.effective_commitment());
    let ctx = SolanaContext { slot };
    let answer = match acc.0 {
        Some(info) => info.encode(query.config.encoding, query.config.data_slice).with_context(
            &ctx,
        ),
        None => EncodedAccountContext::empty(&ctx),
    };
    account_written(query, request_and_slot_hash, answer.serialize(), lru)
}

/// A request that waits for the backend.
#[derive(Clone, Copy, Debug)]
pub struct AccountInfoCall {
    pub query: AccountQuery,
    /// The address under which the backend's answer may be kept, and from which the request
    /// may be answered before that answer comes.
    pub cacheable_for_key: Option<Pubkey>,
}

/// What becomes of a request.
#[derive(Debug)]
pub enum AccountInfoStep {
    /// It is answered at once.
    Answer(Result<AccountReply, Error>),
    /// The backend is asked.
    Fetch(AccountInfoCall),
}

/// The commands that a request for an account begins with: an address that is known goes on
/// being watched, and one that is not is watched from now on.
pub open spec fn account_info_commands(state: State, query: AccountQuery, pubkey: Pubkey) -> Seq<
    AccountCommand,
> {
    if state.accounts.map().contains_key(pubkey@) {
        seq![AccountCommand::Reset(Subscription::Account(pubkey))]
    } else {
        seq![
            AccountCommand::Subscribe(
                Subscription::Account(pubkey),
                query.config.spec_commitment(),
            ),
        ]
    }
}

/// The address under which the backend's answer to a request may be kept.
pub open spec fn account_cacheable(state: State, query: AccountQuery, pubkey: Pubkey) -> Option<
    Pubkey,
> {
    if !state.accounts.map().contains_key(pubkey@) && query.config.data_slice is Some {
        None
    } else {
        Some(pubkey)
    }
}

/// Whether a request for an account begins with these commands and this step, and whether
/// `post` is what is known after that if `pre` was known before.
///
/// What is known at the commitment is answered. Otherwise the backend is to be asked. Of what
/// is known, only the printed answers change.
pub open spec fn account_info_begun(
    pre: State,
    query: AccountQuery,
    pubkey: Pubkey,
    commands: Seq<AccountCommand>,
    step: AccountInfoStep,
    post: State,
) -> bool {
    let commitment = query.config.spec_commitment();
    &&& post.accounts == pre.accounts
    &&& post.program_accounts == pre.program_accounts
    &&& post.lru.limit() == pre.lru.limit()
    &&& commands == account_info_commands(pre, query, pubkey)
    &&& match pre.accounts.sighting(pubkey@, commitment) {
        Some(sighting) => {
            &&& step matches AccountInfoStep::Answer(outcome)
            &&& account_answered(
                query,
                pre.accounts.slot(commitment),
                sighting,
                pre.lru.limit(),
                pre.lru.entries(),
                outcome,
                post.lru.entries(),
            )
        },
        None => {
            &&& step == AccountInfoStep::Fetch(
                AccountInfoCall {
                    query,
                    cacheable_for_key: account_cacheable(pre, query, pubkey),
                },
            )
            &&& post.lru.entries() == pre.lru.entries()
        },
    }
}

/// Whether a request that waits for the backend goes on with these commands and this answer,
/// if any, once something new may be known, and whether `post` is what is known after that if
/// `pre` was known before.
pub open spec fn account_info_renewed(
    pre: State,
    call: AccountInfoCall,
    commands: Seq<AccountCommand>,
    answer: Option<Result<AccountReply, Error>>,
    post: State,
) -> bool {
    &&& post.accounts == pre.accounts
    &&& post.program_accounts == pre.program_accounts
    &&& post.lru.limit() == pre.lru.limit()
    &&& commands == match call.cacheable_for_key {
        Some(key) if pre.accounts.map().contains_key(key@) => seq![
            AccountCommand::Reset(Subscription::Account(key)),
        ],
        _ => Seq::empty(),
    }
    &&& match call_sighting(pre.accounts, call) {
        Some(sighting) => {
            &&& answer matches Some(outcome)
            &&& account_answered(
                call.query,
                pre.accounts.slot(call.query.config.spec_commitment()),
                sighting,
                pre.lru.limit(),
                pre.lru.entries(),
                outcome,
                post.lru.entries(),
            )
        },
        None => {
            &&& answer is None
            &&& post.lru.entries() == pre.lru.entries()
        },
    }
}

/// Whether a request ends with `r` when the backend's answer was read, and whether `post` is
/// what is known after that if `pre` was known before.
pub open spec fn account_info_ended(
    pre: State,
    call: AccountInfoCall,
    body: Vec<u8>,
    decoded: Result<Option<AccountContext>, serde_json::Error>,
    r: Fetched,
    post: State,
) -> bool {
    &&& post.program_accounts == pre.program_accounts
    &&& post.lru == pre.lru
    &&& forall|c: Commitment| #[trigger] post.accounts.slot(c) == pre.accounts.slot(c)
    &&& match (call.cacheable_for_key, decoded) {
        (Some(key), Ok(Some(data))) => {
            &&& r.outcome == Ok::<Reply, Error>(Reply::Json(body))
            &&& r.notify
            &&& post.accounts.map().dom() == pre.accounts.map().dom().insert(key@)
            &&& forall|k: Seq<u8>, c: Commitment| #[trigger]
                post.accounts.sighting(k, c) == if k == key@ && c
                    == call.query.config.spec_commitment() {
                    Some((data.value, data.context.slot))
                } else {
                    pre.accounts.sighting(k, c)
                }
        },
        (Some(_), Ok(None)) | (None, _) => {
            &&& r.outcome == Ok::<Reply, Error>(Reply::Json(body))
            &&& !r.notify
            &&& post.accounts == pre.accounts
        },
        (Some(_), Err(e)) => {
            &&& r.outcome == Err::<Reply, Error>(error_of_text(error_is_data(e)))
            &&& !r.notify
            &&& post.accounts == pre.accounts
        },
    }
}

/// What is known of the account that a request waits for, if the request may be answered from
/// that.
pub open spec fn call_sighting(accounts: AccountsDb, call: AccountInfoCall) -> Option<Sighting> {
    match call.cacheable_for_key {
        Some(key) => accounts.sighting(key@, call.query.config.spec_commitment()),
        None => None,
    }
}

impl State {
    /// Begins to answer a request for an account, and returns the commands to send first.
    ///
    /// What is known at the commitment is answered at once. Otherwise the backend is asked; an
    /// address of which nothing at all is known is watched from now on, and what the backend
    /// says of a slice of it is not kept.
    pub fn get_account_info(&mut self, query: AccountQuery, pubkey: Pubkey) -> (r: (
        Vec<AccountCommand>,
        AccountInfoStep,
    ))
        requires
            old(self).wf(),
        ensures
            final(self).wf(),
            account_info_begun(*old(self), query, pubkey, r.0@, r.1, *final(self)),
    {
        let commitment = query.config.effective_commitment();
        let mut commands: Vec<AccountCommand> = Vec::new();
        let mut cacheable_for_key = Some(pubkey);
        match get_account(&self.accounts, &pubkey) {
            Some((data, command)) => {
                commands.push(command);
                if let Some(account) = data.get(commitment) {
                    let outcome = account_response(query, account, &self.accounts, &mut self.lru);
                    proof {
                        assert(commands@ =~= account_info_commands(*old(self), query, pubkey));
                    }
                    return (commands, AccountInfoStep::Answer(outcome));
                }
            },
            None => {
                if query.config.data_slice.is_some() {
                    cacheable_for_key = None;
                }
                commands.push(self.subscribe(Subscription::Account(pubkey), commitment));
            },
        }
        proof {
            assert(commands@ =~= account_info_commands(*old(self), query, pubkey));
        }
        (commands, AccountInfoStep::Fetch(AccountInfoCall { query, cacheable_for_key }))
    }

    /// Looks again at what is known, for a request that waits for the backend: something new
    /// may be known by now. Returns the commands to send, and the answer if there is one.
    pub fn account_info_notified(&mut self, call: &AccountInfoCall) -> (r: (
        Vec<AccountCommand>,
        Option<Result<AccountReply, Error>>,
    ))
        requires
            old(self).wf(),
        ensures
            final(self).wf(),
            account_info_renewed(*old(self), *call, r.0@, r.1, *final(self)),
    {
        let mut commands: Vec<AccountCommand> = Vec::new();
        if let Some(key) = call.cacheable_for_key {
            if let Some((data, command)) = get_account(&self.accounts, &key) {
                commands.push(command);
                assert(commands@ =~= seq![AccountCommand::Reset(Subscription::Account(key))]);
                let commitment = call.query.config.effective_commitment();
                if let Some(account) = data.get(commitment) {
                    let outcome = account_response(
                        call.query,
                        account,
                        &self.accounts,
                        &mut self.lru,
                    );
                    return (commands, Some(outcome));
                }
            }
        }
        (commands, None)
    }

    /// Ends a request with the backend's answer, once that was read: `decoded` is the account
    /// that it reports, if it reports one. The account is kept if it may be, and the client
    /// gets the answer as it is. An answer that should be kept but cannot be read fails the
    /// request.
    pub fn account_info_fetched(
        &mut self,
        call: &AccountInfoCall,
        body: Vec<u8>,
        decoded: Result<Option<AccountContext>, serde_json::Error>,
    ) -> (r: Fetched)
        requires
            old(self).wf(),
        ensures
            final(self).wf(),
            account_info_ended(*old(self), *call, body, decoded, r, *final(self)),
    {
        let key = match call.cacheable_for_key {
            Some(key) => key,
            None => {
                return Fetched { outcome: Ok(Reply::Json(body)), notify: false };
            },
        };
        match decoded {
            Ok(Some(info)) => {
                self.insert(key, info, call.query.config.effective_commitment());
                Fetched { outcome: Ok(Reply::Json(body)), notify: true }
            },
            Ok(None) => Fetched { outcome: Ok(Reply::Json(body)), notify: false },
            Err(e) => Fetched { outcome: Err(Error::from(e)), notify: false },
        }
    }
}

} // verus!
