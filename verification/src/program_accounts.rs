//! Answering requests for the accounts of a program.

use crate::accounts::{AccountsDb, Sighting};
use crate::backend::Fetched;
use crate::encode::{
    encoded_info_tree, info_reads_back, packing_can_fail, pubkey_tree, response_tree,
    serialize_pubkey, serialize_response, SerializeError,
};
use crate::error::{error_of_text, Error, Reply};
use crate::filter::{all_accept, all_match, Filter};
use crate::json::{
    error_is_data, field_trees, item_trees, json_text, list_value, null_value, object_value,
    to_vec, value_tree, Tree,
};
use crate::request::ProgramAccountsConfig;
use crate::state::{get_account, KeySet, State};
use crate::table::Table;
use crate::types::{
    AccountCommand, AccountContext, AccountInfo, Commitment, Encoding, Pubkey, SolanaContext,
    Subscription,
};
use vstd::prelude::*;

verus! {

/// Whether some filters, if there are any, let an account through. An address without an
/// account passes no filters.
pub open spec fn passes(filters: Option<Seq<Filter>>, info: Option<AccountInfo>) -> bool {
    match (filters, info) {
        (None, _) => true,
        (Some(filters), Some(info)) => all_accept(filters, info.data.data@),
        (Some(filters), None) => filters.len() == 0,
    }
}

/// Whether an address is in the answer: something is known of it at the commitment, and that
/// passes the filters.
pub open spec fn is_listed(
    accounts: AccountsDb,
    key: Pubkey,
    commitment: Commitment,
    filters: Option<Seq<Filter>>,
) -> bool {
    match accounts.sighting(key@, commitment) {
        Some((info, _)) => passes(filters, info),
        None => false,
    }
}

/// The addresses that are in the answer, in their order.
pub open spec fn listed_keys(
    accounts: AccountsDb,
    keys: Seq<Pubkey>,
    commitment: Commitment,
    filters: Option<Seq<Filter>>,
) -> Seq<Pubkey> {
    keys.filter(|k: Pubkey| is_listed(accounts, k, commitment, filters))
}

/// The commands that go with an answer: each account that is known goes on being watched,
/// whether or not it is in the answer.
pub open spec fn reset_commands(accounts: AccountsDb, keys: Seq<Pubkey>) -> Seq<AccountCommand> {
    keys.filter(|k: Pubkey| accounts.map().contains_key(k@)).map_values(
        |k: Pubkey| AccountCommand::Reset(Subscription::Account(k)),
    )
}

/// How an account and its address are written.
pub open spec fn keyed_account_tree(account: Tree, key: Pubkey) -> Tree {
    Tree::Object(seq![("account"@, account), ("pubkey"@, pubkey_tree(key))])
}

/// How an address is written in the answer, with its account; `None` where the slice that the
/// client asked for reaches past the data.
pub open spec fn row_tree(
    accounts: AccountsDb,
    key: Pubkey,
    commitment: Commitment,
    config: ProgramAccountsConfig,
) -> Option<Tree> {
    match accounts.sighting(key@, commitment) {
        Some((Some(info), _)) => match encoded_info_tree(info, config.encoding, config.data_slice) {
            Some(tree) => Some(keyed_account_tree(tree, key)),
            None => None,
        },
        _ => Some(keyed_account_tree(Tree::Null, key)),
    }
}

/// Whether each of some addresses can be written.
pub open spec fn rows_fit(
    accounts: AccountsDb,
    keys: Seq<Pubkey>,
    commitment: Commitment,
    config: ProgramAccountsConfig,
) -> bool {
    forall|i: int|
        0 <= i < keys.len() ==> row_tree(
            accounts,
            #[trigger] keys[i],
            commitment,
            config,
        ) is Some
}

/// How some addresses are written in the answer.
pub open spec fn row_trees(
    accounts: AccountsDb,
    keys: Seq<Pubkey>,
    commitment: Commitment,
    config: ProgramAccountsConfig,
) -> Seq<Tree> {
    keys.map_values(|k: Pubkey| row_tree(accounts, k, commitment, config)->0)
}

/// Whether there is an account at one of some addresses, as far as is known.
pub open spec fn some_account(
    accounts: AccountsDb,
    keys: Seq<Pubkey>,
    commitment: Commitment,
) -> bool {
    exists|i: int|
        0 <= i < keys.len() && (accounts.sighting((#[trigger] keys[i])@, commitment) matches Some(
            (Some(_), _),
        ))
}

/// Whether the data of each account at some addresses reads back once it is written.
pub open spec fn rows_read_back(
    accounts: AccountsDb,
    keys: Seq<Pubkey>,
    commitment: Commitment,
    config: ProgramAccountsConfig,
) -> bool {
    forall|i: int|
        0 <= i < keys.len() ==> (accounts.sighting((#[trigger] keys[i])@, commitment) matches Some(
            (Some(info), _),
        ) ==> info_reads_back(info, config.encoding, config.data_slice))
}

/// Whether the data of an account at one of some addresses has to be packed, and `zstd` can fail to
/// do that.
pub open spec fn some_packing_can_fail(
    accounts: AccountsDb,
    keys: Seq<Pubkey>,
    commitment: Commitment,
    config: ProgramAccountsConfig,
) -> bool {
    exists|i: int|
        {
            &&& 0 <= i < keys.len()
            &&& accounts.sighting((#[trigger] keys[i])@, commitment) matches Some((Some(info), _))
            &&& packing_can_fail(info, config.encoding, config.data_slice)
        }
}

/// The filters of a request, where they could be read.
pub open spec fn filters_of(config: ProgramAccountsConfig) -> Option<Seq<Filter>> {
    match config.filters {
        Some(Ok(filters)) => Some(filters@),
        _ => None,
    }
}

/// Whether `r` is an answer to a request: all accounts of the program that are known at the
/// commitment and pass the filters. It fails where the filters could not be read, or where
/// the slice that the client asked for reaches past the data of one of the accounts, and can
/// fail where the data of an account has to be compressed.
pub open spec fn program_answered(
    req_id: u64,
    accounts: AccountsDb,
    keys: Seq<Pubkey>,
    config: ProgramAccountsConfig,
    commitment: Commitment,
    r: Result<Vec<u8>, Error>,
) -> bool {
    let listed = listed_keys(accounts, keys, commitment, filters_of(config));
    if let Some(Err(e)) = config.filters {
        r == Err::<Vec<u8>, Error>(error_of_text(error_is_data(e)))
    } else if !rows_fit(accounts, listed, commitment, config) {
        r == Err::<Vec<u8>, Error>(Error::InvalidRequest(None))
    } else {
        match r {
            Ok(body) => {
                &&& body@ == json_text(
                    response_tree(
                        Tree::List(row_trees(accounts, listed, commitment, config)),
                        req_id,
                    ),
                )
                &&& rows_read_back(accounts, listed, commitment, config)
            },
            Err(e) => {
                &&& e == Error::InvalidRequest(None)
                &&& config.encoding == Encoding::Base64Zstd
                &&& some_account(accounts, listed, commitment)
                &&& some_packing_can_fail(accounts, listed, commitment, config)
            },
        }
    }
}

/// Writes an address, given what writing its account came to.
pub fn row_written(key: Pubkey, account: Result<serde_json::Value, SerializeError>) -> (r: Result<
    serde_json::Value,
    SerializeError,
>)
    ensures
        match account {
            Ok(account) => r is Ok && value_tree(r->Ok_0) == keyed_account_tree(
                value_tree(account),
                key,
            ),
            Err(e) => r == Err::<serde_json::Value, SerializeError>(e),
        },
{
    let account = match account {
        Ok(account) => account,
        Err(e) => {
            return Err(e);
        },
    };
    let fields = vec![("account", account), ("pubkey", serialize_pubkey(&key))];
    proof {
        reveal_strlit("account");
        reveal_strlit("pubkey");
        assert("account"@.len() == 7 && "pubkey"@.len() == 6);
        assert(field_trees(fields@) =~= keyed_account_tree(value_tree(account), key)->Object_0);
    }
    Ok(object_value(fields))
}

/// The rows of an answer, given what writing each of them came to: all of them, or else the first
/// failure.
pub fn rows_written(written: Vec<Result<serde_json::Value, SerializeError>>) -> (r: Result<
    Vec<serde_json::Value>,
    SerializeError,
>)
    ensures
        match r {
            Ok(rows) => {
                &&& rows@.len() == written@.len()
                &&& forall|i: int|
                    0 <= i < written@.len() ==> #[trigger] written@[i] == Ok::<
                        serde_json::Value,
                        SerializeError,
                    >(rows@[i])
            },
            Err(e) => exists|i: int|
                {
                    &&& 0 <= i < written@.len()
                    &&& #[trigger] written@[i] == Err::<serde_json::Value, SerializeError>(e)
                    &&& forall|j: int| 0 <= j < i ==> (#[trigger] written@[j]) is Ok
                },
        },
{
    let ghost all = written@;
    let mut rows: Vec<serde_json::Value> = Vec::new();
    for row in it: written
        invariant
            it.seq() == all,
            rows@.len() == it.index(),
            forall|i: int|
                0 <= i < it.index() ==> #[trigger] all[i] == Ok::<
                    serde_json::Value,
                    SerializeError,
                >(rows@[i]),
    {
        match row {
            Ok(row) => {
                rows.push(row);
            },
            Err(e) => {
                return Err(e);
            },
        }
    }
    Ok(rows)
}

/// Prints an answer, given what writing its rows came to.
pub fn program_accounts_written(
    req_id: u64,
    rows: Result<Vec<serde_json::Value>, SerializeError>,
) -> (r: Result<Vec<u8>, Error>)
    ensures
        match rows {
            Ok(rows) => r is Ok && r->Ok_0@ == json_text(
                response_tree(Tree::List(item_trees(rows@)), req_id),
            ),
            Err(_) => r == Err::<Vec<u8>, Error>(Error::InvalidRequest(None)),
        },
{
    match rows {
        Ok(rows) => Ok(to_vec(&serialize_response(list_value(rows), req_id))),
        Err(e) => Err(Error::from(e)),
    }
}

/// Whether writing an address can come to `r`. Where nothing reaches past the data, it can fail
/// only where the data of an account has to be compressed.
spec fn row_outcome(
    accounts: AccountsDb,
    key: Pubkey,
    commitment: Commitment,
    config: ProgramAccountsConfig,
    r: Result<serde_json::Value, SerializeError>,
) -> bool {
    match (row_tree(accounts, key, commitment, config), r) {
        (Some(tree), Ok(value)) => {
            &&& value_tree(value) == tree
            &&& accounts.sighting(key@, commitment) matches Some((Some(info), _))
                ==> info_reads_back(info, config.encoding, config.data_slice)
        },
        (Some(_), Err(_)) => {
            &&& accounts.sighting(key@, commitment) matches Some((Some(info), _))
            &&& packing_can_fail(info, config.encoding, config.data_slice)
        },
        (None, _) => r is Err,
    }
}

/// Writes an address of which something is known, with its account.
fn serialize_row(
    accounts: &AccountsDb,
    key: Pubkey,
    commitment: Commitment,
    config: &ProgramAccountsConfig,
) -> (r: Result<serde_json::Value, SerializeError>)
    requires
        accounts.wf(),
    ensures
        row_outcome(*accounts, key, commitment, *config, r),
{
    let sighting = match accounts.get(&key) {
        Some(state) => state.get(commitment),
        None => None,
    };
    let account = match sighting {
        Some((Some(info), _)) => info.encode(config.encoding, config.data_slice).serialize(),
        _ => Ok(null_value()),
    };
    row_written(key, account)
}

/// Writes some addresses of which something is known, with their accounts.
fn serialize_rows(
    accounts: &AccountsDb,
    keys: &Vec<Pubkey>,
    commitment: Commitment,
    config: &ProgramAccountsConfig,
) -> (r: Result<Vec<serde_json::Value>, SerializeError>)
    requires
        accounts.wf(),
    ensures
        match r {
            Ok(rows) => {
                &&& rows_fit(*accounts, keys@, commitment, *config)
                &&& item_trees(rows@) == row_trees(*accounts, keys@, commitment, *config)
                &&& rows_read_back(*accounts, keys@, commitment, *config)
            },
            Err(_) => !rows_fit(*accounts, keys@, commitment, *config) || {
                &&& config.encoding == Encoding::Base64Zstd
                &&& some_account(*accounts, keys@, commitment)
                &&& some_packing_can_fail(*accounts, keys@, commitment, *config)
            },
        },
{
    let mut written: Vec<Result<serde_json::Value, SerializeError>> = Vec::new();
    let mut failed = false;
    let mut i: usize = 0;
    while i < keys.len() && !failed
        invariant
            accounts.wf(),
            i <= keys@.len(),
            written@.len() == i,
            failed ==> i > 0 && written@[i - 1] is Err,
            forall|j: int|
                0 <= j < i ==> row_outcome(
                    *accounts,
                    keys@[j],
                    commitment,
                    *config,
                    #[trigger] written@[j],
                ),
        decreases keys@.len() - i,
    {
        let row = serialize_row(accounts, keys[i], commitment, config);
        failed = row.is_err();
        written.push(row);
        i += 1;
    }
    let ghost outcomes = written@;
    let r = rows_written(written);
    proof {
        if r is Ok {
            let rows = r->Ok_0@;
            if failed {
                assert(outcomes[i - 1] == Ok::<serde_json::Value, SerializeError>(rows[i - 1]));
            }
            assert forall|j: int| 0 <= j < keys@.len() implies row_tree(
                *accounts,
                #[trigger] keys@[j],
                commitment,
                *config,
            ) == Some(value_tree(rows[j])) by {
                assert(outcomes[j] == Ok::<serde_json::Value, SerializeError>(rows[j]));
            }
            assert(item_trees(rows) =~= row_trees(*accounts, keys@, commitment, *config));
            assert forall|j: int| 0 <= j < keys@.len() implies (accounts.sighting(
                (#[trigger] keys@[j])@,
                commitment,
            ) matches Some((Some(info), _)) ==> info_reads_back(
                info,
                config.encoding,
                config.data_slice,
            )) by {
                assert(outcomes[j] == Ok::<serde_json::Value, SerializeError>(rows[j]));
            }
        } else {
            let j = choose|j: int|
                0 <= j < outcomes.len() && #[trigger] outcomes[j] == Err::<
                    serde_json::Value,
                    SerializeError,
                >(r->Err_0);
            assert(row_outcome(*accounts, keys@[j], commitment, *config, outcomes[j]));
        }
    }
    r
}

/// Whether the filters of a request, if there are any, let through what is known of an address
/// at the commitment. Nothing passes if nothing is known.
fn row_passes(
    filters: Option<&Vec<Filter>>,
    sighting: Option<(Option<&AccountInfo>, u64)>,
) -> (r: bool)
    ensures
        r == match sighting {
            Some((info, _)) => passes(
                match filters {
                    Some(filters) => Some(filters@),
                    None => None,
                },
                match info {
                    Some(info) => Some(*info),
                    None => None,
                },
            ),
            None => false,
        },
{
    let info = match sighting {
        Some((info, _)) => info,
        None => {
            return false;
        },
    };
    match filters {
        None => true,
        Some(filters) => match info {
            Some(info) => all_match(filters, &info.data),
            None => filters.len() == 0,
        },
    }
}

/// Answers a request from what is known of the accounts of a program, and returns the commands
/// to send as well.
pub fn program_accounts_response(
    req_id: u64,
    keys: &KeySet,
    accounts: &AccountsDb,
    config: &ProgramAccountsConfig,
    commitment: Commitment,
) -> (r: (Vec<AccountCommand>, Result<Vec<u8>, Error>))
    requires
        keys.wf(),
        accounts.wf(),
    ensures
        r.0@ == program_answer_commands(*accounts, keys.keys(), *config),
        program_answered(req_id, *accounts, keys.keys(), *config, commitment, r.1),
{
    let mut commands: Vec<AccountCommand> = Vec::new();
    let filters = match &config.filters {
        Some(Ok(filters)) => Some(filters),
        Some(Err(e)) => {
            return (commands, Err(Error::of_text(e)));
        },
        None => None,
    };
    let ghost all = keys.keys();
    let ghost wanted = filters_of(*config);
    let ghost known = |k: Pubkey| accounts.map().contains_key(k@);
    let ghost in_answer = |k: Pubkey| is_listed(*accounts, k, commitment, wanted);
    let ghost to_command = |k: Pubkey| AccountCommand::Reset(Subscription::Account(k));
    let mut listed: Vec<Pubkey> = Vec::new();
    let mut i: usize = 0;
    while i < keys.len()
        invariant
            keys.wf(),
            accounts.wf(),
            all == keys.keys(),
            i <= all.len(),
            wanted == match filters {
                Some(filters) => Some(filters@),
                None => None,
            },
            known == (|k: Pubkey| accounts.map().contains_key(k@)),
            in_answer == (|k: Pubkey| is_listed(*accounts, k, commitment, wanted)),
            to_command == (|k: Pubkey| AccountCommand::Reset(Subscription::Account(k))),
            commands@ == all.take(i as int).filter(known).map_values(to_command),
            listed@ == all.take(i as int).filter(in_answer),
        decreases all.len() - i,
    {
        let key = keys.key_at(i);
        proof {
            lemma_filter_take(all, known, i as int);
            lemma_filter_take(all, in_answer, i as int);
        }
        if let Some((state, command)) = get_account(accounts, &key) {
            commands.push(command);
            if row_passes(filters, state.get(commitment)) {
                listed.push(key);
            }
        }
        i += 1;
        proof {
            assert(commands@ =~= all.take(i as int).filter(known).map_values(to_command));
        }
    }
    proof {
        assert(all.take(i as int) =~= all);
        assert(commands@ == reset_commands(*accounts, all));
        assert(listed@ == listed_keys(*accounts, all, commitment, wanted));
    }
    let rows = serialize_rows(accounts, &listed, commitment, config);
    (commands, program_accounts_written(req_id, rows))
}

/// A request that waits for the backend.
#[derive(Debug)]
pub struct ProgramAccountsCall {
    pub req_id: u64,
    pub config: ProgramAccountsConfig,
    /// The program under which the backend's answer may be kept, and from whose accounts the
    /// request may be answered before that answer comes.
    pub cacheable_for_key: Option<Pubkey>,
}

/// What becomes of a request.
#[derive(Debug)]
pub enum ProgramAccountsStep {
    /// It is answered at once, with a body of JSON.
    Answer(Result<Vec<u8>, Error>),
    /// The backend is asked.
    Fetch(ProgramAccountsCall),
}

/// The commands to send with an answer, unless it failed for its filters.
pub open spec fn program_answer_commands(
    accounts: AccountsDb,
    keys: Seq<Pubkey>,
    config: ProgramAccountsConfig,
) -> Seq<AccountCommand> {
    if config.filters matches Some(Err(_)) {
        Seq::empty()
    } else {
        reset_commands(accounts, keys)
    }
}

/// The program under which the backend's answer to a request may be kept: none where the
/// answer is about a part of the accounts or of their data.
pub open spec fn program_cacheable(config: ProgramAccountsConfig, pubkey: Pubkey) -> Option<
    Pubkey,
> {
    if config.data_slice is Some || config.filters is Some {
        None
    } else {
        Some(pubkey)
    }
}

/// The account that the backend reports for an address: the last one, if it reports several.
pub open spec fn reported(list: Seq<(AccountInfo, Pubkey)>, key: Seq<u8>) -> Option<AccountInfo>
    decreases list.len(),
{
    if list.len() == 0 {
        None
    } else if list.last().1@ == key {
        Some(list.last().0)
    } else {
        reported(list.drop_last(), key)
    }
}

/// Whether an address is among some.
pub open spec fn has_address(keys: Seq<Pubkey>, key: Seq<u8>) -> bool {
    exists|i: int| 0 <= i < keys.len() && (#[trigger] keys[i])@ == key
}

/// The addresses that the backend reports, each once, in the order in which they first come.
pub open spec fn reported_keys(list: Seq<(AccountInfo, Pubkey)>) -> Seq<Pubkey>
    decreases list.len(),
{
    if list.len() == 0 {
        Seq::empty()
    } else {
        let before = reported_keys(list.drop_last());
        if has_address(before, list.last().1@) {
            before
        } else {
            before.push(list.last().1)
        }
    }
}

/// What is known of an address at a commitment, once the backend has reported accounts as of
/// another or the same commitment. It does not say of which slot they are.
pub open spec fn sighting_after_report(
    accounts: AccountsDb,
    list: Seq<(AccountInfo, Pubkey)>,
    commitment: Commitment,
    key: Seq<u8>,
    at: Commitment,
) -> Option<Sighting> {
    match reported(list, key) {
        Some(info) if at == commitment => Some((Some(info), 0)),
        _ => accounts.sighting(key, at),
    }
}

/// Whether a request for the accounts of a program begins with these commands and this step,
/// given what is known.
pub open spec fn program_accounts_begun(
    state: State,
    req_id: u64,
    pubkey: Pubkey,
    config: ProgramAccountsConfig,
    commands: Seq<AccountCommand>,
    step: ProgramAccountsStep,
) -> bool {
    let commitment = config.spec_commitment();
    if state.program_accounts.map().contains_key(pubkey@) {
        let keys = state.program_accounts.map()[pubkey@].keys();
        &&& commands == program_answer_commands(state.accounts, keys, config)
        &&& step matches ProgramAccountsStep::Answer(outcome)
        &&& program_answered(req_id, state.accounts, keys, config, commitment, outcome)
    } else {
        &&& commands == seq![
            AccountCommand::Subscribe(Subscription::Program(pubkey), commitment),
        ]
        &&& step == ProgramAccountsStep::Fetch(
            ProgramAccountsCall {
                req_id,
                config,
                cacheable_for_key: program_cacheable(config, pubkey),
            },
        )
    }
}

/// Whether a request that waits for the backend goes on with these commands and this answer,
/// if any, once something new may be known.
pub open spec fn program_accounts_renewed(
    state: State,
    call: ProgramAccountsCall,
    commands: Seq<AccountCommand>,
    answer: Option<Result<Vec<u8>, Error>>,
) -> bool {
    match call.cacheable_for_key {
        Some(key) if state.program_accounts.map().contains_key(key@) => {
            let keys = state.program_accounts.map()[key@].keys();
            &&& commands == program_answer_commands(state.accounts, keys, call.config)
            &&& answer matches Some(outcome)
            &&& program_answered(
                call.req_id,
                state.accounts,
                keys,
                call.config,
                call.config.spec_commitment(),
                outcome,
            )
        },
        _ => commands == Seq::<AccountCommand>::empty() && answer is None,
    }
}

/// Whether a request ends with `r` when the backend's answer was read, and whether `post` is
/// what is known after that if `pre` was known before.
pub open spec fn program_accounts_ended(
    pre: State,
    call: ProgramAccountsCall,
    body: Vec<u8>,
    decoded: Result<Vec<(AccountInfo, Pubkey)>, serde_json::Error>,
    r: Fetched,
    post: State,
) -> bool {
    &&& post.lru == pre.lru
    &&& forall|c: Commitment| #[trigger] post.accounts.slot(c) == pre.accounts.slot(c)
    &&& match (call.cacheable_for_key, decoded) {
        (Some(program), Ok(list)) => {
            let commitment = call.config.spec_commitment();
            let after = post.program_accounts.map();
            &&& r.outcome == Ok::<Reply, Error>(Reply::Json(body))
            &&& r.notify
            &&& forall|k: Seq<u8>| #[trigger]
                post.accounts.map().contains_key(k) <==> pre.accounts.map().contains_key(k)
                    || reported(list@, k) is Some
            &&& forall|k: Seq<u8>, c: Commitment| #[trigger]
                post.accounts.sighting(k, c) == sighting_after_report(
                    pre.accounts,
                    list@,
                    commitment,
                    k,
                    c,
                )
            &&& after.contains_key(program@)
            &&& after[program@].keys() == reported_keys(list@)
            &&& after == pre.program_accounts.map().insert(program@, after[program@])
        },
        (Some(_), Err(e)) => {
            &&& r.outcome == Err::<Reply, Error>(error_of_text(error_is_data(e)))
            &&& !r.notify
            &&& post.accounts == pre.accounts
            &&& post.program_accounts == pre.program_accounts
        },
        (None, _) => {
            &&& r.outcome == Ok::<Reply, Error>(Reply::Json(body))
            &&& !r.notify
            &&& post.accounts == pre.accounts
            &&& post.program_accounts == pre.program_accounts
        },
    }
}

impl State {
    /// Begins to answer a request for the accounts of a program, and returns the commands to
    /// send first.
    ///
    /// A program whose accounts are known is answered at once. Otherwise the backend is asked,
    /// and the program is watched from now on.
    pub fn get_program_accounts(
        &self,
        req_id: u64,
        pubkey: Pubkey,
        config: ProgramAccountsConfig,
    ) -> (r: (Vec<AccountCommand>, ProgramAccountsStep))
        requires
            self.wf(),
        ensures
            program_accounts_begun(*self, req_id, pubkey, config, r.0@, r.1),
    {
        let commitment = config.effective_commitment();
        if let Some(keys) = self.program_accounts.get(&pubkey) {
            let (commands, outcome) = program_accounts_response(
                req_id,
                keys,
                &self.accounts,
                &config,
                commitment,
            );
            return (commands, ProgramAccountsStep::Answer(outcome));
        }
        let cacheable_for_key = if config.data_slice.is_some() || config.filters.is_some() {
            None
        } else {
            Some(pubkey)
        };
        let mut commands: Vec<AccountCommand> = Vec::new();
        commands.push(self.subscribe(Subscription::Program(pubkey), commitment));
        assert(commands@ =~= seq![
            AccountCommand::Subscribe(Subscription::Program(pubkey), commitment),
        ]);
        (commands, ProgramAccountsStep::Fetch(
            ProgramAccountsCall { req_id, config, cacheable_for_key },
        ))
    }

    /// Looks again at what is known, for a request that waits for the backend: something new
    /// may be known by now. Returns the commands to send, and the answer if there is one.
    pub fn program_accounts_notified(&self, call: &ProgramAccountsCall) -> (r: (
        Vec<AccountCommand>,
        Option<Result<Vec<u8>, Error>>,
    ))
        requires
            self.wf(),
        ensures
            program_accounts_renewed(*self, *call, r.0@, r.1),
    {
        if let Some(key) = call.cacheable_for_key {
            if let Some(keys) = self.program_accounts.get(&key) {
                let (commands, outcome) = program_accounts_response(
                    call.req_id,
                    keys,
                    &self.accounts,
                    &call.config,
                    call.config.effective_commitment(),
                );
                return (commands, Some(outcome));
            }
        }
        (Vec::new(), None)
    }

    /// Ends a request with the backend's answer, once that was read: `decoded` are the accounts
    /// that it reports. They are kept if they may be, and the client gets the answer as it is.
    /// An answer that should be kept but cannot be read fails the request.
    pub fn program_accounts_fetched(
        &mut self,
        call: &ProgramAccountsCall,
        body: Vec<u8>,
        decoded: Result<Vec<(AccountInfo, Pubkey)>, serde_json::Error>,
    ) -> (r: Fetched)
        requires
            old(self).wf(),
        ensures
            final(self).wf(),
            program_accounts_ended(*old(self), *call, body, decoded, r, *final(self)),
    {
        let program = match call.cacheable_for_key {
            Some(program) => program,
            None => {
                return Fetched { outcome: Ok(Reply::Json(body)), notify: false };
            },
        };
        let commitment = call.config.effective_commitment();
        let list = match decoded {
            Ok(list) => list,
            Err(e) => {
                return Fetched { outcome: Err(Error::from(e)), notify: false };
            },
        };
        let keys = self.insert_accounts(list, commitment);
        self.program_accounts.insert(program, keys);
        Fetched { outcome: Ok(Reply::Json(body)), notify: true }
    }

    /// Records the accounts that the backend reports at a commitment, and returns their
    /// addresses.
    fn insert_accounts(&mut self, list: Vec<(AccountInfo, Pubkey)>, commitment: Commitment) -> (r:
        KeySet)
        requires
            old(self).wf(),
        ensures
            final(self).wf(),
            final(self).lru == old(self).lru,
            final(self).program_accounts == old(self).program_accounts,
            forall|c: Commitment| #[trigger]
                final(self).accounts.slot(c) == old(self).accounts.slot(c),
            forall|k: Seq<u8>| #[trigger]
                final(self).accounts.map().contains_key(k)
                    <==> old(self).accounts.map().contains_key(k) || reported(list@, k) is Some,
            forall|k: Seq<u8>, c: Commitment| #[trigger]
                final(self).accounts.sighting(k, c) == sighting_after_report(
                    old(self).accounts,
                    list@,
                    commitment,
                    k,
                    c,
                ),
            r.wf(),
            r.keys() == reported_keys(list@),
    {
        let ghost all = list@;
        let mut keys: KeySet = Table::new();
        for acc in iter: list
            invariant
                iter.seq() == all,
                self.wf(),
                keys.wf(),
                self.lru == old(self).lru,
                self.program_accounts == old(self).program_accounts,
                forall|c: Commitment| #[trigger]
                    self.accounts.slot(c) == old(self).accounts.slot(c),
                forall|k: Seq<u8>| #[trigger]
                    self.accounts.map().contains_key(k)
                        <==> old(self).accounts.map().contains_key(k) || reported(
                        all.take(iter.index()),
                        k,
                    ) is Some,
                forall|k: Seq<u8>, c: Commitment| #[trigger]
                    self.accounts.sighting(k, c) == sighting_after_report(
                        old(self).accounts,
                        all.take(iter.index()),
                        commitment,
                        k,
                        c,
                    ),
                keys.keys() == reported_keys(all.take(iter.index())),
        {
            let (account, pubkey) = acc;
            proof {
                let i = iter.index();
                assert(all.take(i + 1).drop_last() =~= all.take(i));
                assert(all.take(i + 1).last() == acc);
                keys.lemma_keys();
            }
            self.insert(
                pubkey,
                AccountContext { value: Some(account), context: SolanaContext { slot: 0 } },
                commitment,
            );
            keys.insert(pubkey, ());
        }
        proof {
            assert(all.take(all.len() as int) =~= all);
        }
        keys
    }
}

/// One more item is filtered like those before it.
proof fn lemma_filter_take<T>(s: Seq<T>, keep: spec_fn(T) -> bool, i: int)
    requires
        0 <= i < s.len(),
    ensures
        s.take(i + 1).filter(keep) == if keep(s[i]) {
            s.take(i).filter(keep).push(s[i])
        } else {
            s.take(i).filter(keep)
        },
{
    reveal(Seq::filter);
    assert(s.take(i + 1).drop_last() =~= s.take(i));
}

} // verus!
