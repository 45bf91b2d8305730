//! What holds of several steps together.

use crate::account_info::{
    account_answer_tree, account_answered, account_info_begun, account_info_ended,
    account_info_renewed, call_sighting, AccountInfoCall, AccountInfoStep, AccountQuery,
    AccountReply,
};
use crate::accounts::Sighting;
use crate::backend::{backend_step, Fetched};
use crate::encode::{account_context_tree, encoded_info_tree, response_tree, selected_bytes};
use crate::error::Error;
use crate::filter::{all_accept, Filter};
use crate::json::{json_text, Tree};
use crate::program_accounts::{
    filters_of, has_address, is_listed, listed_keys, program_accounts_begun,
    program_accounts_ended, program_accounts_renewed, program_answered, reported, reported_keys,
    row_trees, rows_fit, some_account, ProgramAccountsCall, ProgramAccountsStep,
};
use crate::request::ProgramAccountsConfig;
use crate::response_cache::{
    entries_wf, entry_put, has_key, hash_of, lemma_entry_put_wf, lemma_entry_used_wf,
    lemma_without_key, without_key, Hashed,
};
use crate::state::State;
use crate::types::{
    AccountCommand, AccountContext, AccountInfo, Commitment, Encoding, Pubkey, Slice, SolanaContext,
};
use vstd::prelude::*;

verus! {

/// An account that the backend reported is answered from then on without asking the backend:
/// a request for it at the same commitment is answered at once, and, unless an answer to the
/// same parameters at the same slot is still at hand, with exactly that account.
pub proof fn law_fetched_account_is_served(
    pre: State,
    call: AccountInfoCall,
    body: Vec<u8>,
    data: AccountContext,
    fetched: Fetched,
    mid: State,
    query: AccountQuery,
    pubkey: Pubkey,
    commands: Seq<AccountCommand>,
    step: AccountInfoStep,
    post: State,
)
    requires
        call.cacheable_for_key is Some,
        account_info_ended(pre, call, body, Ok(Some(data)), fetched, mid),
        account_info_begun(mid, query, pubkey, commands, step, post),
        pubkey@ == call.cacheable_for_key->0@,
        query.config.spec_commitment() == call.query.config.spec_commitment(),
    ensures
        step matches AccountInfoStep::Answer(outcome) && account_answered(
            query,
            mid.accounts.slot(query.config.spec_commitment()),
            (data.value, data.context.slot),
            mid.lru.limit(),
            mid.lru.entries(),
            outcome,
            post.lru.entries(),
        ),
        !has_key(mid.lru.entries(), hash_of((query.request_hash, data.context.slot))) ==> (
        step->Answer_0 matches Ok(reply) ==> {
            &&& account_answer_tree(
                query.req_id,
                mid.accounts.slot(query.config.spec_commitment()),
                data.value,
                query.config,
            ) matches Some(tree)
            &&& reply.body@ == json_text(tree)
        }),
{
    let commitment = query.config.spec_commitment();
    assert(mid.accounts.sighting(pubkey@, commitment) == Some((data.value, data.context.slot)));
}

/// Once the backend has reported an account, the word goes out that something new is known, and
/// any other request that waits for the account at the same commitment, and may be answered
/// from what is known, is answered when it looks again.
pub proof fn law_fetched_account_answers_waiting_requests(
    pre: State,
    call: AccountInfoCall,
    body: Vec<u8>,
    data: AccountContext,
    fetched: Fetched,
    mid: State,
    waiting: AccountInfoCall,
    commands: Seq<AccountCommand>,
    answer: Option<Result<AccountReply, Error>>,
    post: State,
)
    requires
        call.cacheable_for_key is Some,
        account_info_ended(pre, call, body, Ok(Some(data)), fetched, mid),
        waiting.cacheable_for_key matches Some(key) && key@ == call.cacheable_for_key->0@,
        waiting.query.config.spec_commitment() == call.query.config.spec_commitment(),
        account_info_renewed(mid, waiting, commands, answer, post),
    ensures
        fetched.notify,
        answer matches Some(outcome) && account_answered(
            waiting.query,
            mid.accounts.slot(waiting.query.config.spec_commitment()),
            (data.value, data.context.slot),
            mid.lru.limit(),
            mid.lru.entries(),
            outcome,
            post.lru.entries(),
        ),
{
    let commitment = waiting.query.config.spec_commitment();
    let key = waiting.cacheable_for_key->0@;
    assert(mid.accounts.sighting(key, commitment) == Some((data.value, data.context.slot)));
}

/// Keeping what the backend reported of one account at one commitment changes nothing of what
/// is answered about other accounts, nor about the same account at other commitments.
pub proof fn law_fetched_account_leaves_the_rest(
    pre: State,
    call: AccountInfoCall,
    body: Vec<u8>,
    data: AccountContext,
    fetched: Fetched,
    post: State,
    key: Seq<u8>,
    commitment: Commitment,
)
    requires
        call.cacheable_for_key is Some,
        account_info_ended(pre, call, body, Ok(Some(data)), fetched, post),
        key != call.cacheable_for_key->0@ || commitment != call.query.config.spec_commitment(),
    ensures
        post.accounts.sighting(key, commitment) == pre.accounts.sighting(key, commitment),
        post.accounts.slot(commitment) == pre.accounts.slot(commitment),
        post.program_accounts == pre.program_accounts,
        post.lru == pre.lru,
{
}

/// The backend's answer about a slice of an account of which nothing is known is not kept,
/// whatever it is: the client is answered without its being read. And while it is waited for,
/// the request is not answered from what others made known.
pub proof fn law_slice_of_unknown_account_is_not_kept(
    pre: State,
    query: AccountQuery,
    pubkey: Pubkey,
    commands: Seq<AccountCommand>,
    step: AccountInfoStep,
    post: State,
    reply: Option<Vec<u8>>,
    later: State,
    later_commands: Seq<AccountCommand>,
    answer: Option<Result<AccountReply, Error>>,
    after: State,
)
    requires
        account_info_begun(pre, query, pubkey, commands, step, post),
        !pre.accounts.map().contains_key(pubkey@),
        query.config.data_slice is Some,
        step matches AccountInfoStep::Fetch(call) ==> account_info_renewed(
            later,
            call,
            later_commands,
            answer,
            after,
        ),
    ensures
        step matches AccountInfoStep::Fetch(call) && backend_step(
            call.cacheable_for_key,
            reply,
        ) is Respond,
        answer is None,
        later_commands == Seq::<AccountCommand>::empty(),
{
}

/// A request that waits for the backend is answered, once something new is known, if and only
/// if the same request made then would be answered at once, and in the same way: with the same
/// bytes, or with the same error. Which of the two it is can differ only where the data of an
/// account has to be compressed: no answer is at hand, there is an account, and the slice is in
/// its data.
pub proof fn law_waiting_request_is_answered_like_a_new_one(
    state: State,
    call: AccountInfoCall,
    commands: Seq<AccountCommand>,
    answer: Option<Result<AccountReply, Error>>,
    post: State,
    new_commands: Seq<AccountCommand>,
    step: AccountInfoStep,
    new_post: State,
)
    requires
        state.lru.wf(),
        call.cacheable_for_key is Some,
        account_info_renewed(state, call, commands, answer, post),
        account_info_begun(
            state,
            call.query,
            call.cacheable_for_key->0,
            new_commands,
            step,
            new_post,
        ),
    ensures
        answer is Some <==> step is Answer,
        answer is Some && (answer->0 is Ok) != (step->Answer_0 is Ok) ==> {
            let query = call.query;
            let sighting = call_sighting(state.accounts, call)->0;
            &&& query.config.encoding == Encoding::Base64Zstd
            &&& !has_key(state.lru.entries(), hash_of((query.request_hash, sighting.1)))
            &&& sighting.0 is Some
            &&& selected_bytes(sighting.0->0.data.data@, query.config.data_slice) is Some
        },
        answer matches Some(Err(e)) ==> (step matches AccountInfoStep::Answer(Err(new_e)) ==> e
            == new_e),
        answer matches Some(Ok(reply)) ==> (step matches AccountInfoStep::Answer(Ok(new_reply))
            ==> reply.body@ == new_reply.body@ && post.lru.entries() == new_post.lru.entries()),
{
    if let Some(Ok(reply)) = answer {
        if let AccountInfoStep::Answer(Ok(new_reply)) = step {
            let entries = state.lru.entries();
            let commitment = call.query.config.spec_commitment();
            let sighting = state.accounts.sighting(
                call.cacheable_for_key->0@,
                commitment,
            )->0;
            let key = hash_of((call.query.request_hash, sighting.1));
            if has_key(entries, key) {
                lemma_bodies_agree(entries, state.lru.limit(), key, reply.body@, new_reply.body@);
            }
        }
    }
}

/// Under one key a cache holds one body.
proof fn lemma_bodies_agree(
    entries: Seq<(u64, Seq<u8>)>,
    limit: nat,
    key: u64,
    a: Seq<u8>,
    b: Seq<u8>,
)
    requires
        entries_wf(entries, limit),
        entries.contains((key, a)),
        entries.contains((key, b)),
    ensures
        a == b,
{
    let i = choose|i: int| 0 <= i < entries.len() && entries[i] == (key, a);
    let j = choose|j: int| 0 <= j < entries.len() && entries[j] == (key, b);
    if i < j {
        assert(entries[i].0 != entries[j].0);
    } else if j < i {
        assert(entries[j].0 != entries[i].0);
    }
}

/// As long as the account stays at its slot, a request with the same parameters as one that
/// was just answered gets the very same bytes, be its own number or the slot of the chain what
/// they may. This takes a cache with room for at least one answer.
pub proof fn law_repeated_request_gets_the_same_bytes(
    query: AccountQuery,
    slot: u64,
    sighting: Sighting,
    limit: nat,
    pre: Seq<(u64, Seq<u8>)>,
    reply: AccountReply,
    mid: Seq<(u64, Seq<u8>)>,
    again: AccountQuery,
    later_slot: u64,
    later_sighting: Sighting,
    r: Result<AccountReply, Error>,
    post: Seq<(u64, Seq<u8>)>,
)
    requires
        entries_wf(pre, limit),
        limit > 0,
        account_answered(query, slot, sighting, limit, pre, Ok(reply), mid),
        again.request_hash == query.request_hash,
        later_sighting.1 == sighting.1,
        account_answered(again, later_slot, later_sighting, limit, mid, r, post),
    ensures
        r matches Ok(second) && second.lru_hit && second.body@ == reply.body@,
{
    let key = hash_of((query.request_hash, sighting.1));
    if has_key(pre, key) {
        lemma_entry_used_wf(pre, limit, key, reply.body@);
    } else {
        lemma_entry_put_wf(pre, limit, key, reply.body@);
    }
    assert(mid[0] == (key, reply.body@));
    assert(mid[0].0 == key);
    assert(has_key(mid, key));
    if let Ok(second) = r {
        lemma_bodies_agree(mid, limit, key, reply.body@, second.body@);
    }
}

/// An answer about an account that is printed anew carries the number of the request that it
/// answers. One that was printed before carries the number of the request for which it was
/// printed.
pub proof fn law_fresh_account_answer_carries_the_number(
    query: AccountQuery,
    slot: u64,
    sighting: Sighting,
    limit: nat,
    pre: Seq<(u64, Seq<u8>)>,
    reply: AccountReply,
    post: Seq<(u64, Seq<u8>)>,
)
    requires
        account_answered(query, slot, sighting, limit, pre, Ok(reply), post),
        !has_key(pre, hash_of((query.request_hash, sighting.1))),
    ensures
        exists|result: Tree|
            reply.body@ == json_text(#[trigger] response_tree(result, query.req_id)),
{
    let tree = account_answer_tree(query.req_id, slot, sighting.0, query.config)->0;
    let value = match sighting.0 {
        Some(info) => encoded_info_tree(info, query.config.encoding, query.config.data_slice)->0,
        None => Tree::Null,
    };
    let result = account_context_tree(SolanaContext { slot }, value);
    assert(tree == response_tree(result, query.req_id));
}

/// An answer about the accounts of a program carries the number of the request that it answers.
pub proof fn law_program_answer_carries_the_number(
    req_id: u64,
    state: State,
    keys: Seq<Pubkey>,
    config: ProgramAccountsConfig,
    commitment: Commitment,
    body: Vec<u8>,
)
    requires
        program_answered(req_id, state.accounts, keys, config, commitment, Ok(body)),
    ensures
        exists|result: Tree| body@ == json_text(#[trigger] response_tree(result, req_id)),
{
    let listed = listed_keys(state.accounts, keys, commitment, filters_of(config));
    let result = Tree::List(row_trees(state.accounts, listed, commitment, config));
    assert(body@ == json_text(response_tree(result, req_id)));
}

/// A request for a known program with filters that can be read is answered with a list of accounts
/// where nothing has to be compressed: outside the compressed encoding whenever the slice is in the
/// data of each account that is listed, and in every encoding whenever no listed address has an
/// account.
pub proof fn law_known_program_is_answered(
    state: State,
    req_id: u64,
    pubkey: Pubkey,
    config: ProgramAccountsConfig,
    commands: Seq<AccountCommand>,
    step: ProgramAccountsStep,
)
    requires
        state.program_accounts.map().contains_key(pubkey@),
        program_accounts_begun(state, req_id, pubkey, config, commands, step),
        !(config.filters matches Some(Err(_))),
    ensures
        step is Answer,
        ({
            let keys = state.program_accounts.map()[pubkey@].keys();
            let commitment = config.spec_commitment();
            let listed = listed_keys(state.accounts, keys, commitment, filters_of(config));
            &&& config.encoding != Encoding::Base64Zstd && rows_fit(
                state.accounts,
                listed,
                commitment,
                config,
            ) ==> step->Answer_0 is Ok
            &&& !some_account(state.accounts, listed, commitment) ==> step->Answer_0 is Ok
        }),
{
    let keys = state.program_accounts.map()[pubkey@].keys();
    let commitment = config.spec_commitment();
    let listed = listed_keys(state.accounts, keys, commitment, filters_of(config));
    if !some_account(state.accounts, listed, commitment) {
        assert(rows_fit(state.accounts, listed, commitment, config));
    }
}

/// Asking for the whole of an account's data by a slice is the same as asking for no slice.
pub proof fn law_whole_slice_is_no_slice(info: AccountInfo, encoding: Encoding)
    requires
        info.data.data@.len() <= usize::MAX,
    ensures
        encoded_info_tree(
            info,
            encoding,
            Some(Slice { offset: 0, length: info.data.data@.len() as usize }),
        ) == encoded_info_tree(info, encoding, None),
{
    let data = info.data.data@;
    assert(data.subrange(0, data.len() as int) =~= data);
}

/// Equal values have equal hashes.
pub proof fn law_equal_values_hash_equally<T: Hashed>(a: T, b: T)
    requires
        a == b,
    ensures
        hash_of(a) == hash_of(b),
{
}

/// Texts with the same characters have equal hashes.
pub proof fn law_equal_texts_hash_equally(a: &str, b: &str)
    requires
        a@ == b@,
    ensures
        hash_of(a) == hash_of(b),
{
}

/// A reference has the hash of what it refers to.
pub proof fn law_reference_hashes_like_its_value<T: Hashed>(a: T)
    ensures
        hash_of(&a) == hash_of(a),
{
}

/// Putting an answer makes the cache forget at most the answer that was used least recently,
/// and that only where it is full and nothing is replaced. All other answers under other keys
/// stay.
pub proof fn law_put_forgets_at_most_the_last(
    entries: Seq<(u64, Seq<u8>)>,
    limit: nat,
    key: u64,
    body: Seq<u8>,
    i: int,
)
    requires
        entries_wf(entries, limit),
        0 <= i < entries.len(),
        entries[i].0 != key,
        i + 1 < limit || has_key(entries, key),
    ensures
        entry_put(entries, limit, key, body).contains(entries[i]),
{
    let after = entry_put(entries, limit, key, body);
    if has_key(entries, key) {
        let rest = without_key(entries, key);
        lemma_without_key(entries, key);
        assert(entries.contains(entries[i]));
        assert(rest.contains(entries[i]));
        let j = choose|j: int| 0 <= j < rest.len() && rest[j] == entries[i];
        assert(after[j + 1] == entries[i]);
    } else {
        assert(after[i + 1] == entries[i]);
    }
}

/// The addresses in an answer are those of the program's accounts of which something is known
/// at the commitment that passes the filters: all of them, and no others.
pub proof fn law_listing_is_exact(
    state: State,
    keys: Seq<Pubkey>,
    commitment: Commitment,
    filters: Option<Seq<Filter>>,
    key: Pubkey,
)
    ensures
        listed_keys(state.accounts, keys, commitment, filters).contains(key) <==> keys.contains(key)
            && is_listed(state.accounts, key, commitment, filters),
{
    let keep = |k: Pubkey| is_listed(state.accounts, k, commitment, filters);
    lemma_filter_exact(keys, keep, key);
}

proof fn lemma_filter_exact<T>(s: Seq<T>, keep: spec_fn(T) -> bool, x: T)
    ensures
        s.filter(keep).contains(x) <==> s.contains(x) && keep(x),
    decreases s.len(),
{
    reveal(Seq::filter);
    if s.len() > 0 {
        let front = s.drop_last();
        let out = front.filter(keep);
        lemma_filter_exact(front, keep, x);
        assert(s == front.push(s.last()));
        if s.contains(x) && keep(x) {
            let i = choose|i: int| 0 <= i < s.len() && s[i] == x;
            if i < front.len() {
                assert(front[i] == x);
                let j = choose|j: int| 0 <= j < out.len() && out[j] == x;
                assert(s.filter(keep)[j] == x);
            } else {
                assert(s.filter(keep)[out.len() as int] == x);
            }
        }
        if s.filter(keep).contains(x) {
            let j = choose|j: int| 0 <= j < s.filter(keep).len() && s.filter(keep)[j] == x;
            if j < out.len() {
                assert(out[j] == x);
                let i = choose|i: int| 0 <= i < front.len() && front[i] == x;
                assert(s[i] == x);
            } else {
                assert(s[s.len() - 1] == x);
            }
        }
    }
}

/// An account passes two lists of filters one after the other if and only if it passes both.
/// So more filters let fewer accounts through, and their order does not matter.
pub proof fn law_filters_are_all_asked(first: Seq<Filter>, second: Seq<Filter>, data: Seq<u8>)
    ensures
        all_accept(first + second, data) == (all_accept(first, data) && all_accept(second, data)),
{
    let both = first + second;
    if all_accept(both, data) {
        assert forall|i: int| 0 <= i < first.len() implies (#[trigger] first[i]).accepts(data) by {
            assert(both[i] == first[i]);
        }
        assert forall|i: int| 0 <= i < second.len() implies (#[trigger] second[i]).accepts(
            data,
        ) by {
            assert(both[first.len() + i] == second[i]);
        }
    }
}

/// An address is among those that the backend reports if and only if it reports an account for
/// it, and it is there once.
pub proof fn law_reported_keys_are_exact(list: Seq<(AccountInfo, Pubkey)>)
    ensures
        forall|k: Seq<u8>| #[trigger]
            has_address(reported_keys(list), k) <==> reported(list, k) is Some,
        forall|i: int, j: int|
            0 <= i < j < reported_keys(list).len() ==> (#[trigger] reported_keys(list)[i])@ != (
            #[trigger] reported_keys(list)[j])@,
    decreases list.len(),
{
    if list.len() > 0 {
        let front = list.drop_last();
        let last = list.last().1;
        let before = reported_keys(front);
        let after = reported_keys(list);
        law_reported_keys_are_exact(front);
        assert forall|k: Seq<u8>| #[trigger] has_address(after, k) <==> reported(
            list,
            k,
        ) is Some by {
            assert(has_address(before, k) <==> reported(front, k) is Some);
            if has_address(before, k) {
                let i = choose|i: int| 0 <= i < before.len() && (#[trigger] before[i])@ == k;
                assert(after[i]@ == k);
            }
            if has_address(after, k) {
                let i = choose|i: int| 0 <= i < after.len() && (#[trigger] after[i])@ == k;
                if i < before.len() {
                    assert(before[i]@ == k);
                }
            }
            if last@ == k && !has_address(before, k) {
                assert(after[before.len() as int]@ == k);
            }
        }
        assert forall|i: int, j: int| 0 <= i < j < after.len() implies (#[trigger] after[i])@ != (
        #[trigger] after[j])@ by {
            assert(after[i] == before[i]);
            if j < before.len() {
                assert(after[j] == before[j]);
            } else {
                assert(!has_address(before, last@));
            }
        }
    }
}

/// The accounts that the backend reported for a program are answered from then on without
/// asking the backend. A request without filters at the same commitment lists exactly the
/// addresses that were reported, and one with filters those whose account passes them.
pub proof fn law_fetched_program_is_served(
    pre: State,
    call: ProgramAccountsCall,
    body: Vec<u8>,
    list: Vec<(AccountInfo, Pubkey)>,
    fetched: Fetched,
    mid: State,
    req_id: u64,
    pubkey: Pubkey,
    config: ProgramAccountsConfig,
    commands: Seq<AccountCommand>,
    step: ProgramAccountsStep,
)
    requires
        call.cacheable_for_key is Some,
        program_accounts_ended(pre, call, body, Ok(list), fetched, mid),
        program_accounts_begun(mid, req_id, pubkey, config, commands, step),
        pubkey@ == call.cacheable_for_key->0@,
        config.spec_commitment() == call.config.spec_commitment(),
    ensures
        step matches ProgramAccountsStep::Answer(outcome) && program_answered(
            req_id,
            mid.accounts,
            reported_keys(list@),
            config,
            config.spec_commitment(),
            outcome,
        ),
        forall|i: int|
            0 <= i < reported_keys(list@).len() ==> mid.accounts.sighting(
                (#[trigger] reported_keys(list@)[i])@,
                config.spec_commitment(),
            ) == Some((Some(reported(list@, reported_keys(list@)[i]@)->0), 0u64)),
        listed_keys(mid.accounts, reported_keys(list@), config.spec_commitment(), None)
            == reported_keys(list@),
        forall|filters: Seq<Filter>, i: int|
            0 <= i < reported_keys(list@).len() ==> (listed_keys(
                mid.accounts,
                reported_keys(list@),
                config.spec_commitment(),
                Some(filters),
            ).contains(#[trigger] reported_keys(list@)[i]) <==> #[trigger] all_accept(
                filters,
                reported(list@, reported_keys(list@)[i]@)->0.data.data@,
            )),
{
    let commitment = config.spec_commitment();
    let keys = reported_keys(list@);
    law_reported_keys_are_exact(list@);
    assert forall|i: int| 0 <= i < keys.len() implies mid.accounts.sighting(
        (#[trigger] keys[i])@,
        commitment,
    ) == Some((Some(reported(list@, keys[i]@)->0), 0u64)) by {
        assert(has_address(keys, keys[i]@));
    }
    let keep = |k: Pubkey| is_listed(mid.accounts, k, commitment, None);
    assert forall|i: int| 0 <= i < keys.len() implies keep(#[trigger] keys[i]) by {}
    lemma_filter_all(keys, keep);
    assert forall|filters: Seq<Filter>, i: int| 0 <= i < keys.len() implies (listed_keys(
        mid.accounts,
        keys,
        commitment,
        Some(filters),
    ).contains(#[trigger] keys[i]) <==> #[trigger] all_accept(
        filters,
        reported(list@, keys[i]@)->0.data.data@,
    )) by {
        law_listing_is_exact(mid, keys, commitment, Some(filters), keys[i]);
    }
}

proof fn lemma_filter_all<T>(s: Seq<T>, keep: spec_fn(T) -> bool)
    requires
        forall|i: int| 0 <= i < s.len() ==> keep(#[trigger] s[i]),
    ensures
        s.filter(keep) == s,
    decreases s.len(),
{
    reveal(Seq::filter);
    if s.len() > 0 {
        assert forall|i: int| 0 <= i < s.len() - 1 implies keep(#[trigger] s.drop_last()[i]) by {
            assert(s.drop_last()[i] == s[i]);
        }
        lemma_filter_all(s.drop_last(), keep);
        assert(s == s.drop_last().push(s.last()));
    }
}

/// An account that the backend reported for a program is answered from then on to a request for
/// that account at the same commitment, as of slot 0.
pub proof fn law_reported_account_is_served(
    pre: State,
    call: ProgramAccountsCall,
    body: Vec<u8>,
    list: Vec<(AccountInfo, Pubkey)>,
    fetched: Fetched,
    mid: State,
    query: AccountQuery,
    pubkey: Pubkey,
    commands: Seq<AccountCommand>,
    step: AccountInfoStep,
    post: State,
)
    requires
        call.cacheable_for_key is Some,
        program_accounts_ended(pre, call, body, Ok(list), fetched, mid),
        account_info_begun(mid, query, pubkey, commands, step, post),
        reported(list@, pubkey@) is Some,
        query.config.spec_commitment() == call.config.spec_commitment(),
    ensures
        step matches AccountInfoStep::Answer(outcome) && account_answered(
            query,
            mid.accounts.slot(query.config.spec_commitment()),
            (reported(list@, pubkey@), 0),
            mid.lru.limit(),
            mid.lru.entries(),
            outcome,
            post.lru.entries(),
        ),
{
    let commitment = query.config.spec_commitment();
    assert(mid.accounts.sighting(pubkey@, commitment) == Some((reported(list@, pubkey@), 0u64)));
}

/// Once the backend has reported the accounts of a program, the word goes out that something
/// new is known, and any other request that waits for them, and may be answered from what is
/// known, is answered when it looks again.
pub proof fn law_fetched_program_answers_waiting_requests(
    pre: State,
    call: ProgramAccountsCall,
    body: Vec<u8>,
    list: Vec<(AccountInfo, Pubkey)>,
    fetched: Fetched,
    mid: State,
    waiting: ProgramAccountsCall,
    commands: Seq<AccountCommand>,
    answer: Option<Result<Vec<u8>, Error>>,
)
    requires
        call.cacheable_for_key is Some,
        program_accounts_ended(pre, call, body, Ok(list), fetched, mid),
        waiting.cacheable_for_key matches Some(key) && key@ == call.cacheable_for_key->0@,
        program_accounts_renewed(mid, waiting, commands, answer),
    ensures
        fetched.notify,
        answer matches Some(outcome) && program_answered(
            waiting.req_id,
            mid.accounts,
            reported_keys(list@),
            waiting.config,
            waiting.config.spec_commitment(),
            outcome,
        ),
{
}

/// Keeping what the backend reported of a program changes nothing of what is known of other
/// programs, of accounts that it did not report, nor of any account at other commitments.
pub proof fn law_fetched_program_leaves_the_rest(
    pre: State,
    call: ProgramAccountsCall,
    body: Vec<u8>,
    list: Vec<(AccountInfo, Pubkey)>,
    fetched: Fetched,
    post: State,
    program: Seq<u8>,
    key: Seq<u8>,
    commitment: Commitment,
)
    requires
        call.cacheable_for_key is Some,
        program_accounts_ended(pre, call, body, Ok(list), fetched, post),
        program != call.cacheable_for_key->0@,
        reported(list@, key) is None || commitment != call.config.spec_commitment(),
    ensures
        post.program_accounts.map().contains_key(program)
            == pre.program_accounts.map().contains_key(program),
        pre.program_accounts.map().contains_key(program) ==> post.program_accounts.map()[program]
            == pre.program_accounts.map()[program],
        post.accounts.sighting(key, commitment) == pre.accounts.sighting(key, commitment),
        post.lru == pre.lru,
{
}

/// The backend's answer about some of a program's accounts, or about slices of their data, is
/// not kept, whatever it is: the client is answered without its being read.
pub proof fn law_partial_program_answer_is_not_kept(
    state: State,
    req_id: u64,
    pubkey: Pubkey,
    config: ProgramAccountsConfig,
    commands: Seq<AccountCommand>,
    step: ProgramAccountsStep,
    reply: Option<Vec<u8>>,
)
    requires
        program_accounts_begun(state, req_id, pubkey, config, commands, step),
        !state.program_accounts.map().contains_key(pubkey@),
        config.data_slice is Some || config.filters is Some,
    ensures
        step matches ProgramAccountsStep::Fetch(call) && backend_step(
            call.cacheable_for_key,
            reply,
        ) is Respond,
{
}

} // verus!
