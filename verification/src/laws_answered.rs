//! What a client is answered, from what it asked and what is known.

use crate::account_info::{
    account_answered, account_info_begun, account_info_ended, account_info_renewed, looked_up,
    AccountInfoCall, AccountInfoStep, AccountQuery, AccountReply,
};
use crate::accounts::{AccountsDb, Sighting};
use crate::backend::Fetched;
use crate::codec::{
    base58_bytes, base58_text, base64_bytes, base64_text, zstd_bytes, zstd_frame,
};
use crate::encode::{packing_can_fail, selected_bytes};
use crate::error::{Error, Reply};
use crate::filter::Filter;
use crate::json::{error_is_data, json_text, Tree};
use crate::laws::law_reported_keys_are_exact;
use crate::laws_asked::law_bytes_are_compared_one_by_one;
use crate::laws_kept::{
    law_addresses_are_those_in_the_list, law_last_report_counts, law_new_entry_comes_first,
    law_other_keys_are_left, law_reported_are_those_in_the_list, law_used_entry_comes_first,
};
use crate::program_accounts::{
    is_listed, listed_keys, program_accounts_begun, program_accounts_ended,
    program_accounts_renewed, program_answer_commands, program_answered, reported_keys,
    reset_commands, row_tree, row_trees, rows_fit, some_account, ProgramAccountsCall,
    ProgramAccountsStep,
};
use crate::request::ProgramAccountsConfig;
use crate::response_cache::{has_key, hash_of};
use crate::state::State;
use crate::types::{
    AccountCommand, AccountContext, AccountInfo, Commitment, Encoding, Pubkey, Slice, Subscription,
};
use std::collections::hash_map::DefaultHasher;
use vstd::bytes::spec_u64_to_le_bytes;
use vstd::prelude::*;
use vstd::std_specs::hash::DefaultHasherAdditionalSpecFns;
use vstd::utf8::encode_utf8;

verus! {

/// An answer that is printed anew about an account holds the number of the request, the slot of
/// the chain, and the account with its own fields. Its data is a bare text if no encoding was
/// named, and otherwise a pair of the text and that name. The text is what the encoding makes of
/// the bytes that the slice selects, and reads back to them. The answer is kept as the most
/// recently used, if there is room for any.
pub proof fn law_fresh_answer_shows_the_account(
    query: AccountQuery,
    slot: u64,
    info: AccountInfo,
    seen: u64,
    limit: nat,
    pre: Seq<(u64, Seq<u8>)>,
    reply: AccountReply,
    post: Seq<(u64, Seq<u8>)>,
    key: u64,
    bytes: Seq<u8>,
    data: Tree,
)
    requires
        account_answered(query, slot, (Some(info), seen), limit, pre, Ok(reply), post),
        key == DefaultHasher::spec_finish(
            seq![spec_u64_to_le_bytes(query.request_hash), spec_u64_to_le_bytes(seen)],
        ),
        forall|i: int| 0 <= i < pre.len() ==> (#[trigger] pre[i]).0 != key,
        query.config.data_slice is None ==> bytes == info.data.data@,
        query.config.data_slice matches Some(s) ==> {
            &&& bytes.len() == s.length
            &&& s.offset + s.length <= info.data.data@.len()
            &&& forall|i: int|
                0 <= i < bytes.len() ==> #[trigger] bytes[i] == info.data.data@[s.offset + i]
        },
        data == match query.config.encoding {
            Encoding::Default => Tree::Text(base58_text(bytes)),
            Encoding::Base58 => Tree::List(
                seq![Tree::Text(base58_text(bytes)), Tree::Text("base58"@)],
            ),
            Encoding::Base64 => Tree::List(
                seq![Tree::Text(base64_text(bytes)), Tree::Text("base64"@)],
            ),
            Encoding::Base64Zstd => Tree::List(
                seq![
                    Tree::Text(base64_text(zstd_frame(bytes, 0).0)),
                    Tree::Text("base64+zstd"@),
                ],
            ),
        },
    ensures
        !reply.lru_hit,
        reply.body@ == json_text(
            Tree::Object(
                seq![
                    ("jsonrpc"@, Tree::Text("2.0"@)),
                    (
                        "result"@,
                        Tree::Object(
                            seq![
                                (
                                    "context"@,
                                    Tree::Object(seq![("slot"@, Tree::Number(slot as int))]),
                                ),
                                (
                                    "value"@,
                                    Tree::Object(
                                        seq![
                                            ("data"@, data),
                                            ("lamports"@, Tree::Number(info.lamports as int)),
                                            ("owner"@, Tree::Text(base58_text(info.owner.0@))),
                                            ("executable"@, Tree::Bool(info.executable)),
                                            ("rentEpoch"@, Tree::Number(info.rent_epoch as int)),
                                        ],
                                    ),
                                ),
                            ],
                        ),
                    ),
                    ("id"@, Tree::Number(query.req_id as int)),
                ],
            ),
        ),
        match query.config.encoding {
            Encoding::Default | Encoding::Base58 => base58_bytes(
                base58_text(bytes),
                encode_utf8(base58_text(bytes)).len(),
            ) == Some(bytes),
            Encoding::Base64 => base64_bytes(base64_text(bytes)) == Some(bytes),
            Encoding::Base64Zstd => {
                &&& base64_bytes(base64_text(zstd_frame(bytes, 0).0)) matches Some(frame)
                &&& zstd_bytes(frame).0 == Some(bytes)
            },
        },
        0 < limit && pre.len() <= limit ==> {
            &&& post.len() == if pre.len() < limit {
                pre.len() + 1
            } else {
                limit
            }
            &&& post[0] == (key, reply.body@)
            &&& forall|i: int| 1 <= i < post.len() ==> #[trigger] post[i] == pre[i - 1]
        },
        limit == 0 ==> post == pre,
{
    lemma_selected_here(info.data.data@, query.config.data_slice, bytes);
    if 0 < limit && pre.len() <= limit {
        law_new_entry_comes_first(pre, limit, key, reply.body@);
    }
}

proof fn lemma_selected_here(data: Seq<u8>, slice: Option<Slice>, bytes: Seq<u8>)
    requires
        slice is None ==> bytes == data,
        slice matches Some(s) ==> {
            &&& bytes.len() == s.length
            &&& s.offset + s.length <= data.len()
            &&& forall|i: int|
                0 <= i < bytes.len() ==> #[trigger] bytes[i] == data[s.offset + i]
        },
    ensures
        selected_bytes(data, slice) == Some(bytes),
{
    if let Some(s) = slice {
        assert(data.subrange(s.offset as int, s.offset + s.length) =~= bytes);
    }
}

/// Where there is no account, the answer that is printed says so: its account is null, in every
/// encoding and whatever slice was asked for.
pub proof fn law_missing_account_is_null(
    query: AccountQuery,
    slot: u64,
    seen: u64,
    limit: nat,
    pre: Seq<(u64, Seq<u8>)>,
    r: Result<AccountReply, Error>,
    post: Seq<(u64, Seq<u8>)>,
)
    requires
        account_answered(query, slot, (None, seen), limit, pre, r, post),
        forall|i: int|
            0 <= i < pre.len() ==> (#[trigger] pre[i]).0 != DefaultHasher::spec_finish(
                seq![spec_u64_to_le_bytes(query.request_hash), spec_u64_to_le_bytes(seen)],
            ),
    ensures
        r matches Ok(reply) && !reply.lru_hit && reply.body@ == json_text(
            Tree::Object(
                seq![
                    ("jsonrpc"@, Tree::Text("2.0"@)),
                    (
                        "result"@,
                        Tree::Object(
                            seq![
                                (
                                    "context"@,
                                    Tree::Object(seq![("slot"@, Tree::Number(slot as int))]),
                                ),
                                ("value"@, Tree::Null),
                            ],
                        ),
                    ),
                    ("id"@, Tree::Number(query.req_id as int)),
                ],
            ),
        ),
        0 < limit && pre.len() <= limit ==> post.len() > 0 && post[0] == (
            DefaultHasher::spec_finish(
                seq![spec_u64_to_le_bytes(query.request_hash), spec_u64_to_le_bytes(seen)],
            ),
            r->Ok_0.body@,
        ),
        0 < limit && pre.len() <= limit ==> forall|i: int|
            1 <= i < post.len() ==> #[trigger] post[i] == pre[i - 1],
{
    let key = DefaultHasher::spec_finish(
        seq![spec_u64_to_le_bytes(query.request_hash), spec_u64_to_le_bytes(seen)],
    );
    assert(key == hash_of((query.request_hash, seen)));
    if 0 < limit && pre.len() <= limit {
        law_new_entry_comes_first(pre, limit, key, r->Ok_0.body@);
    }
}

/// A request for an account fails only as an invalid one, and only where no printed answer is at
/// hand and there is an account of which either the slice reaches past the data, or the bytes that
/// the slice selects have to be packed and `zstd` can fail on exactly those. Where the slice
/// reaches past the data it does fail. What fails is not kept.
pub proof fn law_account_is_refused_only_for_its_slice_or_by_zstd(
    query: AccountQuery,
    slot: u64,
    sighting: Sighting,
    limit: nat,
    pre: Seq<(u64, Seq<u8>)>,
    r: Result<AccountReply, Error>,
    post: Seq<(u64, Seq<u8>)>,
    key: u64,
)
    requires
        account_answered(query, slot, sighting, limit, pre, r, post),
        key == DefaultHasher::spec_finish(
            seq![spec_u64_to_le_bytes(query.request_hash), spec_u64_to_le_bytes(sighting.1)],
        ),
    ensures
        r matches Err(e) ==> {
            &&& e == Error::InvalidRequest(None)
            &&& post == pre
            &&& forall|i: int| 0 <= i < pre.len() ==> (#[trigger] pre[i]).0 != key
            &&& sighting.0 matches Some(info)
            &&& match query.config.data_slice {
                None => query.config.encoding == Encoding::Base64Zstd && zstd_frame(
                    info.data.data@,
                    0,
                ).1,
                Some(s) => s.offset + s.length > info.data.data@.len() || (query.config.encoding
                    == Encoding::Base64Zstd && zstd_frame(
                    info.data.data@.subrange(s.offset as int, s.offset + s.length),
                    0,
                ).1),
            }
        },
        (forall|i: int| 0 <= i < pre.len() ==> (#[trigger] pre[i]).0 != key) && (
        sighting.0 matches Some(info) && (query.config.data_slice matches Some(s) && s.offset
            + s.length > info.data.data@.len())) ==> r is Err,
{
    if r is Err {
        assert forall|i: int| 0 <= i < pre.len() implies (#[trigger] pre[i]).0 != key by {
            if pre[i].0 == key {
                assert(has_key(pre, key));
            }
        }
    }
}

/// An answer is sent again if and only if one is kept under the hash of the parameters and the slot
/// of the account, and then it is that one; it is the most recently used from then on, and the
/// others stay in their order.
pub proof fn law_kept_answer_is_sent_again(
    query: AccountQuery,
    slot: u64,
    sighting: Sighting,
    limit: nat,
    pre: Seq<(u64, Seq<u8>)>,
    r: Result<AccountReply, Error>,
    post: Seq<(u64, Seq<u8>)>,
    p: int,
)
    requires
        account_answered(query, slot, sighting, limit, pre, r, post),
        forall|i: int, j: int|
            0 <= i < j < pre.len() ==> (#[trigger] pre[i]).0 != (#[trigger] pre[j]).0,
        0 <= p < pre.len(),
    ensures
        pre[p].0 == DefaultHasher::spec_finish(
            seq![spec_u64_to_le_bytes(query.request_hash), spec_u64_to_le_bytes(sighting.1)],
        ) ==> {
            &&& r matches Ok(reply)
            &&& reply.lru_hit
            &&& reply.body@ == pre[p].1
            &&& post.len() == pre.len()
            &&& post[0] == pre[p]
            &&& forall|i: int| 1 <= i <= p ==> #[trigger] post[i] == pre[i - 1]
            &&& forall|i: int| p < i < pre.len() ==> #[trigger] post[i] == pre[i]
        },
        r matches Ok(reply) && reply.lru_hit ==> exists|i: int|
            0 <= i < pre.len() && #[trigger] pre[i] == (
                DefaultHasher::spec_finish(
                    seq![
                        spec_u64_to_le_bytes(query.request_hash),
                        spec_u64_to_le_bytes(sighting.1),
                    ],
                ),
                r->Ok_0.body@,
            ),
{
    let key = DefaultHasher::spec_finish(
        seq![spec_u64_to_le_bytes(query.request_hash), spec_u64_to_le_bytes(sighting.1)],
    );
    assert(key == hash_of((query.request_hash, sighting.1)));
    if pre[p].0 == key {
        assert(has_key(pre, key));
        let body = r->Ok_0.body@;
        let q = choose|q: int| 0 <= q < pre.len() && pre[q] == (key, body);
        if q < p {
            assert(pre[q].0 != pre[p].0);
        } else if p < q {
            assert(pre[p].0 != pre[q].0);
        }
        law_used_entry_comes_first(pre, pre.len(), key, body, p);
    }
}

/// A request is not answered with what was printed for another one: where their parameters and
/// slots have different hashes, the second is printed anew unless its own answer was kept before.
pub proof fn law_other_request_gets_its_own_answer(
    query: AccountQuery,
    slot: u64,
    sighting: Sighting,
    other: AccountQuery,
    other_slot: u64,
    other_sighting: Sighting,
    limit: nat,
    pre: Seq<(u64, Seq<u8>)>,
    first: Result<AccountReply, Error>,
    mid: Seq<(u64, Seq<u8>)>,
    second: Result<AccountReply, Error>,
    post: Seq<(u64, Seq<u8>)>,
)
    requires
        pre.len() <= limit,
        forall|i: int, j: int|
            0 <= i < j < pre.len() ==> (#[trigger] pre[i]).0 != (#[trigger] pre[j]).0,
        account_answered(query, slot, sighting, limit, pre, first, mid),
        account_answered(other, other_slot, other_sighting, limit, mid, second, post),
        hash_of((query.request_hash, sighting.1)) != hash_of(
            (other.request_hash, other_sighting.1),
        ),
        forall|i: int|
            0 <= i < pre.len() ==> (#[trigger] pre[i]).0 != hash_of(
                (other.request_hash, other_sighting.1),
            ),
    ensures
        second matches Ok(reply) ==> !reply.lru_hit,
{
    let key = hash_of((query.request_hash, sighting.1));
    let other_key = hash_of((other.request_hash, other_sighting.1));
    assert(!has_key(pre, other_key));
    if let Ok(reply) = first {
        law_other_keys_are_left(pre, limit, key, other_key, reply.body@);
    }
    assert(!has_key(mid, other_key));
}

/// What is looked up is the account, if there is one, and its slot.
pub proof fn law_lookup_is_the_account(info: AccountInfo, slot: u64)
    ensures
        looked_up((Some(&info), slot)) == (Some(info), slot),
        looked_up((None, slot)) == (None::<AccountInfo>, slot),
{
}

/// A request for an account is answered at once if and only if something is known of it at the
/// commitment that the request names, or at the most settled one if it names none: from that, and
/// with the slot of the chain at that commitment. Otherwise the backend is asked. A known address
/// goes on being watched, and an unknown one is watched from now on, at that commitment. What the
/// backend says may be kept unless it is a slice of an unknown account. Nothing that is known
/// changes.
pub proof fn law_account_is_looked_up_at_its_commitment(
    pre: State,
    query: AccountQuery,
    pubkey: Pubkey,
    commands: Seq<AccountCommand>,
    step: AccountInfoStep,
    post: State,
    commitment: Commitment,
)
    requires
        account_info_begun(pre, query, pubkey, commands, step, post),
        query.config.commitment == Some(commitment) || (query.config.commitment is None
            && commitment == Commitment::Finalized),
    ensures
        step is Answer <==> pre.accounts.map().contains_key(pubkey@)
            && pre.accounts.map()[pubkey@].at(commitment) is Some,
        step matches AccountInfoStep::Answer(outcome) ==> account_answered(
            query,
            pre.accounts.slot(commitment),
            pre.accounts.map()[pubkey@].at(commitment)->0,
            pre.lru.limit(),
            pre.lru.entries(),
            outcome,
            post.lru.entries(),
        ),
        step matches AccountInfoStep::Fetch(call) ==> {
            &&& call.query == query
            &&& call.cacheable_for_key is None <==> query.config.data_slice is Some
                && !pre.accounts.map().contains_key(pubkey@)
            &&& call.cacheable_for_key matches Some(key) ==> key == pubkey
            &&& post.lru.entries() == pre.lru.entries()
        },
        commands.len() == 1,
        pre.accounts.map().contains_key(pubkey@) <==> commands[0] == AccountCommand::Reset(
            Subscription::Account(pubkey),
        ),
        !pre.accounts.map().contains_key(pubkey@) <==> commands[0] == AccountCommand::Subscribe(
            Subscription::Account(pubkey),
            commitment,
        ),
        post.accounts == pre.accounts,
        post.program_accounts == pre.program_accounts,
        post.lru.limit() == pre.lru.limit(),
{
}

/// A request that waits is answered, when it looks again, if and only if what it waits for may be
/// shared and something is known of it at its commitment; and then with the commands, the answer
/// and what is kept of a request that is made just then. Otherwise nothing is kept.
pub proof fn law_looking_again_is_asking_anew(
    pre: State,
    call: AccountInfoCall,
    commands: Seq<AccountCommand>,
    answer: Option<Result<AccountReply, Error>>,
    post: State,
    commitment: Commitment,
)
    requires
        account_info_renewed(pre, call, commands, answer, post),
        call.query.config.commitment == Some(commitment) || (call.query.config.commitment is None
            && commitment == Commitment::Finalized),
    ensures
        answer is Some <==> (call.cacheable_for_key matches Some(key)
            && pre.accounts.map().contains_key(key@) && pre.accounts.map()[key@].at(
            commitment,
        ) is Some),
        answer matches Some(outcome) ==> account_info_begun(
            pre,
            call.query,
            call.cacheable_for_key->0,
            commands,
            AccountInfoStep::Answer(outcome),
            post,
        ),
        answer is None ==> {
            &&& post.accounts == pre.accounts
            &&& post.program_accounts == pre.program_accounts
            &&& post.lru.limit() == pre.lru.limit()
            &&& post.lru.entries() == pre.lru.entries()
        },
        call.cacheable_for_key is None ==> commands.len() == 0,
        call.cacheable_for_key matches Some(key) ==> {
            &&& !pre.accounts.map().contains_key(key@) ==> commands.len() == 0
            &&& pre.accounts.map().contains_key(key@) ==> commands.len() == 1 && commands[0]
                == AccountCommand::Reset(Subscription::Account(key))
        },
{
}

/// The client gets the backend's answer about an account as it is, unless it had to be kept and
/// could not be read. An account that it reports, and that may be kept, is known from then on as of
/// its slot, at the commitment of the request and for its address alone, and the word goes out.
/// Nothing else that is known changes.
pub proof fn law_reported_account_is_kept_at_its_commitment(
    pre: State,
    call: AccountInfoCall,
    body: Vec<u8>,
    decoded: Result<Option<AccountContext>, serde_json::Error>,
    r: Fetched,
    post: State,
    commitment: Commitment,
    k: Seq<u8>,
    c: Commitment,
)
    requires
        account_info_ended(pre, call, body, decoded, r, post),
        call.query.config.commitment == Some(commitment) || (call.query.config.commitment is None
            && commitment == Commitment::Finalized),
    ensures
        call.cacheable_for_key is None || decoded is Ok ==> r.outcome == Ok::<Reply, Error>(
            Reply::Json(body),
        ),
        call.cacheable_for_key is Some ==> (decoded matches Err(e) ==> r.outcome == Err::<
            Reply,
            Error,
        >(
            if error_is_data(e) {
                Error::InvalidRequest(None)
            } else {
                Error::Parsing(None)
            },
        )),
        r.notify <==> call.cacheable_for_key is Some && (decoded matches Ok(Some(_))),
        call.cacheable_for_key matches Some(key) ==> (decoded matches Ok(Some(data)) ==> {
            &&& post.accounts.map().contains_key(k) <==> k == key@
                || pre.accounts.map().contains_key(k)
            &&& post.accounts.sighting(key@, commitment) == Some((data.value, data.context.slot))
            &&& k != key@ || c != commitment ==> post.accounts.sighting(k, c)
                == pre.accounts.sighting(k, c)
        }),
        !r.notify ==> post.accounts == pre.accounts,
        post.accounts.slot(c) == pre.accounts.slot(c),
        post.program_accounts == pre.program_accounts,
        post.lru == pre.lru,
{
}

/// A row shows an address and its account with the account's own fields, its data in the encoding
/// that was asked for: a bare text if and only if none was named, and otherwise a pair whose second
/// item names it. The text is what that encoding makes of the bytes that the slice selects.
pub proof fn law_row_shows_the_account_as_asked(
    accounts: AccountsDb,
    key: Pubkey,
    commitment: Commitment,
    config: ProgramAccountsConfig,
    info: AccountInfo,
    seen: u64,
    bytes: Seq<u8>,
    data: Tree,
)
    requires
        accounts.sighting(key@, commitment) == Some((Some(info), seen)),
        config.data_slice is None ==> bytes == info.data.data@,
        config.data_slice matches Some(s) ==> {
            &&& bytes.len() == s.length
            &&& s.offset + s.length <= info.data.data@.len()
            &&& forall|i: int|
                0 <= i < bytes.len() ==> #[trigger] bytes[i] == info.data.data@[s.offset + i]
        },
        data == match config.encoding {
            Encoding::Default => Tree::Text(base58_text(bytes)),
            Encoding::Base58 => Tree::List(
                seq![Tree::Text(base58_text(bytes)), Tree::Text("base58"@)],
            ),
            Encoding::Base64 => Tree::List(
                seq![Tree::Text(base64_text(bytes)), Tree::Text("base64"@)],
            ),
            Encoding::Base64Zstd => Tree::List(
                seq![
                    Tree::Text(base64_text(zstd_frame(bytes, 0).0)),
                    Tree::Text("base64+zstd"@),
                ],
            ),
        },
    ensures
        row_tree(accounts, key, commitment, config) == Some(
            Tree::Object(
                seq![
                    (
                        "account"@,
                        Tree::Object(
                            seq![
                                ("data"@, data),
                                ("lamports"@, Tree::Number(info.lamports as int)),
                                ("owner"@, Tree::Text(base58_text(info.owner.0@))),
                                ("executable"@, Tree::Bool(info.executable)),
                                ("rentEpoch"@, Tree::Number(info.rent_epoch as int)),
                            ],
                        ),
                    ),
                    ("pubkey"@, Tree::Text(base58_text(key.0@))),
                ],
            ),
        ),
{
    lemma_selected_here(info.data.data@, config.data_slice, bytes);
}

/// A row of an address without an account is null beside the address, whatever was asked for; and a
/// row cannot be written if and only if the slice reaches past the data of its account.
pub proof fn law_row_without_an_account_is_null(
    accounts: AccountsDb,
    key: Pubkey,
    commitment: Commitment,
    config: ProgramAccountsConfig,
    seen: u64,
)
    ensures
        accounts.sighting(key@, commitment) == Some((None::<AccountInfo>, seen)) ==> row_tree(
            accounts,
            key,
            commitment,
            config,
        ) == Some(
            Tree::Object(
                seq![
                    ("account"@, Tree::Null),
                    ("pubkey"@, Tree::Text(base58_text(key.0@))),
                ],
            ),
        ),
        row_tree(accounts, key, commitment, config) is None <==> (accounts.sighting(
            key@,
            commitment,
        ) matches Some((Some(info), _)) && (config.data_slice matches Some(s) && s.offset + s.length
            > info.data.data@.len())),
{
}

/// Some rows can be written if and only if the slice reaches past the data of no account among
/// them; and there is an account among them if and only if one of them shows one.
pub proof fn law_rows_can_be_written_where_every_slice_is_in_its_data(
    accounts: AccountsDb,
    keys: Seq<Pubkey>,
    commitment: Commitment,
    config: ProgramAccountsConfig,
)
    ensures
        rows_fit(accounts, keys, commitment, config) <==> (forall|i: int|
            0 <= i < keys.len() ==> (accounts.sighting(
                (#[trigger] keys[i])@,
                commitment,
            ) matches Some((Some(info), _)) ==> (config.data_slice matches Some(s) ==> s.offset
                + s.length <= info.data.data@.len()))),
        !some_account(accounts, keys, commitment) <==> (forall|i: int|
            0 <= i < keys.len() ==> !(accounts.sighting(
                (#[trigger] keys[i])@,
                commitment,
            ) matches Some((Some(_), _)))),
{
    if rows_fit(accounts, keys, commitment, config) {
        assert forall|i: int| 0 <= i < keys.len() implies (accounts.sighting(
            (#[trigger] keys[i])@,
            commitment,
        ) matches Some((Some(info), _)) ==> (config.data_slice matches Some(s) ==> s.offset
            + s.length <= info.data.data@.len())) by {
            assert(row_tree(accounts, keys[i], commitment, config) is Some);
        }
    }
}

/// An address is listed if and only if something is known of it at the commitment and there are no
/// filters, or an account is there that each of them lets through: one on the size by the number of
/// bytes, and one that compares by every byte that it names.
pub proof fn law_listed_is_what_passes_every_filter(
    accounts: AccountsDb,
    key: Pubkey,
    commitment: Commitment,
    filters: Seq<Filter>,
)
    ensures
        is_listed(accounts, key, commitment, None) <==> accounts.sighting(key@, commitment) is Some,
        filters.len() == 0 ==> (is_listed(accounts, key, commitment, Some(filters))
            <==> accounts.sighting(key@, commitment) is Some),
        filters.len() > 0 ==> (is_listed(accounts, key, commitment, Some(filters)) <==> (
        accounts.sighting(key@, commitment) matches Some((Some(info), _)) && forall|i: int|
            0 <= i < filters.len() ==> match #[trigger] filters[i] {
                Filter::DataSize(len) => info.data.data@.len() == len,
                Filter::Memcmp { offset, bytes } => {
                    &&& base58_bytes(bytes@, 128) matches Some(wanted)
                    &&& offset + wanted.len() <= info.data.data@.len()
                    &&& forall|j: int|
                        0 <= j < wanted.len() ==> info.data.data@[offset + j]
                            == #[trigger] wanted[j]
                },
            })),
{
    if let Some((Some(info), _)) = accounts.sighting(key@, commitment) {
        let data = info.data.data@;
        assert forall|i: int| 0 <= i < filters.len() implies ((#[trigger] filters[i]).accepts(data)
            <==> match filters[i] {
            Filter::DataSize(len) => data.len() == len,
            Filter::Memcmp { offset, bytes } => {
                &&& base58_bytes(bytes@, 128) matches Some(wanted)
                &&& offset + wanted.len() <= data.len()
                &&& forall|j: int|
                    0 <= j < wanted.len() ==> data[offset + j] == #[trigger] wanted[j]
            },
        }) by {
            if let Filter::Memcmp { offset, bytes } = filters[i] {
                if let Some(wanted) = base58_bytes(bytes@, 128) {
                    law_bytes_are_compared_one_by_one(data, offset, wanted);
                }
            }
        }
    }
}

/// Two ways to say which items to keep that agree keep the same items.
proof fn lemma_filter_agrees<T>(s: Seq<T>, f: spec_fn(T) -> bool, g: spec_fn(T) -> bool)
    requires
        forall|x: T| #[trigger] f(x) == g(x),
    ensures
        s.filter(f) == s.filter(g),
    decreases s.len(),
{
    reveal(Seq::filter);
    if s.len() > 0 {
        lemma_filter_agrees(s.drop_last(), f, g);
        assert(f(s.last()) == g(s.last()));
    }
}

/// An answer about a program holds a row for each of its addresses that the filters of the request
/// let through at the commitment, once for each time that it is among them and in their order, and
/// no other row; and it holds the number of its request. The data in each row reads back to what
/// the slice selects.
pub proof fn law_program_answer_lists_its_rows(
    req_id: u64,
    accounts: AccountsDb,
    keys: Seq<Pubkey>,
    config: ProgramAccountsConfig,
    commitment: Commitment,
    body: Vec<u8>,
    keep: spec_fn(Pubkey) -> bool,
    rows: Seq<Tree>,
)
    requires
        program_answered(req_id, accounts, keys, config, commitment, Ok(body)),
        forall|k: Pubkey| #[trigger]
            keep(k) == is_listed(
                accounts,
                k,
                commitment,
                match config.filters {
                    Some(Ok(filters)) => Some(filters@),
                    _ => None,
                },
            ),
        rows.len() == keys.filter(keep).len(),
        forall|i: int|
            0 <= i < rows.len() ==> row_tree(accounts, keys.filter(keep)[i], commitment, config)
                == Some(#[trigger] rows[i]),
    ensures
        !(config.filters matches Some(Err(_))),
        body@ == json_text(
            Tree::Object(
                seq![
                    ("jsonrpc"@, Tree::Text("2.0"@)),
                    ("result"@, Tree::List(rows)),
                    ("id"@, Tree::Number(req_id as int)),
                ],
            ),
        ),
        forall|i: int|
            0 <= i < keys.filter(keep).len() ==> {
                &&& row_tree(accounts, #[trigger] keys.filter(keep)[i], commitment, config) is Some
                &&& accounts.sighting(keys.filter(keep)[i]@, commitment) matches Some(
                    (Some(info), _),
                ) ==> {
                    let bytes = match config.data_slice {
                        None => info.data.data@,
                        Some(s) => info.data.data@.subrange(
                            s.offset as int,
                            s.offset + s.length,
                        ),
                    };
                    match config.encoding {
                        Encoding::Default | Encoding::Base58 => base58_bytes(
                            base58_text(bytes),
                            encode_utf8(base58_text(bytes)).len(),
                        ) == Some(bytes),
                        Encoding::Base64 => base64_bytes(base64_text(bytes)) == Some(bytes),
                        Encoding::Base64Zstd => {
                            &&& base64_bytes(base64_text(zstd_frame(bytes, 0).0)) matches Some(
                                frame,
                            )
                            &&& zstd_bytes(frame).0 == Some(bytes)
                        },
                    }
                }
            },
{
    if !(config.filters matches Some(Err(_))) {
        let filters = match config.filters {
            Some(Ok(filters)) => Some(filters@),
            _ => None,
        };
        let listed = listed_keys(accounts, keys, commitment, filters);
        lemma_filter_agrees(keys, keep, |k: Pubkey| is_listed(accounts, k, commitment, filters));
        assert(listed == keys.filter(keep));
        assert forall|i: int| 0 <= i < rows.len() implies row_trees(
            accounts,
            listed,
            commitment,
            config,
        )[i] == #[trigger] rows[i] by {
            assert(row_tree(accounts, keys.filter(keep)[i], commitment, config) == Some(rows[i]));
        }
        assert(row_trees(accounts, listed, commitment, config) =~= rows);
    }
}

/// A request about a known program fails where its filters could not be read, in the way that
/// their text tells; and otherwise only as an invalid one, and only for a listed account of which
/// the slice reaches past the data, or whose selected bytes have to be packed and `zstd` can fail
/// on exactly those. For such a slice it does fail.
pub proof fn law_program_is_refused_only_for_filters_slices_or_by_zstd(
    req_id: u64,
    accounts: AccountsDb,
    keys: Seq<Pubkey>,
    config: ProgramAccountsConfig,
    commitment: Commitment,
    r: Result<Vec<u8>, Error>,
    keep: spec_fn(Pubkey) -> bool,
)
    requires
        program_answered(req_id, accounts, keys, config, commitment, r),
        forall|k: Pubkey| #[trigger]
            keep(k) == is_listed(
                accounts,
                k,
                commitment,
                match config.filters {
                    Some(Ok(filters)) => Some(filters@),
                    _ => None,
                },
            ),
    ensures
        config.filters matches Some(Err(e)) ==> r == Err::<Vec<u8>, Error>(
            if error_is_data(e) {
                Error::InvalidRequest(None)
            } else {
                Error::Parsing(None)
            },
        ),
        !(config.filters matches Some(Err(_))) ==> (r matches Err(e) ==> {
            &&& e == Error::InvalidRequest(None)
            &&& exists|i: int|
                {
                    &&& 0 <= i < keys.filter(keep).len()
                    &&& accounts.sighting(
                        (#[trigger] keys.filter(keep)[i])@,
                        commitment,
                    ) matches Some((Some(info), _))
                    &&& match config.data_slice {
                        None => config.encoding == Encoding::Base64Zstd && zstd_frame(
                            info.data.data@,
                            0,
                        ).1,
                        Some(s) => s.offset + s.length > info.data.data@.len() || (config.encoding
                            == Encoding::Base64Zstd && zstd_frame(
                            info.data.data@.subrange(s.offset as int, s.offset + s.length),
                            0,
                        ).1),
                    }
                }
        }),
        forall|i: int|
            0 <= i < keys.filter(keep).len() && (accounts.sighting(
                (#[trigger] keys.filter(keep)[i])@,
                commitment,
            ) matches Some((Some(info), _)) && (config.data_slice matches Some(s) && s.offset
                + s.length > info.data.data@.len())) ==> r is Err,
{
    let filters = match config.filters {
        Some(Ok(filters)) => Some(filters@),
        _ => None,
    };
    let listed = listed_keys(accounts, keys, commitment, filters);
    lemma_filter_agrees(keys, keep, |k: Pubkey| is_listed(accounts, k, commitment, filters));
    assert(listed == keys.filter(keep));
    if !(config.filters matches Some(Err(_))) && r is Err {
        if !rows_fit(accounts, listed, commitment, config) {
            let i = choose|i: int|
                0 <= i < listed.len() && !(row_tree(
                    accounts,
                    #[trigger] listed[i],
                    commitment,
                    config,
                ) is Some);
            assert(accounts.sighting(keys.filter(keep)[i]@, commitment) is Some);
        } else {
            let i = choose|i: int|
                {
                    &&& 0 <= i < listed.len()
                    &&& accounts.sighting((#[trigger] listed[i])@, commitment) matches Some(
                        (Some(info), _),
                    )
                    &&& packing_can_fail(info, config.encoding, config.data_slice)
                };
            assert(accounts.sighting(keys.filter(keep)[i]@, commitment) is Some);
        }
    }
    assert forall|i: int|
        0 <= i < keys.filter(keep).len() && (accounts.sighting(
            (#[trigger] keys.filter(keep)[i])@,
            commitment,
        ) matches Some((Some(info), _)) && (config.data_slice matches Some(s) && s.offset + s.length
            > info.data.data@.len())) implies r is Err by {
        assert(row_tree(accounts, listed[i], commitment, config) is None);
    }
}

/// With an answer about a program each of its addresses of which anything is known goes on being
/// watched, in turn, and no other, whether or not it is listed. Where the filters could not be
/// read, none is.
pub proof fn law_known_addresses_go_on_being_watched(
    accounts: AccountsDb,
    keys: Seq<Pubkey>,
    config: ProgramAccountsConfig,
    known: spec_fn(Pubkey) -> bool,
    commands: Seq<AccountCommand>,
)
    requires
        commands == program_answer_commands(accounts, keys, config),
        forall|k: Pubkey| #[trigger] known(k) == accounts.map().contains_key(k@),
    ensures
        config.filters matches Some(Err(_)) ==> commands.len() == 0,
        !(config.filters matches Some(Err(_))) ==> {
            &&& commands.len() == keys.filter(known).len()
            &&& forall|i: int|
                0 <= i < commands.len() ==> #[trigger] commands[i] == AccountCommand::Reset(
                    Subscription::Account(keys.filter(known)[i]),
                )
            &&& commands == reset_commands(accounts, keys)
        },
{
    lemma_filter_agrees(keys, known, |k: Pubkey| accounts.map().contains_key(k@));
}

/// A request for the accounts of a program is answered at once if and only if the program is known:
/// from its addresses, at the commitment that the request names, or at the most settled one if it
/// names none. Otherwise the backend is asked, and the program is watched at that commitment. What
/// the backend says may be kept unless it is about a part of the accounts or of their data.
pub proof fn law_program_is_looked_up_at_its_commitment(
    state: State,
    req_id: u64,
    pubkey: Pubkey,
    config: ProgramAccountsConfig,
    commands: Seq<AccountCommand>,
    step: ProgramAccountsStep,
    commitment: Commitment,
)
    requires
        program_accounts_begun(state, req_id, pubkey, config, commands, step),
        config.commitment == Some(commitment) || (config.commitment is None && commitment
            == Commitment::Finalized),
    ensures
        step is Answer <==> state.program_accounts.map().contains_key(pubkey@),
        step matches ProgramAccountsStep::Answer(outcome) ==> {
            let keys = state.program_accounts.map()[pubkey@].keys();
            &&& program_answered(req_id, state.accounts, keys, config, commitment, outcome)
            &&& commands == program_answer_commands(state.accounts, keys, config)
        },
        step matches ProgramAccountsStep::Fetch(call) ==> {
            &&& call.req_id == req_id
            &&& call.config == config
            &&& call.cacheable_for_key is None <==> config.data_slice is Some
                || config.filters is Some
            &&& call.cacheable_for_key matches Some(key) ==> key == pubkey
            &&& commands.len() == 1
            &&& commands[0] == AccountCommand::Subscribe(
                Subscription::Program(pubkey),
                commitment,
            )
        },
{
}

/// A request for a program's accounts that waits is answered, when it looks again, if and only if
/// what it waits for may be shared and the program is known; and then with the commands and the
/// answer of a request that is made just then.
pub proof fn law_looking_again_at_a_program_is_asking_anew(
    state: State,
    call: ProgramAccountsCall,
    commands: Seq<AccountCommand>,
    answer: Option<Result<Vec<u8>, Error>>,
)
    requires
        program_accounts_renewed(state, call, commands, answer),
    ensures
        answer is Some <==> (call.cacheable_for_key matches Some(key)
            && state.program_accounts.map().contains_key(key@)),
        answer matches Some(outcome) ==> program_accounts_begun(
            state,
            call.req_id,
            call.cacheable_for_key->0,
            call.config,
            commands,
            ProgramAccountsStep::Answer(outcome),
        ),
        answer is None ==> commands.len() == 0,
{
}

/// The client gets the backend's answer about a program as it is, unless it had to be kept and
/// could not be read. Accounts that it reports, and that may be kept, are known from then on at the
/// commitment of the request, the last one for each address, and the program has exactly their
/// addresses; the word goes out. Nothing else that is known changes.
pub proof fn law_reported_program_is_kept_at_its_commitment(
    pre: State,
    call: ProgramAccountsCall,
    body: Vec<u8>,
    decoded: Result<Vec<(AccountInfo, Pubkey)>, serde_json::Error>,
    r: Fetched,
    post: State,
    commitment: Commitment,
    i: int,
    k: Seq<u8>,
    c: Commitment,
)
    requires
        program_accounts_ended(pre, call, body, decoded, r, post),
        call.config.commitment == Some(commitment) || (call.config.commitment is None && commitment
            == Commitment::Finalized),
    ensures
        call.cacheable_for_key is None || decoded is Ok ==> r.outcome == Ok::<Reply, Error>(
            Reply::Json(body),
        ),
        call.cacheable_for_key is Some ==> (decoded matches Err(e) ==> r.outcome == Err::<
            Reply,
            Error,
        >(
            if error_is_data(e) {
                Error::InvalidRequest(None)
            } else {
                Error::Parsing(None)
            },
        )),
        r.notify <==> call.cacheable_for_key is Some && decoded is Ok,
        call.cacheable_for_key matches Some(program) ==> (decoded matches Ok(list) ==> {
            &&& 0 <= i < list@.len() && (forall|j: int|
                i < j < list@.len() ==> (#[trigger] list@[j]).1@ != list@[i].1@)
                ==> post.accounts.sighting(list@[i].1@, commitment) == Some(
                (Some(list@[i].0), 0u64),
            )
            &&& c != commitment || (forall|j: int|
                0 <= j < list@.len() ==> (#[trigger] list@[j]).1@ != k) ==> post.accounts.sighting(
                k,
                c,
            ) == pre.accounts.sighting(k, c)
            &&& post.accounts.map().contains_key(k) <==> pre.accounts.map().contains_key(k) || (
            exists|j: int| 0 <= j < list@.len() && (#[trigger] list@[j]).1@ == k)
            &&& post.program_accounts.map().contains_key(program@)
            &&& (exists|j: int|
                0 <= j < post.program_accounts.map()[program@].keys().len()
                    && (#[trigger] post.program_accounts.map()[program@].keys()[j])@ == k) <==> (
            exists|j: int| 0 <= j < list@.len() && (#[trigger] list@[j]).1@ == k)
            &&& forall|a: int, b: int|
                0 <= a < b < post.program_accounts.map()[program@].keys().len() ==> (
                #[trigger] post.program_accounts.map()[program@].keys()[a])@ != (
                #[trigger] post.program_accounts.map()[program@].keys()[b])@
            &&& k != program@ ==> {
                &&& post.program_accounts.map().contains_key(k)
                    == pre.program_accounts.map().contains_key(k)
                &&& pre.program_accounts.map().contains_key(k)
                    ==> post.program_accounts.map()[k] == pre.program_accounts.map()[k]
            }
        }),
        !r.notify ==> post.accounts == pre.accounts && post.program_accounts
            == pre.program_accounts,
        post.accounts.slot(c) == pre.accounts.slot(c),
        post.lru == pre.lru,
{
    if let (Some(program), Ok(list)) = (call.cacheable_for_key, decoded) {
        law_reported_keys_are_exact(list@);
        law_addresses_are_those_in_the_list(list@, k);
        law_reported_are_those_in_the_list(list@, k);
        if 0 <= i < list@.len() && (forall|j: int|
            i < j < list@.len() ==> (#[trigger] list@[j]).1@ != list@[i].1@) {
            law_last_report_counts(list@, i);
        }
        assert(post.program_accounts.map()[program@].keys() == reported_keys(list@));
    }
}

} // verus!
