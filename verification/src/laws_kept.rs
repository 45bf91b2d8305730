//! What is kept, and under what it is found again.

use crate::accounts::{AccountsDb, Sighting};
use crate::backend::{
    backend_step, course, law_gives_up_after_last_attempt, verdict_on, Attempt, BackendStep,
    Verdict, MAX_ATTEMPTS, RETRY_DELAY_MILLIS,
};
use crate::error::Reply;
use crate::laws::law_reported_keys_are_exact;
use crate::program_accounts::{has_address, reported, reported_keys, sighting_after_report};
use crate::response_cache::{
    entries_wf, entry_put, entry_used, first_entries, has_key, hash_of, lemma_without_key,
    without_key, Hashed,
};
use crate::types::{AccountInfo, Commitment, Pubkey};
use std::collections::hash_map::DefaultHasher;
use vstd::bytes::spec_u64_to_le_bytes;
use vstd::prelude::*;
use vstd::std_specs::hash::DefaultHasherAdditionalSpecFns;
use vstd::utf8::encode_utf8;

verus! {

/// What a text feeds to a hasher tells it apart from every other text: all of it is fed. So texts
/// that differ have one hash only where the hasher itself gives one for what differs.
pub proof fn law_texts_are_told_apart(a: &str, b: &str)
    ensures
        a.runs() == b.runs() <==> a@ == b@,
{
    vstd::utf8::encode_utf8_decode_utf8(a@);
    vstd::utf8::encode_utf8_decode_utf8(b@);
    if a.runs() == b.runs() {
        assert(a.runs()[0] == b.runs()[0]);
    }
}

/// What a pair feeds to a hasher tells it apart from every other pair.
pub proof fn law_pairs_are_told_apart(a: (u64, u64), b: (u64, u64))
    ensures
        a.runs() == b.runs() <==> a.0 == b.0 && a.1 == b.1,
{
    vstd::bytes::lemma_auto_spec_u64_to_from_le_bytes();
    if a.runs() == b.runs() {
        assert(a.runs()[0] == b.runs()[0]);
        assert(a.runs()[1] == b.runs()[1]);
    }
}

/// The hash of a text is that of its bytes with a mark behind them, the hash of a pair that of its
/// two parts, and the hash of a reference that of what it refers to.
pub proof fn law_hash_is_that_of_what_is_fed<T: Hashed>(
    text: &str,
    pair: (u64, u64),
    value: T,
)
    ensures
        hash_of(text) == DefaultHasher::spec_finish(seq![encode_utf8(text@), seq![0xffu8]]),
        hash_of(pair) == DefaultHasher::spec_finish(
            seq![spec_u64_to_le_bytes(pair.0), spec_u64_to_le_bytes(pair.1)],
        ),
        hash_of(value) == DefaultHasher::spec_finish(value.runs()),
        (&value).runs() == value.runs(),
{
}

/// There is an entry under a key if and only if some body is kept under it.
pub proof fn law_key_is_there_if_a_body_is(entries: Seq<(u64, Seq<u8>)>, key: u64)
    ensures
        has_key(entries, key) <==> exists|body: Seq<u8>| #[trigger] entries.contains((key, body)),
{
    if has_key(entries, key) {
        let i = choose|i: int| 0 <= i < entries.len() && (#[trigger] entries[i]).0 == key;
        assert(entries[i] == (key, entries[i].1));
        assert(entries.contains((key, entries[i].1)));
    }
    if exists|body: Seq<u8>| #[trigger] entries.contains((key, body)) {
        let body = choose|body: Seq<u8>| #[trigger] entries.contains((key, body));
        let i = choose|i: int| 0 <= i < entries.len() && entries[i] == (key, body);
        assert(entries[i].0 == key);
    }
}

/// Of entries one of which is under a key, those under other keys are all but that one.
proof fn lemma_without_unique(entries: Seq<(u64, Seq<u8>)>, key: u64, p: int)
    requires
        0 <= p < entries.len(),
        forall|i: int| 0 <= i < entries.len() ==> ((#[trigger] entries[i]).0 == key <==> i == p),
    ensures
        without_key(entries, key) == entries.remove(p),
    decreases entries.len(),
{
    reveal(Seq::filter);
    let front = entries.drop_last();
    let last = entries.len() - 1;
    assert forall|i: int| 0 <= i < front.len() implies (#[trigger] front[i]) == entries[i] by {}
    if p == last {
        lemma_without_none(front, key);
        assert(entries.remove(p) =~= front);
    } else {
        lemma_without_unique(front, key, p);
        assert(entries[last].0 != key);
        assert(entries.remove(p) =~= front.remove(p).push(entries.last()));
    }
}

proof fn lemma_without_none(entries: Seq<(u64, Seq<u8>)>, key: u64)
    requires
        forall|i: int| 0 <= i < entries.len() ==> (#[trigger] entries[i]).0 != key,
    ensures
        without_key(entries, key) == entries,
    decreases entries.len(),
{
    reveal(Seq::filter);
    if entries.len() > 0 {
        let front = entries.drop_last();
        assert forall|i: int| 0 <= i < front.len() implies (#[trigger] front[i]).0 != key by {
            assert(front[i] == entries[i]);
        }
        lemma_without_none(front, key);
        assert(entries[entries.len() - 1].0 != key);
        assert(front.push(entries.last()) =~= entries);
    }
}

/// Using an entry, or putting a body over it, moves it to the front. Those before it move back by
/// one place, and those behind it stay where they are.
pub proof fn law_used_entry_comes_first(
    entries: Seq<(u64, Seq<u8>)>,
    limit: nat,
    key: u64,
    body: Seq<u8>,
    p: int,
)
    requires
        entries.len() <= limit,
        forall|i: int, j: int|
            0 <= i < j < entries.len() ==> (#[trigger] entries[i]).0 != (#[trigger] entries[j]).0,
        0 <= p < entries.len(),
        entries[p].0 == key,
    ensures
        entry_put(entries, limit, key, body) == entry_used(entries, key, body),
        entry_used(entries, key, body).len() == entries.len(),
        entry_used(entries, key, body)[0] == (key, body),
        forall|i: int|
            1 <= i <= p ==> #[trigger] entry_used(entries, key, body)[i] == entries[i - 1],
        forall|i: int|
            p < i < entries.len() ==> #[trigger] entry_used(entries, key, body)[i] == entries[i],
{
    lemma_without_unique(entries, key, p);
}

/// Putting a body under a new key puts it first and moves the others back by one place. They all
/// stay if there is room, and otherwise only the last one goes.
pub proof fn law_new_entry_comes_first(
    entries: Seq<(u64, Seq<u8>)>,
    limit: nat,
    key: u64,
    body: Seq<u8>,
)
    requires
        0 < limit,
        entries.len() <= limit,
        forall|i: int| 0 <= i < entries.len() ==> (#[trigger] entries[i]).0 != key,
    ensures
        entries.len() < limit ==> entry_put(entries, limit, key, body).len() == entries.len() + 1,
        entries.len() == limit ==> entry_put(entries, limit, key, body).len() == limit,
        entry_put(entries, limit, key, body)[0] == (key, body),
        forall|i: int|
            1 <= i < entry_put(entries, limit, key, body).len() ==> #[trigger] entry_put(
                entries,
                limit,
                key,
                body,
            )[i] == entries[i - 1],
{
}

/// A cache without room keeps nothing.
pub proof fn law_no_room_keeps_nothing(key: u64, body: Seq<u8>)
    ensures
        entry_put(Seq::empty(), 0, key, body) == Seq::<(u64, Seq<u8>)>::empty(),
{
}

/// What is left under other keys is what there was under other keys.
pub proof fn law_other_keys_are_left(
    entries: Seq<(u64, Seq<u8>)>,
    limit: nat,
    key: u64,
    other: u64,
    body: Seq<u8>,
)
    requires
        entries_wf(entries, limit),
        other != key,
    ensures
        without_key(entries, key).contains((other, body)) <==> entries.contains((other, body)),
        !has_key(without_key(entries, key), key),
        !has_key(entries, other) ==> !has_key(entry_put(entries, limit, key, body), other),
        !has_key(entries, other) ==> !has_key(entry_used(entries, key, body), other),
{
    let rest = without_key(entries, key);
    lemma_without_key(entries, key);
    if rest.contains((other, body)) {
        let i = choose|i: int| 0 <= i < rest.len() && rest[i] == (other, body);
        assert(entries.contains(rest[i]));
    }
    if !has_key(entries, other) {
        let used = entry_used(entries, key, body);
        assert forall|i: int| 0 <= i < used.len() implies (#[trigger] used[i]).0 != other by {
            if i > 0 {
                assert(used[i] == rest[i - 1]);
                let k = choose|k: int| 0 <= k < entries.len() && entries[k] == rest[i - 1];
                assert(entries[k].0 != other);
            }
        }
        let put = entry_put(entries, limit, key, body);
        if !has_key(entries, key) && limit > 0 {
            assert forall|i: int| 0 <= i < put.len() implies (#[trigger] put[i]).0 != other by {
                if i > 0 {
                    assert(put[i] == entries[i - 1]);
                }
            }
        }
    }
}

/// A cache is in order if and only if it holds no more entries than its limit, and none twice.
pub proof fn law_order_of_a_cache(entries: Seq<(u64, Seq<u8>)>, limit: nat)
    ensures
        entries_wf(entries, limit) <==> {
            &&& entries.len() <= limit
            &&& forall|i: int, j: int|
                0 <= i < entries.len() && 0 <= j < entries.len() && i != j ==> (
                #[trigger] entries[i]).0 != (#[trigger] entries[j]).0
        },
{
}

/// A smaller limit leaves the entries that were used most recently, in their order.
pub proof fn law_smaller_limit_keeps_the_first(entries: Seq<(u64, Seq<u8>)>, limit: nat)
    ensures
        first_entries(entries, limit).len() == if entries.len() <= limit {
            entries.len()
        } else {
            limit
        },
        forall|i: int|
            0 <= i < first_entries(entries, limit).len() ==> #[trigger] first_entries(
                entries,
                limit,
            )[i] == entries[i],
{
}

/// The backend is asked ten times at most. If none of the answers can be read, it is given up after
/// the tenth, each time with a delay of a tenth of a second.
pub proof fn law_backend_is_asked_ten_times(attempts: Seq<Attempt>)
    requires
        attempts.len() >= 10,
        forall|i: int| 0 <= i < 10 ==> #[trigger] attempts[i] == Attempt::BodyFailed,
    ensures
        course(MAX_ATTEMPTS as nat, attempts) == (10nat, Verdict::GiveUp),
        RETRY_DELAY_MILLIS == 100,
{
    law_gives_up_after_last_attempt(10, attempts);
}

/// An answer that was read is taken, and a backend that cannot be reached is not asked again; only
/// an answer that could not be read is asked for once more, as long as attempts are left.
pub proof fn law_only_unread_answers_are_asked_for_again(left: nat, attempt: Attempt)
    ensures
        verdict_on(left, attempt) == Verdict::Deliver <==> attempt == Attempt::BodyRead,
        verdict_on(left, attempt) == Verdict::Abort <==> attempt == Attempt::SendFailed,
        verdict_on(left, attempt) == Verdict::Retry <==> attempt == Attempt::BodyFailed && left > 0,
        verdict_on(left, attempt) == Verdict::GiveUp <==> attempt == Attempt::BodyFailed && left
            == 0,
{
}

/// What the backend answered reaches the client unchanged, and it is read first if and only if it
/// may be kept. Without an answer there is a gateway timeout.
pub proof fn law_backend_answer_is_handed_on(key: Option<Pubkey>, reply: Option<Vec<u8>>)
    ensures
        reply is None <==> backend_step(key, reply) matches BackendStep::Respond(
            Reply::GatewayTimeout,
        ),
        reply matches Some(body) ==> (backend_step(key, reply) is Decode <==> key is Some),
        backend_step(key, reply) matches BackendStep::Decode(read) ==> reply == Some(read),
        backend_step(key, reply) matches BackendStep::Respond(Reply::Json(sent)) ==> reply == Some(
            sent,
        ),
{
}

/// What is known of an address at a commitment is what its row holds there, and nothing is known of
/// an address without a row.
pub proof fn law_sighting_is_what_the_row_holds(
    accounts: AccountsDb,
    key: Seq<u8>,
    commitment: Commitment,
    sighting: Sighting,
)
    ensures
        accounts.sighting(key, commitment) == Some(sighting) <==> accounts.map().contains_key(key)
            && accounts.map()[key].at(commitment) == Some(sighting),
        !accounts.map().contains_key(key) ==> accounts.sighting(key, commitment) is None,
{
}

/// Where the backend reports several accounts for an address, the last one counts.
pub proof fn law_last_report_counts(list: Seq<(AccountInfo, Pubkey)>, i: int)
    requires
        0 <= i < list.len(),
        forall|j: int| i < j < list.len() ==> (#[trigger] list[j]).1@ != list[i].1@,
    ensures
        reported(list, list[i].1@) == Some(list[i].0),
    decreases list.len(),
{
    let front = list.drop_last();
    if i < front.len() {
        assert(list[list.len() - 1].1@ != list[i].1@);
        assert(front[i] == list[i]);
        assert forall|j: int| i < j < front.len() implies (#[trigger] front[j]).1@
            != front[i].1@ by {
            assert(front[j] == list[j]);
        }
        law_last_report_counts(front, i);
    }
}

/// The backend reports an account for an address if and only if the address is in its list.
pub proof fn law_reported_are_those_in_the_list(list: Seq<(AccountInfo, Pubkey)>, key: Seq<u8>)
    ensures
        reported(list, key) is Some <==> exists|i: int|
            0 <= i < list.len() && (#[trigger] list[i]).1@ == key,
    decreases list.len(),
{
    if list.len() > 0 {
        let front = list.drop_last();
        law_reported_are_those_in_the_list(front, key);
        assert(list[list.len() - 1] == list.last());
        if exists|i: int| 0 <= i < front.len() && (#[trigger] front[i]).1@ == key {
            let i = choose|i: int| 0 <= i < front.len() && (#[trigger] front[i]).1@ == key;
            assert(list[i].1@ == key);
        }
        if exists|i: int| 0 <= i < list.len() && (#[trigger] list[i]).1@ == key {
            let i = choose|i: int| 0 <= i < list.len() && (#[trigger] list[i]).1@ == key;
            if i < front.len() {
                assert(front[i].1@ == key);
            }
        }
    }
}

/// The addresses of a program are those in the backend's list, and no others.
pub proof fn law_addresses_are_those_in_the_list(list: Seq<(AccountInfo, Pubkey)>, key: Seq<u8>)
    ensures
        (exists|i: int| 0 <= i < reported_keys(list).len() && (#[trigger] reported_keys(list)[i])@
            == key) <==> (exists|i: int| 0 <= i < list.len() && (#[trigger] list[i]).1@ == key),
        has_address(reported_keys(list), key) <==> exists|i: int|
            0 <= i < list.len() && (#[trigger] list[i]).1@ == key,
{
    law_reported_keys_are_exact(list);
    law_reported_are_those_in_the_list(list, key);
    assert(has_address(reported_keys(list), key) <==> reported(list, key) is Some);
}

/// A report at a commitment says of each address in it what account is there, as of slot 0, at that
/// commitment. At other commitments, and of other addresses, what was known stays.
pub proof fn law_report_is_of_its_commitment(
    accounts: AccountsDb,
    list: Seq<(AccountInfo, Pubkey)>,
    commitment: Commitment,
    key: Seq<u8>,
    at: Commitment,
)
    ensures
        at != commitment ==> sighting_after_report(accounts, list, commitment, key, at)
            == accounts.sighting(key, at),
        (forall|i: int| 0 <= i < list.len() ==> (#[trigger] list[i]).1@ != key)
            ==> sighting_after_report(accounts, list, commitment, key, at) == accounts.sighting(
            key,
            at,
        ),
        forall|i: int|
            0 <= i < list.len() && (#[trigger] list[i]).1@ == key && at == commitment && (forall|
                j: int,
            |
                i < j < list.len() ==> (#[trigger] list[j]).1@ != key) ==> sighting_after_report(
                accounts,
                list,
                commitment,
                key,
                at,
            ) == Some((Some(list[i].0), 0u64)),
{
    law_reported_are_those_in_the_list(list, key);
    assert forall|i: int|
        0 <= i < list.len() && (#[trigger] list[i]).1@ == key && at == commitment && (forall|
            j: int,
        |
            i < j < list.len() ==> (#[trigger] list[j]).1@ != key) implies sighting_after_report(
        accounts,
        list,
        commitment,
        key,
        at,
    ) == Some((Some(list[i].0), 0u64)) by {
        law_last_report_counts(list, i);
    }
}

} // verus!
