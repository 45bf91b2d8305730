use rpc_cache::account_info::{
    account_written, AccountInfoCall, AccountInfoStep, AccountQuery, AccountReply,
};
use rpc_cache::encode::SerializeError;
use rpc_cache::error::{Error, Reply};
use rpc_cache::request::AccountInfoConfig;
use rpc_cache::response_cache::ResponseCache;
use rpc_cache::state::State;
use rpc_cache::types::{
    AccountCommand, AccountContext, AccountData, AccountInfo, Commitment, Encoding, Pubkey, Slice,
    SolanaContext, Subscription,
};

const KEY: Pubkey = Pubkey([3; 32]);

fn account(data: &[u8]) -> AccountInfo {
    AccountInfo {
        data: AccountData { data: data.to_vec() },
        lamports: 1,
        owner: Pubkey([0; 32]),
        executable: false,
        rent_epoch: 2,
    }
}

fn context(data: &[u8], slot: u64) -> AccountContext {
    AccountContext { context: SolanaContext { slot }, value: Some(account(data)) }
}

fn query(req_id: u64, request_hash: u64) -> AccountQuery {
    AccountQuery {
        req_id,
        request_hash,
        config: AccountInfoConfig {
            encoding: Encoding::Base64,
            commitment: None,
            data_slice: None,
        },
    }
}

fn answer(step: AccountInfoStep) -> Result<AccountReply, Error> {
    match step {
        AccountInfoStep::Answer(outcome) => outcome,
        AccountInfoStep::Fetch(_) => panic!("not answered"),
    }
}

fn call(step: AccountInfoStep) -> AccountInfoCall {
    match step {
        AccountInfoStep::Fetch(call) => call,
        AccountInfoStep::Answer(_) => panic!("answered"),
    }
}

fn text(reply: AccountReply) -> String {
    String::from_utf8(reply.body).unwrap()
}

fn json_body(outcome: Result<Reply, Error>) -> Vec<u8> {
    match outcome.unwrap() {
        Reply::Json(body) => body,
        Reply::GatewayTimeout => panic!("timeout"),
    }
}

const HELLO_AT_5: &str = "{\"jsonrpc\":\"2.0\",\"result\":{\"context\":{\"slot\":5},\"value\":\
    {\"data\":[\"aGVsbG8=\",\"base64\"],\"lamports\":1,\
    \"owner\":\"11111111111111111111111111111111\",\"executable\":false,\"rentEpoch\":2}},\"id\":9}";

#[test]
fn unknown_accounts_are_fetched_and_watched() {
    let mut state = State::new(10);
    let (commands, step) = state.get_account_info(query(9, 1), KEY);
    assert_eq!(
        commands,
        [AccountCommand::Subscribe(Subscription::Account(KEY), Commitment::Finalized)]
    );
    assert_eq!(call(step).cacheable_for_key, Some(KEY));
}

#[test]
fn fetched_accounts_are_served() {
    let mut state = State::new(10);
    state.accounts.update_slot(Commitment::Finalized, 5);
    let (_, step) = state.get_account_info(query(9, 1), KEY);
    let call = call(step);
    let fetched = state.account_info_fetched(&call, vec![1], Ok(Some(context(b"hello", 4))));
    assert!(fetched.notify);
    assert_eq!(json_body(fetched.outcome), [1]);

    let (commands, step) = state.get_account_info(query(9, 1), KEY);
    assert_eq!(commands, [AccountCommand::Reset(Subscription::Account(KEY))]);
    let reply = answer(step).unwrap();
    assert!(!reply.lru_hit);
    assert_eq!(text(reply), HELLO_AT_5);
}

#[test]
fn missing_accounts_are_served_as_null() {
    let mut state = State::new(10);
    let none = AccountContext { context: SolanaContext { slot: 4 }, value: None };
    state.insert(KEY, none, Commitment::Finalized);
    let (_, step) = state.get_account_info(query(9, 1), KEY);
    assert_eq!(
        text(answer(step).unwrap()),
        "{\"jsonrpc\":\"2.0\",\"result\":{\"context\":{\"slot\":0},\"value\":null},\"id\":9}"
    );
}

#[test]
fn repeated_requests_get_the_same_bytes() {
    let mut state = State::new(1);
    state.insert(KEY, context(b"hello", 4), Commitment::Finalized);
    let (_, step) = state.get_account_info(query(9, 1), KEY);
    let first = answer(step).unwrap();
    state.accounts.update_slot(Commitment::Finalized, 77);
    let (_, step) = state.get_account_info(query(10, 1), KEY);
    let second = answer(step).unwrap();
    assert!(!first.lru_hit && second.lru_hit);
    assert_eq!(first.body, second.body);

    state.insert(KEY, context(b"bye", 6), Commitment::Finalized);
    let (_, step) = state.get_account_info(query(10, 1), KEY);
    let third = answer(step).unwrap();
    assert!(!third.lru_hit);
    assert_ne!(first.body, third.body);
}

#[test]
fn commitments_are_kept_apart() {
    let mut state = State::new(10);
    state.insert(KEY, context(b"hello", 4), Commitment::Processed);
    let (commands, step) = state.get_account_info(query(9, 1), KEY);
    assert_eq!(commands, [AccountCommand::Reset(Subscription::Account(KEY))]);
    assert_eq!(call(step).cacheable_for_key, Some(KEY));
    let mut processed = query(9, 2);
    processed.config.commitment = Some(Commitment::Processed);
    let (_, step) = state.get_account_info(processed, KEY);
    assert!(answer(step).is_ok());
}

#[test]
fn other_accounts_are_left_alone() {
    let other = Pubkey([4; 32]);
    let mut state = State::new(10);
    state.insert(KEY, context(b"hello", 4), Commitment::Finalized);
    state.insert(other, context(b"bye", 5), Commitment::Finalized);
    let (known, _) = state.get_account(&KEY).unwrap();
    let (info, slot) = known.get(Commitment::Finalized).unwrap();
    assert_eq!((info.unwrap().data.data.as_slice(), slot), (b"hello".as_slice(), 4));
    assert!(known.get(Commitment::Confirmed).is_none());
    assert!(state.get_account(&Pubkey([5; 32])).is_none());
}

#[test]
fn slices_of_unknown_accounts_are_not_kept() {
    let mut state = State::new(10);
    let mut sliced = query(9, 1);
    sliced.config.data_slice = Some(Slice { offset: 0, length: 2 });
    let (_, step) = state.get_account_info(sliced, KEY);
    let waiting = call(step);
    assert_eq!(waiting.cacheable_for_key, None);
    state.insert(KEY, context(b"hello", 4), Commitment::Finalized);
    let (commands, found) = state.account_info_notified(&waiting);
    assert!(commands.is_empty() && found.is_none());
    let fetched = state.account_info_fetched(&waiting, vec![1], Ok(Some(context(b"he", 5))));
    assert!(!fetched.notify);
    assert_eq!(json_body(fetched.outcome), [1]);
    let (_, slot) = state.get_account(&KEY).unwrap().0.get(Commitment::Finalized).unwrap();
    assert_eq!(slot, 4);
}

#[test]
fn slices_of_accounts_known_otherwise_are_kept() {
    let mut state = State::new(10);
    state.insert(KEY, context(b"hello", 4), Commitment::Confirmed);
    let mut sliced = query(9, 1);
    sliced.config.data_slice = Some(Slice { offset: 0, length: 2 });
    let (_, step) = state.get_account_info(sliced, KEY);
    assert_eq!(call(step).cacheable_for_key, Some(KEY));
}

#[test]
fn bad_slices_fail_and_are_not_kept() {
    let mut state = State::new(10);
    state.insert(KEY, context(b"hello", 4), Commitment::Finalized);
    let mut sliced = query(9, 1);
    sliced.config.data_slice = Some(Slice { offset: 4, length: 2 });
    for _ in 0..2 {
        let (_, step) = state.get_account_info(sliced, KEY);
        assert_eq!(answer(step).unwrap_err(), Error::InvalidRequest(None));
    }
}

#[test]
fn compressed_answers_can_be_unpacked() {
    let mut state = State::new(10);
    state.insert(KEY, context(&[7; 1000], 4), Commitment::Finalized);
    let mut packed = query(9, 1);
    packed.config.encoding = Encoding::Base64Zstd;
    let (_, step) = state.get_account_info(packed, KEY);
    let body = answer(step).unwrap().body;
    let value: serde_json::Value = serde_json::from_slice(&body).unwrap();
    let data = &value["result"]["value"]["data"];
    assert_eq!(data[1], "base64+zstd");
    let frame = base64::decode(data[0].as_str().unwrap()).unwrap();
    assert_eq!(zstd::decode_all(&frame[..]).unwrap(), [7; 1000]);
}

#[test]
fn waiting_requests_are_answered_when_something_is_known() {
    let mut state = State::new(10);
    state.accounts.update_slot(Commitment::Finalized, 5);
    let (_, step) = state.get_account_info(query(9, 1), KEY);
    let waiting = call(step);
    let (commands, found) = state.account_info_notified(&waiting);
    assert!(commands.is_empty() && found.is_none());
    state.insert(KEY, context(b"x", 4), Commitment::Confirmed);
    let (commands, found) = state.account_info_notified(&waiting);
    assert_eq!(commands, [AccountCommand::Reset(Subscription::Account(KEY))]);
    assert!(found.is_none());
    state.insert(KEY, context(b"hello", 4), Commitment::Finalized);
    let (commands, found) = state.account_info_notified(&waiting);
    assert_eq!(commands, [AccountCommand::Reset(Subscription::Account(KEY))]);
    assert_eq!(text(found.unwrap().unwrap()), HELLO_AT_5);
}

#[test]
fn answers_without_an_account_are_handed_on() {
    let mut state = State::new(10);
    let (_, step) = state.get_account_info(query(9, 1), KEY);
    let waiting = call(step);
    let fetched = state.account_info_fetched(&waiting, vec![1, 2], Ok(None));
    assert!(!fetched.notify);
    assert_eq!(json_body(fetched.outcome), [1, 2]);
    assert!(state.get_account(&KEY).is_none());
}

#[test]
fn answers_that_cannot_be_read_fail() {
    let mut state = State::new(10);
    let (_, step) = state.get_account_info(query(9, 1), KEY);
    let waiting = call(step);
    let e = serde_json::from_str::<u64>("").unwrap_err();
    let fetched = state.account_info_fetched(&waiting, vec![1], Err(e));
    assert!(!fetched.notify);
    assert_eq!(fetched.outcome.unwrap_err(), Error::Parsing(None));
    assert!(state.get_account(&KEY).is_none());
}

#[test]
fn what_was_written_is_printed_and_kept() {
    let mut lru = ResponseCache::new(2);
    let failed = account_written(query(9, 1), 6, Err(SerializeError::CannotCompress), &mut lru);
    assert_eq!(failed.unwrap_err(), Error::InvalidRequest(None));
    assert_eq!(lru.get(6), None);
    let written = Ok(serde_json::Value::from("x"));
    let reply = account_written(query(9, 1), 6, written, &mut lru).unwrap();
    assert!(!reply.lru_hit);
    assert_eq!(reply.body, b"{\"jsonrpc\":\"2.0\",\"result\":\"x\",\"id\":9}");
    assert_eq!(lru.get(6), Some(reply.body));
}

#[test]
fn a_missing_account_is_answered_in_the_compressed_encoding() {
    let mut state = State::new(10);
    let none = AccountContext { context: SolanaContext { slot: 4 }, value: None };
    state.insert(KEY, none, Commitment::Finalized);
    let mut query = query(9, 1);
    query.config.encoding = Encoding::Base64Zstd;
    let (_, step) = state.get_account_info(query, KEY);
    assert_eq!(
        text(answer(step).unwrap()),
        "{\"jsonrpc\":\"2.0\",\"result\":{\"context\":{\"slot\":0},\"value\":null},\"id\":9}"
    );
}
