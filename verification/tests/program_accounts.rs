use rpc_cache::account_info::{AccountInfoStep, AccountQuery};
use rpc_cache::encode::SerializeError;
use rpc_cache::error::{Error, Reply};
use rpc_cache::filter::Filter;
use rpc_cache::program_accounts::{
    program_accounts_written, row_written, rows_written, ProgramAccountsCall, ProgramAccountsStep,
};
use rpc_cache::request::{AccountInfoConfig, ProgramAccountsConfig};
use rpc_cache::state::State;
use rpc_cache::types::{
    AccountCommand, AccountContext, AccountData, AccountInfo, Commitment, Encoding, Pubkey, Slice,
    SolanaContext, Subscription,
};

const PROGRAM: Pubkey = Pubkey([9; 32]);

fn key(last: u8) -> Pubkey {
    let mut bytes = [0; 32];
    bytes[31] = last;
    Pubkey(bytes)
}

fn account(data: &[u8]) -> AccountInfo {
    AccountInfo {
        data: AccountData { data: data.to_vec() },
        lamports: 1,
        owner: Pubkey([0; 32]),
        executable: false,
        rent_epoch: 2,
    }
}

fn config(filters: Option<Result<Vec<Filter>, serde_json::Error>>) -> ProgramAccountsConfig {
    ProgramAccountsConfig {
        encoding: Encoding::Base64,
        commitment: None,
        data_slice: None,
        filters,
    }
}

fn fetch(state: &State) -> ProgramAccountsCall {
    match state.get_program_accounts(1, PROGRAM, config(None)).1 {
        ProgramAccountsStep::Fetch(call) => call,
        ProgramAccountsStep::Answer(_) => panic!("answered"),
    }
}

fn answer(step: ProgramAccountsStep) -> Result<String, Error> {
    match step {
        ProgramAccountsStep::Answer(outcome) => outcome.map(|b| String::from_utf8(b).unwrap()),
        ProgramAccountsStep::Fetch(_) => panic!("not answered"),
    }
}

fn row(data: &str, key: &str) -> String {
    format!(
        "{{\"account\":{{\"data\":[\"{}\",\"base64\"],\"lamports\":1,\
         \"owner\":\"11111111111111111111111111111111\",\"executable\":false,\"rentEpoch\":2}},\
         \"pubkey\":\"1111111111111111111111111111111{}\"}}",
        data, key
    )
}

fn known(list: Vec<(AccountInfo, Pubkey)>) -> State {
    let mut state = State::new(10);
    let call = fetch(&state);
    let fetched = state.program_accounts_fetched(&call, vec![7], Ok(list));
    assert!(fetched.notify);
    match fetched.outcome.unwrap() {
        Reply::Json(body) => assert_eq!(body, [7]),
        Reply::GatewayTimeout => panic!("timeout"),
    }
    state
}

#[test]
fn unknown_programs_are_fetched_and_watched() {
    let state = State::new(10);
    let (commands, step) = state.get_program_accounts(1, PROGRAM, config(None));
    assert_eq!(
        commands,
        [AccountCommand::Subscribe(Subscription::Program(PROGRAM), Commitment::Finalized)]
    );
    match step {
        ProgramAccountsStep::Fetch(call) => assert_eq!(call.cacheable_for_key, Some(PROGRAM)),
        ProgramAccountsStep::Answer(_) => panic!("answered"),
    }
}

#[test]
fn partial_answers_are_not_kept() {
    let state = State::new(10);
    let mut sliced = config(None);
    sliced.data_slice = Some(Slice { offset: 0, length: 0 });
    for config in vec![sliced, config(Some(Ok(vec![])))] {
        match state.get_program_accounts(1, PROGRAM, config).1 {
            ProgramAccountsStep::Fetch(call) => assert_eq!(call.cacheable_for_key, None),
            ProgramAccountsStep::Answer(_) => panic!("answered"),
        }
    }
}

#[test]
fn fetched_programs_are_served() {
    let state = known(vec![(account(b"hello"), key(1)), (account(b"bye"), key(2))]);
    let (commands, step) = state.get_program_accounts(4, PROGRAM, config(None));
    assert_eq!(
        commands,
        [
            AccountCommand::Reset(Subscription::Account(key(1))),
            AccountCommand::Reset(Subscription::Account(key(2))),
        ]
    );
    let body = answer(step).unwrap();
    assert_eq!(
        body,
        format!(
            "{{\"jsonrpc\":\"2.0\",\"result\":[{},{}],\"id\":4}}",
            row("aGVsbG8=", "2"),
            row("Ynll", "3")
        )
    );
    let (_, slot) = state.get_account(&key(1)).unwrap().0.get(Commitment::Finalized).unwrap();
    assert_eq!(slot, 0);
}

#[test]
fn an_address_reported_twice_is_listed_once_as_it_was_last() {
    let state = known(vec![
        (account(b"old"), key(1)),
        (account(b"bye"), key(2)),
        (account(b"hello"), key(1)),
    ]);
    let (commands, step) = state.get_program_accounts(4, PROGRAM, config(None));
    assert_eq!(commands.len(), 2);
    assert_eq!(
        answer(step).unwrap(),
        format!(
            "{{\"jsonrpc\":\"2.0\",\"result\":[{},{}],\"id\":4}}",
            row("aGVsbG8=", "2"),
            row("Ynll", "3")
        )
    );
}

#[test]
fn filters_choose_the_accounts() {
    let state = known(vec![(account(b"hello"), key(1)), (account(b"bye"), key(2))]);
    let filters = vec![
        Filter::DataSize(3),
        Filter::Memcmp { offset: 1, bytes: bs58::encode(b"ye").into_string() },
    ];
    let (commands, step) = state.get_program_accounts(4, PROGRAM, config(Some(Ok(filters))));
    assert_eq!(commands.len(), 2);
    assert_eq!(
        answer(step).unwrap(),
        format!("{{\"jsonrpc\":\"2.0\",\"result\":[{}],\"id\":4}}", row("Ynll", "3"))
    );
    let filters = vec![Filter::DataSize(3), Filter::DataSize(5)];
    let (_, step) = state.get_program_accounts(4, PROGRAM, config(Some(Ok(filters))));
    assert_eq!(answer(step).unwrap(), "{\"jsonrpc\":\"2.0\",\"result\":[],\"id\":4}");
}

#[test]
fn addresses_without_an_account_pass_no_filter() {
    let mut state = known(vec![(account(b"hello"), key(1))]);
    let none = AccountContext { context: SolanaContext { slot: 4 }, value: None };
    state.insert(key(1), none, Commitment::Finalized);
    let null = "{\"jsonrpc\":\"2.0\",\"result\":[{\"account\":null,\
                \"pubkey\":\"11111111111111111111111111111112\"}],\"id\":4}";
    let (_, step) = state.get_program_accounts(4, PROGRAM, config(None));
    assert_eq!(answer(step).unwrap(), null);
    let (_, step) = state.get_program_accounts(4, PROGRAM, config(Some(Ok(vec![]))));
    assert_eq!(answer(step).unwrap(), null);
    let filters = Some(Ok(vec![Filter::DataSize(0)]));
    let (_, step) = state.get_program_accounts(4, PROGRAM, config(filters));
    assert_eq!(answer(step).unwrap(), "{\"jsonrpc\":\"2.0\",\"result\":[],\"id\":4}");
}

#[test]
fn addresses_without_an_account_are_written_in_every_encoding() {
    let mut state = known(vec![(account(b"hello"), key(1))]);
    let none = AccountContext { context: SolanaContext { slot: 4 }, value: None };
    state.insert(key(1), none, Commitment::Finalized);
    for encoding in vec![Encoding::Default, Encoding::Base58, Encoding::Base64, Encoding::Base64Zstd] {
        let mut config = config(None);
        config.encoding = encoding;
        config.data_slice = Some(Slice { offset: 9, length: 9 });
        let (_, step) = state.get_program_accounts(4, PROGRAM, config);
        assert_eq!(
            answer(step).unwrap(),
            "{\"jsonrpc\":\"2.0\",\"result\":[{\"account\":null,\
             \"pubkey\":\"11111111111111111111111111111112\"}],\"id\":4}"
        );
    }
}

#[test]
fn rows_are_put_together_from_what_was_written() {
    let row = row_written(key(1), Ok(serde_json::Value::from(5u64))).unwrap();
    assert_eq!(
        serde_json::to_string(&row).unwrap(),
        "{\"account\":5,\"pubkey\":\"11111111111111111111111111111112\"}"
    );
    let failed = row_written(key(1), Err(SerializeError::CannotCompress));
    assert_eq!(failed.unwrap_err(), SerializeError::CannotCompress);

    let value = |n: u64| Ok(serde_json::Value::from(n));
    assert_eq!(rows_written(vec![]).unwrap().len(), 0);
    assert_eq!(rows_written(vec![value(1), value(2)]).unwrap(), [1u64, 2u64]);
    let failed = rows_written(vec![
        value(1),
        Err(SerializeError::BadSlice),
        value(2),
        Err(SerializeError::CannotCompress),
    ]);
    assert_eq!(failed.unwrap_err(), SerializeError::BadSlice);

    let body = program_accounts_written(3, Ok(vec![serde_json::Value::from(5u64)])).unwrap();
    assert_eq!(body, b"{\"jsonrpc\":\"2.0\",\"result\":[5],\"id\":3}");
    let failed = program_accounts_written(3, Err(SerializeError::CannotCompress));
    assert_eq!(failed.unwrap_err(), Error::InvalidRequest(None));
}

#[test]
fn filters_that_cannot_be_read_fail_a_known_program_only() {
    let bad = || config(Some(Err(serde_json::from_str::<u64>("}").unwrap_err())));
    let state = State::new(10);
    let (_, step) = state.get_program_accounts(4, PROGRAM, bad());
    assert!(matches!(step, ProgramAccountsStep::Fetch(_)));
    let state = known(vec![(account(b"hello"), key(1))]);
    let (commands, step) = state.get_program_accounts(4, PROGRAM, bad());
    assert!(commands.is_empty());
    assert_eq!(answer(step).unwrap_err(), Error::Parsing(None));
    let wrong_kind = serde_json::from_str::<u64>("\"five\"").unwrap_err();
    let (commands, step) = state.get_program_accounts(4, PROGRAM, config(Some(Err(wrong_kind))));
    assert!(commands.is_empty());
    assert_eq!(answer(step).unwrap_err(), Error::InvalidRequest(None));
}

#[test]
fn accounts_of_another_commitment_are_left_out() {
    let state = known(vec![(account(b"hello"), key(1))]);
    let mut confirmed = config(None);
    confirmed.commitment = Some(Commitment::Confirmed);
    let (commands, step) = state.get_program_accounts(4, PROGRAM, confirmed);
    assert_eq!(commands, [AccountCommand::Reset(Subscription::Account(key(1)))]);
    assert_eq!(answer(step).unwrap(), "{\"jsonrpc\":\"2.0\",\"result\":[],\"id\":4}");
}

#[test]
fn one_bad_slice_fails_the_answer() {
    let state = known(vec![(account(b"hello"), key(1)), (account(b"bye"), key(2))]);
    let mut sliced = config(None);
    sliced.data_slice = Some(Slice { offset: 0, length: 4 });
    let (commands, step) = state.get_program_accounts(4, PROGRAM, sliced);
    assert_eq!(commands.len(), 2);
    assert_eq!(answer(step).unwrap_err(), Error::InvalidRequest(None));
    let mut sliced = config(Some(Ok(vec![Filter::DataSize(5)])));
    sliced.data_slice = Some(Slice { offset: 0, length: 4 });
    let (_, step) = state.get_program_accounts(4, PROGRAM, sliced);
    assert_eq!(
        answer(step).unwrap(),
        format!("{{\"jsonrpc\":\"2.0\",\"result\":[{}],\"id\":4}}", row("aGVsbA==", "2"))
    );
}

#[test]
fn waiting_requests_are_answered_when_the_program_is_known() {
    let mut state = State::new(10);
    let call = fetch(&state);
    let waiting = fetch(&state);
    let (commands, found) = state.program_accounts_notified(&waiting);
    assert!(commands.is_empty() && found.is_none());
    state.program_accounts_fetched(&call, vec![7], Ok(vec![(account(b"hello"), key(1))]));
    let (commands, found) = state.program_accounts_notified(&waiting);
    assert_eq!(commands, [AccountCommand::Reset(Subscription::Account(key(1)))]);
    assert_eq!(
        String::from_utf8(found.unwrap().unwrap()).unwrap(),
        format!("{{\"jsonrpc\":\"2.0\",\"result\":[{}],\"id\":1}}", row("aGVsbG8=", "2"))
    );
}

#[test]
fn answers_that_cannot_be_read_fail_the_program() {
    let mut state = State::new(10);
    let call = fetch(&state);
    let e = serde_json::from_str::<u64>("\"x\"").unwrap_err();
    let fetched = state.program_accounts_fetched(&call, vec![7], Err(e));
    assert!(!fetched.notify);
    assert_eq!(fetched.outcome.unwrap_err(), Error::InvalidRequest(None));
    assert!(matches!(
        state.get_program_accounts(1, PROGRAM, config(None)).1,
        ProgramAccountsStep::Fetch(_)
    ));
}

#[test]
fn reported_accounts_are_served_one_by_one() {
    let mut state = known(vec![(account(b"hello"), key(1))]);
    let config = AccountInfoConfig {
        encoding: Encoding::Base64,
        commitment: None,
        data_slice: None,
    };
    let query = AccountQuery { req_id: 5, request_hash: 6, config };
    let (_, step) = state.get_account_info(query, key(1));
    match step {
        AccountInfoStep::Answer(Ok(reply)) => assert_eq!(
            String::from_utf8(reply.body).unwrap(),
            "{\"jsonrpc\":\"2.0\",\"result\":{\"context\":{\"slot\":0},\"value\":\
             {\"data\":[\"aGVsbG8=\",\"base64\"],\"lamports\":1,\
             \"owner\":\"11111111111111111111111111111111\",\"executable\":false,\
             \"rentEpoch\":2}},\"id\":5}"
        ),
        _ => panic!("not answered"),
    }
}

#[test]
fn other_programs_are_left_alone() {
    let mut state = known(vec![(account(b"hello"), key(1))]);
    let other = Pubkey([8; 32]);
    let call = match state.get_program_accounts(1, other, config(None)).1 {
        ProgramAccountsStep::Fetch(call) => call,
        ProgramAccountsStep::Answer(_) => panic!("answered"),
    };
    state.program_accounts_fetched(&call, vec![], Ok(vec![(account(b"bye"), key(2))]));
    let (_, step) = state.get_program_accounts(4, PROGRAM, config(None));
    assert_eq!(
        answer(step).unwrap(),
        format!("{{\"jsonrpc\":\"2.0\",\"result\":[{}],\"id\":4}}", row("aGVsbG8=", "2"))
    );
    let (_, step) = state.get_program_accounts(4, other, config(None));
    assert_eq!(
        answer(step).unwrap(),
        format!("{{\"jsonrpc\":\"2.0\",\"result\":[{}],\"id\":4}}", row("Ynll", "3"))
    );
}

#[test]
fn fetching_again_replaces_the_accounts() {
    let mut state = known(vec![(account(b"hello"), key(1)), (account(b"bye"), key(2))]);
    let call = ProgramAccountsCall {
        req_id: 1,
        config: config(None),
        cacheable_for_key: Some(PROGRAM),
    };
    state.program_accounts_fetched(&call, vec![], Ok(vec![(account(b"hello"), key(2))]));
    let (_, step) = state.get_program_accounts(4, PROGRAM, config(None));
    assert_eq!(
        answer(step).unwrap(),
        format!("{{\"jsonrpc\":\"2.0\",\"result\":[{}],\"id\":4}}", row("aGVsbG8=", "3"))
    );
}
