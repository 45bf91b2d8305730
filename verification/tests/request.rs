use rpc_cache::error::Error;
use rpc_cache::request::{
    account_info_params, program_accounts_params, rpc_handler, AccountInfoConfig, Params,
    ProgramAccountsConfig, Request, Route,
};
use rpc_cache::response_cache::hash;
use rpc_cache::types::{effective_commitment, Commitment, Encoding};

#[test]
fn account_parameters_are_split() {
    let text = "[ \"abc\" , {\"encoding\": \"base64\"}, 3 ]";
    let (params, request_hash) = account_info_params(1, Some(text)).unwrap();
    assert_eq!(params.key, "\"abc\"");
    assert_eq!(params.config.as_deref(), Some("{\"encoding\": \"base64\"}"));
    assert_eq!(request_hash, hash(text));

    let (params, _) = account_info_params(1, Some("[null]")).unwrap();
    assert_eq!((params.key.as_str(), params.config), ("null", None));
}

#[test]
fn account_parameters_must_be_there() {
    assert_eq!(account_info_params(7, None).unwrap_err(), Error::NotEnoughArguments(7));
    assert_eq!(account_info_params(8, Some("[]")).unwrap_err(), Error::NotEnoughArguments(8));
    assert_eq!(account_info_params(9, Some(" [ ] ")).unwrap_err(), Error::NotEnoughArguments(9));
}

#[test]
fn parameters_must_be_a_list() {
    assert_eq!(account_info_params(7, Some("{}")).unwrap_err(), Error::InvalidRequest(None));
    assert_eq!(account_info_params(7, Some("[1")).unwrap_err(), Error::Parsing(None));
    assert_eq!(program_accounts_params(7, Some("5")).unwrap_err(), Error::InvalidRequest(None));
    assert_eq!(program_accounts_params(7, Some("[,]")).unwrap_err(), Error::Parsing(None));
}

#[test]
fn program_parameters_are_split() {
    let params = program_accounts_params(1, Some("[\"abc\",{}]")).unwrap();
    assert_eq!(params.key, "\"abc\"");
    assert_eq!(params.config.as_deref(), Some("{}"));
}

#[test]
fn program_parameters_must_be_there() {
    assert_eq!(program_accounts_params(7, None).unwrap_err(), Error::NotEnoughArguments(7));
    assert_eq!(program_accounts_params(8, Some("[]")).unwrap_err(), Error::NotEnoughArguments(8));
}

#[test]
fn the_first_two_parameters_are_selected() {
    assert!(Params::select(&vec![]).is_none());
    let items = vec!["a".to_string(), "b".to_string(), "c".to_string()];
    let params = Params::select(&items).unwrap();
    assert_eq!((params.key.as_str(), params.config.as_deref()), ("a", Some("b")));
}

#[test]
fn requests_are_routed_by_method() {
    let route = |method: &str| {
        rpc_handler(&Request {
            jsonrpc: "2.0".to_string(),
            id: 1,
            method: method.to_string(),
            params: None,
        })
    };
    assert_eq!(route("getAccountInfo"), Route::AccountInfo);
    assert_eq!(route("getProgramAccounts"), Route::ProgramAccounts);
    assert_eq!(route("getaccountinfo"), Route::Other);
    assert_eq!(route(""), Route::Other);
    assert_eq!(Route::AccountInfo.label(), "getAccountInfo");
    assert_eq!(Route::ProgramAccounts.label(), "getProgramAccounts");
    assert_eq!(Route::Other.label(), "other");
}

#[test]
fn defaults_differ_between_the_methods() {
    let config = AccountInfoConfig::default();
    assert_eq!(config.encoding, Encoding::Base58);
    assert!(config.commitment.is_none() && config.data_slice.is_none());
    let config = ProgramAccountsConfig::default();
    assert_eq!(config.encoding, Encoding::Default);
    assert!(config.commitment.is_none() && config.data_slice.is_none());
    assert!(config.filters.is_none());
    assert_eq!(Encoding::default(), Encoding::Default);
    assert_eq!(effective_commitment(None), Commitment::Finalized);
    assert_eq!(effective_commitment(Some(Commitment::Processed)), Commitment::Processed);
}
