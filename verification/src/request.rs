//! What a client asks for.

use crate::error::{error_of_text, Error};
use crate::filter::Filter;
use crate::json::{json_elements, split_array};
use crate::response_cache::{hash, hash_of};
use crate::types::{commitment_or_default, effective_commitment, Commitment, Encoding, Slice};
use vstd::prelude::*;

verus! {

/// A JSON-RPC request. The parameters are kept as the text they were written as.
#[derive(Debug)]
pub struct Request {
    pub jsonrpc: String,
    pub id: u64,
    pub method: String,
    pub params: Option<String>,
}

/// How an account is to be shown.
#[derive(Clone, Copy, Debug, PartialEq, Eq, Structural)]
pub struct AccountInfoConfig {
    pub encoding: Encoding,
    pub commitment: Option<Commitment>,
    pub data_slice: Option<Slice>,
}

impl Default for AccountInfoConfig {
    fn default() -> (r: AccountInfoConfig)
        ensures
            r == (AccountInfoConfig {
                encoding: Encoding::Base58,
                commitment: None,
                data_slice: None,
            }),
    {
        AccountInfoConfig { encoding: Encoding::Base58, commitment: None, data_slice: None }
    }
}

impl AccountInfoConfig {
    pub open spec fn spec_commitment(self) -> Commitment {
        commitment_or_default(self.commitment)
    }

    /// The commitment that is meant.
    pub fn effective_commitment(&self) -> (r: Commitment)
        ensures
            r == self.spec_commitment(),
    {
        effective_commitment(self.commitment)
    }
}

/// Which accounts of a program are to be shown, and how. The filters are what `serde_json`
/// reports where it could not read them.
#[derive(Debug)]
pub struct ProgramAccountsConfig {
    pub encoding: Encoding,
    pub commitment: Option<Commitment>,
    pub data_slice: Option<Slice>,
    pub filters: Option<Result<Vec<Filter>, serde_json::Error>>,
}

impl Default for ProgramAccountsConfig {
    fn default() -> (r: ProgramAccountsConfig)
        ensures
            r == (ProgramAccountsConfig {
                encoding: Encoding::Default,
                commitment: None,
                data_slice: None,
                filters: None,
            }),
    {
        ProgramAccountsConfig {
            encoding: Encoding::Default,
            commitment: None,
            data_slice: None,
            filters: None,
        }
    }
}

impl ProgramAccountsConfig {
    pub open spec fn spec_commitment(self) -> Commitment {
        commitment_or_default(self.commitment)
    }

    /// The commitment that is meant.
    pub fn effective_commitment(&self) -> (r: Commitment)
        ensures
            r == self.spec_commitment(),
    {
        effective_commitment(self.commitment)
    }
}

/// The parameters of a request that are looked at, each as the text it was written as: the
/// address, and how the answer is to look. More parameters are ignored.
#[derive(Debug)]
pub struct Params {
    pub key: String,
    pub config: Option<String>,
}

impl Params {
    /// Whether these are the parameters of a request that has some.
    pub open spec fn are_from(self, items: Seq<Seq<char>>) -> bool {
        &&& items.len() > 0
        &&& self.key@ == items[0]
        &&& match self.config {
            Some(config) => items.len() > 1 && config@ == items[1],
            None => items.len() == 1,
        }
    }

    /// The parameters out of all that a request has; `None` where it has none.
    pub fn select(items: &Vec<String>) -> (r: Option<Params>)
        ensures
            match r {
                Some(params) => params.are_from(items@.map_values(|s: String| s@)),
                None => items@.len() == 0,
            },
    {
        if items.len() == 0 {
            return None;
        }
        let config = if items.len() > 1 {
            Some(items[1].clone())
        } else {
            None
        };
        Some(Params { key: items[0].clone(), config })
    }
}

/// The parameters of a request for an account, and the hash of all its parameters. Without
/// parameters, or with some that cannot be read, the request fails.
pub fn account_info_params(id: u64, params: Option<&str>) -> (r: Result<(Params, u64), Error>)
    ensures
        match params {
            None => r == Err::<(Params, u64), Error>(Error::NotEnoughArguments(id)),
            Some(text) => match json_elements(text@) {
                Err(is_data) => r == Err::<(Params, u64), Error>(error_of_text(is_data)),
                Ok(items) => if items.len() == 0 {
                    r == Err::<(Params, u64), Error>(Error::NotEnoughArguments(id))
                } else {
                    &&& r matches Ok((params, request_hash))
                    &&& params.are_from(items)
                    &&& request_hash == hash_of(text)
                },
            },
        },
{
    let text = match params {
        Some(text) => text,
        None => {
            return Err(Error::NotEnoughArguments(id));
        },
    };
    match split_array(text) {
        Ok(items) => match Params::select(&items) {
            Some(params) => Ok((params, hash(text))),
            None => Err(Error::NotEnoughArguments(id)),
        },
        Err(e) => Err(Error::from(e)),
    }
}

/// The parameters of a request for the accounts of a program. Without parameters, or with some
/// that cannot be read, the request fails.
pub fn program_accounts_params(id: u64, params: Option<&str>) -> (r: Result<Params, Error>)
    ensures
        match params {
            None => r == Err::<Params, Error>(Error::NotEnoughArguments(id)),
            Some(text) => match json_elements(text@) {
                Err(is_data) => r == Err::<Params, Error>(error_of_text(is_data)),
                Ok(items) => if items.len() == 0 {
                    r == Err::<Params, Error>(Error::NotEnoughArguments(id))
                } else {
                    &&& r matches Ok(params)
                    &&& params.are_from(items)
                },
            },
        },
{
    let text = match params {
        Some(text) => text,
        None => {
            return Err(Error::NotEnoughArguments(id));
        },
    };
    match split_array(text) {
        Ok(items) => match Params::select(&items) {
            Some(params) => Ok(params),
            None => Err(Error::NotEnoughArguments(id)),
        },
        Err(e) => Err(Error::from(e)),
    }
}

/// What becomes of a request.
#[derive(Clone, Copy, Debug, PartialEq, Eq, Structural)]
pub enum Route {
    /// It is answered from the accounts that are known.
    AccountInfo,
    /// It is answered from the programs that are known.
    ProgramAccounts,
    /// It is handed on to the backend.
    Other,
}

/// What becomes of a request with a method.
pub open spec fn route_of(method: Seq<char>) -> Route {
    if method == "getAccountInfo"@ {
        Route::AccountInfo
    } else if method == "getProgramAccounts"@ {
        Route::ProgramAccounts
    } else {
        Route::Other
    }
}

impl Route {
    pub open spec fn spec_label(self) -> Seq<char> {
        match self {
            Route::AccountInfo => "getAccountInfo"@,
            Route::ProgramAccounts => "getProgramAccounts"@,
            Route::Other => "other"@,
        }
    }

    /// What such requests are counted as.
    pub fn label(&self) -> (r: &'static str)
        ensures
            r@ == self.spec_label(),
    {
        match self {
            Route::AccountInfo => "getAccountInfo",
            Route::ProgramAccounts => "getProgramAccounts",
            Route::Other => "other",
        }
    }
}

/// Decides what becomes of a request.
pub fn rpc_handler(req: &Request) -> (r: Route)
    ensures
        r == route_of(req.method@),
{
    if req.method == "getAccountInfo".to_owned() {
        Route::AccountInfo
    } else if req.method == "getProgramAccounts".to_owned() {
        Route::ProgramAccounts
    } else {
        Route::Other
    }
}

} // verus!
