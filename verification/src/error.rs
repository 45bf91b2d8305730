//! What is answered to a request that fails.

use crate::encode::SerializeError;
use crate::json::{
    custom_error, error_is_data, field_trees, json_text, null_value, object_value, signed_value,
    text_value, to_vec, unsigned_value, value_tree, Tree,
};
use vstd::prelude::*;

verus! {

/// An answer to a client.
#[derive(Debug)]
pub enum Reply {
    /// Status 200, with a body of type `application/json`.
    Json(Vec<u8>),
    /// Status 504, with no body.
    GatewayTimeout,
}

impl Reply {
    /// Whether this is a JSON answer with this body.
    pub open spec fn is_json(self, body: Seq<u8>) -> bool {
        self matches Reply::Json(b) && b@ == body
    }
}

/// Why a request fails.
#[derive(Clone, Copy, Debug, PartialEq, Eq, Structural)]
pub enum Error {
    /// The request is JSON, but not a request.
    InvalidRequest(Option<u64>),
    /// The request is not JSON.
    Parsing(Option<u64>),
    /// The request has no parameters.
    NotEnoughArguments(u64),
    /// The backend could not be asked.
    Client,
}

/// Whether the trouble with a text lies in its data or in its syntax decides the error. The
/// number of the request is not known where a text could not be read.
pub open spec fn error_of_text(is_data: bool) -> Error {
    if is_data {
        Error::InvalidRequest(None)
    } else {
        Error::Parsing(None)
    }
}

impl Error {
    /// The failure of a request with a text that could not be read.
    pub fn of_text(err: &serde_json::Error) -> (r: Error)
        ensures
            r == error_of_text(error_is_data(*err)),
    {
        if err.is_data() {
            Error::InvalidRequest(None)
        } else {
            Error::Parsing(None)
        }
    }
}

impl From<serde_json::Error> for Error {
    fn from(err: serde_json::Error) -> (r: Error) {
        Error::of_text(&err)
    }
}

impl vstd::std_specs::convert::FromSpecImpl<serde_json::Error> for Error {
    open spec fn obeys_from_spec() -> bool {
        true
    }

    open spec fn from_spec(err: serde_json::Error) -> Error {
        error_of_text(error_is_data(err))
    }
}

impl From<SerializeError> for Error {
    fn from(err: SerializeError) -> (r: Error) {
        Error::from(custom_error(err.message()))
    }
}

impl vstd::std_specs::convert::FromSpecImpl<SerializeError> for Error {
    open spec fn obeys_from_spec() -> bool {
        true
    }

    open spec fn from_spec(err: SerializeError) -> Error {
        Error::InvalidRequest(None)
    }
}

/// The error in a JSON-RPC answer.
#[derive(Clone, Copy, Debug)]
pub struct RpcError<'a> {
    pub code: i64,
    pub message: &'a str,
}

/// A JSON-RPC answer that reports an error.
#[derive(Clone, Copy, Debug)]
pub struct ErrorResponse<'a> {
    pub jsonrpc: &'a str,
    pub error: RpcError<'a>,
    pub id: Option<u64>,
}

/// How the number of a request is written.
pub open spec fn id_tree(id: Option<u64>) -> Tree {
    match id {
        Some(id) => Tree::Number(id as int),
        None => Tree::Null,
    }
}

/// How an answer that reports an error is written, given the version of the protocol, the
/// number of the error, its words and the number of the request.
pub open spec fn error_response_tree(
    jsonrpc: Seq<char>,
    code: int,
    message: Seq<char>,
    id: Option<u64>,
) -> Tree {
    Tree::Object(
        seq![
            ("jsonrpc"@, Tree::Text(jsonrpc)),
            (
                "error"@,
                Tree::Object(
                    seq![("code"@, Tree::Number(code)), ("message"@, Tree::Text(message))],
                ),
            ),
            ("id"@, id_tree(id)),
        ],
    )
}

/// How an error is reported in the version of the protocol that is spoken here.
pub open spec fn error_tree(code: int, message: Seq<char>, id: Option<u64>) -> Tree {
    error_response_tree("2.0"@, code, message, id)
}

impl<'a> ErrorResponse<'a> {
    /// Whether this is the answer that reports this error.
    pub open spec fn reports(self, code: int, message: Seq<char>, id: Option<u64>) -> bool {
        &&& self.jsonrpc@ == "2.0"@
        &&& self.error.code == code
        &&& self.error.message@ == message
        &&& self.id == id
    }

    /// Writes the answer.
    pub fn serialize(&self) -> (r: serde_json::Value)
        ensures
            value_tree(r) == error_response_tree(
                self.jsonrpc@,
                self.error.code as int,
                self.error.message@,
                self.id,
            ),
    {
        let error_fields = vec![
            ("code", signed_value(self.error.code)),
            ("message", text_value(self.error.message)),
        ];
        proof {
            reveal_strlit("code");
            reveal_strlit("message");
            assert("code"@.len() == 4 && "message"@.len() == 7);
            assert(field_trees(error_fields@) =~= seq![
                ("code"@, Tree::Number(self.error.code as int)),
                ("message"@, Tree::Text(self.error.message@)),
            ]);
        }
        let id = match self.id {
            Some(id) => unsigned_value(id),
            None => null_value(),
        };
        let fields = vec![
            ("jsonrpc", text_value(self.jsonrpc)),
            ("error", object_value(error_fields)),
            ("id", id),
        ];
        proof {
            reveal_strlit("jsonrpc");
            reveal_strlit("error");
            reveal_strlit("id");
            assert("jsonrpc"@.len() == 7 && "error"@.len() == 5 && "id"@.len() == 2);
            assert(field_trees(fields@) =~= error_response_tree(
                self.jsonrpc@,
                self.error.code as int,
                self.error.message@,
                self.id,
            )->Object_0);
        }
        object_value(fields)
    }
}

impl ErrorResponse<'static> {
    /// The answer to a request without parameters.
    pub fn not_enough_arguments(id: u64) -> (r: ErrorResponse<'static>)
        ensures
            r.reports(-32602, "`params` should have at least 1 argument(s)"@, Some(id)),
    {
        ErrorResponse {
            jsonrpc: "2.0",
            id: Some(id),
            error: RpcError {
                code: -32602,
                message: "`params` should have at least 1 argument(s)",
            },
        }
    }

    /// The answer to JSON that is not a request.
    pub fn invalid_request(id: Option<u64>) -> (r: ErrorResponse<'static>)
        ensures
            r.reports(-32600, "Invalid request"@, id),
    {
        ErrorResponse {
            jsonrpc: "2.0",
            id,
            error: RpcError { code: -32600, message: "Invalid request" },
        }
    }

    /// The answer to what is not JSON.
    pub fn parse_error(id: Option<u64>) -> (r: ErrorResponse<'static>)
        ensures
            r.reports(-32700, "Parse error"@, id),
    {
        ErrorResponse {
            jsonrpc: "2.0",
            id,
            error: RpcError { code: -32700, message: "Parse error" },
        }
    }
}

impl Error {
    pub open spec fn spec_message(self) -> Seq<char> {
        match self {
            Error::InvalidRequest(_) => "invalid request"@,
            Error::Parsing(_) => "parsing request"@,
            Error::NotEnoughArguments(_) => "not enough arguments"@,
            Error::Client => "client error"@,
        }
    }

    /// The failure in words.
    pub fn message(&self) -> (r: &'static str)
        ensures
            r@ == self.spec_message(),
    {
        match self {
            Error::InvalidRequest(_) => "invalid request",
            Error::Parsing(_) => "parsing request",
            Error::NotEnoughArguments(_) => "not enough arguments",
            Error::Client => "client error",
        }
    }

    /// How a failure is written in the answer; `None` where the answer has no body.
    pub open spec fn tree(self) -> Option<Tree> {
        match self {
            Error::InvalidRequest(id) => Some(error_tree(-32600, "Invalid request"@, id)),
            Error::Parsing(id) => Some(error_tree(-32700, "Parse error"@, id)),
            Error::NotEnoughArguments(id) => Some(
                error_tree(-32602, "`params` should have at least 1 argument(s)"@, Some(id)),
            ),
            Error::Client => None,
        }
    }

    /// What is answered to a request that fails: a JSON-RPC error, or a gateway timeout where
    /// the backend could not be asked.
    pub fn error_response(&self) -> (r: Reply)
        ensures
            match self.tree() {
                Some(tree) => r.is_json(json_text(tree)),
                None => r is GatewayTimeout,
            },
    {
        let response = match self {
            Error::InvalidRequest(req_id) => ErrorResponse::invalid_request(*req_id),
            Error::Parsing(req_id) => ErrorResponse::parse_error(*req_id),
            Error::NotEnoughArguments(req_id) => ErrorResponse::not_enough_arguments(*req_id),
            Error::Client => {
                return Reply::GatewayTimeout;
            },
        };
        Reply::Json(to_vec(&response.serialize()))
    }
}

} // verus!
