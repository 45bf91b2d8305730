use rpc_cache::encode::SerializeError;
use rpc_cache::error::{Error, ErrorResponse, Reply};

fn body(error: Error) -> String {
    match error.error_response() {
        Reply::Json(body) => String::from_utf8(body).unwrap(),
        Reply::GatewayTimeout => panic!("no body"),
    }
}

#[test]
fn errors_are_answered_in_json() {
    assert_eq!(
        body(Error::NotEnoughArguments(5)),
        "{\"jsonrpc\":\"2.0\",\"error\":{\"code\":-32602,\
         \"message\":\"`params` should have at least 1 argument(s)\"},\"id\":5}"
    );
    assert_eq!(
        body(Error::InvalidRequest(None)),
        "{\"jsonrpc\":\"2.0\",\"error\":{\"code\":-32600,\"message\":\"Invalid request\"},\"id\":null}"
    );
    assert_eq!(
        body(Error::InvalidRequest(Some(1))),
        "{\"jsonrpc\":\"2.0\",\"error\":{\"code\":-32600,\"message\":\"Invalid request\"},\"id\":1}"
    );
    assert_eq!(
        body(Error::Parsing(None)),
        "{\"jsonrpc\":\"2.0\",\"error\":{\"code\":-32700,\"message\":\"Parse error\"},\"id\":null}"
    );
}

#[test]
fn a_lost_backend_is_a_gateway_timeout() {
    assert!(matches!(Error::Client.error_response(), Reply::GatewayTimeout));
}

#[test]
fn texts_that_cannot_be_read_are_told_apart() {
    let data = serde_json::from_str::<u64>("\"five\"").unwrap_err();
    assert_eq!(Error::from(data), Error::InvalidRequest(None));
    let syntax = serde_json::from_str::<u64>("}").unwrap_err();
    assert_eq!(Error::from(syntax), Error::Parsing(None));
    let eof = serde_json::from_str::<u64>("").unwrap_err();
    assert_eq!(Error::from(eof), Error::Parsing(None));
}

#[test]
fn a_failure_to_read_can_be_looked_at() {
    let data = serde_json::from_str::<u64>("\"five\"").unwrap_err();
    assert_eq!(Error::of_text(&data), Error::InvalidRequest(None));
    let syntax = serde_json::from_str::<u64>("}").unwrap_err();
    assert_eq!(Error::of_text(&syntax), Error::Parsing(None));
}

#[test]
fn failures_have_words() {
    assert_eq!(Error::InvalidRequest(Some(3)).message(), "invalid request");
    assert_eq!(Error::Parsing(None).message(), "parsing request");
    assert_eq!(Error::NotEnoughArguments(3).message(), "not enough arguments");
    assert_eq!(Error::Client.message(), "client error");
}

#[test]
fn accounts_that_cannot_be_written_are_invalid_requests() {
    assert_eq!(Error::from(SerializeError::BadSlice), Error::InvalidRequest(None));
    assert_eq!(Error::from(SerializeError::CannotCompress), Error::InvalidRequest(None));
}

#[test]
fn error_responses_hold_their_parts() {
    let r = ErrorResponse::not_enough_arguments(9);
    assert_eq!((r.jsonrpc, r.error.code, r.id), ("2.0", -32602, Some(9)));
    let r = ErrorResponse::invalid_request(Some(2));
    assert_eq!((r.error.message, r.error.code, r.id), ("Invalid request", -32600, Some(2)));
    let r = ErrorResponse::parse_error(None);
    assert_eq!((r.error.message, r.error.code, r.id), ("Parse error", -32700, None));
}
